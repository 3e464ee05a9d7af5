//! Hexadecimal dumps of a reader's remaining bytes.

use vstd::prelude::*;

use crate::reader::Reader;
use crate::tags::{push_char, shown};

verus! {

/// Lower-case hexadecimal digit of a nibble.
pub open spec fn lower_hex_digit(n: int) -> char {
    if n < 10 {
        (n + 0x30) as char
    } else {
        (n - 10 + 0x61) as char
    }
}

/// The lower-case hexadecimal digits of `v`, zero-padded to at least `digits`.
pub open spec fn hex_min(v: nat, digits: nat) -> Seq<char>
    decreases v + digits,
{
    if v < 16 && digits <= 1 {
        seq![lower_hex_digit(v as int)]
    } else {
        hex_min(v / 16, if digits > 0 { (digits - 1) as nat } else { 0 }) + seq![lower_hex_digit((v % 16) as int)]
    }
}

/// Two hexadecimal digits of a byte.
pub open spec fn hex2(b: u8) -> Seq<char> {
    seq![lower_hex_digit((b / 16) as int), lower_hex_digit((b % 16) as int)]
}

/// The bytes in hexadecimal, separated by single spaces.
pub open spec fn hex_join(c: Seq<u8>) -> Seq<char>
    decreases c.len(),
{
    if c.len() == 0 {
        Seq::empty()
    } else if c.len() == 1 {
        hex2(c[0])
    } else {
        hex_join(c.drop_last()) + seq![' '] + hex2(c.last())
    }
}

/// `s` padded with spaces to at least `n` characters.
pub open spec fn pad_to(s: Seq<char>, n: int) -> Seq<char> {
    if s.len() < n {
        s + Seq::new((n - s.len()) as nat, |i: int| ' ')
    } else {
        s
    }
}

/// The bytes as characters, those that are not visible ASCII as `.`.
pub open spec fn shown_bytes(c: Seq<u8>) -> Seq<char> {
    Seq::new(c.len(), |i: int| shown(c[i] as int))
}

/// One dump line: the offset in at least eight hex digits, the bytes in hex
/// padded to 48 columns, and the bytes as text.
pub open spec fn dump_line(c: Seq<u8>, offset: nat) -> Seq<char> {
    hex_min(offset, 8) + seq![' '] + pad_to(hex_join(c), 48) + seq![' '] + shown_bytes(c)
}

/// Line `n` of a dump of `s` with `width` bytes per line covers these bytes.
pub open spec fn dump_chunk(s: Seq<u8>, width: int, n: int) -> Seq<u8> {
    let end = if (n + 1) * width < s.len() { (n + 1) * width } else { s.len() as int };
    s.subrange(n * width, end)
}

/// Number of lines of a dump of `len` bytes with `width` bytes per line.
pub open spec fn dump_lines(len: int, width: int) -> int {
    len / width + if len % width != 0 { 1int } else { 0int }
}

proof fn lemma_hex_join_len(c: Seq<u8>)
    ensures
        hex_join(c).len() == if c.len() == 0 { 0 } else { 3 * c.len() - 1 },
    decreases c.len(),
{
    if c.len() > 1 {
        lemma_hex_join_len(c.drop_last());
    }
}

fn lower_hex_char(n: u8) -> (c: char)
    requires
        n < 16,
    ensures
        c == lower_hex_digit(n as int),
{
    if n < 10 {
        (n + 0x30) as char
    } else {
        (n - 10 + 0x61) as char
    }
}

fn push_hex(s: &mut String, v: usize, digits: usize)
    ensures
        final(s)@ == old(s)@ + hex_min(v as nat, digits as nat),
    decreases v + digits,
{
    if v < 16 && digits <= 1 {
        push_char(s, lower_hex_char(v as u8));
    } else {
        push_hex(s, v / 16, if digits > 0 { digits - 1 } else { 0 });
        push_char(s, lower_hex_char((v % 16) as u8));
        assert(s@ =~= old(s)@ + hex_min(v as nat, digits as nat));
    }
}

fn dump_one(c: &[u8], offset: usize) -> (line: String)
    ensures
        line@ == dump_line(c@, offset as nat),
{
    let mut s = String::new();
    push_hex(&mut s, offset, 8);
    push_char(&mut s, ' ');
    let ghost head = s@;
    assert(head =~= hex_min(offset as nat, 8) + seq![' ']);
    let mut k: usize = 0;
    while k < c.len()
        invariant
            k <= c@.len(),
            s@ == head + hex_join(c@.take(k as int)),
        decreases c@.len() - k,
    {
        let ghost before = s@;
        if k > 0 {
            push_char(&mut s, ' ');
        }
        push_char(&mut s, lower_hex_char(c[k] / 16));
        push_char(&mut s, lower_hex_char(c[k] % 16));
        proof {
            let t = c@.take(k + 1);
            assert(t.drop_last() =~= c@.take(k as int));
            if k == 0 {
                assert(c@.take(0) =~= Seq::<u8>::empty());
            }
            assert(s@ =~= head + hex_join(t));
        }
        k = k + 1;
    }
    assert(c@.take(c@.len() as int) =~= c@);
    let ghost joined = s@;
    let m = c.len();
    proof {
        lemma_hex_join_len(c@);
    }
    let pad: usize = if m == 0 {
        48
    } else if m >= 17 {
        0
    } else {
        48 - (3 * m - 1)
    };
    let mut i: usize = 0;
    while i < pad
        invariant
            i <= pad,
            s@ == joined + Seq::new(i as nat, |q: int| ' '),
        decreases pad - i,
    {
        push_char(&mut s, ' ');
        i = i + 1;
        assert(s@ =~= joined + Seq::new(i as nat, |q: int| ' '));
    }
    proof {
        let hj = hex_join(c@);
        if hj.len() < 48 {
            assert(joined + Seq::new(pad as nat, |q: int| ' ') =~= head + pad_to(hj, 48));
        } else {
            assert(joined + Seq::new(pad as nat, |q: int| ' ') =~= head + pad_to(hj, 48));
        }
    }
    push_char(&mut s, ' ');
    let ghost mid = s@;
    let mut k: usize = 0;
    while k < c.len()
        invariant
            k <= c@.len(),
            s@ == mid + shown_bytes(c@.take(k as int)),
        decreases c@.len() - k,
    {
        let b = c[k];
        push_char(&mut s, if 0x21 <= b && b <= 0x7E { b as char } else { '.' });
        k = k + 1;
        assert(s@ =~= mid + shown_bytes(c@.take(k as int)));
    }
    s
}

impl<'a> Reader<'a> {
    /// Dumps the bytes from the position to the end, 16 to a line.
    pub fn hex_dump(&self) -> (lines: Vec<String>)
        ensures
            lines@.len() == dump_lines(self.rest().len() as int, 16),
            forall|n: int| 0 <= n < lines@.len() ==> #[trigger] lines@[n]@ == dump_line(
                dump_chunk(self.rest(), 16, n),
                (16 * n) as nat,
            ),
    {
        self.hex_dump_opt(16)
    }

    /// Dumps the bytes from the position to the end, `width` to a line.
    pub fn hex_dump_opt(&self, width: usize) -> (lines: Vec<String>)
        requires
            width > 0,
        ensures
            lines@.len() == dump_lines(self.rest().len() as int, width as int),
            forall|n: int| 0 <= n < lines@.len() ==> #[trigger] lines@[n]@ == dump_line(
                dump_chunk(self.rest(), width as int, n),
                (width * n) as nat,
            ),
    {
        let mut c = self.remaining();
        let mut buf: Vec<u8> = Vec::new();
        c.read_to_end(&mut buf);
        let ghost s = self.rest();
        assert(buf@ =~= s);
        let len = buf.len();
        assert(len % width != 0 ==> len / width < usize::MAX) by (nonlinear_arith)
            requires width > 0, len <= usize::MAX;
        let total = len / width + if len % width != 0 {
            1
        } else {
            0
        };
        let mut lines: Vec<String> = Vec::new();
        let mut n: usize = 0;
        while n < total
            invariant
                width > 0,
                buf@ == s,
                len == s.len(),
                total == dump_lines(len as int, width as int),
                n <= total,
                lines@.len() == n,
                forall|q: int| 0 <= q < n ==> #[trigger] lines@[q]@ == dump_line(dump_chunk(s, width as int, q), (width * q) as nat),
            decreases total - n,
        {
            proof {
                lemma_line_start(len as int, width as int, n as int);
            }
            let start = n * width;
            let end = if len - start > width {
                start + width
            } else {
                len
            };
            let chunk = vstd::slice::slice_subrange(buf.as_slice(), start, end);
            assert(chunk@ =~= dump_chunk(s, width as int, n as int)) by {
                assert((n + 1) * width == start + width) by (nonlinear_arith)
                    requires start == n * width;
            }
            lines.push(dump_one(chunk, start));
            n = n + 1;
        }
        lines
    }
}

proof fn lemma_line_start(len: int, width: int, n: int)
    requires
        width > 0,
        0 <= n < dump_lines(len, width),
        0 <= len,
    ensures
        n * width < len,
{
    let q = len / width;
    let r = len % width;
    assert(len == q * width + r && 0 <= r < width) by (nonlinear_arith)
        requires width > 0, q == len / width, r == len % width;
    if n < q {
        assert(n * width < q * width) by (nonlinear_arith)
            requires n < q, width > 0;
    } else {
        assert(n == q && r != 0);
    }
}

} // verus!
