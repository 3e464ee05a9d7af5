use encoding::Encoding;
use vstd::prelude::*;

use crate::error::Error;

verus! {

/// Order in which multi-byte integers are stored.
#[derive(Clone, Copy, Debug, PartialEq, Eq, Structural)]
pub enum ByteOrder {
    LittleEndian,
    BigEndian,
}

/// Unsigned 16-bit value stored big-endian at `i`.
pub open spec fn be_u16(s: Seq<u8>, i: int) -> int {
    s[i] * 0x100 + s[i + 1]
}

/// Unsigned 16-bit value stored little-endian at `i`.
pub open spec fn le_u16(s: Seq<u8>, i: int) -> int {
    s[i + 1] * 0x100 + s[i]
}

/// Unsigned 32-bit value stored big-endian at `i`.
pub open spec fn be_u32(s: Seq<u8>, i: int) -> int {
    s[i] * 0x1000000 + s[i + 1] * 0x10000 + s[i + 2] * 0x100 + s[i + 3]
}

/// Unsigned 32-bit value stored little-endian at `i`.
pub open spec fn le_u32(s: Seq<u8>, i: int) -> int {
    s[i + 3] * 0x1000000 + s[i + 2] * 0x10000 + s[i + 1] * 0x100 + s[i]
}

pub open spec fn u16_in(s: Seq<u8>, i: int, o: ByteOrder) -> int {
    match o {
        ByteOrder::LittleEndian => le_u16(s, i),
        ByteOrder::BigEndian => be_u16(s, i),
    }
}

pub open spec fn u32_in(s: Seq<u8>, i: int, o: ByteOrder) -> int {
    match o {
        ByteOrder::LittleEndian => le_u32(s, i),
        ByteOrder::BigEndian => be_u32(s, i),
    }
}

/// Two's-complement reading of an 8-bit pattern.
pub open spec fn signed8(v: int) -> int {
    if v >= 0x80 { v - 0x100 } else { v }
}

/// Two's-complement reading of a 16-bit pattern.
pub open spec fn signed16(v: int) -> int {
    if v >= 0x8000 { v - 0x10000 } else { v }
}

/// Two's-complement reading of a 32-bit pattern.
pub open spec fn signed32(v: int) -> int {
    if v >= 0x8000_0000 { v - 0x1_0000_0000 } else { v }
}

/// Latin-1 reading of a byte sequence: each byte is the code point.
pub open spec fn latin1(s: Seq<u8>) -> Seq<char> {
    Seq::new(s.len(), |i: int| s[i] as char)
}

/// Index of the first NUL byte of `s`, or its length when there is none.
pub open spec fn first_nul(s: Seq<u8>) -> int
    decreases s.len(),
{
    if s.len() == 0 {
        0
    } else if s[0] == 0 {
        0
    } else {
        1 + first_nul(s.drop_first())
    }
}

/// The text of a fixed-length string field: the bytes before the first NUL, as Latin-1.
pub open spec fn fixed_str(s: Seq<u8>) -> Seq<char> {
    latin1(s.take(first_nul(s)))
}

pub proof fn lemma_first_nul(s: Seq<u8>, k: int)
    requires
        0 <= k <= s.len(),
        forall|j: int| 0 <= j < k ==> s[j] != 0,
        k == s.len() || s[k] == 0,
    ensures
        first_nul(s) == k,
    decreases k,
{
    if k > 0 {
        assert forall|j: int| 0 <= j < k - 1 implies s.drop_first()[j] != 0 by {
            assert(s.drop_first()[j] == s[j + 1]);
        }
        if k < s.len() {
            assert(s.drop_first()[k - 1] == s[k]);
        }
        lemma_first_nul(s.drop_first(), k - 1);
    }
}

/// Relies on encoding's ISO-8859-1 decoder, which maps every byte to the
/// character of the same code point and so never reports an error.
#[verifier::external_body]
fn decode_latin1(bytes: &[u8]) -> (s: String)
    ensures
        s@ == latin1(bytes@),
{
    encoding::all::ISO_8859_1.decode(bytes, encoding::DecoderTrap::Ignore).unwrap_or_default()
}

fn to_i16(v: u16) -> (r: i16)
    ensures
        r == signed16(v as int),
{
    if v >= 0x8000 {
        (v as i32 - 0x10000) as i16
    } else {
        v as i16
    }
}

fn to_i32(v: u32) -> (r: i32)
    ensures
        r == signed32(v as int),
{
    if v >= 0x8000_0000 {
        (v as i64 - 0x1_0000_0000) as i32
    } else {
        v as i32
    }
}

/// An endian-aware cursor over an immutable byte slice.
///
/// The position may stand past the end, as after a seek; reads there fail.
#[derive(Clone, Copy, Debug)]
pub struct Reader<'a> {
    buf: &'a [u8],
    pos: usize,
    byte_order: ByteOrder,
}

impl<'a> Reader<'a> {
    pub closed spec fn data(&self) -> Seq<u8> {
        self.buf@
    }

    pub closed spec fn pos(&self) -> int {
        self.pos as int
    }

    pub proof fn lemma_pos(&self)
        ensures
            0 <= self.pos() <= usize::MAX,
    {
    }

    pub closed spec fn order(&self) -> ByteOrder {
        self.byte_order
    }

    /// At least `n` bytes remain after the position.
    pub open spec fn has(&self, n: int) -> bool {
        self.pos() + n <= self.data().len()
    }

    /// The bytes from the position to the end.
    pub open spec fn rest(&self) -> Seq<u8> {
        if self.pos() <= self.data().len() {
            self.data().subrange(self.pos(), self.data().len() as int)
        } else {
            Seq::empty()
        }
    }

    /// `after` reads the same bytes in the same order, `n` bytes further on.
    pub open spec fn moved(&self, after: Self, n: int) -> bool {
        &&& after.data() == self.data()
        &&& after.order() == self.order()
        &&& after.pos() == self.pos() + n
    }

    pub fn new(buf: &'a [u8]) -> (r: Self)
        ensures
            r.data() == buf@,
            r.pos() == 0,
            r.order() == ByteOrder::LittleEndian,
    {
        Reader { buf, pos: 0, byte_order: ByteOrder::LittleEndian }
    }

    pub fn set_byte_order(&mut self, byte_order: ByteOrder)
        ensures
            final(self).data() == old(self).data(),
            final(self).pos() == old(self).pos(),
            final(self).order() == byte_order,
    {
        self.byte_order = byte_order;
    }

    pub fn byte_order(&self) -> (o: ByteOrder)
        ensures
            o == self.order(),
    {
        self.byte_order
    }

    /// A reader over `size` bytes from `position`, in the same byte order.
    pub fn subset(&self, position: usize, size: usize) -> (r: Self)
        requires
            position + size <= self.data().len(),
        ensures
            r.data() == self.data().subrange(position as int, position + size),
            r.pos() == 0,
            r.order() == self.order(),
    {
        let _len = self.buf.len();
        let sub = vstd::slice::slice_subrange(self.buf, position, position + size);
        Reader { buf: sub, pos: 0, byte_order: self.byte_order }
    }

    /// A reader over the bytes from the position to the end, positioned at their start.
    pub fn remaining(&self) -> (r: Self)
        ensures
            r.data() == self.rest(),
            r.pos() == 0,
            r.order() == self.order(),
    {
        let len = self.buf.len();
        let start = if self.pos <= len {
            self.pos
        } else {
            len
        };
        let sub = vstd::slice::slice_subrange(self.buf, start, len);
        proof {
            if self.pos > len {
                assert(sub@ =~= Seq::<u8>::empty());
            }
        }
        Reader { buf: sub, pos: 0, byte_order: self.byte_order }
    }

    pub fn stream_len(&self) -> (n: usize)
        ensures
            n == self.data().len(),
    {
        self.buf.len()
    }

    pub fn stream_position(&self) -> (p: usize)
        ensures
            p == self.pos(),
    {
        self.pos
    }

    /// Bytes left after the position, zero when it stands past the end.
    pub fn stream_remain(&self) -> (n: usize)
        ensures
            n == self.rest().len(),
            n == if self.pos() <= self.data().len() {
                self.data().len() - self.pos()
            } else {
                0
            },
            0 <= self.pos(),
    {
        if self.pos <= self.buf.len() {
            self.buf.len() - self.pos
        } else {
            0
        }
    }

    /// Moves to an absolute position.
    pub fn seek(&mut self, position: usize)
        ensures
            final(self).data() == old(self).data(),
            final(self).order() == old(self).order(),
            final(self).pos() == position,
    {
        self.pos = position;
    }

    /// Moves by `delta` bytes; fails where the result is negative or too large.
    pub fn seek_relative(&mut self, delta: i64) -> (r: Result<(), Error>)
        ensures
            0 <= old(self).pos() + delta <= usize::MAX ==> r is Ok && old(self).moved(
                *final(self),
                delta as int,
            ),
            !(0 <= old(self).pos() + delta <= usize::MAX) ==> r == Err::<(), Error>(
                Error::InvalidSeek,
            ) && old(self).moved(*final(self), 0),
    {
        if delta >= 0 {
            if (delta as u64) <= (usize::MAX - self.pos) as u64 {
                self.pos = self.pos + delta as usize;
                Ok(())
            } else {
                Err(Error::InvalidSeek)
            }
        } else {
            let back: u64 = (0i128 - (delta as i128)) as u64;
            if back <= self.pos as u64 {
                self.pos = self.pos - back as usize;
                Ok(())
            } else {
                Err(Error::InvalidSeek)
            }
        }
    }

    /// Moves to `delta` bytes after the end (`delta` is zero or negative in practice).
    pub fn seek_from_end(&mut self, delta: i64) -> (r: Result<(), Error>)
        ensures
            0 <= old(self).data().len() + delta <= usize::MAX ==> r is Ok && final(self).pos()
                == old(self).data().len() + delta && final(self).data() == old(self).data()
                && final(self).order() == old(self).order(),
            !(0 <= old(self).data().len() + delta <= usize::MAX) ==> r == Err::<(), Error>(
                Error::InvalidSeek,
            ) && old(self).moved(*final(self), 0),
    {
        let saved = self.pos;
        self.pos = self.buf.len();
        let r = self.seek_relative(delta);
        if r.is_err() {
            self.pos = saved;
        }
        r
    }

    /// Appends every byte from the position to the end to `buf`.
    pub fn read_to_end(&mut self, buf: &mut Vec<u8>) -> (n: usize)
        ensures
            n == old(self).rest().len(),
            final(buf)@ == old(buf)@ + old(self).rest(),
            final(self).data() == old(self).data(),
            final(self).order() == old(self).order(),
            final(self).pos() == if old(self).pos() <= old(self).data().len() {
                old(self).data().len() as int
            } else {
                old(self).pos()
            },
    {
        if self.pos >= self.buf.len() {
            assert(old(self).rest() =~= Seq::<u8>::empty());
            assert(buf@ =~= old(buf)@ + old(self).rest());
            return 0;
        }
        let start = self.pos;
        let len = self.buf.len();
        let mut i = start;
        while i < len
            invariant
                start <= i <= len,
                len == self.buf@.len(),
                self.pos == start,
                buf@ == old(buf)@ + self.buf@.subrange(start as int, i as int),
            decreases len - i,
        {
            buf.push(self.buf[i]);
            i = i + 1;
            assert(buf@ =~= old(buf)@ + self.buf@.subrange(start as int, i as int));
        }
        self.pos = len;
        len - start
    }

    /// Reads `n` bytes into a new vector.
    pub fn read_bytes(&mut self, n: usize) -> (r: Result<Vec<u8>, Error>)
        ensures
            old(self).has(n as int) ==> r is Ok && r.unwrap()@ == old(self).data().subrange(
                old(self).pos(),
                old(self).pos() + n,
            ) && old(self).moved(*final(self), n as int),
            !old(self).has(n as int) ==> r == Err::<Vec<u8>, Error>(Error::UnexpectedEof)
                && old(self).moved(*final(self), 0),
    {
        if !(self.pos <= self.buf.len() && self.buf.len() - self.pos >= n) {
            return Err(Error::UnexpectedEof);
        }
        let start = self.pos;
        let len = self.buf.len();
        let mut out: Vec<u8> = Vec::with_capacity(n);
        let mut i: usize = 0;
        while i < n
            invariant
                len == self.buf@.len(),
                start + n <= len,
                i <= n,
                out@ == self.buf@.subrange(start as int, start + i),
            decreases n - i,
        {
            out.push(self.buf[start + i]);
            i = i + 1;
            assert(out@ =~= self.buf@.subrange(start as int, start + i));
        }
        self.pos = start + n;
        Ok(out)
    }

    pub fn read_u8(&mut self) -> (r: Result<u8, Error>)
        ensures
            old(self).has(1) ==> r == Ok::<u8, Error>(old(self).data()[old(self).pos()])
                && old(self).moved(*final(self), 1),
            !old(self).has(1) ==> r == Err::<u8, Error>(Error::UnexpectedEof) && old(self).moved(
                *final(self),
                0,
            ),
    {
        if self.pos < self.buf.len() {
            let b = self.buf[self.pos];
            self.pos = self.pos + 1;
            Ok(b)
        } else {
            Err(Error::UnexpectedEof)
        }
    }

    pub fn read_i8(&mut self) -> (r: Result<i8, Error>)
        ensures
            old(self).has(1) ==> r is Ok && r.unwrap() == signed8(
                old(self).data()[old(self).pos()] as int,
            ) && old(self).moved(*final(self), 1),
            !old(self).has(1) ==> r == Err::<i8, Error>(Error::UnexpectedEof) && old(self).moved(
                *final(self),
                0,
            ),
    {
        let b = self.read_u8()?;
        Ok(if b >= 0x80 { (b as i16 - 0x100) as i8 } else { b as i8 })
    }

    pub fn read_be_u16(&mut self) -> (r: Result<u16, Error>)
        ensures
            old(self).has(2) ==> r is Ok && r.unwrap() == be_u16(old(self).data(), old(self).pos())
                && old(self).moved(*final(self), 2),
            !old(self).has(2) ==> r == Err::<u16, Error>(Error::UnexpectedEof) && old(self).moved(
                *final(self),
                0,
            ),
    {
        if self.pos <= self.buf.len() && self.buf.len() - self.pos >= 2 {
            let v = (self.buf[self.pos] as u16) * 0x100 + self.buf[self.pos + 1] as u16;
            self.pos = self.pos + 2;
            Ok(v)
        } else {
            Err(Error::UnexpectedEof)
        }
    }

    pub fn read_le_u16(&mut self) -> (r: Result<u16, Error>)
        ensures
            old(self).has(2) ==> r is Ok && r.unwrap() == le_u16(old(self).data(), old(self).pos())
                && old(self).moved(*final(self), 2),
            !old(self).has(2) ==> r == Err::<u16, Error>(Error::UnexpectedEof) && old(self).moved(
                *final(self),
                0,
            ),
    {
        if self.pos <= self.buf.len() && self.buf.len() - self.pos >= 2 {
            let v = (self.buf[self.pos + 1] as u16) * 0x100 + self.buf[self.pos] as u16;
            self.pos = self.pos + 2;
            Ok(v)
        } else {
            Err(Error::UnexpectedEof)
        }
    }

    pub fn read_be_u32(&mut self) -> (r: Result<u32, Error>)
        ensures
            old(self).has(4) ==> r is Ok && r.unwrap() == be_u32(old(self).data(), old(self).pos())
                && old(self).moved(*final(self), 4),
            !old(self).has(4) ==> r == Err::<u32, Error>(Error::UnexpectedEof) && old(self).moved(
                *final(self),
                0,
            ),
    {
        if self.pos <= self.buf.len() && self.buf.len() - self.pos >= 4 {
            let p = self.pos;
            let v = (self.buf[p] as u32) * 0x1000000 + (self.buf[p + 1] as u32) * 0x10000
                + (self.buf[p + 2] as u32) * 0x100 + self.buf[p + 3] as u32;
            self.pos = p + 4;
            Ok(v)
        } else {
            Err(Error::UnexpectedEof)
        }
    }

    pub fn read_le_u32(&mut self) -> (r: Result<u32, Error>)
        ensures
            old(self).has(4) ==> r is Ok && r.unwrap() == le_u32(old(self).data(), old(self).pos())
                && old(self).moved(*final(self), 4),
            !old(self).has(4) ==> r == Err::<u32, Error>(Error::UnexpectedEof) && old(self).moved(
                *final(self),
                0,
            ),
    {
        if self.pos <= self.buf.len() && self.buf.len() - self.pos >= 4 {
            let p = self.pos;
            let v = (self.buf[p + 3] as u32) * 0x1000000 + (self.buf[p + 2] as u32) * 0x10000
                + (self.buf[p + 1] as u32) * 0x100 + self.buf[p] as u32;
            self.pos = p + 4;
            Ok(v)
        } else {
            Err(Error::UnexpectedEof)
        }
    }

    pub fn read_le_i16(&mut self) -> (r: Result<i16, Error>)
        ensures
            old(self).has(2) ==> r is Ok && r.unwrap() == signed16(
                le_u16(old(self).data(), old(self).pos()),
            ) && old(self).moved(*final(self), 2),
            !old(self).has(2) ==> r == Err::<i16, Error>(Error::UnexpectedEof) && old(self).moved(
                *final(self),
                0,
            ),
    {
        let v = self.read_le_u16()?;
        Ok(to_i16(v))
    }

    pub fn read_be_i16(&mut self) -> (r: Result<i16, Error>)
        ensures
            old(self).has(2) ==> r is Ok && r.unwrap() == signed16(
                be_u16(old(self).data(), old(self).pos()),
            ) && old(self).moved(*final(self), 2),
            !old(self).has(2) ==> r == Err::<i16, Error>(Error::UnexpectedEof) && old(self).moved(
                *final(self),
                0,
            ),
    {
        let v = self.read_be_u16()?;
        Ok(to_i16(v))
    }

    pub fn read_le_i32(&mut self) -> (r: Result<i32, Error>)
        ensures
            old(self).has(4) ==> r is Ok && r.unwrap() == signed32(
                le_u32(old(self).data(), old(self).pos()),
            ) && old(self).moved(*final(self), 4),
            !old(self).has(4) ==> r == Err::<i32, Error>(Error::UnexpectedEof) && old(self).moved(
                *final(self),
                0,
            ),
    {
        let v = self.read_le_u32()?;
        Ok(to_i32(v))
    }

    pub fn read_be_i32(&mut self) -> (r: Result<i32, Error>)
        ensures
            old(self).has(4) ==> r is Ok && r.unwrap() == signed32(
                be_u32(old(self).data(), old(self).pos()),
            ) && old(self).moved(*final(self), 4),
            !old(self).has(4) ==> r == Err::<i32, Error>(Error::UnexpectedEof) && old(self).moved(
                *final(self),
                0,
            ),
    {
        let v = self.read_be_u32()?;
        Ok(to_i32(v))
    }

    /// Reads a 16-bit value in the reader's byte order.
    pub fn read_u16(&mut self) -> (r: Result<u16, Error>)
        ensures
            old(self).has(2) ==> r is Ok && r.unwrap() == u16_in(
                old(self).data(),
                old(self).pos(),
                old(self).order(),
            ) && old(self).moved(*final(self), 2),
            !old(self).has(2) ==> r == Err::<u16, Error>(Error::UnexpectedEof) && old(self).moved(
                *final(self),
                0,
            ),
    {
        match self.byte_order {
            ByteOrder::LittleEndian => self.read_le_u16(),
            ByteOrder::BigEndian => self.read_be_u16(),
        }
    }

    /// Reads a signed 16-bit value in the reader's byte order.
    pub fn read_i16(&mut self) -> (r: Result<i16, Error>)
        ensures
            old(self).has(2) ==> r is Ok && r.unwrap() == signed16(
                u16_in(old(self).data(), old(self).pos(), old(self).order()),
            ) && old(self).moved(*final(self), 2),
            !old(self).has(2) ==> r == Err::<i16, Error>(Error::UnexpectedEof) && old(self).moved(
                *final(self),
                0,
            ),
    {
        let v = self.read_u16()?;
        Ok(to_i16(v))
    }

    /// Reads a 32-bit value in the reader's byte order.
    pub fn read_u32(&mut self) -> (r: Result<u32, Error>)
        ensures
            old(self).has(4) ==> r is Ok && r.unwrap() == u32_in(
                old(self).data(),
                old(self).pos(),
                old(self).order(),
            ) && old(self).moved(*final(self), 4),
            !old(self).has(4) ==> r == Err::<u32, Error>(Error::UnexpectedEof) && old(self).moved(
                *final(self),
                0,
            ),
    {
        match self.byte_order {
            ByteOrder::LittleEndian => self.read_le_u32(),
            ByteOrder::BigEndian => self.read_be_u32(),
        }
    }

    /// Reads a signed 32-bit value in the reader's byte order.
    pub fn read_i32(&mut self) -> (r: Result<i32, Error>)
        ensures
            old(self).has(4) ==> r is Ok && r.unwrap() == signed32(
                u32_in(old(self).data(), old(self).pos(), old(self).order()),
            ) && old(self).moved(*final(self), 4),
            !old(self).has(4) ==> r == Err::<i32, Error>(Error::UnexpectedEof) && old(self).moved(
                *final(self),
                0,
            ),
    {
        let v = self.read_u32()?;
        Ok(to_i32(v))
    }

    /// Reads one byte at an absolute position, leaving the cursor after it.
    pub fn read_u8_at(&mut self, position: usize) -> (r: Result<u8, Error>)
        ensures
            position < old(self).data().len() ==> r == Ok::<u8, Error>(old(self).data()[position as int]),
            position >= old(self).data().len() ==> r == Err::<u8, Error>(Error::UnexpectedEof),
            final(self).data() == old(self).data(),
            final(self).order() == old(self).order(),
    {
        self.seek(position);
        self.read_u8()
    }

    /// Reads a signed 16-bit value, in the reader's order, at an absolute position.
    pub fn read_i16_at(&mut self, position: usize) -> (r: Result<i16, Error>)
        ensures
            position + 2 <= old(self).data().len() ==> r is Ok && r.unwrap() == signed16(
                u16_in(old(self).data(), position as int, old(self).order()),
            ),
            position + 2 > old(self).data().len() ==> r == Err::<i16, Error>(Error::UnexpectedEof),
            final(self).data() == old(self).data(),
            final(self).order() == old(self).order(),
    {
        self.seek(position);
        self.read_i16()
    }

    /// Reads a big-endian 16-bit value at an absolute position.
    pub fn read_be_u16_at(&mut self, position: usize) -> (r: Result<u16, Error>)
        ensures
            position + 2 <= old(self).data().len() ==> r is Ok && r.unwrap() == be_u16(
                old(self).data(),
                position as int,
            ),
            position + 2 > old(self).data().len() ==> r == Err::<u16, Error>(Error::UnexpectedEof),
            final(self).data() == old(self).data(),
            final(self).order() == old(self).order(),
    {
        self.seek(position);
        self.read_be_u16()
    }

    /// Reads a big-endian signed 16-bit value at an absolute position.
    pub fn read_be_i16_at(&mut self, position: usize) -> (r: Result<i16, Error>)
        ensures
            position + 2 <= old(self).data().len() ==> r is Ok && r.unwrap() == signed16(
                be_u16(old(self).data(), position as int),
            ),
            position + 2 > old(self).data().len() ==> r == Err::<i16, Error>(Error::UnexpectedEof),
            final(self).data() == old(self).data(),
            final(self).order() == old(self).order(),
    {
        self.seek(position);
        self.read_be_i16()
    }

    /// Reads a string field of exactly `len` bytes; the text ends at the first NUL.
    pub fn read_fixed_str(&mut self, len: usize) -> (r: Result<String, Error>)
        ensures
            old(self).has(len as int) ==> r is Ok && r.unwrap()@ == fixed_str(
                old(self).data().subrange(old(self).pos(), old(self).pos() + len),
            ) && old(self).moved(*final(self), len as int),
            !old(self).has(len as int) ==> r == Err::<String, Error>(Error::UnexpectedEof)
                && old(self).moved(*final(self), 0),
    {
        let raw = self.read_bytes(len)?;
        let ghost s = raw@;
        let mut bytes: Vec<u8> = Vec::with_capacity(len);
        let mut i: usize = 0;
        let mut found_end = false;
        while i < raw.len()
            invariant
                s == raw@,
                i <= s.len(),
                !found_end ==> bytes@ == s.take(i as int) && forall|j: int|
                    0 <= j < i ==> s[j] != 0,
                found_end ==> first_nul(s) == bytes@.len() && bytes@ == s.take(
                    bytes@.len() as int,
                ) && bytes@.len() < i,
            decreases s.len() - i,
        {
            let c = raw[i];
            if found_end {
            } else if c == 0 {
                found_end = true;
                proof {
                    lemma_first_nul(s, i as int);
                }
            } else {
                bytes.push(c);
                assert(bytes@ =~= s.take(i + 1));
            }
            i = i + 1;
        }
        proof {
            if !found_end {
                lemma_first_nul(s, s.len() as int);
                assert(s.take(s.len() as int) =~= s);
            }
        }
        Ok(decode_latin1(bytes.as_slice()))
    }

    /// Reads a length byte, then a string field of that many bytes.
    pub fn read_pascal_str(&mut self) -> (r: Result<String, Error>)
        ensures
            ({
                let d = old(self).data();
                let p = old(self).pos();
                if old(self).has(1) && old(self).has(1 + d[p]) {
                    r is Ok && r.unwrap()@ == fixed_str(d.subrange(p + 1, p + 1 + d[p]))
                        && old(self).moved(*final(self), 1 + d[p])
                } else {
                    r == Err::<String, Error>(Error::UnexpectedEof)
                }
            }),
            final(self).data() == old(self).data(),
            final(self).order() == old(self).order(),
    {
        let len = self.read_u8()?;
        self.read_fixed_str(len as usize)
    }
}

} // verus!
