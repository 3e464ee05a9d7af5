use vstd::prelude::*;

verus! {

/// A four-byte identifier, read as a big-endian 32-bit number.
///
/// Equality and ordering are those of the number.
#[derive(Clone, Copy, Debug, PartialEq, Eq, Structural, PartialOrd, Ord, Hash)]
pub struct Tag(pub u32);

/// Raw values of the tags this decoder knows.
pub const TAG_APPL: u32 = 0x4150504C;
pub const TAG_BITD: u32 = 0x42495444;
pub const TAG_CAS_: u32 = 0x4341532A;
pub const TAG_CASt: u32 = 0x43415374;
pub const TAG_CLUT: u32 = 0x434C5554;
pub const TAG_DRCF: u32 = 0x44524346;
pub const TAG_File: u32 = 0x46696C65;
pub const TAG_free: u32 = 0x66726565;
pub const TAG_imap: u32 = 0x696D6170;
pub const TAG_junk: u32 = 0x6A756E6B;
pub const TAG_KEY_: u32 = 0x4B45592A;
pub const TAG_Lctx: u32 = 0x4C637478;
pub const TAG_Lnam: u32 = 0x4C6E616D;
pub const TAG_Lscr: u32 = 0x4C736372;
pub const TAG_mmap: u32 = 0x6D6D6170;
pub const TAG_MV93: u32 = 0x4D563933;
pub const TAG_PJ93: u32 = 0x504A3933;
pub const TAG_RIFX: u32 = 0x52494658;
pub const TAG_STXT: u32 = 0x53545854;
pub const TAG_THUM: u32 = 0x5448554D;
pub const TAG_VWCF: u32 = 0x56574346;
pub const TAG_VWFI: u32 = 0x56574649;
pub const TAG_VWLB: u32 = 0x56574C42;
pub const TAG_VWSC: u32 = 0x56575343;
pub const TAG_XFIR: u32 = 0x58464952;

/// Byte `k` (0 = most significant) of the big-endian encoding of `v`.
pub open spec fn be_byte(v: u32, k: int) -> int {
    if k == 0 {
        v as int / 0x1000000
    } else if k == 1 {
        (v as int / 0x10000) % 0x100
    } else if k == 2 {
        (v as int / 0x100) % 0x100
    } else {
        v as int % 0x100
    }
}

/// A byte that prints as a visible ASCII character.
pub open spec fn is_graphic(b: int) -> bool {
    0x21 <= b <= 0x7E
}

/// How one byte of a tag is shown: itself when visible, else `.`.
pub open spec fn shown(b: int) -> char {
    if is_graphic(b) {
        b as char
    } else {
        '.'
    }
}

/// The four-character text of a tag.
pub open spec fn tag_text(v: u32) -> Seq<char> {
    seq![shown(be_byte(v, 0)), shown(be_byte(v, 1)), shown(be_byte(v, 2)), shown(be_byte(v, 3))]
}

/// Upper-case hexadecimal digit of a nibble.
pub open spec fn hex_digit(n: int) -> char {
    if n < 10 {
        (n + 0x30) as char
    } else {
        (n - 10 + 0x41) as char
    }
}

/// The text `"HH HH HH HH"` of a tag's four bytes.
pub open spec fn tag_hex_text(v: u32) -> Seq<char> {
    seq![
        hex_digit(be_byte(v, 0) / 16), hex_digit(be_byte(v, 0) % 16), ' ',
        hex_digit(be_byte(v, 1) / 16), hex_digit(be_byte(v, 1) % 16), ' ',
        hex_digit(be_byte(v, 2) / 16), hex_digit(be_byte(v, 2) % 16), ' ',
        hex_digit(be_byte(v, 3) / 16), hex_digit(be_byte(v, 3) % 16),
    ]
}

/// Relies on `String::push`: appends one character.
#[verifier::external_body]
pub(crate) fn push_char(s: &mut String, c: char)
    ensures
        final(s)@ == old(s)@.push(c),
{
    s.push(c)
}

fn byte_of(v: u32, k: u32) -> (b: u8)
    requires
        k < 4,
    ensures
        b == be_byte(v, k as int),
{
    if k == 0 {
        (v / 0x1000000) as u8
    } else if k == 1 {
        ((v / 0x10000) % 0x100) as u8
    } else if k == 2 {
        ((v / 0x100) % 0x100) as u8
    } else {
        (v % 0x100) as u8
    }
}

fn shown_char(b: u8) -> (c: char)
    ensures
        c == shown(b as int),
{
    if 0x21 <= b && b <= 0x7E {
        b as char
    } else {
        '.'
    }
}

fn hex_char(n: u8) -> (c: char)
    requires
        n < 16,
    ensures
        c == hex_digit(n as int),
{
    if n < 10 {
        (n + 0x30) as char
    } else {
        (n - 10 + 0x41) as char
    }
}

impl Tag {
    pub fn new(value: u32) -> (t: Tag)
        ensures
            t.0 == value,
    {
        Tag(value)
    }

    /// The four characters of the tag; bytes that are not visible ASCII show as `.`.
    pub fn to_text(&self) -> (s: String)
        ensures
            s@ == tag_text(self.0),
    {
        let mut s = String::new();
        let mut k: u32 = 0;
        while k < 4
            invariant
                k <= 4,
                s@ == tag_text(self.0).take(k as int),
            decreases 4 - k,
        {
            let c = shown_char(byte_of(self.0, k));
            push_char(&mut s, c);
            k = k + 1;
            assert(s@ =~= tag_text(self.0).take(k as int));
        }
        assert(s@ =~= tag_text(self.0));
        s
    }

    /// The tag's bytes as upper-case hexadecimal pairs separated by spaces.
    pub fn to_hex_text(&self) -> (s: String)
        ensures
            s@ == tag_hex_text(self.0),
    {
        let mut s = String::new();
        let mut k: u32 = 0;
        while k < 4
            invariant
                k <= 4,
                s@ == tag_hex_text(self.0).take(if k == 0 { 0 } else { 3 * k - 1 } as int),
            decreases 4 - k,
        {
            let b = byte_of(self.0, k);
            if k > 0 {
                push_char(&mut s, ' ');
            }
            push_char(&mut s, hex_char(b / 16));
            push_char(&mut s, hex_char(b % 16));
            k = k + 1;
            assert(s@ =~= tag_hex_text(self.0).take((3 * k - 1) as int));
        }
        assert(s@ =~= tag_hex_text(self.0));
        s
    }
}

/// Shows a tag as hexadecimal bytes.
pub struct TagAsHex(pub Tag);

impl TagAsHex {
    pub fn to_text(&self) -> (s: String)
        ensures
            s@ == tag_hex_text(self.0.0),
    {
        self.0.to_hex_text()
    }
}

/// Shows a raw tag value as its four characters.
pub struct TagAsText(pub u32);

impl TagAsText {
    pub fn to_text(&self) -> (s: String)
        ensures
            s@ == tag_text(self.0),
    {
        Tag(self.0).to_text()
    }
}

/// A tag whose four bytes are all visible ASCII reads back, character by
/// character, as exactly its big-endian bytes.
pub proof fn lemma_tag_text_is_bytes(v: u32)
    requires
        forall|k: int| 0 <= k < 4 ==> is_graphic(be_byte(v, k)),
    ensures
        tag_text(v).len() == 4,
        forall|k: int| 0 <= k < 4 ==> tag_text(v)[k] as int == be_byte(v, k),
{
    assert forall|k: int| 0 <= k < 4 implies tag_text(v)[k] as int == be_byte(v, k) by {
        assert(is_graphic(be_byte(v, k)));
    }
}

} // verus!
