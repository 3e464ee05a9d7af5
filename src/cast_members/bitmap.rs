//! Bitmap cast members and their run-length codec.

use vstd::prelude::*;

use crate::chunks::{BitmapData, Thumbnail};
use crate::error::Error;
use crate::gfx::{wrap16, IndexedImage, Pos, Rect};
use crate::reader::{be_u16, signed16, Reader};

verus! {

/// Decompressed length of the run-length stream from `i` on, `None` when a
/// record runs past the end. A control byte `b` with the top bit set is a
/// run of `257 - b` copies of the next byte; otherwise `b + 1` literal bytes follow.
pub open spec fn rle_len(s: Seq<u8>, i: int) -> Option<int>
    decreases s.len() - i,
{
    if i < 0 || i >= s.len() {
        Some(0)
    } else if s[i] >= 0x80 {
        if i + 2 > s.len() {
            None
        } else {
            match rle_len(s, i + 2) {
                Some(n) => Some(257 - s[i] + n),
                None => None,
            }
        }
    } else {
        if i + 2 + s[i] > s.len() {
            None
        } else {
            match rle_len(s, i + 2 + s[i]) {
                Some(n) => Some(s[i] + 1 + n),
                None => None,
            }
        }
    }
}

/// The bytes the run-length stream decodes to from `i` on.
pub open spec fn rle_decode(s: Seq<u8>, i: int) -> Option<Seq<u8>>
    decreases s.len() - i,
{
    if i < 0 || i >= s.len() {
        Some(Seq::empty())
    } else if s[i] >= 0x80 {
        if i + 2 > s.len() {
            None
        } else {
            match rle_decode(s, i + 2) {
                Some(t) => Some(Seq::new((257 - s[i]) as nat, |k: int| s[i + 1]) + t),
                None => None,
            }
        }
    } else {
        if i + 2 + s[i] > s.len() {
            None
        } else {
            match rle_decode(s, i + 2 + s[i]) {
                Some(t) => Some(s.subrange(i + 1, i + 2 + s[i]) + t),
                None => None,
            }
        }
    }
}

/// The length that the first pass computes is the length of what the second
/// pass produces, and both passes accept the same streams.
pub proof fn lemma_decompress_len_matches(s: Seq<u8>, i: int)
    ensures
        rle_len(s, i) is Some <==> rle_decode(s, i) is Some,
        rle_len(s, i) is Some ==> rle_len(s, i).unwrap() == rle_decode(s, i).unwrap().len(),
    decreases s.len() - i,
{
    if 0 <= i < s.len() {
        if s[i] >= 0x80 {
            if i + 2 <= s.len() {
                lemma_decompress_len_matches(s, i + 2);
            }
        } else {
            if i + 2 + s[i] <= s.len() {
                lemma_decompress_len_matches(s, i + 2 + s[i]);
            }
        }
    }
}

proof fn lemma_rle_len_nonneg(s: Seq<u8>, i: int)
    ensures
        rle_len(s, i) is Some ==> rle_len(s, i).unwrap() >= 0,
    decreases s.len() - i,
{
    if 0 <= i < s.len() {
        if s[i] >= 0x80 {
            if i + 2 <= s.len() {
                lemma_rle_len_nonneg(s, i + 2);
            }
        } else {
            if i + 2 + s[i] <= s.len() {
                lemma_rle_len_nonneg(s, i + 2 + s[i]);
            }
        }
    }
}

/// First pass: the length of the decompressed bytes, without producing them.
pub fn decompress_len(r: Reader) -> (res: Result<usize, Error>)
    ensures
        match rle_len(r.rest(), 0) {
            Some(n) => if n <= usize::MAX {
                res == Ok::<usize, Error>(n as usize)
            } else {
                res == Err::<usize, Error>(Error::InvalidData)
            },
            None => res == Err::<usize, Error>(Error::InvalidData),
        },
{
    let c = r.remaining();
    let buf = c.stream_len();
    let ghost s = c.data();
    let mut pos: usize = 0;
    let mut output_len: usize = 0;
    let mut c = c;
    while pos < buf
        invariant
            c.data() == s,
            s == r.rest(),
            buf == s.len(),
            pos <= buf,
            rle_len(s, 0) == match rle_len(s, pos as int) {
                Some(n) => Some(output_len + n),
                None => None::<int>,
            },
        decreases buf - pos,
    {
        c.seek(pos);
        let b = match c.read_u8() {
            Ok(b) => b,
            Err(_) => return Err(Error::InvalidData),
        };
        if b >= 0x80 {
            if buf - pos < 2 {
                return Err(Error::InvalidData);
            }
            let add = 257 - b as usize;
            if output_len > usize::MAX - add {
                proof { lemma_rle_len_nonneg(s, pos + 2); }
                return Err(Error::InvalidData);
            }
            output_len = output_len + add;
            pos = pos + 2;
        } else {
            if buf - pos < 2 + b as usize {
                return Err(Error::InvalidData);
            }
            let add = b as usize + 1;
            if output_len > usize::MAX - add {
                proof { lemma_rle_len_nonneg(s, pos + 2 + b as int); }
                return Err(Error::InvalidData);
            }
            output_len = output_len + add;
            pos = pos + 2 + b as usize;
        }
    }
    Ok(output_len)
}

/// Second pass: appends the decompressed bytes to `out`.
pub fn decompress(r: Reader, out: &mut Vec<u8>) -> (res: Result<(), Error>)
    ensures
        match rle_decode(r.rest(), 0) {
            Some(t) => res is Ok && final(out)@ == old(out)@ + t,
            None => res == Err::<(), Error>(Error::InvalidData),
        },
{
    let c = r.remaining();
    let buf = c.stream_len();
    let ghost s = c.data();
    let mut c = c;
    let mut pos: usize = 0;
    while pos < buf
        invariant
            c.data() == s,
            s == r.rest(),
            buf == s.len(),
            pos <= buf,
            rle_decode(s, 0) == match rle_decode(s, pos as int) {
                Some(t) => Some(out@.subrange(old(out)@.len() as int, out@.len() as int) + t),
                None => None::<Seq<u8>>,
            },
            out@.len() >= old(out)@.len(),
            out@.subrange(0, old(out)@.len() as int) == old(out)@,
        decreases buf - pos,
    {
        c.seek(pos);
        let b = match c.read_u8() {
            Ok(b) => b,
            Err(_) => return Err(Error::InvalidData),
        };
        let ghost before = out@;
        if b >= 0x80 {
            if buf - pos < 2 {
                return Err(Error::InvalidData);
            }
            let v = match c.read_u8() {
                Ok(v) => v,
                Err(_) => return Err(Error::InvalidData),
            };
            let len = 257 - b as usize;
            let mut k: usize = 0;
            while k < len
                invariant
                    k <= len,
                    out@ == before + Seq::new(k as nat, |j: int| v),
                decreases len - k,
            {
                out.push(v);
                k = k + 1;
                assert(out@ =~= before + Seq::new(k as nat, |j: int| v));
            }
            proof {
                assert(Seq::new(len as nat, |j: int| v) =~= Seq::new((257 - s[pos as int]) as nat, |k: int| s[pos + 1]));
                let old_len = old(out)@.len() as int;
                assert(out@.subrange(old_len, out@.len() as int) =~= before.subrange(old_len, before.len() as int) + Seq::new(len as nat, |j: int| v));
                assert(out@.subrange(0, old_len) =~= before.subrange(0, old_len));
                match rle_decode(s, pos + 2) {
                    Some(t) => {
                        assert(before.subrange(old_len, before.len() as int) + (Seq::new(len as nat, |j: int| v) + t)
                            =~= out@.subrange(old_len, out@.len() as int) + t);
                    },
                    None => {},
                }
            }
            pos = pos + 2;
        } else {
            let len = b as usize + 1;
            if buf - pos < 1 + len {
                return Err(Error::InvalidData);
            }
            let mut k: usize = 0;
            while k < len
                invariant
                    k <= len,
                    c.data() == s,
                    pos + 1 + len <= s.len(),
                    c.pos() == pos + 1 + k,
                    out@ == before + s.subrange(pos + 1, pos + 1 + k),
                decreases len - k,
            {
                let v = match c.read_u8() {
                    Ok(v) => v,
                    Err(_) => return Err(Error::InvalidData),
                };
                out.push(v);
                k = k + 1;
                assert(out@ =~= before + s.subrange(pos + 1, pos + 1 + k));
            }
            proof {
                let old_len = old(out)@.len() as int;
                let lit = s.subrange(pos + 1, pos + 1 + len);
                assert(out@.subrange(old_len, out@.len() as int) =~= before.subrange(old_len, before.len() as int) + lit);
                assert(out@.subrange(0, old_len) =~= before.subrange(0, old_len));
                match rle_decode(s, pos + 1 + len) {
                    Some(t) => {
                        assert(before.subrange(old_len, before.len() as int) + (lit + t)
                            =~= out@.subrange(old_len, out@.len() as int) + t);
                    },
                    None => {},
                }
            }
            pos = pos + 1 + len;
        }
    }
    proof {
        assert(out@ =~= old(out)@ + out@.subrange(old(out)@.len() as int, out@.len() as int));
        assert(out@.subrange(old(out)@.len() as int, out@.len() as int) + Seq::<u8>::empty()
            =~= out@.subrange(old(out)@.len() as int, out@.len() as int));
    }
    Ok(())
}

/// Layout of a bitmap cast member.
#[derive(Debug, Clone, Copy, PartialEq, Eq, Structural)]
pub struct BitmapInfo {
    pub pitch: u16,
    pub rect: Rect,
    pub reg: Pos,
    pub bit_depth: u8,
    pub palette_id: i16,
}

/// A bitmap cast member with the chunks found under it.
#[derive(Debug)]
pub struct Bitmap {
    pub name: Option<String>,
    pub info: BitmapInfo,
    pub data: Option<BitmapData>,
    pub thumbnail: Option<Thumbnail>,
}

/// The layout stored in a bitmap member's data bytes `p`: 22 bytes are
/// required; bit depth (default 1) and palette number (default 1, stored
/// plus one) follow when present.
pub open spec fn bitmap_info_of(p: Seq<u8>) -> BitmapInfo {
    BitmapInfo {
        pitch: (be_u16(p, 0) % 0x1000) as u16,
        rect: Rect {
            y0: signed16(be_u16(p, 2)) as i16,
            x0: signed16(be_u16(p, 4)) as i16,
            y1: signed16(be_u16(p, 6)) as i16,
            x1: signed16(be_u16(p, 8)) as i16,
        },
        reg: Pos { y: signed16(be_u16(p, 18)) as i16, x: signed16(be_u16(p, 20)) as i16 },
        bit_depth: if p.len() >= 24 { p[23] } else { 1 },
        palette_id: wrap16((if p.len() >= 26 { signed16(be_u16(p, 24)) } else { 1 }) - 1) as i16,
    }
}

impl BitmapInfo {
    /// Reads the layout from the bytes from the reader's position on.
    pub fn read(r: Reader, _id: u32) -> (res: Result<Self, Error>)
        ensures
            r.rest().len() >= 22 ==> res == Ok::<Self, Error>(bitmap_info_of(r.rest())),
            r.rest().len() < 22 ==> res == Err::<Self, Error>(Error::UnexpectedEof),
    {
        let mut c = r.remaining();
        let a = c.read_be_u16()?;
        let pitch = a % 0x1000;
        let y0 = c.read_be_i16()?;
        let x0 = c.read_be_i16()?;
        let y1 = c.read_be_i16()?;
        let x1 = c.read_be_i16()?;
        let _ = c.read_be_i16()?;
        let _ = c.read_be_i16()?;
        let _ = c.read_be_i16()?;
        let _ = c.read_be_i16()?;
        let reg_y = c.read_be_i16()?;
        let reg_x = c.read_be_i16()?;
        let _ = c.read_u8();
        let bit_depth = match c.read_u8() {
            Ok(v) => v,
            Err(_) => 1,
        };
        let stored = match c.read_be_i16() {
            Ok(v) => v,
            Err(_) => 1,
        };
        let palette_id = stored.wrapping_sub(1);
        Ok(BitmapInfo { pitch, rect: Rect { y0, x0, y1, x1 }, reg: Pos { y: reg_y, x: reg_x }, bit_depth, palette_id })
    }

    pub fn width(&self) -> (w: i32)
        ensures
            w == self.rect.spec_width(),
    {
        self.rect.width()
    }

    pub fn height(&self) -> (h: i32)
        ensures
            h == self.rect.spec_height(),
    {
        self.rect.height()
    }
}

/// What `image` gives for a bitmap with layout `info` and pixel bytes `data`.
pub open spec fn image_of(info: BitmapInfo, data: Seq<u8>, img: IndexedImage) -> bool {
    if info.bit_depth == 8 {
        let n = rle_len(data, 0).unwrap();
        &&& rle_decode(data, 0) is Some
        &&& 0 < info.pitch
        &&& n <= usize::MAX
        &&& img.wf()
        &&& img.spec_width() == info.pitch
        &&& img.spec_height() == n / (info.pitch as int)
        &&& img.spec_data() == rle_decode(data, 0).unwrap().take(img.spec_width() * img.spec_height())
    } else {
        let w = if info.rect.spec_width() > 0 { info.rect.spec_width() } else { 0 };
        let h = if info.rect.spec_height() > 0 { info.rect.spec_height() } else { 0 };
        &&& w * h <= usize::MAX
        &&& img.wf()
        &&& img.spec_width() == w
        &&& img.spec_height() == h
        &&& img.spec_data() == Seq::new((w * h) as nat, |i: int| 0u8)
    }
}

impl Bitmap {
    /// The bitmap's pixels. An 8-bit bitmap decodes its data, `pitch` pixels
    /// wide and as many whole rows as the data holds; other depths give a
    /// blank image of the member's rectangle. `None` without data, with a
    /// malformed stream or a zero pitch, or where the image would not fit in
    /// memory.
    pub fn image(&self) -> (img: Option<IndexedImage>)
        ensures
            match self.data {
                None => img is None,
                Some(d) => match img {
                    Some(i) => image_of(self.info, d.spec_buf(), i),
                    None => !exists|i: IndexedImage| image_of(self.info, d.spec_buf(), i),
                },
            },
    {
        let data = match &self.data {
            Some(d) => d,
            None => return None,
        };
        let buf = data.buf();
        let r = Reader::new(buf);
        assert(r.rest() =~= buf@);
        if self.info.bit_depth == 8 {
            let len = match decompress_len(r) {
                Ok(n) => n,
                Err(_) => {
                    proof {
                        lemma_decompress_len_matches(buf@, 0);
                        assert forall|i: IndexedImage| !image_of(self.info, buf@, i) by {}
                    }
                    return None;
                },
            };
            let pitch = self.info.pitch as usize;
            proof {
                lemma_rle_len_nonneg(buf@, 0);
            }
            if pitch == 0 {
                proof {
                    assert forall|i: IndexedImage| !image_of(self.info, buf@, i) by {}
                }
                return None;
            }
            let height = len / pitch;
            let mut pixels: Vec<u8> = Vec::new();
            let ok = decompress(r, &mut pixels);
            proof {
                lemma_decompress_len_matches(buf@, 0);
                assert(pixels@ =~= Seq::<u8>::empty() + rle_decode(buf@, 0).unwrap());
            }
            assert(pitch * height <= len) by (nonlinear_arith)
                requires height == len / pitch, pitch > 0;
            pixels.truncate(pitch * height);
            Some(IndexedImage::new(pitch, height, pixels))
        } else {
            let w = self.info.rect.width();
            let h = self.info.rect.height();
            let w: usize = if w > 0 { w as usize } else { 0 };
            let h: usize = if h > 0 { h as usize } else { 0 };
            if h > 0 && w > usize::MAX / h {
                proof {
                    assert forall|i: IndexedImage| !image_of(self.info, buf@, i) by {
                        assert(w * h > usize::MAX) by (nonlinear_arith)
                            requires h > 0, w > usize::MAX / h;
                    }
                }
                return None;
            }
            assert(w * h <= usize::MAX) by (nonlinear_arith)
                requires h == 0 || w <= usize::MAX / h;
            Some(IndexedImage::new_owned(w, h))
        }
    }
}

} // verus!
