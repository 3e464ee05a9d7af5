use vstd::prelude::*;

use crate::error::Error;
use crate::gfx::Rgb161616;
use crate::reader::{be_u16, ByteOrder, Reader};
use crate::tags::{Tag, TAG_CLUT};

use super::Chunk;

verus! {

/// Colour `k` of a colour lookup table: three big-endian 16-bit channels.
pub open spec fn clut_color(p: Seq<u8>, k: int) -> Rgb161616 {
    Rgb161616 {
        r: be_u16(p, 6 * k) as u16,
        g: be_u16(p, 6 * k + 2) as u16,
        b: be_u16(p, 6 * k + 4) as u16,
    }
}

/// A colour lookup table of at most 256 entries.
#[derive(Debug)]
pub struct ColorLookupTable {
    pub colors: Vec<Rgb161616>,
}

impl Chunk for ColorLookupTable {
    open spec fn spec_tag() -> u32 {
        TAG_CLUT
    }

    open spec fn parsed(payload: Seq<u8>, order: ByteOrder, id: u32, v: Self) -> bool {
        &&& payload.len() % 6 == 0
        &&& payload.len() / 6 <= 256
        &&& v.colors@.len() == payload.len() / 6
        &&& forall|k: int| 0 <= k < v.colors@.len() ==> #[trigger] v.colors@[k] == clut_color(payload, k)
    }

    open spec fn refused(payload: Seq<u8>, order: ByteOrder) -> bool {
        payload.len() % 6 != 0 || payload.len() / 6 > 256
    }

    fn tag() -> (t: Tag) {
        Tag(TAG_CLUT)
    }

    fn read(r: &mut Reader, _id: u32) -> (res: Result<Self, Error>) {
        let mut c = r.remaining();
        let ghost p = c.data();
        let size = c.stream_len();
        if size % 6 != 0 || size / 6 > 256 {
            return Err(Error::InvalidData);
        }
        let entries = size / 6;
        let mut colors: Vec<Rgb161616> = Vec::with_capacity(entries);
        let mut k: usize = 0;
        while k < entries
            invariant
                c.data() == p,
                p.len() == size,
                entries == size / 6,
                size % 6 == 0,
                k <= entries,
                c.pos() == 6 * k,
                colors@.len() == k,
                forall|j: int| 0 <= j < k ==> #[trigger] colors@[j] == clut_color(p, j),
            decreases entries - k,
        {
            let r0 = c.read_be_u16()?;
            let g0 = c.read_be_u16()?;
            let b0 = c.read_be_u16()?;
            colors.push(Rgb161616 { r: r0, g: g0, b: b0 });
            k = k + 1;
        }
        Ok(ColorLookupTable { colors })
    }
}

} // verus!
