use vstd::prelude::*;

use crate::error::Error;
use crate::reader::{be_u16, signed16, ByteOrder, Reader};
use crate::tags::{Tag, TAG_VWCF};

use super::Chunk;

verus! {

/// Movie configuration: stage rectangle, member range and versions.
#[derive(Debug, Clone, Copy, Default, PartialEq, Eq, Structural)]
pub struct Config {
    pub len: u16,
    pub file_version: u16,
    pub movie_top: u16,
    pub movie_left: u16,
    pub movie_bottom: u16,
    pub movie_right: u16,
    pub min_member: u16,
    pub max_member: u16,
    pub director_version: Option<u16>,
    pub default_palette_id: Option<i32>,
}

/// The stored default palette number, shifted down by one when not positive.
pub open spec fn palette_adjust(v: int) -> int {
    if v <= 0 { v - 1 } else { v }
}

impl Chunk for Config {
    open spec fn spec_tag() -> u32 {
        TAG_VWCF
    }

    open spec fn parsed(payload: Seq<u8>, order: ByteOrder, id: u32, v: Self) -> bool {
        &&& payload.len() >= 16
        &&& v.len == be_u16(payload, 0)
        &&& v.file_version == be_u16(payload, 2)
        &&& v.movie_top == be_u16(payload, 4)
        &&& v.movie_left == be_u16(payload, 6)
        &&& v.movie_bottom == be_u16(payload, 8)
        &&& v.movie_right == be_u16(payload, 10)
        &&& v.min_member == be_u16(payload, 12)
        &&& v.max_member == be_u16(payload, 14)
        &&& v.director_version == if payload.len() >= 38 {
            Some(be_u16(payload, 36) as u16)
        } else {
            None::<u16>
        }
        &&& v.default_palette_id == if payload.len() >= 72 {
            Some(palette_adjust(signed16(be_u16(payload, 70))) as i32)
        } else {
            None::<i32>
        }
    }

    open spec fn refused(payload: Seq<u8>, order: ByteOrder) -> bool {
        payload.len() < 16
    }

    fn tag() -> (t: Tag) {
        Tag(TAG_VWCF)
    }

    fn read(r: &mut Reader, _id: u32) -> (res: Result<Self, Error>) {
        let mut c = r.remaining();
        let len = c.read_be_u16()?;
        let file_version = c.read_be_u16()?;
        let movie_top = c.read_be_u16()?;
        let movie_left = c.read_be_u16()?;
        let movie_bottom = c.read_be_u16()?;
        let movie_right = c.read_be_u16()?;
        let min_member = c.read_be_u16()?;
        let max_member = c.read_be_u16()?;
        let director_version = match c.read_be_u16_at(36) {
            Ok(v) => Some(v),
            Err(_) => None,
        };
        let default_palette_id = match c.read_be_i16_at(0x46) {
            Ok(v) => {
                let v = v as i32;
                Some(if v <= 0 { v - 1 } else { v })
            },
            Err(_) => None,
        };
        Ok(Config {
            len,
            file_version,
            movie_top,
            movie_left,
            movie_bottom,
            movie_right,
            min_member,
            max_member,
            director_version,
            default_palette_id,
        })
    }
}

} // verus!
