use vstd::prelude::*;

use crate::error::Error;
use crate::reader::{u32_in, ByteOrder, Reader};
use crate::tags::{Tag, TAG_imap};

use super::Chunk;

verus! {

/// The initial map: where the memory map's chunk header lies.
#[derive(Debug, Clone, Copy, PartialEq, Eq, Structural)]
pub struct InitialMap {
    pub mmap_version: u32,
    pub mmap_offset: u32,
}

impl Chunk for InitialMap {
    open spec fn spec_tag() -> u32 {
        TAG_imap
    }

    open spec fn parsed(payload: Seq<u8>, order: ByteOrder, id: u32, v: Self) -> bool {
        &&& payload.len() >= 8
        &&& v.mmap_version == u32_in(payload, 0, order)
        &&& v.mmap_offset == u32_in(payload, 4, order)
    }

    open spec fn refused(payload: Seq<u8>, order: ByteOrder) -> bool {
        payload.len() < 8
    }

    fn tag() -> (t: Tag) {
        Tag(TAG_imap)
    }

    fn read(r: &mut Reader, _id: u32) -> (res: Result<Self, Error>) {
        let mut r = r.remaining();
        let mmap_version = r.read_u32()?;
        let mmap_offset = r.read_u32()?;
        Ok(InitialMap { mmap_version, mmap_offset })
    }
}

} // verus!
