//! Cast members: the media assets a score places on stage.

use vstd::prelude::*;

pub mod bitmap;
pub mod cast_member;

pub use bitmap::{decompress, decompress_len, Bitmap, BitmapInfo};
pub use cast_member::{
    CastMember, CastMemberType, InvalidCastMemberTypeError, InvalidScriptTypeValue, Palette, Script,
    ScriptType, Text,
};

verus! {

/// Names a cast member: its number, and the cast it belongs to where known.
///
/// Number 0 means no reference.
#[derive(Debug, Default, Copy, Clone, PartialEq, Eq, Structural, Hash)]
pub struct CastMemberId {
    pub id: i16,
    pub cast: Option<u16>,
}

impl CastMemberId {
    pub fn new(id: i16) -> (c: Self)
        ensures
            c == (CastMemberId { id, cast: None }),
    {
        CastMemberId { id, cast: None }
    }

    pub fn new_with_cast(id: i16, cast: u16) -> (c: Self)
        ensures
            c == (CastMemberId { id, cast: Some(cast) }),
    {
        CastMemberId { id, cast: Some(cast) }
    }

    pub fn id(&self) -> (v: i16)
        ensures
            v == self.id,
    {
        self.id
    }

    pub fn cast(&self) -> (v: Option<u16>)
        ensures
            v == self.cast,
    {
        self.cast
    }
}

} // verus!
