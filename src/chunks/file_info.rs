use vstd::prelude::*;

use crate::error::Error;
use crate::reader::{u16_in, ByteOrder, Reader};
use crate::tags::{Tag, TAG_VWFI};
use crate::vlist::{vl_count, vl_item, vl_number, vl_string, vl_valid, VList};

use super::Chunk;

verus! {

/// Who made the movie and where: the file-info chunk.
#[derive(Debug)]
pub struct FileInfo {
    pub unk0: u32,
    pub unk1: u32,
    pub flags: u32,
    pub script_id: Option<u32>,
    pub changed_by: Option<String>,
    pub created_by: Option<String>,
    pub orig_directory: Option<String>,
    pub preload: Option<u16>,
}

/// `v` holds the text `t` (both absent, or both present and equal).
pub open spec fn text_is(v: Option<String>, t: Option<Seq<char>>) -> bool {
    match t {
        None => v is None,
        Some(t) => v is Some && v.unwrap()@ == t,
    }
}

/// Fixed number `k` of a list, 0 where the list has fewer.
pub open spec fn number_or_zero(p: Seq<u8>, k: int) -> int {
    if k < vl_count(p, 0, 4) { vl_number(p, 0, 4, k) } else { 0 }
}

/// The preload item: absent, or a 16-bit value in the container's order.
pub open spec fn preload_of(p: Seq<u8>, o: ByteOrder) -> Result<Option<u16>, ()> {
    match vl_item(p, 0, 4) {
        None => Ok(None),
        Some(s) => if s.len() >= 2 {
            Ok(Some(u16_in(s, 0, o) as u16))
        } else {
            Err(())
        },
    }
}

impl Chunk for FileInfo {
    open spec fn spec_tag() -> u32 {
        TAG_VWFI
    }

    open spec fn parsed(payload: Seq<u8>, order: ByteOrder, id: u32, v: Self) -> bool {
        &&& vl_valid(payload, 0, 4)
        &&& v.unk0 == number_or_zero(payload, 0)
        &&& v.unk1 == number_or_zero(payload, 1)
        &&& v.flags == number_or_zero(payload, 2)
        &&& v.script_id == if 3 < vl_count(payload, 0, 4) {
            Some(vl_number(payload, 0, 4, 3) as u32)
        } else {
            None::<u32>
        }
        &&& vl_string(payload, 0, 1) is Ok && text_is(v.changed_by, vl_string(payload, 0, 1)->Ok_0)
        &&& vl_string(payload, 0, 2) is Ok && text_is(v.created_by, vl_string(payload, 0, 2)->Ok_0)
        &&& vl_string(payload, 0, 3) is Ok && text_is(v.orig_directory, vl_string(payload, 0, 3)->Ok_0)
        &&& preload_of(payload, order) == Ok::<Option<u16>, ()>(v.preload)
    }

    open spec fn refused(payload: Seq<u8>, order: ByteOrder) -> bool {
        ||| !vl_valid(payload, 0, 4)
        ||| vl_string(payload, 0, 1) is Err
        ||| vl_string(payload, 0, 2) is Err
        ||| vl_string(payload, 0, 3) is Err
        ||| preload_of(payload, order) is Err
    }

    fn tag() -> (t: Tag) {
        Tag(TAG_VWFI)
    }

    fn read(r: &mut Reader, _id: u32) -> (res: Result<Self, Error>) {
        let mut c = r.remaining();
        let ghost p = c.data();
        let vlist = VList::read_u32(&mut c)?;
        let unk0 = match vlist.fixed_number(0) {
            Some(v) => v,
            None => 0,
        };
        let unk1 = match vlist.fixed_number(1) {
            Some(v) => v,
            None => 0,
        };
        let flags = match vlist.fixed_number(2) {
            Some(v) => v,
            None => 0,
        };
        let script_id = vlist.fixed_number(3);
        let changed_by = vlist.try_get_as_pascal_str(1)?;
        let created_by = vlist.try_get_as_pascal_str(2)?;
        let orig_directory = vlist.try_get_as_pascal_str(3)?;
        let preload = match vlist.get(4) {
            None => None,
            Some(mut item) => Some(item.read_u16()?),
        };
        Ok(FileInfo { unk0, unk1, flags, script_id, changed_by, created_by, orig_directory, preload })
    }
}

} // verus!
