use vstd::prelude::*;

use crate::cast_members::CastMemberId;
use crate::error::Error;
use crate::reader::{be_u32, ByteOrder, Reader};
use crate::tags::{Tag, TAG_CAS_};

use super::Chunk;

verus! {

/// Chunk id in slot `k` (counted from 0) of a cast table.
pub open spec fn slot(p: Seq<u8>, k: int) -> int {
    be_u32(p, 4 * k)
}

/// Number of whole slots.
pub open spec fn slot_count(p: Seq<u8>) -> int {
    p.len() as int / 4
}

/// Maps cast member numbers to the chunk ids of their cast-member chunks.
///
/// Slot `k` (counted from 1) holds member `k`; an empty slot holds 0.
#[derive(Debug)]
pub struct CastTable {
    pub cast_member_ids: Vec<(i16, u32)>,
}

/// Member numbers strictly increase.
pub open spec fn members_sorted(s: Seq<(i16, u32)>) -> bool {
    forall|i: int, j: int| 0 <= i < j < s.len() ==> (#[trigger] s[i]).0 < (#[trigger] s[j]).0
}

impl CastTable {
    pub fn empty() -> (t: Self)
        ensures
            t.cast_member_ids@.len() == 0,
    {
        CastTable { cast_member_ids: Vec::new() }
    }

    /// The `(member number, chunk id)` pairs in member order.
    pub fn cast_member_ids(&self) -> (s: &Vec<(i16, u32)>)
        ensures
            s@ == self.cast_member_ids@,
    {
        &self.cast_member_ids
    }

    /// The chunk id of the member numbered `id.id`, found by binary search.
    pub fn cast_member_chunk_id(&self, id: CastMemberId) -> (r: Option<u32>)
        requires
            members_sorted(self.cast_member_ids@),
        ensures
            r is Some <==> exists|i: int| 0 <= i < self.cast_member_ids@.len() && (#[trigger] self.cast_member_ids@[i]).0 == id.id,
            r is Some ==> exists|i: int| 0 <= i < self.cast_member_ids@.len() && (#[trigger] self.cast_member_ids@[i]).0 == id.id
                && self.cast_member_ids@[i].1 == r.unwrap(),
    {
        let mut lo: usize = 0;
        let mut hi: usize = self.cast_member_ids.len();
        while lo < hi
            invariant
                members_sorted(self.cast_member_ids@),
                lo <= hi <= self.cast_member_ids@.len(),
                forall|j: int| 0 <= j < lo ==> (#[trigger] self.cast_member_ids@[j]).0 < id.id,
                forall|j: int| hi <= j < self.cast_member_ids@.len() ==> (#[trigger] self.cast_member_ids@[j]).0 > id.id,
            decreases hi - lo,
        {
            let mid = lo + (hi - lo) / 2;
            let (m, chunk) = self.cast_member_ids[mid];
            if m == id.id {
                assert(self.cast_member_ids@[mid as int].0 == id.id);
                return Some(chunk);
            } else if m < id.id {
                assert forall|j: int| 0 <= j <= mid implies (#[trigger] self.cast_member_ids@[j]).0 < id.id by {
                    if j < mid {
                        assert(self.cast_member_ids@[j].0 < self.cast_member_ids@[mid as int].0);
                    }
                }
                lo = mid + 1;
            } else {
                assert forall|j: int| mid <= j < self.cast_member_ids@.len() implies (#[trigger] self.cast_member_ids@[j]).0 > id.id by {
                    if j > mid {
                        assert(self.cast_member_ids@[mid as int].0 < self.cast_member_ids@[j].0);
                    }
                }
                hi = mid;
            }
        }
        assert forall|i: int| 0 <= i < self.cast_member_ids@.len() implies (#[trigger] self.cast_member_ids@[i]).0 != id.id by {
            if i < lo {
            } else {
            }
        }
        None
    }
}

impl Chunk for CastTable {
    open spec fn spec_tag() -> u32 {
        TAG_CAS_
    }

    open spec fn parsed(payload: Seq<u8>, order: ByteOrder, id: u32, v: Self) -> bool {
        &&& v.cast_member_ids@ == members(payload, member_limit(payload))
        &&& members_sorted(v.cast_member_ids@)
    }

    open spec fn refused(payload: Seq<u8>, order: ByteOrder) -> bool {
        false
    }

    fn tag() -> (t: Tag) {
        Tag(TAG_CAS_)
    }

    fn read(r: &mut Reader, _id: u32) -> (res: Result<Self, Error>) {
        let mut c = r.remaining();
        let ghost p = c.data();
        let mut ids: Vec<(i16, u32)> = Vec::new();
        let n = c.stream_len() / 4;
        let limit: usize = if n < 0x7FFF {
            n
        } else {
            0x7FFF
        };
        let mut k: usize = 0;
        while k < limit
            invariant
                c.data() == p,
                p == old(r).rest(),
                n == slot_count(p),
                limit == member_limit(p),
                k <= limit,
                c.pos() == 4 * k,
                ids@ == members(p, k as int),
            decreases limit - k,
        {
            let chunk_id = c.read_be_u32()?;
            if chunk_id != 0 {
                let m = (k + 1) as i16;
                ids.push((m, chunk_id));
            }
            k = k + 1;
        }
        proof {
            lemma_members_sorted(p, limit as int);
        }
        Ok(CastTable { cast_member_ids: ids })
    }
}

/// How many slots are read: all whole ones, up to the largest 16-bit member number.
pub open spec fn member_limit(p: Seq<u8>) -> int {
    if slot_count(p) < 0x7FFF { slot_count(p) } else { 0x7FFF }
}

/// The `(member number, chunk id)` pairs of the non-empty slots among the first `k`.
pub open spec fn members(p: Seq<u8>, k: int) -> Seq<(i16, u32)>
    decreases k,
{
    if k <= 0 {
        Seq::empty()
    } else if slot(p, k - 1) != 0 {
        members(p, k - 1).push((k as i16, slot(p, k - 1) as u32))
    } else {
        members(p, k - 1)
    }
}

proof fn lemma_members_sorted(p: Seq<u8>, k: int)
    requires
        0 <= k <= 0x7FFF,
    ensures
        members_sorted(members(p, k)),
        forall|i: int| 0 <= i < members(p, k).len() ==> 1 <= (#[trigger] members(p, k)[i]).0 <= k,
    decreases k,
{
    if k > 0 {
        lemma_members_sorted(p, k - 1);
    }
}

} // verus!
