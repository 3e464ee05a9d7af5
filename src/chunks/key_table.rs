use vstd::prelude::*;

use crate::error::{Error, ErrorKind};
use crate::reader::{u16_in, u32_in, ByteOrder, Reader};
use crate::tags::{Tag, TAG_KEY_};

use super::Chunk;

verus! {

/// One key-table entry: chunk `id` belongs to chunk `parent` under `tag`.
#[derive(Debug, Clone, Copy, PartialEq, Eq, Structural)]
pub struct KeyTableEntry {
    pub id: u32,
    pub parent: u32,
    pub tag: Tag,
}

/// The entry stored at offset `off`.
pub open spec fn key_entry_at(p: Seq<u8>, off: int, o: ByteOrder) -> KeyTableEntry {
    KeyTableEntry {
        id: u32_in(p, off, o) as u32,
        parent: u32_in(p, off + 4, o) as u32,
        tag: Tag(u32_in(p, off + 8, o) as u32),
    }
}

/// `(parent, tag)` of `a` is lexicographically at most that of `b`.
pub open spec fn key_le(a: KeyTableEntry, b: KeyTableEntry) -> bool {
    a.parent < b.parent || (a.parent == b.parent && a.tag.0 <= b.tag.0)
}

/// `(parent, tag)` of `a` is lexicographically below `(parent, tag)`.
pub open spec fn key_lt(a: KeyTableEntry, parent: u32, tag: Tag) -> bool {
    a.parent < parent || (a.parent == parent && a.tag.0 < tag.0)
}

/// Sorted by `(parent, tag)`, with no sentinel id or parent.
pub open spec fn keys_valid(s: Seq<KeyTableEntry>) -> bool {
    &&& forall|i: int| 0 <= i < s.len() - 1 ==> key_le(#[trigger] s[i], s[i + 1])
    &&& forall|i: int| 0 <= i < s.len() ==> (#[trigger] s[i]).id != u32::MAX && s[i].parent != u32::MAX
}

/// Adjacent order extends to any two positions.
pub proof fn lemma_sorted(s: Seq<KeyTableEntry>, i: int, j: int)
    requires
        keys_valid(s),
        0 <= i <= j < s.len(),
    ensures
        key_le(s[i], s[j]),
    decreases j - i,
{
    if i < j {
        lemma_sorted(s, i, j - 1);
        assert(key_le(s[j - 1], s[j]));
    }
}

impl KeyTableEntry {
    fn read(r: &mut Reader) -> (res: Result<Self, Error>)
        ensures
            old(r).has(12) ==> res == Ok::<Self, Error>(
                key_entry_at(old(r).data(), old(r).pos(), old(r).order()),
            ) && old(r).moved(*final(r), 12),
            !old(r).has(12) ==> res is Err && res->Err_0.spec_kind() == ErrorKind::InvalidData,
            final(r).data() == old(r).data(),
            final(r).order() == old(r).order(),
    {
        let id = r.read_u32()?;
        let parent = r.read_u32()?;
        let tag = Tag(r.read_u32()?);
        Ok(KeyTableEntry { id, parent, tag })
    }

    pub fn id(&self) -> (v: u32)
        ensures
            v == self.id,
    {
        self.id
    }

    pub fn parent(&self) -> (v: u32)
        ensures
            v == self.parent,
    {
        self.parent
    }

    pub fn tag(&self) -> (v: Tag)
        ensures
            v == self.tag,
    {
        self.tag
    }
}

/// The key table: parent-child links between chunks, sorted by `(parent, tag)`.
#[derive(Debug)]
pub struct KeyTable {
    pub header_size: u16,
    pub entry_size: u16,
    pub max_key_count: u32,
    pub used_key_count: u32,
    pub entries: Vec<KeyTableEntry>,
}

/// The entries of a key table whose parent is `parent`, in stored order.
pub struct ChunksWithParent<'a> {
    key_table: &'a KeyTable,
    index: usize,
    end: usize,
}

impl<'a> ChunksWithParent<'a> {
    /// The entries still to come.
    pub closed spec fn remaining(&self) -> Seq<KeyTableEntry> {
        self.key_table.entries@.subrange(self.index as int, self.end as int)
    }

    /// Index in the table of the next entry.
    pub closed spec fn start(&self) -> int {
        self.index as int
    }

    pub closed spec fn wf(&self) -> bool {
        self.index <= self.end <= self.key_table.entries@.len()
    }

    /// The next entry, if any.
    pub fn next(&mut self) -> (e: Option<&'a KeyTableEntry>)
        requires
            old(self).wf(),
        ensures
            final(self).wf(),
            old(self).remaining().len() == 0 ==> e is None && final(self).remaining().len() == 0,
            old(self).remaining().len() > 0 ==> e is Some && *e.unwrap() == old(self).remaining()[0]
                && final(self).remaining() == old(self).remaining().drop_first(),
    {
        if self.index < self.end {
            let entry = &self.key_table.entries[self.index];
            self.index = self.index + 1;
            assert(self.key_table.entries@.subrange(self.index as int, self.end as int)
                =~= old(self).remaining().drop_first());
            Some(entry)
        } else {
            None
        }
    }
}

impl KeyTable {
    /// An empty key table.
    pub fn empty() -> (k: Self)
        ensures
            k.entries@.len() == 0,
            keys_valid(k.entries@),
    {
        KeyTable { header_size: 0, entry_size: 0, max_key_count: 0, used_key_count: 0, entries: Vec::new() }
    }

    /// Index of the first entry whose `(parent, tag)` is not below the given one.
    fn lower_bound(&self, parent: u32, tag: Tag) -> (i: usize)
        requires
            keys_valid(self.entries@),
        ensures
            i <= self.entries@.len(),
            forall|j: int| 0 <= j < i ==> key_lt(#[trigger] self.entries@[j], parent, tag),
            forall|j: int| i <= j < self.entries@.len() ==> !key_lt(#[trigger] self.entries@[j], parent, tag),
    {
        let mut lo: usize = 0;
        let mut hi: usize = self.entries.len();
        while lo < hi
            invariant
                keys_valid(self.entries@),
                lo <= hi <= self.entries@.len(),
                forall|j: int| 0 <= j < lo ==> key_lt(#[trigger] self.entries@[j], parent, tag),
                forall|j: int| hi <= j < self.entries@.len() ==> !key_lt(#[trigger] self.entries@[j], parent, tag),
            decreases hi - lo,
        {
            let mid = lo + (hi - lo) / 2;
            let e = self.entries[mid];
            if e.parent < parent || (e.parent == parent && e.tag.0 < tag.0) {
                assert forall|j: int| 0 <= j <= mid implies key_lt(#[trigger] self.entries@[j], parent, tag) by {
                    lemma_sorted(self.entries@, j, mid as int);
                }
                lo = mid + 1;
            } else {
                assert forall|j: int| mid <= j < self.entries@.len() implies !key_lt(#[trigger] self.entries@[j], parent, tag) by {
                    lemma_sorted(self.entries@, mid as int, j);
                }
                hi = mid;
            }
        }
        lo
    }

    /// Index of the first entry whose parent is above `parent`.
    fn parent_upper_bound(&self, parent: u32) -> (i: usize)
        requires
            keys_valid(self.entries@),
        ensures
            i <= self.entries@.len(),
            forall|j: int| 0 <= j < i ==> (#[trigger] self.entries@[j]).parent <= parent,
            forall|j: int| i <= j < self.entries@.len() ==> (#[trigger] self.entries@[j]).parent > parent,
    {
        let mut lo: usize = 0;
        let mut hi: usize = self.entries.len();
        while lo < hi
            invariant
                keys_valid(self.entries@),
                lo <= hi <= self.entries@.len(),
                forall|j: int| 0 <= j < lo ==> (#[trigger] self.entries@[j]).parent <= parent,
                forall|j: int| hi <= j < self.entries@.len() ==> (#[trigger] self.entries@[j]).parent > parent,
            decreases hi - lo,
        {
            let mid = lo + (hi - lo) / 2;
            if self.entries[mid].parent <= parent {
                assert forall|j: int| 0 <= j <= mid implies (#[trigger] self.entries@[j]).parent <= parent by {
                    lemma_sorted(self.entries@, j, mid as int);
                }
                lo = mid + 1;
            } else {
                assert forall|j: int| mid <= j < self.entries@.len() implies (#[trigger] self.entries@[j]).parent > parent by {
                    lemma_sorted(self.entries@, mid as int, j);
                }
                hi = mid;
            }
        }
        lo
    }

    /// The id of the chunk filed under `parent` with `tag`: of the first such
    /// entry, by binary search on `(parent, tag)`.
    pub fn find_id_of_chunk_with_parent(&self, tag: Tag, parent: u32) -> (r: Option<u32>)
        requires
            keys_valid(self.entries@),
        ensures
            r is Some <==> exists|i: int|
                0 <= i < self.entries@.len() && (#[trigger] self.entries@[i]).parent == parent
                    && self.entries@[i].tag == tag,
            r is Some ==> exists|i: int|
                0 <= i < self.entries@.len() && (#[trigger] self.entries@[i]).parent == parent
                    && self.entries@[i].tag == tag && self.entries@[i].id == r.unwrap()
                    && forall|j: int| 0 <= j < i ==> !(self.entries@[j].parent == parent && self.entries@[j].tag == tag),
    {
        let i = self.lower_bound(parent, tag);
        if i < self.entries.len() && self.entries[i].parent == parent && self.entries[i].tag.0 == tag.0 {
            assert(self.entries@[i as int].tag == tag);
            Some(self.entries[i].id)
        } else {
            assert forall|j: int| 0 <= j < self.entries@.len() implies !((#[trigger] self.entries@[j]).parent == parent
                && self.entries@[j].tag == tag) by {
                if j >= i && self.entries@[j].parent == parent && self.entries@[j].tag == tag {
                    lemma_sorted(self.entries@, i as int, j);
                }
            }
            None
        }
    }

    /// The entries whose parent is `parent`, in stored order; they stand together.
    pub fn chunks_with_parent(&self, parent: u32) -> (c: ChunksWithParent<'_>)
        requires
            keys_valid(self.entries@),
        ensures
            c.wf(),
            forall|e: KeyTableEntry| #[trigger] c.remaining().contains(e) <==> self.entries@.contains(e) && e.parent == parent,
            c.remaining() == self.entries@.subrange(c.start(), c.start() + c.remaining().len()),
    {
        let begin = self.lower_bound(parent, Tag(0));
        let end = self.parent_upper_bound(parent);
        let ghost s = self.entries@;
        let c = ChunksWithParent { key_table: self, index: begin, end: if end < begin { begin } else { end } };
        proof {
            assert(begin <= end) by {
                if end < begin {
                    assert(!key_lt(s[end as int], parent, Tag(0)));
                }
            }
            assert forall|e: KeyTableEntry| #[trigger] c.remaining().contains(e) <==> s.contains(e) && e.parent == parent by {
                if c.remaining().contains(e) {
                    let k = choose|k: int| 0 <= k < c.remaining().len() && c.remaining()[k] == e;
                    assert(s[begin + k] == e);
                }
                if s.contains(e) && e.parent == parent {
                    let k = choose|k: int| 0 <= k < s.len() && s[k] == e;
                    assert(c.remaining()[k - begin] == e);
                }
            }
        }
        c
    }
}

impl Chunk for KeyTable {
    open spec fn spec_tag() -> u32 {
        TAG_KEY_
    }

    open spec fn parsed(payload: Seq<u8>, order: ByteOrder, id: u32, v: Self) -> bool {
        let n = u32_in(payload, 8, order);
        &&& payload.len() >= 12 + 12 * n
        &&& v.header_size == u16_in(payload, 0, order)
        &&& v.entry_size == u16_in(payload, 2, order)
        &&& v.max_key_count == u32_in(payload, 4, order)
        &&& v.used_key_count == n
        &&& v.entries@.len() == n
        &&& forall|i: int| 0 <= i < n ==> #[trigger] v.entries@[i] == key_entry_at(payload, 12 + 12 * i, order)
        &&& keys_valid(v.entries@)
    }

    open spec fn refused(payload: Seq<u8>, order: ByteOrder) -> bool {
        let n = u32_in(payload, 8, order);
        ||| payload.len() < 12
        ||| payload.len() < 12 + 12 * n
        ||| !keys_valid(Seq::new(n as nat, |i: int| key_entry_at(payload, 12 + 12 * i, order)))
    }

    fn tag() -> (t: Tag) {
        Tag(TAG_KEY_)
    }

    fn read(r: &mut Reader, _id: u32) -> (res: Result<Self, Error>) {
        let mut c = r.remaining();
        let ghost p = c.data();
        let ghost o = c.order();
        let header_size = c.read_u16()?;
        let entry_size = c.read_u16()?;
        let max_key_count = c.read_u32()?;
        let used_key_count = c.read_u32()?;
        let mut entries: Vec<KeyTableEntry> = Vec::new();
        let mut k: u32 = 0;
        while k < used_key_count
            invariant
                c.data() == p,
                c.order() == o,
                p == old(r).rest(),
                o == old(r).order(),
                p.len() >= 12,
                used_key_count == u32_in(p, 8, o),
                k <= used_key_count,
                c.pos() == 12 + 12 * k,
                12 + 12 * k <= p.len(),
                entries@.len() == k,
                forall|i: int| 0 <= i < k ==> #[trigger] entries@[i] == key_entry_at(p, 12 + 12 * i, o),
            decreases used_key_count - k,
        {
            let e = KeyTableEntry::read(&mut c)?;
            entries.push(e);
            k = k + 1;
        }
        let ghost all = Seq::new(used_key_count as nat, |i: int| key_entry_at(p, 12 + 12 * i, o));
        assert(entries@ =~= all);
        let mut i: usize = 0;
        while i < entries.len()
            invariant
                entries@ == all,
                p == old(r).rest(),
                o == old(r).order(),
                p.len() >= 12 + 12 * used_key_count,
                used_key_count == u32_in(p, 8, o),
                all == Seq::new(used_key_count as nat, |i: int| key_entry_at(p, 12 + 12 * i, o)),
                i <= entries@.len(),
                forall|j: int| 0 <= j < i ==> (#[trigger] entries@[j]).id != u32::MAX && entries@[j].parent != u32::MAX,
                forall|j: int| 0 <= j < i && j + 1 < entries@.len() ==> key_le(#[trigger] entries@[j], entries@[j + 1]),
            decreases entries@.len() - i,
        {
            let e = entries[i];
            if e.id == u32::MAX || e.parent == u32::MAX {
                assert(all[i as int].id == u32::MAX || all[i as int].parent == u32::MAX);
                return Err(Error::InvalidData);
            }
            if i + 1 < entries.len() {
                let f = entries[i + 1];
                if !(e.parent < f.parent || (e.parent == f.parent && e.tag.0 <= f.tag.0)) {
                    assert(!key_le(all[i as int], all[i + 1]));
                    return Err(Error::InvalidData);
                }
            }
            i = i + 1;
        }
        Ok(KeyTable { header_size, entry_size, max_key_count, used_key_count, entries })
    }
}

} // verus!
