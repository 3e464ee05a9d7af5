use vstd::prelude::*;

use crate::error::{Error, ErrorKind};
use crate::reader::{u16_in, u32_in, ByteOrder, Reader};
use crate::tags::{Tag, TAG_mmap};

use super::Chunk;

verus! {

/// One memory-map entry: where a chunk lies in the file.
#[derive(Debug, Clone, Copy, PartialEq, Eq, Structural)]
pub struct MemoryMapEntry {
    pub id: u32,
    pub tag: Tag,
    pub len: u32,
    pub pos: u32,
    pub flags: u16,
    pub unknown0: u16,
    pub next: u32,
}

/// The entry with number `id` stored at offset `off`.
pub open spec fn mmap_entry_at(p: Seq<u8>, off: int, o: ByteOrder, id: int) -> MemoryMapEntry {
    MemoryMapEntry {
        id: id as u32,
        tag: Tag(u32_in(p, off, o) as u32),
        len: u32_in(p, off + 4, o) as u32,
        pos: u32_in(p, off + 8, o) as u32,
        flags: u16_in(p, off + 12, o) as u16,
        unknown0: u16_in(p, off + 14, o) as u16,
        next: u32_in(p, off + 16, o) as u32,
    }
}

impl MemoryMapEntry {
    /// Reads the 20 bytes of one entry and numbers it `id`.
    pub fn read(r: &mut Reader, id: u32) -> (res: Result<Self, Error>)
        ensures
            old(r).has(20) ==> res == Ok::<Self, Error>(
                mmap_entry_at(old(r).data(), old(r).pos(), old(r).order(), id as int),
            ) && old(r).moved(*final(r), 20),
            !old(r).has(20) ==> res is Err && res->Err_0.spec_kind() == ErrorKind::InvalidData,
            final(r).data() == old(r).data(),
            final(r).order() == old(r).order(),
    {
        let tag = Tag(r.read_u32()?);
        let len = r.read_u32()?;
        let pos = r.read_u32()?;
        let flags = r.read_u16()?;
        let unknown0 = r.read_u16()?;
        let next = r.read_u32()?;
        Ok(MemoryMapEntry { id, tag, len, pos, flags, unknown0, next })
    }

    pub fn id(&self) -> (v: u32)
        ensures
            v == self.id,
    {
        self.id
    }

    pub fn tag(&self) -> (v: Tag)
        ensures
            v == self.tag,
    {
        self.tag
    }

    pub fn len(&self) -> (v: u32)
        ensures
            v == self.len,
    {
        self.len
    }

    pub fn pos(&self) -> (v: u32)
        ensures
            v == self.pos,
    {
        self.pos
    }
}

/// The memory map: every chunk of the container, numbered from zero.
#[derive(Debug)]
pub struct MemoryMap {
    pub header_size: u16,
    pub entry_size: u16,
    pub chunk_count_max: u32,
    pub chunk_count_used: u32,
    pub junk_head: u32,
    pub junk_head2: u32,
    pub free_head: u32,
    pub entries: Vec<MemoryMapEntry>,
}

impl MemoryMap {
    pub open spec fn spec_entries(&self) -> Seq<MemoryMapEntry> {
        self.entries@
    }

    /// Entry `i` carries the number `i`.
    pub open spec fn wf(&self) -> bool {
        forall|i: int| 0 <= i < self.spec_entries().len() ==> (#[trigger] self.spec_entries()[i]).id == i
    }

    /// A memory map with no entries.
    pub fn empty() -> (m: Self)
        ensures
            m.spec_entries().len() == 0,
            m.wf(),
    {
        MemoryMap {
            header_size: 0,
            entry_size: 0,
            chunk_count_max: 0,
            chunk_count_used: 0,
            junk_head: 0,
            junk_head2: 0,
            free_head: 0,
            entries: Vec::new(),
        }
    }

    pub fn entries(&self) -> (e: &Vec<MemoryMapEntry>)
        ensures
            e@ == self.spec_entries(),
    {
        &self.entries
    }

    /// The entry numbered `index`.
    pub fn entry_by_index(&self, index: u32) -> (e: Option<&MemoryMapEntry>)
        ensures
            e is Some <==> index < self.spec_entries().len(),
            e is Some ==> *e.unwrap() == self.spec_entries()[index as int],
    {
        if (index as usize) < self.entries.len() {
            Some(&self.entries[index as usize])
        } else {
            None
        }
    }

    /// The first entry, in id order, that carries `tag`.
    pub fn first_entry_with_tag(&self, tag: Tag) -> (e: Option<&MemoryMapEntry>)
        ensures
            e is Some <==> exists|i: int| 0 <= i < self.spec_entries().len() && (#[trigger] self.spec_entries()[i]).tag == tag,
            e is Some ==> exists|i: int| 0 <= i < self.spec_entries().len() && *e.unwrap() == self.spec_entries()[i]
                && self.spec_entries()[i].tag == tag
                && forall|j: int| 0 <= j < i ==> (#[trigger] self.spec_entries()[j]).tag != tag,
    {
        let mut i: usize = 0;
        while i < self.entries.len()
            invariant
                i <= self.entries@.len(),
                forall|j: int| 0 <= j < i ==> (#[trigger] self.spec_entries()[j]).tag != tag,
            decreases self.entries@.len() - i,
        {
            if self.entries[i].tag.0 == tag.0 {
                assert(self.spec_entries()[i as int].tag == tag);
                return Some(&self.entries[i]);
            }
            i = i + 1;
        }
        None
    }
}

impl Chunk for MemoryMap {
    open spec fn spec_tag() -> u32 {
        TAG_mmap
    }

    open spec fn parsed(payload: Seq<u8>, order: ByteOrder, id: u32, v: Self) -> bool {
        let n = u32_in(payload, 8, order);
        &&& payload.len() >= 24 + 20 * n
        &&& v.header_size == u16_in(payload, 0, order)
        &&& v.entry_size == u16_in(payload, 2, order)
        &&& v.chunk_count_max == u32_in(payload, 4, order)
        &&& v.chunk_count_used == n
        &&& v.junk_head == u32_in(payload, 12, order)
        &&& v.junk_head2 == u32_in(payload, 16, order)
        &&& v.free_head == u32_in(payload, 20, order)
        &&& v.spec_entries().len() == n
        &&& forall|i: int|
            0 <= i < n ==> #[trigger] v.spec_entries()[i] == mmap_entry_at(payload, 24 + 20 * i, order, i)
        &&& v.wf()
    }

    open spec fn refused(payload: Seq<u8>, order: ByteOrder) -> bool {
        payload.len() < 24 || payload.len() < 24 + 20 * u32_in(payload, 8, order)
    }

    fn tag() -> (t: Tag) {
        Tag(TAG_mmap)
    }

    fn read(r: &mut Reader, _id: u32) -> (res: Result<Self, Error>) {
        let mut c = r.remaining();
        let ghost p = c.data();
        let ghost o = c.order();
        let header_size = c.read_u16()?;
        let entry_size = c.read_u16()?;
        let chunk_count_max = c.read_u32()?;
        let chunk_count_used = c.read_u32()?;
        let junk_head = c.read_u32()?;
        let junk_head2 = c.read_u32()?;
        let free_head = c.read_u32()?;
        let mut entries: Vec<MemoryMapEntry> = Vec::new();
        let mut id: u32 = 0;
        while id < chunk_count_used
            invariant
                c.data() == p,
                c.order() == o,
                p == old(r).rest(),
                o == old(r).order(),
                p.len() >= 24,
                chunk_count_used == u32_in(p, 8, o),
                id <= chunk_count_used,
                c.pos() == 24 + 20 * id,
                24 + 20 * id <= p.len(),
                entries@.len() == id,
                forall|i: int| 0 <= i < id ==> #[trigger] entries@[i] == mmap_entry_at(p, 24 + 20 * i, o, i),
            decreases chunk_count_used - id,
        {
            let e = MemoryMapEntry::read(&mut c, id)?;
            entries.push(e);
            id = id + 1;
        }
        assert forall|i: int| 0 <= i < entries@.len() implies (#[trigger] entries@[i]).id == i by {
            assert(entries@[i] == mmap_entry_at(p, 24 + 20 * i, o, i));
        }
        Ok(MemoryMap {
            header_size,
            entry_size,
            chunk_count_max,
            chunk_count_used,
            junk_head,
            junk_head2,
            free_head,
            entries,
        })
    }
}

} // verus!
