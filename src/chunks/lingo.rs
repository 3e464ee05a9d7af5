//! Lingo chunks, read for their structure only: context, names and scripts.

use vstd::prelude::*;

use crate::error::{Error, ErrorKind};
use crate::reader::{be_u16, be_u32, fixed_str, ByteOrder, Reader};
use crate::tags::{Tag, TAG_Lctx, TAG_Lnam, TAG_Lscr};

use super::Chunk;

verus! {

/// One script slot of a Lingo context.
#[derive(Debug, Clone, Copy, PartialEq, Eq, Structural)]
pub struct LingoContextEntry {
    pub unknown0: u32,
    pub script_id: u32,
    pub unknown1: u16,
    pub unknown2: u16,
}

/// The context entry stored at `o`.
pub open spec fn lctx_entry_at(p: Seq<u8>, o: int) -> LingoContextEntry {
    LingoContextEntry {
        unknown0: be_u32(p, o) as u32,
        script_id: be_u32(p, o + 4) as u32,
        unknown1: be_u16(p, o + 8) as u16,
        unknown2: be_u16(p, o + 10) as u16,
    }
}

impl LingoContextEntry {
    /// The script chunk id; `u32::MAX` means the slot is empty.
    pub fn script_id(&self) -> (r: Option<u32>)
        ensures
            r == if self.script_id == u32::MAX {
                None::<u32>
            } else {
                Some(self.script_id)
            },
    {
        if self.script_id == u32::MAX {
            None
        } else {
            Some(self.script_id)
        }
    }
}

/// The Lingo context: script slots and the id of the names chunk.
#[derive(Debug)]
pub struct LingoContext {
    pub unknown0: u32,
    pub unknown1: u32,
    pub entry_count: u32,
    pub entry_count_2: u32,
    pub entries_offset: u16,
    pub unknown2: u16,
    pub unknown3: u32,
    pub unknown4: u32,
    pub unknown5: u32,
    pub names_chunk_id: u32,
    pub valid_count: u16,
    pub flags: u16,
    pub free_pointer: u16,
    pub entries: Vec<LingoContextEntry>,
}

impl LingoContext {
    pub fn names_chunk_id(&self) -> (v: u32)
        ensures
            v == self.names_chunk_id,
    {
        self.names_chunk_id
    }

    pub fn entries(&self) -> (e: &Vec<LingoContextEntry>)
        ensures
            e@ == self.entries@,
    {
        &self.entries
    }
}

impl Chunk for LingoContext {
    open spec fn spec_tag() -> u32 {
        TAG_Lctx
    }

    open spec fn parsed(payload: Seq<u8>, order: ByteOrder, id: u32, v: Self) -> bool {
        let p = payload;
        &&& p.len() >= 42
        &&& v.unknown0 == be_u32(p, 0) && v.unknown1 == be_u32(p, 4)
        &&& v.entry_count == be_u32(p, 8) && v.entry_count_2 == be_u32(p, 12)
        &&& v.entries_offset == be_u16(p, 16) && v.unknown2 == be_u16(p, 18)
        &&& v.unknown3 == be_u32(p, 20) && v.unknown4 == be_u32(p, 24) && v.unknown5 == be_u32(p, 28)
        &&& v.names_chunk_id == be_u32(p, 32)
        &&& v.valid_count == be_u16(p, 36) && v.flags == be_u16(p, 38) && v.free_pointer == be_u16(p, 40)
        &&& (be_u32(p, 8) == 0 || be_u16(p, 16) + 12 * be_u32(p, 8) <= p.len())
        &&& v.entries@.len() == be_u32(p, 8)
        &&& forall|k: int| 0 <= k < be_u32(p, 8) ==> #[trigger] v.entries@[k] == lctx_entry_at(p, be_u16(p, 16) + 12 * k)
    }

    open spec fn refused(payload: Seq<u8>, order: ByteOrder) -> bool {
        payload.len() < 42 || (be_u32(payload, 8) != 0 && be_u16(payload, 16) + 12 * be_u32(payload, 8) > payload.len())
    }

    fn tag() -> (t: Tag) {
        Tag(TAG_Lctx)
    }

    fn read(r: &mut Reader, _id: u32) -> (res: Result<Self, Error>) {
        let mut c = r.remaining();
        let ghost p = c.data();
        let unknown0 = c.read_be_u32()?;
        let unknown1 = c.read_be_u32()?;
        let entry_count = c.read_be_u32()?;
        let entry_count_2 = c.read_be_u32()?;
        let entries_offset = c.read_be_u16()?;
        let unknown2 = c.read_be_u16()?;
        let unknown3 = c.read_be_u32()?;
        let unknown4 = c.read_be_u32()?;
        let unknown5 = c.read_be_u32()?;
        let names_chunk_id = c.read_be_u32()?;
        let valid_count = c.read_be_u16()?;
        let flags = c.read_be_u16()?;
        let free_pointer = c.read_be_u16()?;
        c.seek(entries_offset as usize);
        let mut entries: Vec<LingoContextEntry> = Vec::new();
        let mut k: u32 = 0;
        while k < entry_count
            invariant
                c.data() == p,
                p == old(r).rest(),
                p.len() >= 42,
                entry_count == be_u32(p, 8),
                entries_offset == be_u16(p, 16),
                k <= entry_count,
                c.pos() == entries_offset + 12 * k,
                k > 0 ==> c.pos() <= p.len(),
                entries@.len() == k,
                forall|j: int| 0 <= j < k ==> #[trigger] entries@[j] == lctx_entry_at(p, entries_offset + 12 * j),
            decreases entry_count - k,
        {
            let unknown0 = c.read_be_u32()?;
            let script_id = c.read_be_u32()?;
            let unknown1 = c.read_be_u16()?;
            let unknown2 = c.read_be_u16()?;
            entries.push(LingoContextEntry { unknown0, script_id, unknown1, unknown2 });
            k = k + 1;
        }
        Ok(LingoContext {
            unknown0,
            unknown1,
            entry_count,
            entry_count_2,
            entries_offset,
            unknown2,
            unknown3,
            unknown4,
            unknown5,
            names_chunk_id,
            valid_count,
            flags,
            free_pointer,
            entries,
        })
    }
}

/// Position of name `k` of a names chunk whose first name is at `start`:
/// each is a length byte and that many bytes.
pub open spec fn lnam_pos(p: Seq<u8>, start: int, k: int) -> int
    decreases k,
{
    if k <= 0 {
        start
    } else {
        let q = lnam_pos(p, start, k - 1);
        q + 1 + p[q]
    }
}

/// Each of the `n` names from `start` on lies in the buffer.
pub open spec fn lnam_fits(p: Seq<u8>, start: int, n: int) -> bool {
    forall|k: int| 0 <= k < n ==> #[trigger] lnam_pos(p, start, k) < p.len() && lnam_pos(p, start, k + 1) <= p.len()
}

/// The Lingo names table.
#[derive(Debug)]
pub struct LingoNames {
    pub unknown0: u32,
    pub unknown1: u32,
    pub len1: u32,
    pub len2: u32,
    pub names_offset: u16,
    pub names_count: u16,
    pub names: Vec<String>,
}

impl Chunk for LingoNames {
    open spec fn spec_tag() -> u32 {
        TAG_Lnam
    }

    open spec fn parsed(payload: Seq<u8>, order: ByteOrder, id: u32, v: Self) -> bool {
        let p = payload;
        let start = be_u16(p, 16);
        &&& p.len() >= 20
        &&& v.unknown0 == be_u32(p, 0) && v.unknown1 == be_u32(p, 4)
        &&& v.len1 == be_u32(p, 8) && v.len2 == be_u32(p, 12)
        &&& v.names_offset == start && v.names_count == be_u16(p, 18)
        &&& lnam_fits(p, start, be_u16(p, 18))
        &&& v.names@.len() == be_u16(p, 18)
        &&& forall|k: int| 0 <= k < be_u16(p, 18) ==> #[trigger] v.names@[k]@ == fixed_str(
            p.subrange(lnam_pos(p, start, k) + 1, lnam_pos(p, start, k + 1)),
        )
    }

    open spec fn refused(payload: Seq<u8>, order: ByteOrder) -> bool {
        payload.len() < 20 || !lnam_fits(payload, be_u16(payload, 16), be_u16(payload, 18))
    }

    fn tag() -> (t: Tag) {
        Tag(TAG_Lnam)
    }

    fn read(r: &mut Reader, _id: u32) -> (res: Result<Self, Error>) {
        let mut c = r.remaining();
        let ghost p = c.data();
        let unknown0 = c.read_be_u32()?;
        let unknown1 = c.read_be_u32()?;
        let len1 = c.read_be_u32()?;
        let len2 = c.read_be_u32()?;
        let names_offset = c.read_be_u16()?;
        let names_count = c.read_be_u16()?;
        c.seek(names_offset as usize);
        let mut names: Vec<String> = Vec::new();
        let mut k: u16 = 0;
        while k < names_count
            invariant
                c.data() == p,
                p == old(r).rest(),
                p.len() >= 20,
                names_offset == be_u16(p, 16),
                names_count == be_u16(p, 18),
                k <= names_count,
                c.pos() == lnam_pos(p, names_offset as int, k as int),
                lnam_fits(p, names_offset as int, k as int),
                names@.len() == k,
                forall|j: int| 0 <= j < k ==> #[trigger] names@[j]@ == fixed_str(
                    p.subrange(lnam_pos(p, names_offset as int, j) + 1, lnam_pos(p, names_offset as int, j + 1)),
                ),
            decreases names_count - k,
        {
            let ghost at = c.pos();
            let name = match c.read_pascal_str() {
                Ok(s) => s,
                Err(e) => {
                    assert(!(lnam_pos(p, names_offset as int, k as int) < p.len() && lnam_pos(p, names_offset as int, k + 1) <= p.len()));
                    return Err(e);
                },
            };
            names.push(name);
            k = k + 1;
        }
        Ok(LingoNames { unknown0, unknown1, len1, len2, names_offset, names_count, names })
    }
}

/// One handler record of a compiled script.
#[derive(Debug, Clone, Copy, PartialEq, Eq, Structural)]
pub struct Handler {
    pub name_id: u16,
    pub vector_pos: u16,
    pub compiled_len: u32,
    pub compiled_offset: u32,
    pub argument_count: u16,
    pub argument_offset: u32,
    pub locals_count: u16,
    pub locals_offset: u32,
    pub globals_count: u16,
    pub globals_offset: u32,
    pub unknown1: u32,
    pub unknown2: u16,
    pub line_count: u16,
    pub line_offset: u32,
}

/// The handler record stored at `o`.
pub open spec fn handler_at(p: Seq<u8>, o: int) -> Handler {
    Handler {
        name_id: be_u16(p, o) as u16,
        vector_pos: be_u16(p, o + 2) as u16,
        compiled_len: be_u32(p, o + 4) as u32,
        compiled_offset: be_u32(p, o + 8) as u32,
        argument_count: be_u16(p, o + 12) as u16,
        argument_offset: be_u32(p, o + 14) as u32,
        locals_count: be_u16(p, o + 18) as u16,
        locals_offset: be_u32(p, o + 20) as u32,
        globals_count: be_u16(p, o + 24) as u16,
        globals_offset: be_u32(p, o + 26) as u32,
        unknown1: be_u32(p, o + 30) as u32,
        unknown2: be_u16(p, o + 34) as u16,
        line_count: be_u16(p, o + 36) as u16,
        line_offset: be_u32(p, o + 38) as u32,
    }
}

impl Handler {
    pub fn read(r: &mut Reader) -> (res: Result<Self, Error>)
        ensures
            old(r).has(42) ==> res == Ok::<Self, Error>(handler_at(old(r).data(), old(r).pos()))
                && old(r).moved(*final(r), 42),
            !old(r).has(42) ==> res is Err && res->Err_0.spec_kind() == ErrorKind::InvalidData,
            final(r).data() == old(r).data(),
    {
        let name_id = r.read_be_u16()?;
        let vector_pos = r.read_be_u16()?;
        let compiled_len = r.read_be_u32()?;
        let compiled_offset = r.read_be_u32()?;
        let argument_count = r.read_be_u16()?;
        let argument_offset = r.read_be_u32()?;
        let locals_count = r.read_be_u16()?;
        let locals_offset = r.read_be_u32()?;
        let globals_count = r.read_be_u16()?;
        let globals_offset = r.read_be_u32()?;
        let unknown1 = r.read_be_u32()?;
        let unknown2 = r.read_be_u16()?;
        let line_count = r.read_be_u16()?;
        let line_offset = r.read_be_u32()?;
        Ok(Handler {
            name_id,
            vector_pos,
            compiled_len,
            compiled_offset,
            argument_count,
            argument_offset,
            locals_count,
            locals_offset,
            globals_count,
            globals_offset,
            unknown1,
            unknown2,
            line_count,
            line_offset,
        })
    }
}

/// The header of a compiled Lingo script, with its name tables and handler records.
#[derive(Debug)]
pub struct LingoScript {
    pub total_length: u32,
    pub total_length2: u32,
    pub header_length: u16,
    pub script_number: u16,
    pub unk20: u16,
    pub parent_number: u16,
    pub script_flags: u32,
    pub unk42: u16,
    pub cast_id: u32,
    pub factory_name_id: u16,
    pub handler_vectors_count: u16,
    pub handler_vectors_offset: u32,
    pub handler_vectors_size: u32,
    pub properties_count: u16,
    pub properties_offset: u32,
    pub globals_count: u16,
    pub globals_offset: u32,
    pub handlers_count: u16,
    pub handlers_offset: u32,
    pub literals_count: u16,
    pub literals_offset: u32,
    pub literals_data_count: u32,
    pub literals_data_offset: u32,
    pub property_name_ids: Vec<u16>,
    pub global_name_ids: Vec<u16>,
    pub handlers: Vec<Handler>,
}

/// `ids` are the `n` big-endian words from `o` on.
pub open spec fn words_at(p: Seq<u8>, o: int, n: int, ids: Seq<u16>) -> bool {
    &&& ids.len() == n
    &&& forall|k: int| 0 <= k < n ==> #[trigger] ids[k] == be_u16(p, o + 2 * k)
}

/// How many whole handler records of the `n` announced fit from `o` on.
pub open spec fn handlers_fitting(p: Seq<u8>, o: int, n: int) -> int {
    let room = if o <= p.len() { (p.len() - o) / 42 } else { 0 };
    if room < n { room } else { n }
}

/// The fixed header fields of a script chunk.
pub open spec fn lscr_header(p: Seq<u8>, v: LingoScript) -> bool {
    &&& v.total_length == be_u32(p, 8) && v.total_length2 == be_u32(p, 12)
    &&& v.header_length == be_u16(p, 16) && v.script_number == be_u16(p, 18)
    &&& v.unk20 == be_u16(p, 20) && v.parent_number == be_u16(p, 22)
    &&& v.script_flags == be_u32(p, 38) && v.unk42 == be_u16(p, 42) && v.cast_id == be_u32(p, 44)
    &&& v.factory_name_id == be_u16(p, 48) && v.handler_vectors_count == be_u16(p, 50)
    &&& v.handler_vectors_offset == be_u32(p, 52) && v.handler_vectors_size == be_u32(p, 56)
    &&& v.properties_count == be_u16(p, 60) && v.properties_offset == be_u32(p, 62)
    &&& v.globals_count == be_u16(p, 66) && v.globals_offset == be_u32(p, 68)
    &&& v.handlers_count == be_u16(p, 72) && v.handlers_offset == be_u32(p, 74)
    &&& v.literals_count == be_u16(p, 78) && v.literals_offset == be_u32(p, 80)
    &&& v.literals_data_count == be_u32(p, 84) && v.literals_data_offset == be_u32(p, 88)
}

impl Chunk for LingoScript {
    open spec fn spec_tag() -> u32 {
        TAG_Lscr
    }

    /// Handler records are read while they fit; the name tables must be complete.
    open spec fn parsed(payload: Seq<u8>, order: ByteOrder, id: u32, v: Self) -> bool {
        let p = payload;
        &&& p.len() >= 92
        &&& lscr_header(p, v)
        &&& (be_u16(p, 60) == 0 || be_u32(p, 62) + 2 * be_u16(p, 60) <= p.len())
        &&& (be_u16(p, 66) == 0 || be_u32(p, 68) + 2 * be_u16(p, 66) <= p.len())
        &&& words_at(p, be_u32(p, 62), be_u16(p, 60), v.property_name_ids@)
        &&& words_at(p, be_u32(p, 68), be_u16(p, 66), v.global_name_ids@)
        &&& v.handlers@.len() == handlers_fitting(p, be_u32(p, 74), be_u16(p, 72))
        &&& forall|k: int| 0 <= k < v.handlers@.len() ==> #[trigger] v.handlers@[k] == handler_at(p, be_u32(p, 74) + 42 * k)
    }

    open spec fn refused(payload: Seq<u8>, order: ByteOrder) -> bool {
        let p = payload;
        ||| p.len() < 92
        ||| (be_u16(p, 60) != 0 && be_u32(p, 62) + 2 * be_u16(p, 60) > p.len())
        ||| (be_u16(p, 66) != 0 && be_u32(p, 68) + 2 * be_u16(p, 66) > p.len())
    }

    fn tag() -> (t: Tag) {
        Tag(TAG_Lscr)
    }

    fn read(r: &mut Reader, _id: u32) -> (res: Result<Self, Error>) {
        let mut c = r.remaining();
        let ghost p = c.data();
        if c.stream_len() < 92 {
            return Err(Error::UnexpectedEof);
        }
        c.seek(8);
        let total_length = c.read_be_u32()?;
        let total_length2 = c.read_be_u32()?;
        let header_length = c.read_be_u16()?;
        let script_number = c.read_be_u16()?;
        let unk20 = c.read_be_u16()?;
        let parent_number = c.read_be_u16()?;
        c.seek(38);
        let script_flags = c.read_be_u32()?;
        let unk42 = c.read_be_u16()?;
        let cast_id = c.read_be_u32()?;
        let factory_name_id = c.read_be_u16()?;
        let handler_vectors_count = c.read_be_u16()?;
        let handler_vectors_offset = c.read_be_u32()?;
        let handler_vectors_size = c.read_be_u32()?;
        let properties_count = c.read_be_u16()?;
        let properties_offset = c.read_be_u32()?;
        let globals_count = c.read_be_u16()?;
        let globals_offset = c.read_be_u32()?;
        let handlers_count = c.read_be_u16()?;
        let handlers_offset = c.read_be_u32()?;
        let literals_count = c.read_be_u16()?;
        let literals_offset = c.read_be_u32()?;
        let literals_data_count = c.read_be_u32()?;
        let literals_data_offset = c.read_be_u32()?;
        let property_name_ids = read_words(&mut c, properties_offset as usize, properties_count)?;
        let global_name_ids = read_words(&mut c, globals_offset as usize, globals_count)?;
        let handlers = read_handlers(&mut c, handlers_offset as usize, handlers_count);
        Ok(LingoScript {
            total_length,
            total_length2,
            header_length,
            script_number,
            unk20,
            parent_number,
            script_flags,
            unk42,
            cast_id,
            factory_name_id,
            handler_vectors_count,
            handler_vectors_offset,
            handler_vectors_size,
            properties_count,
            properties_offset,
            globals_count,
            globals_offset,
            handlers_count,
            handlers_offset,
            literals_count,
            literals_offset,
            literals_data_count,
            literals_data_offset,
            property_name_ids,
            global_name_ids,
            handlers,
        })
    }
}

/// Reads `n` big-endian words from absolute position `o`.
fn read_words(c: &mut Reader, o: usize, n: u16) -> (res: Result<Vec<u16>, Error>)
    ensures
        final(c).data() == old(c).data(),
        res is Ok <==> n == 0 || o + 2 * n <= old(c).data().len(),
        res is Ok ==> words_at(old(c).data(), o as int, n as int, res.unwrap()@),
        res is Err ==> res->Err_0.spec_kind() == ErrorKind::InvalidData,
{
    let ghost p = c.data();
    c.seek(o);
    let mut ids: Vec<u16> = Vec::new();
    let mut k: u16 = 0;
    while k < n
        invariant
            c.data() == p,
            p == old(c).data(),
            k <= n,
            c.pos() == o + 2 * k,
            k > 0 ==> c.pos() <= p.len(),
            ids@.len() == k,
            forall|j: int| 0 <= j < k ==> #[trigger] ids@[j] == be_u16(p, o + 2 * j),
        decreases n - k,
    {
        let v = c.read_be_u16()?;
        ids.push(v);
        k = k + 1;
    }
    Ok(ids)
}

/// Reads up to `n` handler records from absolute position `o`, while they fit.
fn read_handlers(c: &mut Reader, o: usize, n: u16) -> (hs: Vec<Handler>)
    ensures
        final(c).data() == old(c).data(),
        hs@.len() == handlers_fitting(old(c).data(), o as int, n as int),
        forall|k: int| 0 <= k < hs@.len() ==> #[trigger] hs@[k] == handler_at(old(c).data(), o + 42 * k),
{
    let ghost p = c.data();
    c.seek(o);
    let mut hs: Vec<Handler> = Vec::new();
    let mut k: u16 = 0;
    while k < n
        invariant
            c.data() == p,
            p == old(c).data(),
            k <= n,
            c.pos() == o + 42 * k,
            k > 0 ==> c.pos() <= p.len(),
            k <= handlers_fitting(p, o as int, n as int),
            hs@.len() == k,
            forall|j: int| 0 <= j < k ==> #[trigger] hs@[j] == handler_at(p, o + 42 * j),
        decreases n - k,
    {
        let ghost at = c.pos();
        match Handler::read(c) {
            Ok(h) => hs.push(h),
            Err(_) => {
                assert(handlers_fitting(p, o as int, n as int) == k) by (nonlinear_arith)
                    requires at == o + 42 * k, at + 42 > p.len(), k > 0 ==> at <= p.len(), k <= handlers_fitting(p, o as int, n as int),
                        handlers_fitting(p, o as int, n as int) == (if (if o <= p.len() { (p.len() - o) / 42 } else { 0 }) < n { if o <= p.len() { (p.len() - o) / 42 } else { 0 } } else { n as int });
                return hs;
            },
        }
        k = k + 1;
    }
    hs
}

} // verus!
