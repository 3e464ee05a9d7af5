//! A container: its header, its indices, and the chunks read through them.

use vstd::prelude::*;

use crate::cast_members::bitmap::bitmap_info_of;
use crate::cast_members::cast_member::{
    cm_body_ok, cm_data, cm_data_start, cm_frame_ok, cm_list, member_type, script_type_of, type_id,
};
use crate::cast_members::{CastMember, CastMemberId};
use crate::chunks::cast_table::members_sorted;
use crate::chunks::file_info::text_is;
use crate::chunks::key_table::keys_valid;
use crate::chunks::memory_map::mmap_entry_at;
use crate::chunks::{
    chunk_result, frame_result, payload_at, read_chunk_from_reader, read_chunk_from_reader_with_tag, CastTable, Chunk,
    ColorLookupTable, Config, FileInfo, FrameLabels, InitialMap, KeyTable, KeyTableEntry,
    LingoContext, LingoNames, LingoScript, MemoryMap, MemoryMapEntry, Score, StyledText,
    BitmapData, Thumbnail,
};
use crate::error::Error;
use crate::reader::{be_u16, be_u32, le_u32, u32_in, ByteOrder, Reader};
use crate::tags::{Tag, TAG_DRCF, TAG_RIFX, TAG_VWCF, TAG_XFIR, TAG_imap, TAG_mmap, TAG_CASt};
use crate::version::{human_version, Version};
use crate::vlist::vl_string;


verus! {

/// The chunk id that owns the movie-wide chunks: configuration, cast table,
/// score, frame labels, file info and Lingo context.
pub const GLOBAL_ID: u32 = 1024;

/// The byte order a container magic selects: `XFIR` little-endian, `RIFX` big-endian.
pub open spec fn order_of_magic(magic: int) -> Option<ByteOrder> {
    if magic == TAG_XFIR {
        Some(ByteOrder::LittleEndian)
    } else if magic == TAG_RIFX {
        Some(ByteOrder::BigEndian)
    } else {
        None
    }
}

/// Byte-order detection reads a container's size back as it was written: a
/// `RIFX` header stores it big-endian, an `XFIR` header little-endian, and
/// the order the magic selects reads exactly that value (which, for a
/// well-formed file, is below the buffer's length).
pub proof fn lemma_byte_order_detection(d: Seq<u8>, b: int, size: int)
    requires
        0 <= b,
        b + 8 <= d.len(),
        be_u32(d, b) == TAG_RIFX ==> be_u32(d, b + 4) == size,
        be_u32(d, b) == TAG_XFIR ==> le_u32(d, b + 4) == size,
        order_of_magic(be_u32(d, b)) is Some,
    ensures
        u32_in(d, b + 4, order_of_magic(be_u32(d, b)).unwrap()) == size,
        order_of_magic(be_u32(d, b)) == Some(ByteOrder::BigEndian) <==> be_u32(d, b) == TAG_RIFX,
{
}

/// Where the memory map of the container at `b` lies: the offset its initial map holds.
pub open spec fn mmap_pos(d: Seq<u8>, b: int, o: ByteOrder) -> int {
    u32_in(payload_at(d, b + 12, o), 4, o)
}

/// The container at `b`, read in order `o`, opens: its header is complete,
/// its initial map and the memory map it points to frame and parse.
pub open spec fn opens(d: Seq<u8>, b: int, o: ByteOrder) -> bool {
    &&& b + 12 <= d.len()
    &&& frame_result(d, b + 12, o, Tag(TAG_imap)) is Ok
    &&& !InitialMap::refused(payload_at(d, b + 12, o), o)
    &&& frame_result(d, mmap_pos(d, b, o), o, Tag(TAG_mmap)) is Ok
    &&& !MemoryMap::refused(payload_at(d, mmap_pos(d, b, o), o), o)
}

/// A container opens at `b`: its magic is `RIFX` or `XFIR` and it opens in that order.
pub open spec fn opens_at(d: Seq<u8>, b: int) -> bool {
    &&& 0 <= b
    &&& b + 4 <= d.len()
    &&& order_of_magic(be_u32(d, b)) is Some
    &&& opens(d, b, order_of_magic(be_u32(d, b)).unwrap())
}

/// The memory-map entries of the container at `b`, read in order `o`.
pub open spec fn mmap_entries_of(d: Seq<u8>, b: int, o: ByteOrder) -> Seq<MemoryMapEntry> {
    let p = payload_at(d, mmap_pos(d, b, o), o);
    Seq::new(u32_in(p, 8, o) as nat, |i: int| mmap_entry_at(p, 24 + 20 * i, o, i))
}

/// `f` is the container at `b` of `d`, as `new` opens it.
pub open spec fn opened_at(f: RiffFile, d: Seq<u8>, b: int) -> bool {
    &&& order_of_magic(be_u32(d, b)) == Some(f.spec_order())
    &&& f.spec_data() == d
    &&& f.spec_size() == u32_in(d, b + 4, f.spec_order())
    &&& f.spec_type_tag() == Tag(u32_in(d, b + 8, f.spec_order()) as u32)
    &&& InitialMap::parsed(payload_at(d, b + 12, f.spec_order()), f.spec_order(), 1, f.spec_imap())
    &&& f.spec_mmap() == mmap_entries_of(d, b, f.spec_order())
}

/// The first key-table entry, from `i` on, filed under `parent` with `tag`.
pub open spec fn first_key(s: Seq<KeyTableEntry>, parent: u32, tag: u32, i: int) -> Option<u32>
    decreases s.len() - i,
{
    if i < 0 || i >= s.len() {
        None
    } else if s[i].parent == parent && s[i].tag.0 == tag {
        Some(s[i].id)
    } else {
        first_key(s, parent, tag, i + 1)
    }
}

/// The first memory-map entry, from `i` on, with `tag`.
pub open spec fn first_tagged(s: Seq<MemoryMapEntry>, tag: u32, i: int) -> Option<MemoryMapEntry>
    decreases s.len() - i,
{
    if i < 0 || i >= s.len() {
        None
    } else if s[i].tag.0 == tag {
        Some(s[i])
    } else {
        first_tagged(s, tag, i + 1)
    }
}

proof fn lemma_first_key(s: Seq<KeyTableEntry>, parent: u32, tag: u32, i: int, k: Option<int>)
    requires
        0 <= i <= s.len(),
        forall|j: int| i <= j < s.len() && (k is None || j < k.unwrap()) ==> !(#[trigger] s[j].parent == parent && s[j].tag.0 == tag),
        k is Some ==> i <= k.unwrap() < s.len() && s[k.unwrap()].parent == parent && s[k.unwrap()].tag.0 == tag,
    ensures
        first_key(s, parent, tag, i) == match k {
            Some(x) => Some(s[x].id),
            None => None::<u32>,
        },
    decreases s.len() - i,
{
    if i < s.len() {
        if k is Some && k.unwrap() == i {
        } else {
            lemma_first_key(s, parent, tag, i + 1, k);
        }
    }
}

proof fn lemma_first_tagged(s: Seq<MemoryMapEntry>, tag: u32, i: int, k: Option<int>)
    requires
        0 <= i <= s.len(),
        forall|j: int| i <= j < s.len() && (k is None || j < k.unwrap()) ==> (#[trigger] s[j]).tag.0 != tag,
        k is Some ==> i <= k.unwrap() < s.len() && s[k.unwrap()].tag.0 == tag,
    ensures
        first_tagged(s, tag, i) == match k {
            Some(x) => Some(s[x]),
            None => None::<MemoryMapEntry>,
        },
    decreases s.len() - i,
{
    if i < s.len() {
        if k is Some && k.unwrap() == i {
        } else {
            lemma_first_tagged(s, tag, i + 1, k);
        }
    }
}

/// The first key-table entry filed under `parent` with `tag`, by binary search.
fn find_key(key_table: &KeyTable, tag: Tag, parent: u32) -> (r: Option<u32>)
    requires
        keys_valid(key_table.entries@),
    ensures
        r == first_key(key_table.entries@, parent, tag.0, 0),
{
    let r = key_table.find_id_of_chunk_with_parent(tag, parent);
    proof {
        let s = key_table.entries@;
        match r {
            Some(x) => {
                let i = choose|i: int| 0 <= i < s.len() && (#[trigger] s[i]).parent == parent
                    && s[i].tag == tag && s[i].id == x
                    && forall|j: int| 0 <= j < i ==> !(s[j].parent == parent && s[j].tag == tag);
                assert forall|j: int| 0 <= j < s.len() && j < i implies !(#[trigger] s[j].parent == parent && s[j].tag.0 == tag.0) by {
                    if s[j].parent == parent && s[j].tag.0 == tag.0 {
                        assert(s[j].tag == tag);
                    }
                }
                lemma_first_key(s, parent, tag.0, 0, Some(i));
            },
            None => {
                assert forall|j: int| 0 <= j < s.len() implies !(#[trigger] s[j].parent == parent && s[j].tag.0 == tag.0) by {
                    if s[j].parent == parent && s[j].tag.0 == tag.0 {
                        assert(s[j].tag == tag);
                    }
                }
                lemma_first_key(s, parent, tag.0, 0, None);
            },
        }
    }
    r
}

/// The first memory-map entry with `tag`.
pub(crate) fn find_tagged(mmap: &MemoryMap, tag: Tag) -> (r: Option<MemoryMapEntry>)
    ensures
        r == first_tagged(mmap.spec_entries(), tag.0, 0),
{
    let r = mmap.first_entry_with_tag(tag);
    proof {
        let s = mmap.spec_entries();
        match r {
            Some(e) => {
                let i = choose|i: int| 0 <= i < s.len() && *e == s[i] && s[i].tag == tag
                    && forall|j: int| 0 <= j < i ==> (#[trigger] s[j]).tag != tag;
                assert forall|j: int| 0 <= j < s.len() && j < i implies (#[trigger] s[j]).tag.0 != tag.0 by {
                    if s[j].tag.0 == tag.0 {
                        assert(s[j].tag == tag);
                    }
                }
                lemma_first_tagged(s, tag.0, 0, Some(i));
            },
            None => {
                assert forall|j: int| 0 <= j < s.len() implies (#[trigger] s[j]).tag.0 != tag.0 by {
                    if s[j].tag.0 == tag.0 {
                        assert(s[j].tag == tag);
                    }
                }
                lemma_first_tagged(s, tag.0, 0, None);
            },
        }
    }
    match r {
        Some(e) => Some(*e),
        None => None,
    }
}

/// An opened container, borrowing the bytes it was read from.
#[derive(Debug)]
pub struct RiffFile<'a> {
    size: u32,
    type_tag: Tag,
    byte_order: ByteOrder,
    version: Version,
    imap: InitialMap,
    mmap: MemoryMap,
    key_table: KeyTable,
    config: Config,
    cast_table: CastTable,
    score: Score,
    frame_labels: FrameLabels,
    lingo_context: Option<LingoContext>,
    lingo_names: Option<LingoNames>,
    lingo_script: Option<LingoScript>,
    file_info: Option<FileInfo>,
    reader: Reader<'a>,
}

impl<'a> RiffFile<'a> {
    pub closed spec fn spec_data(&self) -> Seq<u8> {
        self.reader.data()
    }

    pub closed spec fn spec_order(&self) -> ByteOrder {
        self.byte_order
    }

    pub closed spec fn spec_size(&self) -> u32 {
        self.size
    }

    pub closed spec fn spec_type_tag(&self) -> Tag {
        self.type_tag
    }

    pub closed spec fn spec_version(&self) -> Version {
        self.version
    }

    pub closed spec fn spec_imap(&self) -> InitialMap {
        self.imap
    }

    pub closed spec fn spec_memory_map(&self) -> MemoryMap {
        self.mmap
    }

    pub closed spec fn spec_mmap(&self) -> Seq<MemoryMapEntry> {
        self.mmap.spec_entries()
    }

    pub closed spec fn spec_key_table(&self) -> KeyTable {
        self.key_table
    }

    pub closed spec fn spec_keys(&self) -> Seq<KeyTableEntry> {
        self.key_table.entries@
    }

    pub closed spec fn spec_config(&self) -> Config {
        self.config
    }

    pub closed spec fn spec_cast_table(&self) -> Seq<(i16, u32)> {
        self.cast_table.cast_member_ids@
    }

    pub closed spec fn spec_has_lingo_context(&self) -> bool {
        self.lingo_context is Some
    }

    pub closed spec fn spec_names_chunk_id(&self) -> u32 {
        self.lingo_context.unwrap().names_chunk_id
    }

    /// The indices keep their invariants: entry `i` of the memory map is
    /// numbered `i`, the key table is sorted, cast members are in order.
    pub closed spec fn wf(&self) -> bool {
        &&& self.mmap.wf()
        &&& keys_valid(self.key_table.entries@)
        &&& members_sorted(self.cast_table.cast_member_ids@)
        &&& self.reader.order() == self.byte_order
    }

    /// The chunk numbered `id` read as `C`, or `NotFound` when the memory map has no such entry.
    pub open spec fn by_id<C: Chunk>(&self, id: u32, res: Result<C, Error>) -> bool {
        let m = self.spec_mmap();
        if id < m.len() {
            chunk_result::<C>(self.spec_data(), m[id as int].pos as int, self.spec_order(), Tag(C::spec_tag()), m[id as int].id, res)
        } else {
            res == Err::<C, Error>(Error::NotFound)
        }
    }

    /// The chunk filed under `parent` with `C`'s tag, if the key table names one
    /// and the memory map has it.
    pub open spec fn by_parent<C: Chunk>(&self, parent: u32, res: Result<Option<C>, Error>) -> bool {
        match first_key(self.spec_keys(), parent, C::spec_tag(), 0) {
            None => res == Ok::<Option<C>, Error>(None),
            Some(id) => if id < self.spec_mmap().len() {
                let e = self.spec_mmap()[id as int];
                match res {
                    Ok(Some(v)) => chunk_result::<C>(self.spec_data(), e.pos as int, self.spec_order(), Tag(C::spec_tag()), e.id, Ok(v)),
                    Ok(None) => false,
                    Err(err) => chunk_result::<C>(self.spec_data(), e.pos as int, self.spec_order(), Tag(C::spec_tag()), e.id, Err(err)),
                }
            } else {
                res == Ok::<Option<C>, Error>(None)
            },
        }
    }

    /// Everything but the key table is as in `other`.
    pub open spec fn same_but_keys(&self, other: &Self) -> bool {
        &&& self.spec_data() == other.spec_data()
        &&& self.spec_order() == other.spec_order()
        &&& self.spec_mmap() == other.spec_mmap()
        &&& self.spec_cast_table() == other.spec_cast_table()
        &&& self.spec_type_tag() == other.spec_type_tag()
    }

    /// The indices and the bytes are as in `other`.
    pub open spec fn same_indices(&self, other: &Self) -> bool {
        &&& self.spec_data() == other.spec_data()
        &&& self.spec_order() == other.spec_order()
        &&& self.spec_mmap() == other.spec_mmap()
        &&& self.spec_keys() == other.spec_keys()
        &&& self.spec_type_tag() == other.spec_type_tag()
    }

    /// Opens the container whose header is at the reader's position: reads the
    /// magic, which fixes the byte order, the size and type, the initial map
    /// right after the header, and the memory map it points to.
    pub fn new(reader: Reader<'a>) -> (res: Result<Self, Error>)
        ensures
            res is Ok <==> opens_at(reader.data(), reader.pos()),
            ({
                let d = reader.data();
                let b = reader.pos();
                if !reader.has(4) {
                    res == Err::<Self, Error>(Error::UnexpectedEof)
                } else if order_of_magic(be_u32(d, b)) is None {
                    res == Err::<Self, Error>(Error::InvalidMagic(Tag(be_u32(d, b) as u32)))
                } else {
                    let o = order_of_magic(be_u32(d, b)).unwrap();
                    &&& res is Ok <==> opens(d, b, o)
                    &&& res is Ok ==> {
                        let f = res.unwrap();
                        &&& f.wf()
                        &&& f.spec_data() == d
                        &&& f.spec_order() == o
                        &&& f.spec_size() == u32_in(d, b + 4, o)
                        &&& f.spec_type_tag() == Tag(u32_in(d, b + 8, o) as u32)
                        &&& InitialMap::parsed(payload_at(d, b + 12, o), o, 1, f.spec_imap())
                        &&& MemoryMap::parsed(payload_at(d, mmap_pos(d, b, o), o), o, 2, f.spec_memory_map())
                        &&& opened_at(f, d, b)
                        &&& f.spec_keys().len() == 0
                        &&& f.spec_cast_table().len() == 0
                        &&& f.spec_version().raw_spec() == 300
                        &&& f.spec_version().human_spec() == 300
                    }
                }
            }),
    {
        let ghost b0 = reader.pos();
        proof {
            reader.lemma_pos();
        }
        let mut reader = reader;
        let magic = reader.read_be_u32()?;
        let byte_order = if magic == TAG_XFIR {
            ByteOrder::LittleEndian
        } else if magic == TAG_RIFX {
            ByteOrder::BigEndian
        } else {
            return Err(Error::InvalidMagic(Tag(magic)));
        };
        reader.set_byte_order(byte_order);
        let size = reader.read_u32()?;
        let type_tag = Tag(reader.read_u32()?);
        let imap = read_chunk_from_reader::<InitialMap>(&mut reader, 1)?;
        reader.seek(imap.mmap_offset as usize);
        let mmap = read_chunk_from_reader::<MemoryMap>(&mut reader, 2)?;
        assert(mmap.spec_entries() =~= mmap_entries_of(reader.data(), b0, byte_order));
        Ok(RiffFile {
            size,
            type_tag,
            byte_order,
            version: Version::default(),
            imap,
            mmap,
            key_table: KeyTable::empty(),
            config: Config {
                len: 0,
                file_version: 0,
                movie_top: 0,
                movie_left: 0,
                movie_bottom: 0,
                movie_right: 0,
                min_member: 0,
                max_member: 0,
                director_version: None,
                default_palette_id: None,
            },
            cast_table: CastTable::empty(),
            score: Score::empty(),
            frame_labels: FrameLabels::empty(),
            lingo_context: None,
            lingo_names: None,
            lingo_script: None,
            file_info: None,
            reader,
        })
    }

    pub fn type_tag(&self) -> (t: Tag)
        ensures
            t == self.spec_type_tag(),
    {
        self.type_tag
    }

    pub fn size(&self) -> (n: u32)
        ensures
            n == self.spec_size(),
    {
        self.size
    }

    pub fn byte_order(&self) -> (o: ByteOrder)
        ensures
            o == self.spec_order(),
    {
        self.byte_order
    }

    pub fn version(&self) -> (v: Version)
        ensures
            v == self.spec_version(),
    {
        self.version
    }

    pub fn imap(&self) -> (m: &InitialMap)
        ensures
            *m == self.spec_imap(),
    {
        &self.imap
    }

    pub fn mmap(&self) -> (m: &MemoryMap)
        ensures
            m.spec_entries() == self.spec_mmap(),
            self.wf() ==> m.wf(),
    {
        &self.mmap
    }

    pub fn key_table(&self) -> (k: &KeyTable)
        ensures
            k.entries@ == self.spec_keys(),
            self.wf() ==> keys_valid(k.entries@),
    {
        &self.key_table
    }

    pub fn config(&self) -> (c: &Config)
        ensures
            *c == self.spec_config(),
    {
        &self.config
    }

    pub fn cast_table(&self) -> (c: &CastTable)
        ensures
            c.cast_member_ids@ == self.spec_cast_table(),
            self.wf() ==> members_sorted(c.cast_member_ids@),
    {
        &self.cast_table
    }

    pub fn score(&self) -> (s: &Score)
        ensures
            *s == self.spec_score(),
    {
        &self.score
    }

    pub closed spec fn spec_score(&self) -> Score {
        self.score
    }

    pub fn frame_labels(&self) -> (f: &FrameLabels)
        ensures
            *f == self.spec_frame_labels(),
    {
        &self.frame_labels
    }

    pub fn file_info(&self) -> (f: Option<&FileInfo>)
        ensures
            f is Some == self.spec_has_file_info(),
    {
        self.file_info.as_ref()
    }

    pub closed spec fn spec_lingo_context_opt(&self) -> Option<LingoContext> {
        self.lingo_context
    }

    pub closed spec fn spec_lingo_names_opt(&self) -> Option<LingoNames> {
        self.lingo_names
    }

    pub closed spec fn spec_lingo_script_opt(&self) -> Option<LingoScript> {
        self.lingo_script
    }

    pub closed spec fn spec_file_info_opt(&self) -> Option<FileInfo> {
        self.file_info
    }

    pub closed spec fn spec_lingo_names(&self) -> LingoNames {
        self.lingo_names.unwrap()
    }

    pub closed spec fn spec_lingo_script(&self) -> LingoScript {
        self.lingo_script.unwrap()
    }

    pub closed spec fn spec_has_lingo_names(&self) -> bool {
        self.lingo_names is Some
    }

    pub closed spec fn spec_has_lingo_script(&self) -> bool {
        self.lingo_script is Some
    }

    pub closed spec fn spec_has_file_info(&self) -> bool {
        self.file_info is Some
    }

    pub fn lingo_context(&self) -> (c: Option<&LingoContext>)
        ensures
            c is Some == self.spec_has_lingo_context(),
            c is Some ==> c.unwrap().names_chunk_id == self.spec_names_chunk_id(),
    {
        self.lingo_context.as_ref()
    }

    pub fn lingo_names(&self) -> (n: Option<&LingoNames>)
        ensures
            n is Some == self.spec_has_lingo_names(),
    {
        self.lingo_names.as_ref()
    }

    pub fn lingo_script(&self) -> (n: Option<&LingoScript>)
        ensures
            n is Some == self.spec_has_lingo_script(),
    {
        self.lingo_script.as_ref()
    }

    /// Reads the chunk at memory-map entry `entry`, framed by `C`'s tag.
    fn read_entry<C: Chunk>(&self, entry: &MemoryMapEntry) -> (res: Result<C, Error>)
        requires
            self.wf(),
        ensures
            chunk_result::<C>(self.spec_data(), entry.pos as int, self.spec_order(), Tag(C::spec_tag()), entry.id, res),
    {
        let mut reader = self.reader;
        reader.seek(entry.pos as usize);
        read_chunk_from_reader::<C>(&mut reader, entry.id)
    }

    /// The chunk numbered `id`, or `None` when the memory map has no such entry.
    pub fn try_read_chunk_by_id<C: Chunk>(&self, id: u32) -> (res: Result<Option<C>, Error>)
        requires
            self.wf(),
        ensures
            id >= self.spec_mmap().len() ==> res == Ok::<Option<C>, Error>(None),
            id < self.spec_mmap().len() ==> match res {
                Ok(Some(v)) => self.by_id::<C>(id, Ok(v)),
                Ok(None) => false,
                Err(e) => self.by_id::<C>(id, Err(e)),
            },
    {
        let entry = match self.mmap.entry_by_index(id) {
            Some(e) => e,
            None => return Ok(None),
        };
        let chunk = self.read_entry::<C>(entry)?;
        Ok(Some(chunk))
    }

    /// The chunk numbered `id`; `NotFound` when the memory map has no such entry.
    pub fn read_chunk_by_id<C: Chunk>(&self, id: u32) -> (res: Result<C, Error>)
        requires
            self.wf(),
        ensures
            self.by_id::<C>(id, res),
    {
        match self.mmap.entry_by_index(id) {
            Some(e) => self.read_entry::<C>(e),
            None => Err(Error::NotFound),
        }
    }

    /// The first chunk in the memory map with `C`'s tag; `NotFound` when there is none.
    pub fn read_chunk_by_tag<C: Chunk>(&self) -> (res: Result<C, Error>)
        requires
            self.wf(),
        ensures
            match first_tagged(self.spec_mmap(), C::spec_tag(), 0) {
                None => res == Err::<C, Error>(Error::NotFound),
                Some(e) => chunk_result::<C>(self.spec_data(), e.pos as int, self.spec_order(), Tag(C::spec_tag()), e.id, res),
            },
    {
        match find_tagged(&self.mmap, C::tag()) {
            Some(e) => self.read_entry::<C>(&e),
            None => Err(Error::NotFound),
        }
    }

    /// The first chunk in the memory map with `C`'s tag, or `None` when there is none.
    pub fn try_read_chunk_by_tag<C: Chunk>(&self) -> (res: Result<Option<C>, Error>)
        requires
            self.wf(),
        ensures
            match first_tagged(self.spec_mmap(), C::spec_tag(), 0) {
                None => res == Ok::<Option<C>, Error>(None),
                Some(e) => match res {
                    Ok(Some(v)) => chunk_result::<C>(self.spec_data(), e.pos as int, self.spec_order(), Tag(C::spec_tag()), e.id, Ok(v)),
                    Ok(None) => false,
                    Err(err) => chunk_result::<C>(self.spec_data(), e.pos as int, self.spec_order(), Tag(C::spec_tag()), e.id, Err(err)),
                },
            },
    {
        match find_tagged(&self.mmap, C::tag()) {
            Some(e) => {
                let chunk = self.read_entry::<C>(&e)?;
                Ok(Some(chunk))
            },
            None => Ok(None),
        }
    }

    /// The chunk filed under `parent` with `C`'s tag, or `None` when absent.
    pub fn try_read_chunk_by_parent<C: Chunk>(&self, parent: u32) -> (res: Result<Option<C>, Error>)
        requires
            self.wf(),
        ensures
            self.by_parent::<C>(parent, res),
    {
        let id = match find_key(&self.key_table, C::tag(), parent) {
            Some(id) => id,
            None => return Ok(None),
        };
        let entry = match self.mmap.entry_by_index(id) {
            Some(e) => e,
            None => return Ok(None),
        };
        let chunk = self.read_entry::<C>(entry)?;
        Ok(Some(chunk))
    }

    /// The chunk filed under `parent` with `C`'s tag; `NotFound` when absent.
    pub fn read_chunk_by_parent<C: Chunk>(&self, parent: u32) -> (res: Result<C, Error>)
        requires
            self.wf(),
        ensures
            match res {
                Ok(v) => self.by_parent::<C>(parent, Ok(Some(v))),
                Err(Error::NotFound) => self.by_parent::<C>(parent, Ok(None)) || self.by_parent::<C>(parent, Err(Error::NotFound)),
                Err(e) => self.by_parent::<C>(parent, Err(e)),
            },
    {
        match self.try_read_chunk_by_parent::<C>(parent) {
            Ok(Some(c)) => Ok(c),
            Ok(None) => Err(Error::NotFound),
            Err(e) => Err(e),
        }
    }

    /// Reads the key table: the first chunk tagged `KEY*`. On failure nothing changes.
    pub fn read_key_table(&mut self) -> (res: Result<(), Error>)
        requires
            old(self).wf(),
        ensures
            final(self).wf(),
            final(self).same_but_keys(old(self)),
            res is Ok ==> match first_tagged(old(self).spec_mmap(), KeyTable::spec_tag(), 0) {
                None => false,
                Some(e) => chunk_result::<KeyTable>(old(self).spec_data(), e.pos as int, old(self).spec_order(),
                    Tag(KeyTable::spec_tag()), e.id, Ok(final(self).spec_key_table())),
            },
            res is Err ==> match first_tagged(old(self).spec_mmap(), KeyTable::spec_tag(), 0) {
                None => res == Err::<(), Error>(Error::NotFound),
                Some(e) => chunk_result::<KeyTable>(old(self).spec_data(), e.pos as int, old(self).spec_order(),
                    Tag(KeyTable::spec_tag()), e.id, Err(res->Err_0)),
            } && final(self).spec_keys() == old(self).spec_keys(),
    {
        let key_table = self.read_chunk_by_tag::<KeyTable>()?;
        self.key_table = key_table;
        Ok(())
    }

    /// Where the configuration is filed: under the movie root as `VWCF`, else as `DRCF`.
    pub open spec fn config_key(&self) -> Option<(u32, u32)> {
        match first_key(self.spec_keys(), GLOBAL_ID, TAG_VWCF, 0) {
            Some(i) => Some((i, TAG_VWCF)),
            None => match first_key(self.spec_keys(), GLOBAL_ID, TAG_DRCF, 0) {
                Some(i) => Some((i, TAG_DRCF)),
                None => None,
            },
        }
    }

    /// Reads the configuration and takes the movie's version from it: the
    /// director version where the chunk holds one, else the file version.
    /// On failure nothing changes.
    pub fn read_config(&mut self) -> (res: Result<(), Error>)
        requires
            old(self).wf(),
        ensures
            final(self).wf(),
            final(self).same_indices(old(self)),
            match old(self).config_key() {
                None => res == Err::<(), Error>(Error::NotFound),
                Some((id, tag)) => if id >= old(self).spec_mmap().len() {
                    res == Err::<(), Error>(Error::NotFound)
                } else {
                    let e = old(self).spec_mmap()[id as int];
                    match res {
                        Ok(()) => chunk_result::<Config>(old(self).spec_data(), e.pos as int, old(self).spec_order(),
                            Tag(tag), e.id, Ok(final(self).spec_config()))
                            && final(self).spec_version().raw_spec() == match final(self).spec_config().director_version {
                                Some(v) => v,
                                None => final(self).spec_config().file_version,
                            }
                            && final(self).spec_version().human_spec() == human_version(final(self).spec_version().raw_spec()),
                        Err(err) => chunk_result::<Config>(old(self).spec_data(), e.pos as int, old(self).spec_order(),
                            Tag(tag), e.id, Err(err)),
                    }
                }
            },
            res is Err ==> final(self).spec_config() == old(self).spec_config()
                && final(self).spec_version() == old(self).spec_version(),
    {
        let (index, tag) = match find_key(&self.key_table, Tag(TAG_VWCF), GLOBAL_ID) {
            Some(i) => (i, Tag(TAG_VWCF)),
            None => match find_key(&self.key_table, Tag(TAG_DRCF), GLOBAL_ID) {
                Some(i) => (i, Tag(TAG_DRCF)),
                None => return Err(Error::NotFound),
            },
        };
        let entry = match self.mmap.entry_by_index(index) {
            Some(e) => e,
            None => return Err(Error::NotFound),
        };
        let mut reader = self.reader;
        reader.seek(entry.pos as usize);
        let config = read_chunk_from_reader_with_tag::<Config>(&mut reader, entry.id, tag)?;
        let raw = match config.director_version {
            Some(v) => v,
            None => config.file_version,
        };
        self.version = Version::new(raw);
        self.config = config;
        Ok(())
    }

    /// Reads the cast table filed under the movie root. On failure nothing changes.
    pub fn read_cast_table(&mut self) -> (res: Result<(), Error>)
        requires
            old(self).wf(),
        ensures
            final(self).wf(),
            final(self).spec_data() == old(self).spec_data(),
            final(self).spec_order() == old(self).spec_order(),
            final(self).spec_mmap() == old(self).spec_mmap(),
            final(self).spec_keys() == old(self).spec_keys(),
            final(self).spec_type_tag() == old(self).spec_type_tag(),
            res is Ok ==> old(self).by_parent::<CastTable>(GLOBAL_ID, Ok(Some(final(self).spec_cast_table_struct()))),
            res is Err ==> final(self).spec_cast_table() == old(self).spec_cast_table() && (
                old(self).by_parent::<CastTable>(GLOBAL_ID, Ok(None)) && res == Err::<(), Error>(Error::NotFound)
                || old(self).by_parent::<CastTable>(GLOBAL_ID, Err(res->Err_0))),
    {
        match self.try_read_chunk_by_parent::<CastTable>(GLOBAL_ID) {
            Ok(Some(t)) => {
                self.cast_table = t;
                Ok(())
            },
            Ok(None) => Err(Error::NotFound),
            Err(e) => Err(e),
        }
    }

    pub closed spec fn spec_cast_table_struct(&self) -> CastTable {
        self.cast_table
    }

    /// Reads the score filed under the movie root. On failure nothing changes.
    pub fn read_score(&mut self) -> (res: Result<(), Error>)
        requires
            old(self).wf(),
        ensures
            final(self).wf(),
            final(self).same_indices(old(self)),
            final(self).spec_cast_table() == old(self).spec_cast_table(),
            final(self).spec_config() == old(self).spec_config(),
            res is Ok ==> old(self).by_parent::<Score>(GLOBAL_ID, Ok(Some(final(self).spec_score()))),
            res is Err ==> (old(self).by_parent::<Score>(GLOBAL_ID, Ok(None)) && res == Err::<(), Error>(Error::NotFound))
                || old(self).by_parent::<Score>(GLOBAL_ID, Err(res->Err_0)),
            res is Err ==> final(self).spec_score() == old(self).spec_score(),
    {
        match self.try_read_chunk_by_parent::<Score>(GLOBAL_ID) {
            Ok(Some(v)) => {
                self.score = v;
                Ok(())
            },
            Ok(None) => Err(Error::NotFound),
            Err(e) => Err(e),
        }
    }

    /// Reads the frame labels filed under the movie root. On failure nothing changes.
    pub fn read_frame_labels(&mut self) -> (res: Result<(), Error>)
        requires
            old(self).wf(),
        ensures
            final(self).wf(),
            final(self).same_indices(old(self)),
            final(self).spec_cast_table() == old(self).spec_cast_table(),
            final(self).spec_score() == old(self).spec_score(),
            res is Ok ==> old(self).by_parent::<FrameLabels>(GLOBAL_ID, Ok(Some(final(self).spec_frame_labels()))),
            res is Err ==> (old(self).by_parent::<FrameLabels>(GLOBAL_ID, Ok(None)) && res == Err::<(), Error>(Error::NotFound))
                || old(self).by_parent::<FrameLabels>(GLOBAL_ID, Err(res->Err_0)),
            res is Err ==> final(self).spec_frame_labels() == old(self).spec_frame_labels(),
    {
        match self.try_read_chunk_by_parent::<FrameLabels>(GLOBAL_ID) {
            Ok(Some(v)) => {
                self.frame_labels = v;
                Ok(())
            },
            Ok(None) => Err(Error::NotFound),
            Err(e) => Err(e),
        }
    }

    pub closed spec fn spec_frame_labels(&self) -> FrameLabels {
        self.frame_labels
    }

    /// Reads the Lingo context filed under the movie root. On failure nothing changes.
    pub fn read_lingo_context(&mut self) -> (res: Result<(), Error>)
        requires
            old(self).wf(),
        ensures
            final(self).wf(),
            final(self).same_indices(old(self)),
            final(self).spec_cast_table() == old(self).spec_cast_table(),
            final(self).spec_score() == old(self).spec_score(),
            res is Ok ==> final(self).spec_has_lingo_context()
                && old(self).by_parent::<LingoContext>(GLOBAL_ID, Ok(Some(final(self).spec_lingo_context()))),
            res is Err ==> (old(self).by_parent::<LingoContext>(GLOBAL_ID, Ok(None)) && res == Err::<(), Error>(Error::NotFound))
                || old(self).by_parent::<LingoContext>(GLOBAL_ID, Err(res->Err_0)),
            res is Err ==> final(self).spec_lingo_context_opt() == old(self).spec_lingo_context_opt(),
    {
        match self.try_read_chunk_by_parent::<LingoContext>(GLOBAL_ID) {
            Ok(Some(v)) => {
                self.lingo_context = Some(v);
                Ok(())
            },
            Ok(None) => Err(Error::NotFound),
            Err(e) => Err(e),
        }
    }

    pub closed spec fn spec_lingo_context(&self) -> LingoContext {
        self.lingo_context.unwrap()
    }

    /// Reads the Lingo names chunk the context names, if there is a context;
    /// a names chunk missing from the memory map is no error.
    pub fn read_lingo_names(&mut self) -> (res: Result<(), Error>)
        requires
            old(self).wf(),
        ensures
            final(self).wf(),
            final(self).same_indices(old(self)),
            final(self).spec_cast_table() == old(self).spec_cast_table(),
            final(self).spec_score() == old(self).spec_score(),
            !old(self).spec_has_lingo_context() ==> res is Ok,
            old(self).spec_has_lingo_context() && old(self).spec_names_chunk_id() >= old(self).spec_mmap().len() ==> res is Ok,
            old(self).spec_has_lingo_context() && res is Err ==> old(self).by_id::<LingoNames>(old(self).spec_names_chunk_id(), Err(res->Err_0)),
            old(self).spec_has_lingo_context() && old(self).spec_names_chunk_id() < old(self).spec_mmap().len() && res is Ok
                ==> final(self).spec_has_lingo_names()
                && old(self).by_id::<LingoNames>(old(self).spec_names_chunk_id(), Ok(final(self).spec_lingo_names())),
            res is Err ==> final(self).spec_lingo_names_opt() == old(self).spec_lingo_names_opt(),
    {
        let id = match &self.lingo_context {
            Some(c) => c.names_chunk_id,
            None => return Ok(()),
        };
        match self.try_read_chunk_by_id::<LingoNames>(id) {
            Ok(Some(n)) => {
                self.lingo_names = Some(n);
                Ok(())
            },
            Ok(None) => Ok(()),
            Err(e) => Err(e),
        }
    }

    /// Reads the Lingo script filed under the movie root, if there is one.
    pub fn read_lingo_script(&mut self) -> (res: Result<(), Error>)
        requires
            old(self).wf(),
        ensures
            final(self).wf(),
            final(self).same_indices(old(self)),
            final(self).spec_cast_table() == old(self).spec_cast_table(),
            final(self).spec_score() == old(self).spec_score(),
            old(self).by_parent::<LingoScript>(GLOBAL_ID, Ok(None)) ==> res is Ok,
            res is Ok && !old(self).by_parent::<LingoScript>(GLOBAL_ID, Ok(None)) ==> final(self).spec_has_lingo_script()
                && old(self).by_parent::<LingoScript>(GLOBAL_ID, Ok(Some(final(self).spec_lingo_script()))),
            res is Err ==> old(self).by_parent::<LingoScript>(GLOBAL_ID, Err(res->Err_0)),
            res is Err ==> final(self).spec_lingo_script_opt() == old(self).spec_lingo_script_opt(),
    {
        match self.try_read_chunk_by_parent::<LingoScript>(GLOBAL_ID) {
            Ok(Some(v)) => {
                self.lingo_script = Some(v);
                Ok(())
            },
            Ok(None) => Ok(()),
            Err(e) => Err(e),
        }
    }

    /// Reads the file info filed under the movie root, if there is one.
    pub fn read_file_info(&mut self) -> (res: Result<(), Error>)
        requires
            old(self).wf(),
        ensures
            final(self).wf(),
            final(self).same_indices(old(self)),
            final(self).spec_cast_table() == old(self).spec_cast_table(),
            final(self).spec_score() == old(self).spec_score(),
            old(self).by_parent::<FileInfo>(GLOBAL_ID, Ok(None)) ==> res is Ok && final(self).spec_file_info_opt()
                == old(self).spec_file_info_opt(),
            res is Ok && !old(self).by_parent::<FileInfo>(GLOBAL_ID, Ok(None)) ==> final(self).spec_has_file_info()
                && old(self).by_parent::<FileInfo>(GLOBAL_ID, Ok(Some(final(self).spec_file_info()))),
            res is Err ==> old(self).by_parent::<FileInfo>(GLOBAL_ID, Err(res->Err_0)),
            res is Err ==> final(self).spec_file_info_opt() == old(self).spec_file_info_opt(),
    {
        match self.try_read_chunk_by_parent::<FileInfo>(GLOBAL_ID) {
            Ok(Some(v)) => {
                self.file_info = Some(v);
                Ok(())
            },
            Ok(None) => Ok(()),
            Err(e) => Err(e),
        }
    }

    pub closed spec fn spec_file_info(&self) -> FileInfo {
        self.file_info.unwrap()
    }

    /// `m` is the member stored in chunk `cid`, with the chunks filed under
    /// it attached: a bitmap's data and thumbnail, a text's styled text, a
    /// palette's colour table.
    pub open spec fn member_read(&self, cid: u32, m: CastMember) -> bool {
        &&& cid < self.spec_mmap().len()
        &&& {
            let e = self.spec_mmap()[cid as int];
            let d = self.spec_data();
            let o = self.spec_order();
            let p = payload_at(d, e.pos as int, o);
            &&& frame_result(d, e.pos as int, o, Tag(TAG_CASt)) is Ok
            &&& cm_frame_ok(p)
            &&& cm_body_ok(p)
            &&& type_id(member_type(m)) == p[6]
            &&& match m {
                CastMember::Bitmap(b) => text_is(b.name, vl_string(cm_list(p), 0, 1)->Ok_0)
                    && b.info == bitmap_info_of(cm_data(p))
                    && self.by_parent::<BitmapData>(cid, Ok(b.data))
                    && self.by_parent::<Thumbnail>(cid, Ok(b.thumbnail)),
                CastMember::Text(t) => self.by_parent::<StyledText>(cid, Ok(t.styled_text)),
                CastMember::Palette(pl) => self.by_parent::<ColorLookupTable>(cid, Ok(pl.clut)),
                CastMember::Script(sc) => Some(sc.script_type) == script_type_of(be_u16(p, cm_data_start(p))),
                _ => true,
            }
        }
    }

    /// Reading member chunk `cid` fails with `e`: the chunk itself does not
    /// frame or parse, or a chunk filed under it that its kind needs does not.
    pub open spec fn member_fails(&self, cid: u32, e: Error) -> bool {
        ||| self.by_id::<CastMember>(cid, Err(e))
        ||| {
            &&& cid < self.spec_mmap().len()
            &&& {
                let t = payload_at(self.spec_data(), self.spec_mmap()[cid as int].pos as int, self.spec_order())[6];
                ||| (t == 1 && (self.by_parent::<BitmapData>(cid, Err(e)) || self.by_parent::<Thumbnail>(cid, Err(e))))
                ||| (t == 3 && self.by_parent::<StyledText>(cid, Err(e)))
                ||| (t == 4 && self.by_parent::<ColorLookupTable>(cid, Err(e)))
            }
        }
    }

    /// Loading member number `id` fails with `e`: the cast table maps it to a
    /// chunk whose reading fails so.
    pub open spec fn load_fails(&self, id: i16, e: Error) -> bool {
        exists|i: int|
            0 <= i < self.spec_cast_table().len() && (#[trigger] self.spec_cast_table()[i]).0 == id
                && self.member_fails(self.spec_cast_table()[i].1, e)
    }

    /// Loads the cast member numbered `id.id`: looks its chunk up in the cast
    /// table, parses it, and attaches the chunks filed under it. It fails only
    /// where the table lacks the member or a read fails.
    #[verifier::rlimit(60)]
    pub fn load_cast_member(&self, id: CastMemberId) -> (res: Result<CastMember, Error>)
        requires
            self.wf(),
        ensures
            !(exists|i: int| 0 <= i < self.spec_cast_table().len() && (#[trigger] self.spec_cast_table()[i]).0 == id.id)
                ==> res == Err::<CastMember, Error>(Error::NotFound),
            res is Ok ==> exists|i: int| 0 <= i < self.spec_cast_table().len()
                && (#[trigger] self.spec_cast_table()[i]).0 == id.id
                && self.member_read(self.spec_cast_table()[i].1, res.unwrap()),
            res is Err ==> res == Err::<CastMember, Error>(Error::NotFound) && !(exists|i: int|
                0 <= i < self.spec_cast_table().len() && (#[trigger] self.spec_cast_table()[i]).0 == id.id)
                || self.load_fails(id.id, res->Err_0),
    {
        let table = self.cast_table();
        let chunk_id = match table.cast_member_chunk_id(id) {
            Some(c) => c,
            None => return Err(Error::NotFound),
        };
        let ghost i = choose|i: int| 0 <= i < self.spec_cast_table().len()
            && (#[trigger] self.spec_cast_table()[i]).0 == id.id && self.spec_cast_table()[i].1 == chunk_id;
        let mut member = self.read_chunk_by_id::<CastMember>(chunk_id)?;
        let parent_id = chunk_id;
        let ghost before = member;
        match &mut member {
            CastMember::Bitmap(bitmap) => {
                bitmap.data = self.try_read_chunk_by_parent::<BitmapData>(parent_id)?;
                bitmap.thumbnail = self.try_read_chunk_by_parent::<Thumbnail>(parent_id)?;
            },
            CastMember::Text(text) => {
                text.styled_text = self.try_read_chunk_by_parent::<StyledText>(parent_id)?;
            },
            CastMember::Palette(palette) => {
                palette.clut = self.try_read_chunk_by_parent::<ColorLookupTable>(parent_id)?;
            },
            _ => {},
        }
        assert(member_type(member) == member_type(before));
        Ok(member)
    }
}

} // verus!
