//! Chunk framing and one parser per chunk tag.

use vstd::prelude::*;

use crate::error::{Error, ErrorKind};
use crate::reader::{u32_in, ByteOrder, Reader};
use crate::tags::Tag;

pub mod cast_table;
pub mod color_lookup_table;
pub mod config;
pub mod file_info;
pub mod frame_labels;
pub mod initial_map;
pub mod key_table;
pub mod lingo;
pub mod memory_map;
pub mod raw;
pub mod score;
pub mod styled_text;

pub use cast_table::CastTable;
pub use color_lookup_table::ColorLookupTable;
pub use config::Config;
pub use file_info::FileInfo;
pub use frame_labels::{FrameLabel, FrameLabels};
pub use initial_map::InitialMap;
pub use key_table::{ChunksWithParent, KeyTable, KeyTableEntry};
pub use lingo::{Handler, LingoContext, LingoContextEntry, LingoNames, LingoScript};
pub use memory_map::{MemoryMap, MemoryMapEntry};
pub use raw::{BitmapData, ScriptText, Thumbnail};
pub use score::{Frame, Score, SpriteChannel, Tempo};
pub use styled_text::{StyleRun, StyledText};

verus! {

/// A chunk type: a tag and a parser for its payload.
pub trait Chunk: Sized {
    /// The tag that frames a chunk of this type.
    spec fn spec_tag() -> u32;

    /// `v` is what the parser makes of `payload`, read in `order`.
    spec fn parsed(payload: Seq<u8>, order: ByteOrder, id: u32, v: Self) -> bool;

    /// The parser refuses `payload`.
    spec fn refused(payload: Seq<u8>, order: ByteOrder) -> bool;

    fn tag() -> (t: Tag)
        ensures
            t.0 == Self::spec_tag(),
    ;

    /// Parses the bytes from the reader's position to its end.
    fn read(r: &mut Reader, id: u32) -> (res: Result<Self, Error>)
        ensures
            match res {
                Ok(v) => Self::parsed(old(r).rest(), old(r).order(), id, v),
                Err(e) => Self::refused(old(r).rest(), old(r).order()) && e.spec_kind()
                    == ErrorKind::InvalidData,
            },
    ;
}

/// The payload length that the header at `pos` declares, with the tolerance
/// for a final header: one that ends exactly at the end of the buffer has no
/// payload, whatever length it declares.
pub open spec fn framed_len(data: Seq<u8>, pos: int, order: ByteOrder) -> int {
    if pos + 8 == data.len() {
        0
    } else {
        u32_in(data, pos + 4, order)
    }
}

/// What framing a chunk at `pos` gives, short of the payload's own parse:
/// `Ok(())` where the header is there, carries `expected` and its payload
/// fits in the buffer.
pub open spec fn frame_result(data: Seq<u8>, pos: int, order: ByteOrder, expected: Tag) -> Result<
    (),
    Error,
> {
    if !(0 <= pos && pos + 8 <= data.len()) {
        Err(Error::Truncated { tag: expected, position: pos as u64 })
    } else if u32_in(data, pos, order) != expected.0 {
        Err(
            Error::TagMismatch {
                expected,
                found: Tag(u32_in(data, pos, order) as u32),
                position: pos as u64,
            },
        )
    } else if pos + 8 + framed_len(data, pos, order) > data.len() {
        Err(Error::Truncated { tag: expected, position: pos as u64 })
    } else {
        Ok(())
    }
}

/// The payload of the chunk framed at `pos`.
pub open spec fn payload_at(data: Seq<u8>, pos: int, order: ByteOrder) -> Seq<u8> {
    data.subrange(pos + 8, pos + 8 + framed_len(data, pos, order))
}

/// The result of framing and parsing a chunk at `pos` with `expected` as its tag.
pub open spec fn chunk_result<C: Chunk>(
    data: Seq<u8>,
    pos: int,
    order: ByteOrder,
    expected: Tag,
    id: u32,
    res: Result<C, Error>,
) -> bool {
    match frame_result(data, pos, order, expected) {
        Err(e) => res == Err::<C, Error>(e),
        Ok(()) => match res {
            Ok(v) => C::parsed(payload_at(data, pos, order), order, id, v),
            Err(e) => C::refused(payload_at(data, pos, order), order) && e != Error::UnexpectedEof
                && e.spec_kind() == ErrorKind::InvalidData,
        },
    }
}

/// Reads the chunk header at the reader's position and parses its payload
/// as `C`, provided the header carries `expected`.
pub fn read_chunk_from_reader_with_tag<C: Chunk>(
    reader: &mut Reader,
    id: u32,
    expected_tag: Tag,
) -> (res: Result<C, Error>)
    ensures
        chunk_result::<C>(old(reader).data(), old(reader).pos(), old(reader).order(), expected_tag, id, res),
        final(reader).data() == old(reader).data(),
        final(reader).order() == old(reader).order(),
{
    let position = reader.stream_position();
    proof {
        reader.lemma_pos();
    }
    let truncated = Error::Truncated { tag: expected_tag, position: position as u64 };
    let tag = match reader.read_u32() {
        Ok(v) => Tag(v),
        Err(_) => return Err(truncated),
    };
    let size = match reader.read_u32() {
        Ok(v) => v,
        Err(_) => return Err(truncated),
    };
    let total = reader.stream_len();
    let size: usize = if position + 8 == total {
        0
    } else {
        size as usize
    };
    if tag.0 != expected_tag.0 {
        return Err(
            Error::TagMismatch { expected: expected_tag, found: tag, position: position as u64 },
        );
    }
    let start = reader.stream_position();
    if size > total - start {
        return Err(truncated);
    }
    let mut chunk_reader = reader.subset(start, size);
    assert(chunk_reader.rest() =~= payload_at(old(reader).data(), old(reader).pos(), old(reader).order()));
    match C::read(&mut chunk_reader, id) {
        Ok(v) => Ok(v),
        Err(Error::UnexpectedEof) => Err(truncated),
        Err(e) => Err(e),
    }
}

/// Reads the chunk at the reader's position as `C`, framed by `C`'s own tag.
pub fn read_chunk_from_reader<C: Chunk>(reader: &mut Reader, id: u32) -> (res: Result<C, Error>)
    ensures
        chunk_result::<C>(old(reader).data(), old(reader).pos(), old(reader).order(), Tag(C::spec_tag()), id, res),
        final(reader).data() == old(reader).data(),
        final(reader).order() == old(reader).order(),
{
    let tag = C::tag();
    read_chunk_from_reader_with_tag(reader, id, tag)
}

} // verus!
