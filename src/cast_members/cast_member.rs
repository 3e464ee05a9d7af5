use vstd::prelude::*;

use crate::chunks::file_info::text_is;
use crate::chunks::{Chunk, ColorLookupTable, StyledText};
use crate::error::Error;
use crate::reader::{be_u16, be_u32, ByteOrder, Reader};
use crate::tags::{Tag, TAG_CASt};
use crate::vlist::{vl_string, vl_valid, VList};

use super::bitmap::{bitmap_info_of, Bitmap, BitmapInfo};

verus! {

/// The kind of a cast member, from its one-byte type id.
#[derive(Debug, Clone, Copy, PartialEq, Eq, Structural)]
pub enum CastMemberType {
    Null,
    Bitmap,
    FilmLoop,
    Text,
    Palette,
    Picture,
    Sound,
    Button,
    Shape,
    Movie,
    DigitalVideo,
    Script,
    RTE,
}

/// A type id above 12.
#[derive(Debug, Clone, Copy, PartialEq, Eq, Structural)]
pub struct InvalidCastMemberTypeError(pub u8);

/// The type id of each kind.
pub open spec fn type_id(t: CastMemberType) -> int {
    match t {
        CastMemberType::Null => 0,
        CastMemberType::Bitmap => 1,
        CastMemberType::FilmLoop => 2,
        CastMemberType::Text => 3,
        CastMemberType::Palette => 4,
        CastMemberType::Picture => 5,
        CastMemberType::Sound => 6,
        CastMemberType::Button => 7,
        CastMemberType::Shape => 8,
        CastMemberType::Movie => 9,
        CastMemberType::DigitalVideo => 10,
        CastMemberType::Script => 11,
        CastMemberType::RTE => 12,
    }
}

/// The name of each kind.
pub open spec fn kind_name(t: CastMemberType) -> Seq<char> {
    match t {
        CastMemberType::Null => "Null"@,
        CastMemberType::Bitmap => "Bitmap"@,
        CastMemberType::FilmLoop => "FilmLoop"@,
        CastMemberType::Text => "Text"@,
        CastMemberType::Palette => "Palette"@,
        CastMemberType::Picture => "Picture"@,
        CastMemberType::Sound => "Sound"@,
        CastMemberType::Button => "Button"@,
        CastMemberType::Shape => "Shape"@,
        CastMemberType::Movie => "Movie"@,
        CastMemberType::DigitalVideo => "DigitalVideo"@,
        CastMemberType::Script => "Script"@,
        CastMemberType::RTE => "RTE"@,
    }
}

impl CastMemberType {
    /// The kind's name.
    pub fn to_text(&self) -> (s: String)
        ensures
            s@ == kind_name(*self),
    {
        let name = match self {
            CastMemberType::Null => "Null",
            CastMemberType::Bitmap => "Bitmap",
            CastMemberType::FilmLoop => "FilmLoop",
            CastMemberType::Text => "Text",
            CastMemberType::Palette => "Palette",
            CastMemberType::Picture => "Picture",
            CastMemberType::Sound => "Sound",
            CastMemberType::Button => "Button",
            CastMemberType::Shape => "Shape",
            CastMemberType::Movie => "Movie",
            CastMemberType::DigitalVideo => "DigitalVideo",
            CastMemberType::Script => "Script",
            CastMemberType::RTE => "RTE",
        };
        String::from_str(name)
    }

    /// The kind with type id `value`.
    pub fn try_from(value: u8) -> (r: Result<CastMemberType, InvalidCastMemberTypeError>)
        ensures
            value <= 12 ==> r is Ok && type_id(r.unwrap()) == value,
            value > 12 ==> r == Err::<CastMemberType, InvalidCastMemberTypeError>(InvalidCastMemberTypeError(value)),
    {
        match value {
            0 => Ok(CastMemberType::Null),
            1 => Ok(CastMemberType::Bitmap),
            2 => Ok(CastMemberType::FilmLoop),
            3 => Ok(CastMemberType::Text),
            4 => Ok(CastMemberType::Palette),
            5 => Ok(CastMemberType::Picture),
            6 => Ok(CastMemberType::Sound),
            7 => Ok(CastMemberType::Button),
            8 => Ok(CastMemberType::Shape),
            9 => Ok(CastMemberType::Movie),
            10 => Ok(CastMemberType::DigitalVideo),
            11 => Ok(CastMemberType::Script),
            12 => Ok(CastMemberType::RTE),
            _ => Err(InvalidCastMemberTypeError(value)),
        }
    }
}

/// What a script is attached to.
#[derive(Debug, Clone, Copy, PartialEq, Eq, Structural)]
pub enum ScriptType {
    Score,
    Movie,
    Parent,
}

/// A script type word other than 1, 3 or 7.
#[derive(Debug, Clone, Copy, PartialEq, Eq, Structural)]
pub struct InvalidScriptTypeValue(pub u16);

/// The script type of a word: 1 is score, 3 movie, 7 parent.
pub open spec fn script_type_of(v: int) -> Option<ScriptType> {
    if v == 1 {
        Some(ScriptType::Score)
    } else if v == 3 {
        Some(ScriptType::Movie)
    } else if v == 7 {
        Some(ScriptType::Parent)
    } else {
        None
    }
}

impl ScriptType {
    pub fn try_from(value: u16) -> (r: Result<ScriptType, InvalidScriptTypeValue>)
        ensures
            match script_type_of(value as int) {
                Some(t) => r == Ok::<ScriptType, InvalidScriptTypeValue>(t),
                None => r == Err::<ScriptType, InvalidScriptTypeValue>(InvalidScriptTypeValue(value)),
            },
    {
        match value {
            1 => Ok(ScriptType::Score),
            3 => Ok(ScriptType::Movie),
            7 => Ok(ScriptType::Parent),
            _ => Err(InvalidScriptTypeValue(value)),
        }
    }
}

/// A script cast member.
#[derive(Debug, Clone, Copy, PartialEq, Eq, Structural)]
pub struct Script {
    pub script_type: ScriptType,
}

impl Script {
    /// Reads the big-endian script type word at the reader's position.
    pub fn read(r: &mut Reader) -> (res: Result<Self, Error>)
        ensures
            !old(r).has(2) ==> res == Err::<Self, Error>(Error::UnexpectedEof),
            old(r).has(2) ==> match script_type_of(be_u16(old(r).data(), old(r).pos())) {
                Some(t) => res == Ok::<Self, Error>(Script { script_type: t }),
                None => res == Err::<Self, Error>(Error::InvalidData),
            },
    {
        let v = r.read_be_u16()?;
        match ScriptType::try_from(v) {
            Ok(script_type) => Ok(Script { script_type }),
            Err(_) => Err(Error::InvalidData),
        }
    }
}

/// A palette cast member; its colours come from a lookup-table chunk filed under it.
#[derive(Debug)]
pub struct Palette {
    pub clut: Option<ColorLookupTable>,
}

/// A text cast member; its text comes from a styled-text chunk filed under it.
#[derive(Debug)]
pub struct Text {
    pub styled_text: Option<StyledText>,
}

/// A cast member: one variant per kind; bitmaps, palettes, texts and scripts carry data.
#[derive(Debug)]
pub enum CastMember {
    Null,
    Bitmap(Bitmap),
    FilmLoop,
    Text(Text),
    Palette(Palette),
    Picture,
    Sound,
    Button,
    Shape,
    Movie,
    DigitalVideo,
    Script(Script),
    RTE,
}

/// The kind of a member.
pub open spec fn member_type(m: CastMember) -> CastMemberType {
    match m {
        CastMember::Null => CastMemberType::Null,
        CastMember::Bitmap(_) => CastMemberType::Bitmap,
        CastMember::FilmLoop => CastMemberType::FilmLoop,
        CastMember::Text(_) => CastMemberType::Text,
        CastMember::Palette(_) => CastMemberType::Palette,
        CastMember::Picture => CastMemberType::Picture,
        CastMember::Sound => CastMemberType::Sound,
        CastMember::Button => CastMemberType::Button,
        CastMember::Shape => CastMemberType::Shape,
        CastMember::Movie => CastMemberType::Movie,
        CastMember::DigitalVideo => CastMemberType::DigitalVideo,
        CastMember::Script(_) => CastMemberType::Script,
        CastMember::RTE => CastMemberType::RTE,
    }
}

// ---- Layout of a cast-member chunk ----

/// Bytes of type-specific data after the type byte, before the flags byte is taken out.
pub open spec fn cm_rest_len(p: Seq<u8>) -> int {
    be_u16(p, 0) - 1
}

/// A flags byte follows the type byte when more than one byte of data remains.
pub open spec fn cm_has_flags(p: Seq<u8>) -> bool {
    cm_rest_len(p) > 1
}

/// Where the type-specific data starts.
pub open spec fn cm_data_start(p: Seq<u8>) -> int {
    if cm_has_flags(p) { 8 } else { 7 }
}

/// Length of the type-specific data.
pub open spec fn cm_data_len(p: Seq<u8>) -> int {
    if cm_has_flags(p) { cm_rest_len(p) - 1 } else { cm_rest_len(p) }
}

/// The type-specific data.
pub open spec fn cm_data(p: Seq<u8>) -> Seq<u8> {
    p.subrange(cm_data_start(p), cm_data_start(p) + cm_data_len(p))
}

/// The list of names and other items that follows the data.
pub open spec fn cm_list(p: Seq<u8>) -> Seq<u8> {
    let s = cm_data_start(p) + cm_data_len(p);
    p.subrange(s, s + be_u32(p, 2))
}

/// The framing of a cast-member chunk holds: lengths, a known type, both parts in bounds, a valid list.
pub open spec fn cm_frame_ok(p: Seq<u8>) -> bool {
    &&& p.len() >= 7
    &&& be_u16(p, 0) > 0
    &&& p[6] <= 12
    &&& cm_data_start(p) <= p.len()
    &&& cm_data_start(p) + cm_data_len(p) + be_u32(p, 2) <= p.len()
    &&& vl_valid(cm_list(p), 0, 4)
    &&& vl_string(cm_list(p), 0, 1) is Ok
}

/// The member's own part parses: a bitmap's layout is complete and a script's type is known.
pub open spec fn cm_body_ok(p: Seq<u8>) -> bool {
    &&& p[6] == 1 ==> cm_data(p).len() >= 22
    &&& p[6] == 11 ==> cm_data_start(p) + 2 <= p.len() && script_type_of(be_u16(p, cm_data_start(p))) is Some
}

/// `m` is what the chunk bytes `p` describe, before any child chunk is attached.
pub open spec fn cast_member_of(p: Seq<u8>, m: CastMember) -> bool {
    &&& type_id(member_type(m)) == p[6]
    &&& match m {
        CastMember::Bitmap(b) => text_is(b.name, vl_string(cm_list(p), 0, 1)->Ok_0) && b.info == bitmap_info_of(cm_data(p))
            && b.data is None && b.thumbnail is None,
        CastMember::Text(t) => t.styled_text is None,
        CastMember::Palette(pl) => pl.clut is None,
        CastMember::Script(s) => Some(s.script_type) == script_type_of(be_u16(p, cm_data_start(p))),
        _ => true,
    }
}

impl Chunk for CastMember {
    open spec fn spec_tag() -> u32 {
        TAG_CASt
    }

    open spec fn parsed(payload: Seq<u8>, order: ByteOrder, id: u32, v: Self) -> bool {
        cm_frame_ok(payload) && cm_body_ok(payload) && cast_member_of(payload, v)
    }

    open spec fn refused(payload: Seq<u8>, order: ByteOrder) -> bool {
        !(cm_frame_ok(payload) && cm_body_ok(payload))
    }

    fn tag() -> (t: Tag) {
        Tag(TAG_CASt)
    }

    fn read(r: &mut Reader, id: u32) -> (res: Result<Self, Error>) {
        let mut c = r.remaining();
        let ghost p = c.data();
        let total = c.stream_len();
        let data_len = c.read_be_u16()? as usize;
        let vlist_byte_len = c.read_be_u32()? as usize;
        if data_len == 0 {
            return Err(Error::InvalidData);
        }
        let type_id = c.read_u8()?;
        let mut data_len = data_len - 1;
        let cast_member_type = match CastMemberType::try_from(type_id) {
            Ok(t) => t,
            Err(_) => return Err(Error::InvalidData),
        };
        if data_len > 1 {
            let _flags = c.read_u8()?;
            data_len = data_len - 1;
        }
        let pos = c.stream_position();
        if data_len > total - pos || vlist_byte_len > total - pos - data_len {
            return Err(Error::UnexpectedEof);
        }
        let data_reader = c.subset(pos, data_len);
        let mut vlist_reader = c.subset(pos + data_len, vlist_byte_len);
        assert(data_reader.rest() =~= cm_data(p));
        assert(vlist_reader.data() =~= cm_list(p));
        let vlist = VList::read_u32(&mut vlist_reader)?;
        let name = vlist.try_get_as_pascal_str(1)?;
        let member = match cast_member_type {
            CastMemberType::Null => CastMember::Null,
            CastMemberType::Bitmap => {
                let info = BitmapInfo::read(data_reader, id)?;
                CastMember::Bitmap(Bitmap { name, info, data: None, thumbnail: None })
            },
            CastMemberType::FilmLoop => CastMember::FilmLoop,
            CastMemberType::Text => CastMember::Text(Text { styled_text: None }),
            CastMemberType::Palette => CastMember::Palette(Palette { clut: None }),
            CastMemberType::Picture => CastMember::Picture,
            CastMemberType::Sound => CastMember::Sound,
            CastMemberType::Button => CastMember::Button,
            CastMemberType::Shape => CastMember::Shape,
            CastMemberType::Movie => CastMember::Movie,
            CastMemberType::DigitalVideo => CastMember::DigitalVideo,
            CastMemberType::Script => CastMember::Script(Script::read(&mut c)?),
            CastMemberType::RTE => CastMember::RTE,
        };
        Ok(member)
    }
}

impl CastMember {
    pub fn cast_member_type(&self) -> (t: CastMemberType)
        ensures
            t == member_type(*self),
    {
        match self {
            CastMember::Null => CastMemberType::Null,
            CastMember::Bitmap(_) => CastMemberType::Bitmap,
            CastMember::FilmLoop => CastMemberType::FilmLoop,
            CastMember::Text(_) => CastMemberType::Text,
            CastMember::Palette(_) => CastMemberType::Palette,
            CastMember::Picture => CastMemberType::Picture,
            CastMember::Sound => CastMemberType::Sound,
            CastMember::Button => CastMemberType::Button,
            CastMember::Shape => CastMemberType::Shape,
            CastMember::Movie => CastMemberType::Movie,
            CastMember::DigitalVideo => CastMemberType::DigitalVideo,
            CastMember::Script(_) => CastMemberType::Script,
            CastMember::RTE => CastMemberType::RTE,
        }
    }

    pub fn as_bitmap(&self) -> (b: Option<&Bitmap>)
        ensures
            match *self {
                CastMember::Bitmap(x) => b is Some && *b.unwrap() == x,
                _ => b is None,
            },
    {
        match self {
            CastMember::Bitmap(bitmap) => Some(bitmap),
            _ => None,
        }
    }

    pub fn as_palette(&self) -> (p: Option<&Palette>)
        ensures
            match *self {
                CastMember::Palette(x) => p is Some && *p.unwrap() == x,
                _ => p is None,
            },
    {
        match self {
            CastMember::Palette(palette) => Some(palette),
            _ => None,
        }
    }
}

} // verus!
