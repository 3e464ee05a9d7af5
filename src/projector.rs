//! Projectors: executables that carry a movie container, found through a trailer.

use vstd::prelude::*;

use crate::error::Error;
use crate::reader::{be_u32, le_u32, u32_in, Reader};
use crate::riff_file::{
    find_tagged, first_tagged, mmap_entries_of, opened_at, opens, opens_at, order_of_magic, RiffFile,
};
use crate::tags::{Tag, TAG_APPL, TAG_File, TAG_PJ93};

verus! {

/// The projector header: offsets of the parts the executable carries.
#[derive(Debug, Clone, Copy, PartialEq, Eq, Structural)]
pub struct ProjectorHeader {
    pub rifx_ofs: u32,
    pub fmap_ofs: u32,
    pub res1_ofs: u32,
    pub res2_ofs: u32,
    pub gfx_dll_ofs: u32,
    pub snd_dll_ofs: u32,
    pub rifx_ofs_alt: u32,
    pub flags: u32,
}

/// Where the trailer (the last four bytes, little-endian) says the projector block is.
pub open spec fn trailer_target(d: Seq<u8>) -> int {
    le_u32(d, d.len() - 4)
}

/// The header stored after the `PJ93` tag at `o`.
pub open spec fn header_at(d: Seq<u8>, o: int) -> ProjectorHeader {
    ProjectorHeader {
        rifx_ofs: le_u32(d, o + 4) as u32,
        fmap_ofs: le_u32(d, o + 8) as u32,
        res1_ofs: le_u32(d, o + 12) as u32,
        res2_ofs: le_u32(d, o + 16) as u32,
        gfx_dll_ofs: le_u32(d, o + 20) as u32,
        snd_dll_ofs: le_u32(d, o + 24) as u32,
        rifx_ofs_alt: le_u32(d, o + 28) as u32,
        flags: le_u32(d, o + 32) as u32,
    }
}

/// Where the movie container of a projector lies: the initial container at
/// `b`, or, where that is an `APPL` wrapper, the position of the first `File`
/// entry of its memory map.
pub open spec fn movie_pos(d: Seq<u8>, b: int) -> int {
    match order_of_magic(be_u32(d, b)) {
        Some(o) => if u32_in(d, b + 8, o) == TAG_APPL {
            match first_tagged(mmap_entries_of(d, b, o), TAG_File, 0) {
                Some(e) => e.pos as int,
                None => b,
            }
        } else {
            b
        },
        None => b,
    }
}

/// A projector executable and the bytes it was read from.
pub struct Projector<'a> {
    header: ProjectorHeader,
    reader: Reader<'a>,
}

impl<'a> Projector<'a> {
    pub closed spec fn spec_header(&self) -> ProjectorHeader {
        self.header
    }

    pub closed spec fn spec_data(&self) -> Seq<u8> {
        self.reader.data()
    }

    /// Finds the projector block through the trailer and reads its header.
    pub fn read(reader: Reader<'a>) -> (res: Result<Self, Error>)
        ensures
            ({
                let d = reader.data();
                if d.len() < 4 {
                    res is Err
                } else {
                    let o = trailer_target(d);
                    if o + 4 > d.len() {
                        res == Err::<Self, Error>(Error::UnexpectedEof)
                    } else if be_u32(d, o) != TAG_PJ93 {
                        res == Err::<Self, Error>(Error::InvalidMagic(Tag(be_u32(d, o) as u32)))
                    } else if o + 36 > d.len() {
                        res == Err::<Self, Error>(Error::UnexpectedEof)
                    } else {
                        res is Ok && res.unwrap().spec_header() == header_at(d, o) && res.unwrap().spec_data() == d
                    }
                }
            }),
    {
        let mut reader = reader;
        let _len = reader.stream_len();
        reader.seek_from_end(-4)?;
        let offset = reader.read_le_u32()?;
        reader.seek(offset as usize);
        let tag = reader.read_be_u32()?;
        if tag != TAG_PJ93 {
            return Err(Error::InvalidMagic(Tag(tag)));
        }
        let rifx_ofs = reader.read_le_u32()?;
        let fmap_ofs = reader.read_le_u32()?;
        let res1_ofs = reader.read_le_u32()?;
        let res2_ofs = reader.read_le_u32()?;
        let gfx_dll_ofs = reader.read_le_u32()?;
        let snd_dll_ofs = reader.read_le_u32()?;
        let rifx_ofs_alt = reader.read_le_u32()?;
        let flags = reader.read_le_u32()?;
        let header = ProjectorHeader {
            rifx_ofs,
            fmap_ofs,
            res1_ofs,
            res2_ofs,
            gfx_dll_ofs,
            snd_dll_ofs,
            rifx_ofs_alt,
            flags,
        };
        Ok(Projector { header, reader })
    }

    pub fn header(&self) -> (h: ProjectorHeader)
        ensures
            h == self.spec_header(),
    {
        self.header
    }

    /// Opens the container the header's `rifx_ofs` points to.
    pub fn read_initial_riff(&mut self) -> (res: Result<RiffFile<'a>, Error>)
        ensures
            final(self).spec_header() == old(self).spec_header(),
            final(self).spec_data() == old(self).spec_data(),
            ({
                let d = old(self).spec_data();
                let b = old(self).spec_header().rifx_ofs as int;
                match order_of_magic(be_u32(d, b)) {
                    Some(o) => b + 4 <= d.len() ==> (res is Ok <==> opens(d, b, o)),
                    None => res is Err,
                }
            }),
            res is Ok ==> res.unwrap().wf() && opened_at(res.unwrap(), old(self).spec_data(), old(self).spec_header().rifx_ofs as int),
            res is Ok <==> opens_at(old(self).spec_data(), old(self).spec_header().rifx_ofs as int),
    {
        self.reader.seek(self.header.rifx_ofs as usize);
        RiffFile::new(self.reader)
    }

    /// Opens the movie: the initial container, or, where that is an `APPL`
    /// wrapper, the container its first `File` chunk points to.
    pub fn read_movie_riff(&mut self) -> (res: Result<RiffFile<'a>, Error>)
        ensures
            res is Ok <==> opens_at(old(self).spec_data(), old(self).spec_header().rifx_ofs as int) && opens_at(
                old(self).spec_data(),
                movie_pos(old(self).spec_data(), old(self).spec_header().rifx_ofs as int),
            ),
            res is Ok ==> res.unwrap().wf() && opened_at(
                res.unwrap(),
                old(self).spec_data(),
                movie_pos(old(self).spec_data(), old(self).spec_header().rifx_ofs as int),
            ),
    {
        let riff = self.read_initial_riff()?;
        if riff.type_tag().0 != TAG_APPL {
            return Ok(riff);
        }
        let pos = match find_tagged(riff.mmap(), Tag(TAG_File)) {
            Some(e) => e.pos,
            None => return Ok(riff),
        };
        self.reader.seek(pos as usize);
        RiffFile::new(self.reader)
    }
}

} // verus!
