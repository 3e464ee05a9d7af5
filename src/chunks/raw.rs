//! Chunks kept as raw bytes: bitmap data, thumbnails and script text.

use vstd::prelude::*;

use crate::error::Error;
use crate::reader::{ByteOrder, Reader};
use crate::tags::{Tag, TAG_BITD, TAG_STXT, TAG_THUM};

use super::Chunk;

verus! {

/// The compressed pixel bytes of a bitmap.
#[derive(Debug)]
pub struct BitmapData {
    buf: Vec<u8>,
}

impl BitmapData {
    pub closed spec fn spec_buf(&self) -> Seq<u8> {
        self.buf@
    }

    pub fn new(buf: Vec<u8>) -> (b: Self)
        ensures
            b.spec_buf() == buf@,
    {
        BitmapData { buf }
    }

    pub fn buf(&self) -> (b: &[u8])
        ensures
            b@ == self.spec_buf(),
    {
        self.buf.as_slice()
    }
}

impl Chunk for BitmapData {
    open spec fn spec_tag() -> u32 {
        TAG_BITD
    }

    open spec fn parsed(payload: Seq<u8>, order: ByteOrder, id: u32, v: Self) -> bool {
        v.spec_buf() == payload
    }

    open spec fn refused(payload: Seq<u8>, order: ByteOrder) -> bool {
        false
    }

    fn tag() -> (t: Tag) {
        Tag(TAG_BITD)
    }

    fn read(r: &mut Reader, _id: u32) -> (res: Result<Self, Error>) {
        let mut buf: Vec<u8> = Vec::new();
        r.read_to_end(&mut buf);
        Ok(BitmapData { buf })
    }
}

/// A cast member's thumbnail image bytes, absent when the chunk is empty.
#[derive(Debug)]
pub struct Thumbnail {
    buf: Option<Vec<u8>>,
}

impl Thumbnail {
    pub closed spec fn spec_buf(&self) -> Option<Seq<u8>> {
        match self.buf {
            Some(b) => Some(b@),
            None => None,
        }
    }

    pub fn buf(&self) -> (b: Option<&[u8]>)
        ensures
            b is Some <==> self.spec_buf() is Some,
            b is Some ==> b.unwrap()@ == self.spec_buf().unwrap(),
    {
        match &self.buf {
            Some(b) => Some(b.as_slice()),
            None => None,
        }
    }
}

impl Chunk for Thumbnail {
    open spec fn spec_tag() -> u32 {
        TAG_THUM
    }

    open spec fn parsed(payload: Seq<u8>, order: ByteOrder, id: u32, v: Self) -> bool {
        v.spec_buf() == if payload.len() == 0 {
            None::<Seq<u8>>
        } else {
            Some(payload)
        }
    }

    open spec fn refused(payload: Seq<u8>, order: ByteOrder) -> bool {
        false
    }

    fn tag() -> (t: Tag) {
        Tag(TAG_THUM)
    }

    fn read(r: &mut Reader, _id: u32) -> (res: Result<Self, Error>) {
        if r.stream_remain() == 0 {
            return Ok(Thumbnail { buf: None });
        }
        let mut buf: Vec<u8> = Vec::new();
        r.read_to_end(&mut buf);
        assert(buf@ =~= old(r).rest());
        Ok(Thumbnail { buf: Some(buf) })
    }
}

/// The raw bytes of a script's text chunk.
#[derive(Debug)]
pub struct ScriptText {
    buf: Vec<u8>,
}

impl ScriptText {
    pub closed spec fn spec_buf(&self) -> Seq<u8> {
        self.buf@
    }

    pub fn buf(&self) -> (b: &[u8])
        ensures
            b@ == self.spec_buf(),
    {
        self.buf.as_slice()
    }
}

impl Chunk for ScriptText {
    open spec fn spec_tag() -> u32 {
        TAG_STXT
    }

    open spec fn parsed(payload: Seq<u8>, order: ByteOrder, id: u32, v: Self) -> bool {
        v.spec_buf() == payload
    }

    open spec fn refused(payload: Seq<u8>, order: ByteOrder) -> bool {
        false
    }

    fn tag() -> (t: Tag) {
        Tag(TAG_STXT)
    }

    fn read(r: &mut Reader, _id: u32) -> (res: Result<Self, Error>) {
        let mut buf: Vec<u8> = Vec::new();
        r.read_to_end(&mut buf);
        assert(buf@ =~= old(r).rest());
        Ok(ScriptText { buf })
    }
}

} // verus!
