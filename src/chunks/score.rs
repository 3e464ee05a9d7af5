//! The score: frames decoded from a stream of deltas against a scratch buffer.

use vstd::prelude::*;

use crate::cast_members::CastMemberId;
use crate::error::{Error, ErrorKind};
use crate::gfx::{Pos, Size};
use crate::reader::{be_u16, be_u32, signed16, signed8, ByteOrder, Reader};
use crate::tags::{Tag, TAG_VWSC};

use super::Chunk;

verus! {

/// Size in bytes of the scratch buffer: 50 channels of 20 bytes.
pub const SCRATCH_LEN: usize = 1000;

/// Size in bytes of one channel.
pub const CHANNEL_LEN: usize = 20;

/// Playback speed or the event a frame waits for.
#[derive(Debug, Clone, Copy, PartialEq, Eq, Structural)]
pub enum Tempo {
    Off,
    WaitForMouse,
    WaitForSoundChannel1,
    WaitForSoundChannel2,
    FPS(u8),
}

/// A tempo code that names no tempo.
#[derive(Debug, Clone, Copy, PartialEq, Eq, Structural)]
pub struct InvalidTempoError(pub i8);

/// The tempo a signed code stands for.
pub open spec fn tempo_of(v: int) -> Option<Tempo> {
    if v == 0 {
        Some(Tempo::Off)
    } else if v > 0 {
        Some(Tempo::FPS(v as u8))
    } else if v == -121 {
        Some(Tempo::WaitForSoundChannel1)
    } else if v == -122 {
        Some(Tempo::WaitForSoundChannel2)
    } else if v == -128 {
        Some(Tempo::WaitForMouse)
    } else {
        None
    }
}

impl Tempo {
    /// Decodes a tempo code: positive is frames per second, 0 is none,
    /// -121 and -122 wait for a sound channel, -128 waits for the mouse.
    pub fn try_from(value: i8) -> (r: Result<Tempo, InvalidTempoError>)
        ensures
            match tempo_of(value as int) {
                Some(t) => r == Ok::<Tempo, InvalidTempoError>(t),
                None => r == Err::<Tempo, InvalidTempoError>(InvalidTempoError(value)),
            },
    {
        if value == 0 {
            Ok(Tempo::Off)
        } else if value > 0 {
            Ok(Tempo::FPS(value as u8))
        } else if value == -121 {
            Ok(Tempo::WaitForSoundChannel1)
        } else if value == -122 {
            Ok(Tempo::WaitForSoundChannel2)
        } else if value == -128 {
            Ok(Tempo::WaitForMouse)
        } else {
            Err(InvalidTempoError(value))
        }
    }
}

impl Default for Tempo {
    fn default() -> (t: Tempo)
        ensures
            t == Tempo::FPS(1),
    {
        Tempo::FPS(1)
    }
}

/// One sprite channel of a frame.
#[derive(Debug, Clone, Copy, Default, PartialEq, Eq, Structural)]
pub struct SpriteChannel {
    pub script_id: u8,
    pub sprite_type: u8,
    pub fore_color: u8,
    pub back_color: u8,
    pub thickness: u8,
    pub ink: u8,
    pub cast_member_id: Option<CastMemberId>,
    pub position: Pos,
    pub size: Size,
}

impl SpriteChannel {
    /// Every field is zero or absent.
    pub fn is_default(&self) -> (b: bool)
        ensures
            b == (*self == SpriteChannel {
                script_id: 0,
                sprite_type: 0,
                fore_color: 0,
                back_color: 0,
                thickness: 0,
                ink: 0,
                cast_member_id: None,
                position: Pos { y: 0, x: 0 },
                size: Size { h: 0, w: 0 },
            }),
    {
        self.script_id == 0 && self.sprite_type == 0 && self.fore_color == 0 && self.back_color == 0
            && self.thickness == 0 && self.ink == 0 && self.cast_member_id.is_none()
            && self.position.y == 0 && self.position.x == 0 && self.size.h == 0 && self.size.w == 0
    }
}

/// One decoded frame.
#[derive(Debug)]
pub struct Frame {
    pub index: u16,
    pub tempo: Option<Tempo>,
    pub palette_id: Option<CastMemberId>,
    pub sprite_channels: Vec<(usize, SpriteChannel)>,
}

/// The decoded score.
#[derive(Debug)]
pub struct Score {
    pub frames: Vec<Frame>,
}

// ---- The frame-delta codec ----

/// `s` with `bytes` written from `begin` on.
pub open spec fn write_run(s: Seq<u8>, begin: int, bytes: Seq<u8>) -> Seq<u8> {
    Seq::new(s.len(), |i: int| if begin <= i < begin + bytes.len() { bytes[i - begin] } else { s[i] })
}

/// Applies the delta records of one frame, `remaining` bytes of them from
/// `pos`: each is a count, a start, and that many bytes to write, which must
/// end within the scratch buffer (at its last byte at most). Gives the
/// new scratch buffer and the position after the records.
pub open spec fn apply_deltas(s: Seq<u8>, p: Seq<u8>, pos: int, remaining: int) -> Option<(Seq<u8>, int)>
    decreases remaining,
{
    if remaining <= 0 {
        Some((s, pos))
    } else if remaining < 4 || pos + 4 > p.len() {
        None
    } else {
        let count = be_u16(p, pos);
        let begin = be_u16(p, pos + 2);
        if remaining - 4 < count || begin + count > SCRATCH_LEN || pos + 4 + count > p.len() {
            None
        } else {
            apply_deltas(
                write_run(s, begin, p.subrange(pos + 4, pos + 4 + count)),
                p,
                pos + 4 + count,
                remaining - 4 - count,
            )
        }
    }
}

/// Decodes the frame at `pos`: a length that counts itself, then delta records.
pub open spec fn decode_frame(s: Seq<u8>, p: Seq<u8>, pos: int) -> Option<(Seq<u8>, int)> {
    if pos + 2 > p.len() || be_u16(p, pos) < 2 {
        None
    } else {
        apply_deltas(s, p, pos + 2, be_u16(p, pos) - 2)
    }
}

/// The snapshots of every frame from `pos` to the end of the stream.
pub open spec fn decode_frames(s: Seq<u8>, p: Seq<u8>, pos: int) -> Option<Seq<Seq<u8>>>
    decreases p.len() - pos,
{
    if pos >= p.len() {
        Some(Seq::empty())
    } else {
        match decode_frame(s, p, pos) {
            None => None,
            Some((s2, q)) => if q <= pos || q > p.len() {
                None
            } else {
                match decode_frames(s2, p, q) {
                    None => None,
                    Some(rest) => Some(seq![s2] + rest),
                }
            },
        }
    }
}

pub open spec fn prepend(done: Seq<Seq<u8>>, rest: Option<Seq<Seq<u8>>>) -> Option<Seq<Seq<u8>>> {
    match rest {
        None => None,
        Some(r) => Some(done + r),
    }
}

/// The zeroed scratch buffer a score starts from.
pub open spec fn zero_scratch() -> Seq<u8> {
    Seq::new(SCRATCH_LEN as nat, |i: int| 0u8)
}

proof fn lemma_apply_deltas_progress(s: Seq<u8>, p: Seq<u8>, pos: int, remaining: int)
    requires
        apply_deltas(s, p, pos, remaining) is Some,
    ensures
        apply_deltas(s, p, pos, remaining).unwrap().1 >= pos,
        apply_deltas(s, p, pos, remaining).unwrap().1 <= p.len() || remaining <= 0,
        apply_deltas(s, p, pos, remaining).unwrap().0.len() == s.len(),
    decreases remaining,
{
    if remaining > 0 {
        let count = be_u16(p, pos);
        let begin = be_u16(p, pos + 2);
        lemma_apply_deltas_progress(
            write_run(s, begin, p.subrange(pos + 4, pos + 4 + count)),
            p,
            pos + 4 + count,
            remaining - 4 - count,
        );
    }
}

/// Each byte of `t1` and `t2` is equal, or is the byte of `s1` and `s2` respectively.
pub open spec fn same_or_kept(t1: Seq<u8>, t2: Seq<u8>, s1: Seq<u8>, s2: Seq<u8>) -> bool {
    forall|i: int| 0 <= i < s1.len() ==> #[trigger] t1[i] == t2[i] || (t1[i] == s1[i] && t2[i] == s2[i])
}

/// A frame's deltas decode the same way over any scratch buffer: the stream
/// positions agree, every byte of the two results is either equal or, where
/// no delta wrote it, still the byte of its own starting buffer. A frame
/// whose deltas cover the whole buffer thus gives one snapshot whatever
/// came before it.
pub proof fn lemma_frame_independent_of_base(s1: Seq<u8>, s2: Seq<u8>, p: Seq<u8>, pos: int)
    requires
        decode_frame(s1, p, pos) is Some,
        s1.len() == s2.len(),
    ensures
        decode_frame(s2, p, pos) is Some,
        decode_frame(s2, p, pos).unwrap().1 == decode_frame(s1, p, pos).unwrap().1,
        decode_frame(s2, p, pos).unwrap().0.len() == s2.len(),
        same_or_kept(decode_frame(s1, p, pos).unwrap().0, decode_frame(s2, p, pos).unwrap().0, s1, s2),
{
    lemma_deltas_independent_of_base(s1, s2, p, pos + 2, be_u16(p, pos) - 2);
}

proof fn lemma_deltas_independent_of_base(s1: Seq<u8>, s2: Seq<u8>, p: Seq<u8>, pos: int, remaining: int)
    requires
        apply_deltas(s1, p, pos, remaining) is Some,
        s1.len() == s2.len(),
    ensures
        apply_deltas(s2, p, pos, remaining) is Some,
        apply_deltas(s2, p, pos, remaining).unwrap().1 == apply_deltas(s1, p, pos, remaining).unwrap().1,
        apply_deltas(s2, p, pos, remaining).unwrap().0.len() == s2.len(),
        same_or_kept(apply_deltas(s1, p, pos, remaining).unwrap().0, apply_deltas(s2, p, pos, remaining).unwrap().0, s1, s2),
    decreases remaining,
{
    if remaining > 0 {
        let count = be_u16(p, pos);
        let begin = be_u16(p, pos + 2);
        let bytes = p.subrange(pos + 4, pos + 4 + count);
        let w1 = write_run(s1, begin, bytes);
        let w2 = write_run(s2, begin, bytes);
        lemma_deltas_independent_of_base(w1, w2, p, pos + 4 + count, remaining - 4 - count);
        lemma_apply_deltas_progress(w1, p, pos + 4 + count, remaining - 4 - count);
        let t1 = apply_deltas(s1, p, pos, remaining).unwrap().0;
        let t2 = apply_deltas(s2, p, pos, remaining).unwrap().0;
        assert forall|i: int| 0 <= i < s1.len() implies #[trigger] t1[i] == t2[i] || (t1[i] == s1[i] && t2[i] == s2[i]) by {
            assert(w1[i] == w2[i] || (w1[i] == s1[i] && w2[i] == s2[i]));
        }
    }
}

// ---- Reading one snapshot ----

/// Channel `c` of a snapshot is all zero bytes.
pub open spec fn channel_blank(s: Seq<u8>, c: int) -> bool {
    forall|k: int| 0 <= k < CHANNEL_LEN ==> #[trigger] s[c * 20 + k] == 0
}

/// The tempo of a snapshot: its code is the signed byte 4 of channel 0.
pub open spec fn frame_tempo(s: Seq<u8>) -> Option<Option<Tempo>> {
    let code = signed8(s[4] as int);
    if code == 0 {
        Some(None)
    } else {
        match tempo_of(code) {
            Some(t) => Some(Some(t)),
            None => None,
        }
    }
}

/// The palette a snapshot installs: the signed big-endian word opening channel 1.
pub open spec fn frame_palette(s: Seq<u8>) -> Option<CastMemberId> {
    let v = signed16(be_u16(s, 20));
    if v != 0 {
        Some(CastMemberId { id: v as i16, cast: None })
    } else {
        None
    }
}

/// The sprite stored in channel `c` of a snapshot.
pub open spec fn sprite_at(s: Seq<u8>, c: int) -> SpriteChannel {
    let o = c * 20;
    let member = signed16(be_u16(s, o + 6));
    SpriteChannel {
        script_id: s[o],
        sprite_type: s[o + 1],
        fore_color: s[o + 2],
        back_color: s[o + 3],
        thickness: s[o + 4],
        ink: s[o + 5],
        cast_member_id: if member != 0 {
            Some(CastMemberId { id: member as i16, cast: None })
        } else {
            None
        },
        position: Pos { y: signed16(be_u16(s, o + 8)) as i16, x: signed16(be_u16(s, o + 10)) as i16 },
        size: Size { h: signed16(be_u16(s, o + 12)) as i16, w: signed16(be_u16(s, o + 14)) as i16 },
    }
}

/// The sprite channels among channels `2..c` that are not blank, numbered
/// by the score layout (channel index plus four).
pub open spec fn frame_sprites(s: Seq<u8>, c: int) -> Seq<(usize, SpriteChannel)>
    decreases c,
{
    if c <= 2 {
        Seq::empty()
    } else if channel_blank(s, c - 1) {
        frame_sprites(s, c - 1)
    } else {
        frame_sprites(s, c - 1).push(((c - 1 + 4) as usize, sprite_at(s, c - 1)))
    }
}

/// `f` is what snapshot `s`, the `index`-th, reads as with `channels` channels.
pub open spec fn frame_matches(f: Frame, s: Seq<u8>, index: int, channels: int) -> bool {
    &&& f.index == index as u16
    &&& frame_tempo(s) == Some(f.tempo)
    &&& f.palette_id == frame_palette(s)
    &&& f.sprite_channels@ == frame_sprites(s, channels)
}

// ---- The chunk ----

/// Byte count of the frame stream that follows the 20-byte header.
pub open spec fn score_stream(p: Seq<u8>) -> Seq<u8> {
    p.subrange(20, be_u32(p, 0))
}

/// The header is complete and consistent and the stream fits.
pub open spec fn score_header_ok(p: Seq<u8>) -> bool {
    &&& p.len() >= 20
    &&& be_u16(p, 14) == CHANNEL_LEN
    &&& 2 <= be_u16(p, 16) <= 50
    &&& 20 <= be_u32(p, 0) <= p.len()
}

impl Chunk for Score {
    open spec fn spec_tag() -> u32 {
        TAG_VWSC
    }

    open spec fn parsed(payload: Seq<u8>, order: ByteOrder, id: u32, v: Self) -> bool {
        &&& score_header_ok(payload)
        &&& decode_frames(zero_scratch(), score_stream(payload), 0) is Some
        &&& {
            let snaps = decode_frames(zero_scratch(), score_stream(payload), 0).unwrap();
            &&& v.frames@.len() == snaps.len()
            &&& forall|i: int| 0 <= i < snaps.len() ==> frame_matches(#[trigger] v.frames@[i], snaps[i], i, be_u16(payload, 16))
        }
    }

    open spec fn refused(payload: Seq<u8>, order: ByteOrder) -> bool {
        ||| !score_header_ok(payload)
        ||| decode_frames(zero_scratch(), score_stream(payload), 0) is None
        ||| exists|i: int| 0 <= i < decode_frames(zero_scratch(), score_stream(payload), 0).unwrap().len()
            && (#[trigger] frame_tempo(decode_frames(zero_scratch(), score_stream(payload), 0).unwrap()[i])) is None
    }

    fn tag() -> (t: Tag) {
        Tag(TAG_VWSC)
    }

    fn read(r: &mut Reader, _id: u32) -> (res: Result<Self, Error>) {
        let mut c = r.remaining();
        let ghost p = c.data();
        let length = c.read_be_u32()?;
        let _frames_offset = c.read_be_u32()?;
        let _frames_count = c.read_be_u32()?;
        let _frames_version = c.read_be_u16()?;
        let entry_size = c.read_be_u16()?;
        let entry_count = c.read_be_u16()?;
        let _flags = c.read_be_u16()?;
        if entry_size as usize != CHANNEL_LEN || entry_count < 2 || entry_count > 50 {
            return Err(Error::InvalidData);
        }
        if (length as usize) < 20 || length as usize > c.stream_len() {
            return Err(Error::InvalidData);
        }
        let stream = c.subset(20, length as usize - 20);
        assert(stream.data() =~= score_stream(p));
        let frames = decode_score_frames(stream, entry_count as usize)?;
        Ok(Score { frames })
    }
}

/// Decodes every frame of the stream and reads each snapshot with `channels` channels.
fn decode_score_frames(stream: Reader, channels: usize) -> (res: Result<Vec<Frame>, Error>)
    requires
        stream.pos() == 0,
        2 <= channels <= 50,
    ensures
        ({
            let d = decode_frames(zero_scratch(), stream.data(), 0);
            match res {
                Ok(frames) => d is Some && frames@.len() == d.unwrap().len() && forall|i: int|
                    0 <= i < d.unwrap().len() ==> frame_matches(#[trigger] frames@[i], d.unwrap()[i], i, channels as int),
                Err(e) => e.spec_kind() == ErrorKind::InvalidData && d is None || e.spec_kind() == ErrorKind::InvalidData && exists|i: int|
                    0 <= i < d.unwrap().len() && (#[trigger] frame_tempo(d.unwrap()[i])) is None,
            }
        }),
{
    let ghost p = stream.data();
    let mut r = stream;
    let mut scratch: [u8; 1000] = [0u8; 1000];
    assert(scratch@ =~= zero_scratch());
    let mut frames: Vec<Frame> = Vec::new();
    let ghost mut done: Seq<Seq<u8>> = Seq::empty();
    proof {
        match decode_frames(zero_scratch(), p, 0) {
            Some(x) => {
                assert(Seq::<Seq<u8>>::empty() + x =~= x);
            },
            None => {},
        }
    }
    let mut more = r.stream_remain() > 0;
    while more
        invariant
            r.data() == p,
            p == stream.data(),
            more == (r.pos() < p.len()),
            2 <= channels <= 50,
            r.pos() <= p.len(),
            decode_frames(zero_scratch(), p, 0) == prepend(done, decode_frames(scratch@, p, r.pos())),
            frames@.len() == done.len(),
            forall|i: int| 0 <= i < done.len() ==> frame_matches(#[trigger] frames@[i], done[i], i, channels as int),
            forall|i: int| 0 <= i < done.len() ==> (#[trigger] done[i]).len() == SCRATCH_LEN,
        decreases p.len() - r.pos(),
    {
        let ghost before = scratch@;
        let ghost pos = r.pos();
        let ok = decompress_frame(&mut r, &mut scratch);
        if !ok {
            assert(decode_frames(before, p, pos) is None);
            return Err(Error::InvalidData);
        }
        proof {
            let q = r.pos();
            assert(decode_frames(before, p, pos) == prepend(seq![scratch@], decode_frames(scratch@, p, q)));
            assert(done + seq![scratch@] + Seq::<Seq<u8>>::empty() =~= done.push(scratch@));
            match decode_frames(scratch@, p, q) {
                Some(rest) => {
                    assert(done + (seq![scratch@] + rest) =~= done.push(scratch@) + rest);
                },
                None => {},
            }
        }
        let index = frames.len();
        let frame = match read_frame(&scratch, index, channels) {
            Some(f) => f,
            None => {
                proof {
                    let full = done.push(scratch@);
                    lemma_prepend_index(full, decode_frames(scratch@, p, r.pos()), done.len() as int);
                    if decode_frames(zero_scratch(), p, 0) is Some {
                        assert(frame_tempo(decode_frames(zero_scratch(), p, 0).unwrap()[done.len() as int]) is None);
                    }
                }
                return Err(Error::InvalidData);
            },
        };
        frames.push(frame);
        proof {
            done = done.push(scratch@);
        }
        more = r.stream_remain() > 0;
    }
    proof {
        assert(r.pos() == p.len());
        assert(done + Seq::<Seq<u8>>::empty() =~= done);
    }
    Ok(frames)
}

proof fn lemma_prepend_index(done: Seq<Seq<u8>>, rest: Option<Seq<Seq<u8>>>, i: int)
    requires
        0 <= i < done.len(),
    ensures
        prepend(done, rest) is Some ==> prepend(done, rest).unwrap()[i] == done[i]
            && i < prepend(done, rest).unwrap().len(),
{
}

/// Applies one frame's deltas to `frame`; false where the stream is malformed.
fn decompress_frame(r: &mut Reader, frame: &mut [u8; 1000]) -> (ok: bool)
    requires
        old(r).pos() < old(r).data().len(),
    ensures
        final(r).data() == old(r).data(),
        ok <==> decode_frame(old(frame)@, old(r).data(), old(r).pos()) is Some && {
            let q = decode_frame(old(frame)@, old(r).data(), old(r).pos()).unwrap().1;
            old(r).pos() < q <= old(r).data().len()
        },
        ok ==> decode_frame(old(frame)@, old(r).data(), old(r).pos()) == Some((final(frame)@, final(r).pos())),
        ok ==> decode_frames(old(frame)@, old(r).data(), old(r).pos()) == prepend(
            seq![final(frame)@],
            decode_frames(final(frame)@, old(r).data(), final(r).pos()),
        ),
        !ok ==> decode_frames(old(frame)@, old(r).data(), old(r).pos()) is None,
{
    let ghost p = r.data();
    let ghost pos0 = r.pos();
    let ghost s0 = frame@;
    let frame_length = match r.read_be_u16() {
        Ok(v) => v,
        Err(_) => return false,
    };
    if frame_length < 2 {
        return false;
    }
    let mut data_len: usize = frame_length as usize - 2;
    while data_len > 0
        invariant
            r.data() == p,
            p == old(r).data(),
            pos0 == old(r).pos(),
            s0 == old(frame)@,
            pos0 + 2 <= r.pos() <= p.len(),
            frame@.len() == SCRATCH_LEN,
            decode_frame(s0, p, pos0) == apply_deltas(frame@, p, r.pos(), data_len as int),
        decreases data_len,
    {
        let ghost at0 = r.pos();
        let count = match r.read_be_u16() {
            Ok(v) => v as usize,
            Err(_) => {
                assert(apply_deltas(frame@, p, at0, data_len as int) is None);
                return false;
            },
        };
        let begin = match r.read_be_u16() {
            Ok(v) => v as usize,
            Err(_) => {
                assert(apply_deltas(frame@, p, at0, data_len as int) is None);
                return false;
            },
        };
        if data_len < 4 || data_len - 4 < count || begin + count > SCRATCH_LEN {
            return false;
        }
        if count > r.stream_remain() {
            assert(apply_deltas(frame@, p, at0, data_len as int) is None);
            return false;
        }
        proof {
            r.lemma_pos();
        }
        let ghost before = frame@;
        let ghost at = r.pos();
        let mut j: usize = 0;
        while j < count
            invariant
                r.data() == p,
                p == old(r).data(),
                0 <= at,
                before.len() == SCRATCH_LEN,
                r.pos() == at + j,
                at + count <= p.len(),
                begin + count <= SCRATCH_LEN,
                j <= count,
                frame@.len() == SCRATCH_LEN,
                frame@ == write_run(before, begin as int, p.subrange(at, at + j)),
            decreases count - j,
        {
            let b = match r.read_u8() {
                Ok(b) => b,
                Err(_) => return false,
            };
            let ghost prev = frame@;
            frame[begin + j] = b;
            j = j + 1;
            assert forall|i: int| 0 <= i < SCRATCH_LEN implies #[trigger] frame@[i] == write_run(before, begin as int, p.subrange(at, at + j))[i] by {
                if i == begin + j - 1 {
                    assert(p.subrange(at, at + j)[j - 1] == p[at + j - 1]);
                } else {
                    assert(frame@[i] == prev[i]);
                }
            }
            assert(frame@ =~= write_run(before, begin as int, p.subrange(at, at + j)));
        }
        data_len = data_len - 4 - count;
    }
    proof {
        let q = r.pos();
        assert(q > pos0);
        assert(decode_frame(s0, p, pos0) == Some((frame@, q)));
    }
    true
}

/// Reads a snapshot as frame number `index`; `None` where its tempo code is invalid.
fn read_frame(s: &[u8; 1000], index: usize, channels: usize) -> (f: Option<Frame>)
    requires
        2 <= channels <= 50,
    ensures
        f is Some <==> frame_tempo(s@) is Some,
        f is Some ==> frame_matches(f.unwrap(), s@, index as int, channels as int),
{
    let code = if s[4] >= 0x80 {
        (s[4] as i16 - 0x100) as i8
    } else {
        s[4] as i8
    };
    let tempo = if code == 0 {
        None
    } else {
        match Tempo::try_from(code) {
            Ok(t) => Some(t),
            Err(_) => return None,
        }
    };
    let pal = ((s[20] as u16) * 0x100 + s[21] as u16) as i32;
    let pal: i16 = if pal >= 0x8000 {
        (pal - 0x10000) as i16
    } else {
        pal as i16
    };
    let palette_id = if pal != 0 {
        Some(CastMemberId { id: pal, cast: None })
    } else {
        None
    };
    let mut sprite_channels: Vec<(usize, SpriteChannel)> = Vec::new();
    let mut c: usize = 2;
    while c < channels
        invariant
            2 <= c <= channels <= 50,
            sprite_channels@ == frame_sprites(s@, c as int),
        decreases channels - c,
    {
        if !channel_is_blank(s, c) {
            sprite_channels.push((c + 4, read_sprite(s, c)));
        }
        c = c + 1;
    }
    Some(Frame { index: index as u16, tempo, palette_id, sprite_channels })
}

fn channel_is_blank(s: &[u8; 1000], c: usize) -> (b: bool)
    requires
        c < 50,
    ensures
        b == channel_blank(s@, c as int),
{
    let mut k: usize = 0;
    while k < CHANNEL_LEN
        invariant
            c < 50,
            k <= CHANNEL_LEN,
            forall|j: int| 0 <= j < k ==> #[trigger] s@[c * 20 + j] == 0,
        decreases CHANNEL_LEN - k,
    {
        if s[c * 20 + k] != 0 {
            return false;
        }
        k = k + 1;
    }
    true
}

fn word_at(s: &[u8; 1000], o: usize) -> (v: i16)
    requires
        o + 1 < 1000,
    ensures
        v == signed16(be_u16(s@, o as int)),
{
    let w = (s[o] as u16) * 0x100 + s[o + 1] as u16;
    if w >= 0x8000 {
        (w as i32 - 0x10000) as i16
    } else {
        w as i16
    }
}

fn read_sprite(s: &[u8; 1000], c: usize) -> (sp: SpriteChannel)
    requires
        c < 50,
    ensures
        sp == sprite_at(s@, c as int),
{
    let o = c * 20;
    let member = word_at(s, o + 6);
    SpriteChannel {
        script_id: s[o],
        sprite_type: s[o + 1],
        fore_color: s[o + 2],
        back_color: s[o + 3],
        thickness: s[o + 4],
        ink: s[o + 5],
        cast_member_id: if member != 0 {
            Some(CastMemberId { id: member, cast: None })
        } else {
            None
        },
        position: Pos { y: word_at(s, o + 8), x: word_at(s, o + 10) },
        size: Size { h: word_at(s, o + 12), w: word_at(s, o + 14) },
    }
}

impl Score {
    pub fn empty() -> (s: Self)
        ensures
            s.frames@.len() == 0,
    {
        Score { frames: Vec::new() }
    }

    pub fn frames(&self) -> (f: &Vec<Frame>)
        ensures
            f@ == self.frames@,
    {
        &self.frames
    }

    /// Frame number `index`, counted from 0.
    pub fn get_frame(&self, index: u16) -> (f: Option<&Frame>)
        ensures
            f is Some <==> index < self.frames@.len(),
            f is Some ==> *f.unwrap() == self.frames@[index as int],
    {
        if (index as usize) < self.frames.len() {
            Some(&self.frames[index as usize])
        } else {
            None
        }
    }
}

} // verus!
