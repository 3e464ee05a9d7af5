//! The playback engine: palette and tempo state, cast preloading, and the
//! display list of each frame. Time is a count of nanoseconds on a clock the
//! caller keeps; the caller polls and draws.

use std::rc::Rc;

use vstd::hash_map::HashMapWithView;
use vstd::prelude::*;

use crate::cast_members::bitmap::image_of;
use crate::cast_members::{CastMember, CastMemberId};
use crate::chunks::{Frame, SpriteChannel, Tempo};
use crate::error::Error;
use crate::gfx::{IndexedImage, Palette, Rect, Rgb161616};
use crate::riff_file::RiffFile;

verus! {

broadcast use vstd::std_specs::hash::group_hash_axioms;

/// Nanoseconds in one second.
pub const NANOS_PER_SECOND: u64 = 1_000_000_000;

/// How a bitmap is put on the stage.
#[derive(Debug, Clone, Copy, PartialEq, Eq, Structural)]
pub enum DrawMode {
    Copy,
    TransparentColorIndex(u8),
}

/// One item to draw.
#[derive(Debug)]
pub enum DisplayObject {
    Bitmap { id: CastMemberId, rect: Rect, image: Rc<IndexedImage>, draw_mode: DrawMode },
}

/// What a frame shows, in channel order.
pub type DisplayList = Vec<DisplayObject>;

/// What the engine hands its renderer.
#[derive(Debug)]
pub enum PlayerEvent {
    Draw(DisplayList),
    EndOfMovie,
}

/// A sprite channel draws a bitmap: sprite type 1 with a cast member.
pub open spec fn draws(c: SpriteChannel) -> bool {
    c.sprite_type == 1 && c.cast_member_id is Some
}

/// The drawing sprite channels among the first `n`, in order.
pub open spec fn drawn(s: Seq<(usize, SpriteChannel)>, n: int) -> Seq<SpriteChannel>
    decreases n,
{
    if n <= 0 {
        Seq::empty()
    } else if draws(s[n - 1].1) {
        drawn(s, n - 1).push(s[n - 1].1)
    } else {
        drawn(s, n - 1)
    }
}

/// The integer a member id is cached under: its number as 16 bits, and
/// above them 0 for no cast or the cast number plus one.
pub open spec fn member_key(id: CastMemberId) -> u64 {
    ((id.id as int + 0x10000) % 0x10000 + 0x10000 * match id.cast {
        None => 0int,
        Some(c) => c as int + 1,
    }) as u64
}

/// Distinct member ids have distinct keys.
pub proof fn lemma_member_key_injective(a: CastMemberId, b: CastMemberId)
    requires
        member_key(a) == member_key(b),
    ensures
        a == b,
{
    let ha: int = match a.cast {
        None => 0int,
        Some(c) => c as int + 1,
    };
    let hb: int = match b.cast {
        None => 0int,
        Some(c) => c as int + 1,
    };
    let la = (a.id as int + 0x10000) % 0x10000;
    let lb = (b.id as int + 0x10000) % 0x10000;
    assert(la + 0x10000 * ha == lb + 0x10000 * hb);
    assert(ha == hb && la == lb) by (nonlinear_arith)
        requires la + 0x10000 * ha == lb + 0x10000 * hb, 0 <= la < 0x10000, 0 <= lb < 0x10000, 0 <= ha, 0 <= hb;
    assert(a.id == b.id);
    assert(a.cast == b.cast);
}

fn key_of(id: CastMemberId) -> (k: u64)
    ensures
        k == member_key(id),
{
    let low = ((id.id as i32 + 0x10000) % 0x10000) as u64;
    let high: u64 = match id.cast {
        None => 0,
        Some(c) => c as u64 + 1,
    };
    low + 0x10000 * high
}

/// The member cached under `id`.
pub open spec fn cached(c: Map<u64, CastMember>, id: CastMemberId) -> Option<CastMember> {
    if c.contains_key(member_key(id)) {
        Some(c[member_key(id)])
    } else {
        None
    }
}

/// The palette after a colour table is copied in from entry 0, at most 256 colours.
pub open spec fn palette_with(old: Seq<Rgb161616>, colors: Seq<Rgb161616>) -> Seq<Rgb161616> {
    Seq::new(old.len(), |i: int| if i < colors.len() { colors[i] } else { old[i] })
}

/// Where a bitmap member is drawn for a sprite at `pos`: its rectangle moved
/// back by its registration point, then onto the sprite's position.
pub open spec fn draw_rect(m: CastMember, c: SpriteChannel) -> Option<Rect> {
    match m {
        CastMember::Bitmap(b) => Some(
            Rect {
                y0: crate::gfx::wrap16(crate::gfx::wrap16(b.info.rect.y0 + crate::gfx::wrap16(-b.info.reg.y)) + c.position.y) as i16,
                x0: crate::gfx::wrap16(crate::gfx::wrap16(b.info.rect.x0 + crate::gfx::wrap16(-b.info.reg.x)) + c.position.x) as i16,
                y1: crate::gfx::wrap16(crate::gfx::wrap16(b.info.rect.y1 + crate::gfx::wrap16(-b.info.reg.y)) + c.position.y) as i16,
                x1: crate::gfx::wrap16(crate::gfx::wrap16(b.info.rect.x1 + crate::gfx::wrap16(-b.info.reg.x)) + c.position.x) as i16,
            },
        ),
        _ => None,
    }
}

/// The colour table of a palette member, if it has one.
pub open spec fn clut_of(m: Option<CastMember>) -> Option<Seq<Rgb161616>> {
    match m {
        Some(CastMember::Palette(p)) => match p.clut {
            Some(c) => Some(c.colors@),
            None => None,
        },
        _ => None,
    }
}

/// `o` shows channel `c`: the cached bitmap member's image at its draw rectangle, copied.
pub open spec fn shows(o: DisplayObject, c: SpriteChannel, cache: Map<u64, CastMember>) -> bool {
    let id = c.cast_member_id.unwrap();
    match o {
        DisplayObject::Bitmap { id: oid, rect, image, draw_mode } => {
            &&& oid == id
            &&& draw_mode == DrawMode::Copy
            &&& cached(cache, id) is Some
            &&& draw_rect(cached(cache, id).unwrap(), c) == Some(rect)
            &&& match cached(cache, id).unwrap() {
                CastMember::Bitmap(b) => b.data is Some && image_of(b.info, b.data.unwrap().spec_buf(), *image),
                _ => false,
            }
        },
    }
}

/// Frame `f` names member `id`: as its palette or as a sprite's member.
pub open spec fn referenced(f: Frame, id: CastMemberId) -> bool {
    f.palette_id == Some(id) || exists|j: int|
        0 <= j < f.sprite_channels@.len() && (#[trigger] f.sprite_channels@[j]).1.cast_member_id == Some(id)
}

/// Loading member `id` from `riff` fails with `e`: the cast table lacks it
/// (`NotFound`), or reading its chunks fails so.
pub open spec fn load_failure(riff: RiffFile, id: CastMemberId, e: Error) -> bool {
    ||| e == Error::NotFound && !(exists|i: int|
        0 <= i < riff.spec_cast_table().len() && (#[trigger] riff.spec_cast_table()[i]).0 == id.id)
    ||| riff.load_fails(id.id, e)
}

/// A cached member that can be drawn: a bitmap with data that decodes to an image.
pub open spec fn displayable(m: Option<CastMember>) -> bool {
    match m {
        Some(CastMember::Bitmap(b)) => b.data is Some && exists|i: IndexedImage| image_of(b.info, b.data.unwrap().spec_buf(), i),
        _ => false,
    }
}

proof fn lemma_drawn_from(s: Seq<(usize, SpriteChannel)>, n: int, k: int)
    requires
        0 <= n <= s.len(),
        0 <= k < drawn(s, n).len(),
    ensures
        exists|j: int| 0 <= j < n && #[trigger] s[j].1 == drawn(s, n)[k],
    decreases n,
{
    if n > 0 {
        if draws(s[n - 1].1) {
            if k < drawn(s, n - 1).len() {
                lemma_drawn_from(s, n - 1, k);
            } else {
                assert(s[n - 1].1 == drawn(s, n)[k]);
            }
        } else {
            lemma_drawn_from(s, n - 1, k);
        }
    }
}

proof fn lemma_drawn_draws(s: Seq<(usize, SpriteChannel)>, n: int, k: int)
    requires
        0 <= n <= s.len(),
        0 <= k < drawn(s, n).len(),
    ensures
        draws(drawn(s, n)[k]),
    decreases n,
{
    if n > 0 {
        if draws(s[n - 1].1) {
            if k < drawn(s, n - 1).len() {
                lemma_drawn_draws(s, n - 1, k);
            }
        } else {
            lemma_drawn_draws(s, n - 1, k);
        }
    }
}

/// The playback engine.
pub struct Player<'a> {
    riff: RiffFile<'a>,
    tempo: Tempo,
    palette: Palette,
    current_frame_number: u16,
    next_frame_number: u16,
    current_frame_time: u64,
    next_frame_time: u64,
    cast_members: HashMapWithView<u64, CastMember>,
}

impl<'a> Player<'a> {
    pub closed spec fn spec_riff(&self) -> RiffFile<'a> {
        self.riff
    }

    pub closed spec fn spec_palette(&self) -> Palette {
        self.palette
    }

    pub closed spec fn spec_tempo(&self) -> Tempo {
        self.tempo
    }

    pub closed spec fn spec_current(&self) -> u16 {
        self.current_frame_number
    }

    pub closed spec fn spec_next(&self) -> u16 {
        self.next_frame_number
    }

    pub closed spec fn spec_current_time(&self) -> u64 {
        self.current_frame_time
    }

    pub closed spec fn spec_next_time(&self) -> u64 {
        self.next_frame_time
    }

    pub closed spec fn spec_cache(&self) -> Map<u64, CastMember> {
        self.cast_members@
    }

    /// The container keeps its invariants.
    pub closed spec fn wf(&self) -> bool {
        self.riff.wf()
    }

    /// The container being played.
    pub fn riff(&self) -> (r: &RiffFile<'a>)
        ensures
            *r == self.spec_riff(),
            self.wf() ==> r.wf(),
    {
        &self.riff
    }

    /// The current palette.
    pub fn palette(&self) -> (p: &Palette)
        ensures
            *p == self.spec_palette(),
    {
        &self.palette
    }

    /// A player at frame 0 with the default tempo and a black palette; `now`
    /// is the time on the caller's clock.
    pub fn new(riff: RiffFile<'a>, now: u64) -> (p: Self)
        ensures
            p.spec_riff() == riff,
            riff.wf() ==> p.wf(),
            p.spec_tempo() == Tempo::FPS(1),
            p.spec_palette().entries() == Seq::new(256, |i: int| Rgb161616 { r: 0, g: 0, b: 0 }),
            p.spec_current() == 0,
            p.spec_next() == 0,
            p.spec_current_time() == now,
            p.spec_next_time() == now,
            p.spec_cache().len() == 0,
    {
        Player {
            riff,
            tempo: Tempo::FPS(1),
            palette: Palette::new(),
            current_frame_number: 0,
            next_frame_number: 0,
            current_frame_time: now,
            next_frame_time: now,
            cast_members: HashMapWithView::new(),
        }
    }

    pub fn tempo(&self) -> (t: Tempo)
        ensures
            t == self.spec_tempo(),
    {
        self.tempo
    }

    pub fn current_frame_number(&self) -> (n: u16)
        ensures
            n == self.spec_current(),
    {
        self.current_frame_number
    }

    /// Width and height of the stage, from the movie configuration.
    pub fn default_window_size(&self) -> (s: (i32, i32))
        ensures
            s.0 == self.spec_riff().spec_config().movie_right - self.spec_riff().spec_config().movie_left,
            s.1 == self.spec_riff().spec_config().movie_bottom - self.spec_riff().spec_config().movie_top,
    {
        let config = self.riff.config();
        let width = config.movie_right as i32 - config.movie_left as i32;
        let height = config.movie_bottom as i32 - config.movie_top as i32;
        (width, height)
    }

    /// Nanoseconds per frame at the current tempo; none for a wait or a rate of 0.
    pub fn frame_duration(&self) -> (d: Option<u64>)
        ensures
            d == match self.spec_tempo() {
                Tempo::FPS(n) => if n > 0 {
                    Some((NANOS_PER_SECOND / n as u64) as u64)
                } else {
                    None::<u64>
                },
                _ => None::<u64>,
            },
    {
        match self.tempo {
            Tempo::FPS(fps) => if fps > 0 {
                Some(NANOS_PER_SECOND / fps as u64)
            } else {
                None
            },
            _ => None,
        }
    }

    /// The next frame is due at `now`.
    pub fn time_for_new_frame(&self, now: u64) -> (b: bool)
        ensures
            b == (self.spec_next_time() <= now),
    {
        self.next_frame_time <= now
    }

    /// The member cached under `id`, if it has been loaded.
    pub fn cast_member(&self, id: CastMemberId) -> (m: Option<&CastMember>)
        ensures
            match m {
                Some(x) => cached(self.spec_cache(), id) == Some(*x),
                None => cached(self.spec_cache(), id) is None,
            },
    {
        self.cast_members.get(&key_of(id))
    }

    /// Loads member `id` into the cache unless it is there.
    pub fn preload_cast_member(&mut self, id: CastMemberId) -> (res: Result<(), Error>)
        requires
            old(self).wf(),
        ensures
            final(self).wf(),
            final(self).spec_riff() == old(self).spec_riff(),
            final(self).spec_palette() == old(self).spec_palette(),
            final(self).spec_tempo() == old(self).spec_tempo(),
            final(self).spec_current() == old(self).spec_current(),
            final(self).spec_next() == old(self).spec_next(),
            final(self).spec_current_time() == old(self).spec_current_time(),
            final(self).spec_next_time() == old(self).spec_next_time(),
            forall|k: CastMemberId| cached(old(self).spec_cache(), k) is Some ==> #[trigger] cached(final(self).spec_cache(), k)
                == cached(old(self).spec_cache(), k),
            res is Ok ==> cached(final(self).spec_cache(), id) is Some,
            res is Err ==> cached(old(self).spec_cache(), id) is None && load_failure(old(self).spec_riff(), id, res->Err_0),
            res is Ok && cached(old(self).spec_cache(), id) is None ==> exists|i: int|
                0 <= i < old(self).spec_riff().spec_cast_table().len() && (#[trigger] old(self).spec_riff().spec_cast_table()[i]).0 == id.id
                    && old(self).spec_riff().member_read(old(self).spec_riff().spec_cast_table()[i].1, cached(final(self).spec_cache(), id).unwrap()),
    {
        if self.cast_members.contains_key(&key_of(id)) {
            return Ok(());
        }
        let member = self.riff.load_cast_member(id)?;
        let ghost before = self.cast_members@;
        self.cast_members.insert(key_of(id), member);
        proof {
            assert forall|k: CastMemberId| cached(before, k) is Some implies #[trigger] cached(self.cast_members@, k) == cached(before, k) by {
                if member_key(k) == member_key(id) {
                    lemma_member_key_injective(k, id);
                }
            }
        }
        Ok(())
    }

    /// Loads every member that frame `frame_number` uses: its palette and
    /// each sprite's member.
    pub fn preload_cast_members_for_frame(&mut self, frame_number: u16) -> (res: Result<(), Error>)
        requires
            old(self).wf(),
        ensures
            final(self).wf(),
            final(self).spec_riff() == old(self).spec_riff(),
            final(self).spec_palette() == old(self).spec_palette(),
            final(self).spec_tempo() == old(self).spec_tempo(),
            final(self).spec_current() == old(self).spec_current(),
            final(self).spec_next() == old(self).spec_next(),
            final(self).spec_current_time() == old(self).spec_current_time(),
            final(self).spec_next_time() == old(self).spec_next_time(),
            forall|k: CastMemberId| cached(old(self).spec_cache(), k) is Some ==> #[trigger] cached(final(self).spec_cache(), k)
                == cached(old(self).spec_cache(), k),
            frame_number >= old(self).spec_riff().spec_score().frames@.len() ==> res == Err::<(), Error>(Error::NotFound),
            res is Err && frame_number < old(self).spec_riff().spec_score().frames@.len() ==> exists|id: CastMemberId|
                referenced(old(self).spec_riff().spec_score().frames@[frame_number as int], id)
                    && #[trigger] cached(old(self).spec_cache(), id) is None
                    && load_failure(old(self).spec_riff(), id, res->Err_0),
            res is Ok ==> {
                let f = old(self).spec_riff().spec_score().frames@[frame_number as int];
                &&& (f.palette_id is Some ==> cached(final(self).spec_cache(), f.palette_id.unwrap()) is Some)
                &&& forall|j: int| 0 <= j < f.sprite_channels@.len() && (#[trigger] f.sprite_channels@[j]).1.cast_member_id is Some
                    ==> cached(final(self).spec_cache(), f.sprite_channels@[j].1.cast_member_id.unwrap()) is Some
            },
    {
        let mut ids: Vec<CastMemberId> = Vec::new();
        {
            let frame = match self.riff.score().get_frame(frame_number) {
                Some(f) => f,
                None => return Err(Error::NotFound),
            };
            if let Some(p) = frame.palette_id {
                ids.push(p);
            }
            let mut j: usize = 0;
            while j < frame.sprite_channels.len()
                invariant
                    j <= frame.sprite_channels@.len(),
                    frame.palette_id is Some ==> ids@.len() >= 1 && ids@[0] == frame.palette_id.unwrap(),
                    forall|q: int| 0 <= q < ids@.len() ==> referenced(*frame, #[trigger] ids@[q]),
                    forall|q: int| 0 <= q < j && (#[trigger] frame.sprite_channels@[q]).1.cast_member_id is Some
                        ==> ids@.contains(frame.sprite_channels@[q].1.cast_member_id.unwrap()),
                decreases frame.sprite_channels@.len() - j,
            {
                let ghost before = ids@;
                if let Some(id) = frame.sprite_channels[j].1.cast_member_id {
                    ids.push(id);
                    assert(ids@[ids@.len() - 1] == id);
                    assert(frame.sprite_channels@[j as int].1.cast_member_id == Some(id));
                }
                proof {
                    assert forall|q: int| 0 <= q < j + 1 && (#[trigger] frame.sprite_channels@[q]).1.cast_member_id is Some
                        implies ids@.contains(frame.sprite_channels@[q].1.cast_member_id.unwrap()) by {
                        let x = frame.sprite_channels@[q].1.cast_member_id.unwrap();
                        if q < j {
                            assert(before.contains(x));
                            let t = choose|t: int| 0 <= t < before.len() && before[t] == x;
                            assert(ids@[t] == x);
                        } else {
                            assert(ids@[ids@.len() - 1] == x);
                        }
                    }
                }
                j = j + 1;
            }
        }
        let ghost want = ids@;
        let ghost fr = old(self).spec_riff().spec_score().frames@[frame_number as int];
        let mut k: usize = 0;
        while k < ids.len()
            invariant
                self.wf(),
                ids@ == want,
                frame_number < old(self).spec_riff().spec_score().frames@.len(),
                fr == old(self).spec_riff().spec_score().frames@[frame_number as int],
                forall|q: int| 0 <= q < want.len() ==> referenced(fr, #[trigger] want[q]),
                k <= ids@.len(),
                self.spec_riff() == old(self).spec_riff(),
                self.spec_palette() == old(self).spec_palette(),
                self.spec_tempo() == old(self).spec_tempo(),
                self.spec_current() == old(self).spec_current(),
                self.spec_next() == old(self).spec_next(),
                self.spec_current_time() == old(self).spec_current_time(),
                self.spec_next_time() == old(self).spec_next_time(),
                forall|q: CastMemberId| cached(old(self).spec_cache(), q) is Some ==> #[trigger] cached(self.spec_cache(), q)
                    == cached(old(self).spec_cache(), q),
                forall|q: int| 0 <= q < k ==> #[trigger] cached(self.spec_cache(), ids@[q]) is Some,
            decreases ids@.len() - k,
        {
            let ghost prev = self.spec_cache();
            match self.preload_cast_member(ids[k]) {
                Ok(()) => {},
                Err(e) => {
                    proof {
                        let x = ids@[k as int];
                        assert(referenced(fr, x));
                        if cached(old(self).spec_cache(), x) is Some {
                            assert(cached(prev, x) is Some);
                        }
                        assert(cached(old(self).spec_cache(), x) is None);
                    }
                    return Err(e);
                },
            }
            proof {
                assert forall|q: int| 0 <= q < k + 1 implies #[trigger] cached(self.spec_cache(), ids@[q]) is Some by {
                    if q < k {
                        assert(cached(prev, ids@[q]) is Some);
                    }
                }
            }
            k = k + 1;
        }
        proof {
            let f = old(self).spec_riff().spec_score().frames@[frame_number as int];
            assert forall|j: int| 0 <= j < f.sprite_channels@.len() && (#[trigger] f.sprite_channels@[j]).1.cast_member_id is Some
                implies cached(self.spec_cache(), f.sprite_channels@[j].1.cast_member_id.unwrap()) is Some by {
                let x = f.sprite_channels@[j].1.cast_member_id.unwrap();
                assert(want.contains(x));
                let q = choose|q: int| 0 <= q < want.len() && want[q] == x;
                assert(cached(self.spec_cache(), ids@[q]) is Some);
            }
            if f.palette_id is Some {
                assert(cached(self.spec_cache(), ids@[0]) is Some);
            }
        }
        Ok(())
    }

    /// The drawing channels of `frame`, in order.
    fn drawn_channels(frame: &Frame) -> (d: Vec<SpriteChannel>)
        ensures
            d@ == drawn(frame.sprite_channels@, frame.sprite_channels@.len() as int),
    {
        let mut d: Vec<SpriteChannel> = Vec::new();
        let mut j: usize = 0;
        while j < frame.sprite_channels.len()
            invariant
                j <= frame.sprite_channels@.len(),
                d@ == drawn(frame.sprite_channels@, j as int),
            decreases frame.sprite_channels@.len() - j,
        {
            let c = frame.sprite_channels[j].1;
            if c.sprite_type == 1 && c.cast_member_id.is_some() {
                d.push(c);
            }
            j = j + 1;
        }
        d
    }

    /// Copies the colour table of palette member `id` into the palette, if it has one.
    fn apply_palette(&mut self, id: CastMemberId)
        ensures
            final(self).spec_riff() == old(self).spec_riff(),
            final(self).spec_cache() == old(self).spec_cache(),
            final(self).spec_tempo() == old(self).spec_tempo(),
            final(self).spec_current() == old(self).spec_current(),
            final(self).spec_next() == old(self).spec_next(),
            final(self).spec_current_time() == old(self).spec_current_time(),
            final(self).spec_next_time() == old(self).spec_next_time(),
            final(self).spec_palette().entries() == match clut_of(cached(old(self).spec_cache(), id)) {
                Some(colors) => palette_with(old(self).spec_palette().entries(), colors),
                None => old(self).spec_palette().entries(),
            },
    {
        let member = match self.cast_members.get(&key_of(id)) {
            Some(m) => m,
            None => return,
        };
        let colors = match member {
            CastMember::Palette(p) => match &p.clut {
                Some(clut) => &clut.colors,
                None => return,
            },
            _ => return,
        };
        let n = if colors.len() < 256 {
            colors.len()
        } else {
            256
        };
        let ghost start = self.palette.entries();
        proof {
            self.palette.lemma_len();
        }
        let mut k: usize = 0;
        while k < n
            invariant
                n <= 256,
                n <= colors@.len(),
                k <= n,
                start.len() == 256,
                self.spec_riff() == old(self).spec_riff(),
                self.spec_cache() == old(self).spec_cache(),
                self.spec_tempo() == old(self).spec_tempo(),
                self.spec_current() == old(self).spec_current(),
                self.spec_next() == old(self).spec_next(),
                self.spec_current_time() == old(self).spec_current_time(),
                self.spec_next_time() == old(self).spec_next_time(),
                self.palette.entries() == Seq::new(256, |q: int| if q < k { colors@[q] } else { start[q] }),
            decreases n - k,
        {
            self.palette.set_entry(k, colors[k]);
            k = k + 1;
            assert(self.palette.entries() =~= Seq::new(256, |q: int| if q < k { colors@[q] } else { start[q] }));
        }
        assert(self.palette.entries() =~= palette_with(start, colors@));
    }

    /// The display objects for the drawing channels `d`, each the cached
    /// bitmap member's image at its draw rectangle.
    fn build_display_list(&self, d: &Vec<SpriteChannel>) -> (res: Result<DisplayList, Error>)
        requires
            forall|k: int| 0 <= k < d@.len() ==> draws(#[trigger] d@[k]),
            forall|k: int| 0 <= k < d@.len() ==> cached(self.spec_cache(), (#[trigger] d@[k]).cast_member_id.unwrap()) is Some,
        ensures
            res is Ok ==> res.unwrap()@.len() == d@.len() && forall|k: int| 0 <= k < d@.len() ==> #[trigger] shows(
                res.unwrap()@[k], d@[k], self.spec_cache()),
            res is Err ==> exists|k: int| 0 <= k < d@.len() && cached(self.spec_cache(), (#[trigger] d@[k]).cast_member_id.unwrap()) is Some
                && !displayable(cached(self.spec_cache(), d@[k].cast_member_id.unwrap())),
    {
        let mut list: DisplayList = Vec::new();
        let mut k: usize = 0;
        while k < d.len()
            invariant
                k <= d@.len(),
                forall|q: int| 0 <= q < d@.len() ==> draws(#[trigger] d@[q]),
                forall|q: int| 0 <= q < d@.len() ==> cached(self.spec_cache(), (#[trigger] d@[q]).cast_member_id.unwrap()) is Some,
                list@.len() == k,
                forall|q: int| 0 <= q < k ==> #[trigger] shows(list@[q], d@[q], self.spec_cache()),
            decreases d@.len() - k,
        {
            let channel = d[k];
            let id = match channel.cast_member_id {
                Some(id) => id,
                None => return Err(Error::NotFound),
            };
            let member = match self.cast_member(id) {
                Some(m) => m,
                None => {
                    assert(!displayable(cached(self.spec_cache(), d@[k as int].cast_member_id.unwrap())));
                    return Err(Error::NotFound);
                },
            };
            let bitmap = match member.as_bitmap() {
                Some(b) => b,
                None => {
                    assert(!displayable(cached(self.spec_cache(), d@[k as int].cast_member_id.unwrap())));
                    return Err(Error::InvalidData);
                },
            };
            let image = match bitmap.image() {
                Some(img) => img,
                None => {
                    assert(!displayable(cached(self.spec_cache(), d@[k as int].cast_member_id.unwrap())));
                    return Err(Error::InvalidData);
                },
            };
            let rect = bitmap.info.rect.translate(bitmap.info.reg.neg()).translate(channel.position);
            list.push(DisplayObject::Bitmap { id, rect, image: Rc::new(image), draw_mode: DrawMode::Copy });
            k = k + 1;
        }
        Ok(list)
    }

    /// Advances to the next frame: loads the members it uses, takes its
    /// tempo and palette, and returns what it shows. The frame after it is
    /// due one frame duration later (at once when the tempo has none).
    pub fn step_frame(&mut self) -> (res: Result<DisplayList, Error>)
        requires
            old(self).wf(),
        ensures
            final(self).wf(),
            final(self).spec_riff() == old(self).spec_riff(),
            final(self).spec_current() == old(self).spec_next(),
            final(self).spec_current_time() == old(self).spec_next_time(),
            old(self).spec_next() >= old(self).spec_riff().spec_score().frames@.len() ==> res == Err::<DisplayList, Error>(Error::NotFound),
            res is Err && old(self).spec_next() < old(self).spec_riff().spec_score().frames@.len() ==> {
                let f = old(self).spec_riff().spec_score().frames@[old(self).spec_next() as int];
                let d = drawn(f.sprite_channels@, f.sprite_channels@.len() as int);
                ||| exists|id: CastMemberId| referenced(f, id) && #[trigger] cached(old(self).spec_cache(), id) is None
                    && load_failure(old(self).spec_riff(), id, res->Err_0)
                ||| exists|k: int| 0 <= k < d.len() && cached(final(self).spec_cache(), (#[trigger] d[k]).cast_member_id.unwrap()) is Some
                    && !displayable(cached(final(self).spec_cache(), d[k].cast_member_id.unwrap()))
            },
            res is Ok ==> {
                let f = old(self).spec_riff().spec_score().frames@[old(self).spec_next() as int];
                &&& (f.palette_id is Some ==> cached(final(self).spec_cache(), f.palette_id.unwrap()) is Some)
                &&& forall|j: int| 0 <= j < f.sprite_channels@.len() && (#[trigger] f.sprite_channels@[j]).1.cast_member_id is Some
                    ==> cached(final(self).spec_cache(), f.sprite_channels@[j].1.cast_member_id.unwrap()) is Some
            },
            res is Ok ==> {
                let f = old(self).spec_riff().spec_score().frames@[old(self).spec_next() as int];
                let d = drawn(f.sprite_channels@, f.sprite_channels@.len() as int);
                let cache = final(self).spec_cache();
                &&& final(self).spec_tempo() == match f.tempo {
                    Some(t) => t,
                    None => old(self).spec_tempo(),
                }
                &&& final(self).spec_palette().entries() == match f.palette_id {
                    Some(pid) => match clut_of(cached(cache, pid)) {
                        Some(colors) => palette_with(old(self).spec_palette().entries(), colors),
                        None => old(self).spec_palette().entries(),
                    },
                    None => old(self).spec_palette().entries(),
                }
                &&& final(self).spec_next() == (old(self).spec_next() + 1) % 0x10000
                &&& final(self).spec_next_time() == match final(self).spec_tempo() {
                    Tempo::FPS(n) => if n > 0 {
                        vstd::math::min(final(self).spec_current_time() + (NANOS_PER_SECOND as int) / (n as int), u64::MAX as int)
                    } else {
                        final(self).spec_current_time() as int
                    },
                    _ => final(self).spec_current_time() as int,
                }
                &&& res.unwrap()@.len() == d.len()
                &&& forall|k: int| 0 <= k < d.len() ==> #[trigger] shows(res.unwrap()@[k], d[k], cache)
            },
    {
        self.current_frame_time = self.next_frame_time;
        self.current_frame_number = self.next_frame_number;
        let number = self.current_frame_number;
        let ghost mid = *self;
        match self.preload_cast_members_for_frame(number) {
            Ok(()) => {},
            Err(e) => {
                proof {
                    if number < mid.spec_riff().spec_score().frames@.len() {
                        let id = choose|id: CastMemberId|
                            referenced(mid.spec_riff().spec_score().frames@[number as int], id)
                                && #[trigger] cached(mid.spec_cache(), id) is None
                                && load_failure(mid.spec_riff(), id, e);
                        assert(cached(old(self).spec_cache(), id) is None);
                    }
                }
                return Err(e);
            },
        }
        let (tempo, palette_id, d) = {
            let frame = match self.riff.score().get_frame(number) {
                Some(f) => f,
                None => return Err(Error::NotFound),
            };
            (frame.tempo, frame.palette_id, Self::drawn_channels(frame))
        };
        if let Some(t) = tempo {
            self.tempo = t;
        }
        if let Some(pid) = palette_id {
            self.apply_palette(pid);
        }
        proof {
            assert forall|k: int| 0 <= k < d@.len() implies draws(#[trigger] d@[k]) by {
                lemma_drawn_draws(
                    old(self).spec_riff().spec_score().frames@[number as int].sprite_channels@,
                    old(self).spec_riff().spec_score().frames@[number as int].sprite_channels@.len() as int,
                    k,
                );
            }
        }
        proof {
            let fs = old(self).spec_riff().spec_score().frames@[number as int].sprite_channels@;
            assert forall|k: int| 0 <= k < d@.len() implies cached(self.spec_cache(), (#[trigger] d@[k]).cast_member_id.unwrap()) is Some by {
                lemma_drawn_from(fs, fs.len() as int, k);
                let j = choose|j: int| 0 <= j < fs.len() && #[trigger] fs[j].1 == d@[k];
                lemma_drawn_draws(fs, fs.len() as int, k);
                assert(fs[j].1.cast_member_id is Some);
            }
        }
        let list = self.build_display_list(&d)?;
        let ghost cache_now = self.spec_cache();
        assert forall|k: int| 0 <= k < d@.len() implies #[trigger] shows(list@[k], d@[k], cache_now) by {}
        self.next_frame_number = self.next_frame_number.wrapping_add(1);
        self.next_frame_time = match self.frame_duration() {
            Some(dt) => self.current_frame_time.saturating_add(dt),
            None => self.current_frame_time,
        };
        Ok(list)
    }
}

} // verus!
