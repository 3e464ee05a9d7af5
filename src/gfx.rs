use vstd::prelude::*;

verus! {

/// A point, row first.
#[derive(Debug, Copy, Clone, Default, PartialEq, Eq, Structural)]
pub struct Pos {
    pub y: i16,
    pub x: i16,
}

impl Pos {
    pub fn new(y: i16, x: i16) -> (p: Pos)
        ensures
            p == (Pos { y, x }),
    {
        Pos { y, x }
    }

    /// The point mirrored through the origin; a coordinate of `i16::MIN` wraps.
    pub fn neg(self) -> (p: Pos)
        ensures
            p.y == wrap16(-self.y),
            p.x == wrap16(-self.x),
    {
        Pos { y: 0i16.wrapping_sub(self.y), x: 0i16.wrapping_sub(self.x) }
    }
}

/// Reduction of an integer to the signed 16-bit range, as wrapping arithmetic does.
pub open spec fn wrap16(v: int) -> int {
    let m = ((v % 0x10000) + 0x10000) % 0x10000;
    if m >= 0x8000 { m - 0x10000 } else { m }
}

/// A height and a width.
#[derive(Debug, Copy, Clone, Default, PartialEq, Eq, Structural)]
pub struct Size {
    pub h: i16,
    pub w: i16,
}

impl Size {
    pub fn new(h: i16, w: i16) -> (s: Size)
        ensures
            s == (Size { h, w }),
    {
        Size { h, w }
    }

    pub fn is_empty(&self) -> (b: bool)
        ensures
            b == (self.h <= 0 || self.w <= 0),
    {
        self.h <= 0 || self.w <= 0
    }
}

/// A rectangle given by its top-left `(y0, x0)` and bottom-right `(y1, x1)` corners.
#[derive(Debug, Copy, Clone, Default, PartialEq, Eq, Structural)]
pub struct Rect {
    pub y0: i16,
    pub x0: i16,
    pub y1: i16,
    pub x1: i16,
}

impl Rect {
    pub open spec fn spec_width(self) -> int {
        self.x1 - self.x0
    }

    pub open spec fn spec_height(self) -> int {
        self.y1 - self.y0
    }

    pub open spec fn spec_is_empty(self) -> bool {
        self.spec_width() <= 0 || self.spec_height() <= 0
    }

    pub fn new(y0: i16, x0: i16, y1: i16, x1: i16) -> (r: Rect)
        ensures
            r == (Rect { y0, x0, y1, x1 }),
    {
        Rect { y0, x0, y1, x1 }
    }

    /// `x1 - x0`, computed without overflow.
    pub fn width(&self) -> (w: i32)
        ensures
            w == self.spec_width(),
    {
        self.x1 as i32 - self.x0 as i32
    }

    /// `y1 - y0`, computed without overflow.
    pub fn height(&self) -> (h: i32)
        ensures
            h == self.spec_height(),
    {
        self.y1 as i32 - self.y0 as i32
    }

    pub fn is_empty(&self) -> (b: bool)
        ensures
            b == self.spec_is_empty(),
    {
        self.width() <= 0 || self.height() <= 0
    }

    /// The rectangle moved by `pos`; coordinates wrap as 16-bit integers.
    pub fn translate(self, pos: Pos) -> (r: Rect)
        ensures
            r.y0 == wrap16(self.y0 + pos.y),
            r.x0 == wrap16(self.x0 + pos.x),
            r.y1 == wrap16(self.y1 + pos.y),
            r.x1 == wrap16(self.x1 + pos.x),
    {
        Rect {
            y0: self.y0.wrapping_add(pos.y),
            x0: self.x0.wrapping_add(pos.x),
            y1: self.y1.wrapping_add(pos.y),
            x1: self.x1.wrapping_add(pos.x),
        }
    }
}

/// A 24-bit colour.
#[derive(Debug, Default, Copy, Clone, PartialEq, Eq, Structural)]
pub struct Rgb888 {
    pub r: u8,
    pub g: u8,
    pub b: u8,
}

/// The opaque `0xFFRRGGBB` word of a colour.
pub open spec fn xrgb(r: int, g: int, b: int) -> int {
    0xFF00_0000 + r * 0x10000 + g * 0x100 + b
}

impl Rgb888 {
    /// The colour as a 32-bit word in xRGB layout, alpha set to 255.
    pub fn to_u32(self) -> (v: u32)
        ensures
            v == xrgb(self.r as int, self.g as int, self.b as int),
    {
        0xFF00_0000u32 + (self.r as u32) * 0x10000 + (self.g as u32) * 0x100 + self.b as u32
    }

    /// The colour of a 32-bit xRGB word; the top byte is ignored.
    pub fn from_u32(value: u32) -> (c: Rgb888)
        ensures
            c.r == (value / 0x10000) % 0x100,
            c.g == (value / 0x100) % 0x100,
            c.b == value % 0x100,
    {
        Rgb888 {
            r: ((value / 0x10000) % 0x100) as u8,
            g: ((value / 0x100) % 0x100) as u8,
            b: (value % 0x100) as u8,
        }
    }

    /// The high byte of each 16-bit channel.
    pub fn from_rgb161616(value: Rgb161616) -> (c: Rgb888)
        ensures
            c.r == value.r / 0x100,
            c.g == value.g / 0x100,
            c.b == value.b / 0x100,
    {
        Rgb888 { r: (value.r / 0x100) as u8, g: (value.g / 0x100) as u8, b: (value.b / 0x100) as u8 }
    }
}

/// A 48-bit colour: three 16-bit channels.
#[derive(Debug, Default, Copy, Clone, PartialEq, Eq, Structural)]
pub struct Rgb161616 {
    pub r: u16,
    pub g: u16,
    pub b: u16,
}

impl Rgb161616 {
    pub fn new(r: u16, g: u16, b: u16) -> (c: Rgb161616)
        ensures
            c == (Rgb161616 { r, g, b }),
    {
        Rgb161616 { r, g, b }
    }

    /// Widens each 8-bit channel to the high byte of a 16-bit one.
    pub fn from_rgb888(value: Rgb888) -> (c: Rgb161616)
        ensures
            c.r == value.r * 0x100,
            c.g == value.g * 0x100,
            c.b == value.b * 0x100,
    {
        Rgb161616 {
            r: (value.r as u16) * 0x100,
            g: (value.g as u16) * 0x100,
            b: (value.b as u16) * 0x100,
        }
    }
}

/// 256 colours of 48 bits each.
#[derive(Debug, Clone, Copy)]
pub struct Palette {
    colors: [Rgb161616; 256],
}

impl Palette {
    pub closed spec fn entries(self) -> Seq<Rgb161616> {
        self.colors@
    }

    pub proof fn lemma_len(self)
        ensures
            self.entries().len() == 256,
    {
    }

    /// A palette of 256 black entries.
    pub fn new() -> (p: Palette)
        ensures
            p.entries() == Seq::new(256, |i: int| Rgb161616 { r: 0, g: 0, b: 0 }),
    {
        let colors = [Rgb161616 { r: 0, g: 0, b: 0 }; 256];
        assert(colors@ =~= Seq::new(256, |i: int| Rgb161616 { r: 0, g: 0, b: 0 }));
        Palette { colors }
    }

    pub fn set(&mut self, index: u8, color: Rgb161616)
        ensures
            final(self).entries() == old(self).entries().update(index as int, color),
    {
        self.colors[index as usize] = color;
    }

    /// The entry at `index`, which must be below 256.
    pub fn index(&self, index: usize) -> (c: Rgb161616)
        requires
            index < 256,
        ensures
            c == self.entries()[index as int],
    {
        self.colors[index]
    }

    /// Replaces the entry at `index`, which must be below 256.
    pub fn set_entry(&mut self, index: usize, color: Rgb161616)
        requires
            index < 256,
        ensures
            final(self).entries() == old(self).entries().update(index as int, color),
    {
        self.colors[index] = color;
    }

    /// The entry at `index` reduced to 24 bits; every index names an entry.
    pub fn get_rgb888(&self, index: u8) -> (c: Option<Rgb888>)
        ensures
            c == Some(rgb888_of(self.entries()[index as int])),
    {
        Some(Rgb888::from_rgb161616(self.colors[index as usize]))
    }
}

/// The 24-bit reduction of a 48-bit colour.
pub open spec fn rgb888_of(c: Rgb161616) -> Rgb888 {
    Rgb888 { r: (c.r / 0x100) as u8, g: (c.g / 0x100) as u8, b: (c.b / 0x100) as u8 }
}

impl Default for Palette {
    fn default() -> (p: Palette)
        ensures
            p.entries() == Seq::new(256, |i: int| Rgb161616 { r: 0, g: 0, b: 0 }),
    {
        Palette::new()
    }
}

/// Largest width or height an image may have, exclusive.
pub const MAX_IMAGE_SIDE: usize = 0x4000;

/// Offset of pixel `(x, y)` in a row-major buffer `width` pixels wide.
pub open spec fn pixel_index(width: int, x: int, y: int) -> int {
    y * width + x
}

/// `(x, y)` lies inside a `width` by `height` image.
pub open spec fn in_bounds(width: int, height: int, x: int, y: int) -> bool {
    0 <= x < width && 0 <= y < height
}

proof fn lemma_index_in_range(width: int, height: int, x: int, y: int)
    requires
        in_bounds(width, height, x, y),
        width < 0x4000,
        height < 0x4000,
    ensures
        0 <= pixel_index(width, x, y) < width * height,
        0 <= y * width,
        width * height < 0x1000_0000,
{
    assert(width * height < 0x1000_0000) by (nonlinear_arith)
        requires 0 <= width < 0x4000, 0 <= height < 0x4000;
    assert(y * width + x < width * height) by (nonlinear_arith)
        requires 0 <= x < width, 0 <= y < height;
    assert(0 <= y * width) by (nonlinear_arith)
        requires 0 <= y, 0 <= width;
}

proof fn lemma_index_fits(width: int, height: int, x: int, y: int)
    requires
        in_bounds(width, height, x, y),
    ensures
        0 <= y * width,
        0 <= pixel_index(width, x, y) < width * height,
{
    assert(y * width + x < width * height) by (nonlinear_arith)
        requires 0 <= x < width, 0 <= y < height;
    assert(0 <= y * width) by (nonlinear_arith)
        requires 0 <= y, 0 <= width;
}

/// An image whose pixels are indices into a palette, one byte each, row by row.
#[derive(Debug, Clone)]
pub struct IndexedImageBuffer {
    width: usize,
    height: usize,
    data: Vec<u8>,
}

/// The image type that bitmaps decode to.
pub type IndexedImage = IndexedImageBuffer;

impl IndexedImageBuffer {
    pub closed spec fn spec_width(&self) -> int {
        self.width as int
    }

    pub closed spec fn spec_height(&self) -> int {
        self.height as int
    }

    pub closed spec fn spec_data(&self) -> Seq<u8> {
        self.data@
    }

    /// The buffer holds exactly one byte per pixel.
    pub open spec fn wf(&self) -> bool {
        self.spec_data().len() == self.spec_width() * self.spec_height()
    }

    /// The colour index at `(x, y)`.
    pub open spec fn pixel(&self, x: int, y: int) -> u8 {
        self.spec_data()[pixel_index(self.spec_width(), x, y)]
    }

    pub fn new(width: usize, height: usize, data: Vec<u8>) -> (img: Self)
        requires
            data@.len() == width * height,
        ensures
            img.wf(),
            img.spec_width() == width,
            img.spec_height() == height,
            img.spec_data() == data@,
    {
        IndexedImageBuffer { width, height, data }
    }

    /// An image of colour index 0 throughout.
    pub fn new_owned(width: usize, height: usize) -> (img: Self)
        requires
            width * height <= usize::MAX,
        ensures
            img.wf(),
            img.spec_width() == width,
            img.spec_height() == height,
            img.spec_data() == Seq::new((width * height) as nat, |i: int| 0u8),
    {
        let n = width * height;
        let mut data: Vec<u8> = Vec::with_capacity(n);
        let mut i: usize = 0;
        while i < n
            invariant
                i <= n,
                data@ == Seq::new(i as nat, |j: int| 0u8),
            decreases n - i,
        {
            data.push(0);
            i = i + 1;
            assert(data@ =~= Seq::new(i as nat, |j: int| 0u8));
        }
        IndexedImageBuffer { width, height, data }
    }

    pub fn height(&self) -> (h: usize)
        ensures
            h == self.spec_height(),
    {
        self.height
    }

    pub fn width(&self) -> (w: usize)
        ensures
            w == self.spec_width(),
    {
        self.width
    }

    pub fn get_data(&self) -> (d: &[u8])
        ensures
            d@ == self.spec_data(),
    {
        self.data.as_slice()
    }

    /// The pixel bytes, to write in place.
    pub fn get_mut_data(&mut self) -> (d: &mut [u8])
        ensures
            d@ == old(self).spec_data(),
            final(self).spec_data() == final(d)@,
            final(self).spec_width() == old(self).spec_width(),
            final(self).spec_height() == old(self).spec_height(),
    {
        self.data.as_mut_slice()
    }

    /// The colour index at `(x, y)`, or `None` outside the image.
    pub fn get_color_index(&self, x: i16, y: i16) -> (c: Option<u8>)
        requires
            self.wf(),
        ensures
            c is Some <==> in_bounds(self.spec_width(), self.spec_height(), x as int, y as int),
            c is Some ==> c.unwrap() == self.pixel(x as int, y as int),
    {
        if x < 0 || y < 0 || x as usize >= self.width || y as usize >= self.height {
            return None;
        }
        let _len = self.data.len();
        proof {
            lemma_index_fits(self.width as int, self.height as int, x as int, y as int);
        }
        Some(self.data[y as usize * self.width + x as usize])
    }

    /// Sets the colour index at `(x, y)`; outside the image nothing changes.
    pub fn set_color_index(&mut self, x: i16, y: i16, color_index: u8)
        requires
            old(self).wf(),
        ensures
            final(self).wf(),
            final(self).spec_width() == old(self).spec_width(),
            final(self).spec_height() == old(self).spec_height(),
            final(self).spec_data() == if in_bounds(old(self).spec_width(), old(self).spec_height(), x as int, y as int) {
                old(self).spec_data().update(pixel_index(old(self).spec_width(), x as int, y as int), color_index)
            } else {
                old(self).spec_data()
            },
    {
        if x < 0 || y < 0 || x as usize >= self.width || y as usize >= self.height {
            return;
        }
        let _len = self.data.len();
        proof {
            lemma_index_fits(self.width as int, self.height as int, x as int, y as int);
        }
        let i = y as usize * self.width + x as usize;
        self.data.set(i, color_index);
    }

    /// The image as 8-bit RGBA bytes, each index looked up in `palette`, alpha opaque.
    pub fn to_rgba(&self, palette: &Palette) -> (out: Vec<u8>)
        ensures
            out@.len() == 4 * self.spec_data().len(),
            forall|i: int| 0 <= i < self.spec_data().len() ==> {
                let c = rgb888_of(#[trigger] palette.entries()[self.spec_data()[i] as int]);
                out@[4 * i] == c.r && out@[4 * i + 1] == c.g && out@[4 * i + 2] == c.b && out@[4 * i + 3] == 255
            },
    {
        let mut out: Vec<u8> = Vec::new();
        let mut i: usize = 0;
        while i < self.data.len()
            invariant
                i <= self.data@.len(),
                out@.len() == 4 * i,
                forall|j: int| 0 <= j < i ==> {
                    let c = rgb888_of(#[trigger] palette.entries()[self.data@[j] as int]);
                    out@[4 * j] == c.r && out@[4 * j + 1] == c.g && out@[4 * j + 2] == c.b && out@[4 * j + 3] == 255
                },
            decreases self.data@.len() - i,
        {
            let c = Rgb888::from_rgb161616(palette.index(self.data[i] as usize));
            out.push(c.r);
            out.push(c.g);
            out.push(c.b);
            out.push(255);
            i = i + 1;
        }
        out
    }
}

/// An image of 32-bit `0xAARRGGBB` pixels, row by row.
#[derive(Debug, Clone)]
pub struct ImageBuffer {
    width: usize,
    height: usize,
    data: Vec<u32>,
}

/// The image type a display is drawn into.
pub type Image = ImageBuffer;

impl ImageBuffer {
    pub closed spec fn spec_width(&self) -> int {
        self.width as int
    }

    pub closed spec fn spec_height(&self) -> int {
        self.height as int
    }

    pub closed spec fn spec_data(&self) -> Seq<u32> {
        self.data@
    }

    /// Both sides are below the maximum and the buffer holds every pixel.
    pub open spec fn wf(&self) -> bool {
        &&& self.spec_width() < MAX_IMAGE_SIDE
        &&& self.spec_height() < MAX_IMAGE_SIDE
        &&& self.spec_data().len() == self.spec_width() * self.spec_height()
    }

    /// The pixel word at `(x, y)`.
    pub open spec fn pixel(&self, x: int, y: int) -> u32 {
        self.spec_data()[pixel_index(self.spec_width(), x, y)]
    }

    pub fn new(width: usize, height: usize, data: Vec<u32>) -> (img: Self)
        requires
            width < MAX_IMAGE_SIDE,
            height < MAX_IMAGE_SIDE,
            data@.len() == width * height,
        ensures
            img.wf(),
            img.spec_width() == width,
            img.spec_height() == height,
            img.spec_data() == data@,
    {
        ImageBuffer { width, height, data }
    }

    /// An image of pixel word 0 throughout.
    pub fn new_owned(width: usize, height: usize) -> (img: Self)
        requires
            width < MAX_IMAGE_SIDE,
            height < MAX_IMAGE_SIDE,
        ensures
            img.wf(),
            img.spec_width() == width,
            img.spec_height() == height,
            img.spec_data() == Seq::new((width * height) as nat, |i: int| 0u32),
    {
        assert(width * height < 0x1000_0000) by (nonlinear_arith)
            requires width < 0x4000, height < 0x4000;
        let n = width * height;
        let mut data: Vec<u32> = Vec::with_capacity(n);
        let mut i: usize = 0;
        while i < n
            invariant
                i <= n,
                data@ == Seq::new(i as nat, |j: int| 0u32),
            decreases n - i,
        {
            data.push(0);
            i = i + 1;
            assert(data@ =~= Seq::new(i as nat, |j: int| 0u32));
        }
        ImageBuffer { width, height, data }
    }

    pub fn height(&self) -> (h: usize)
        ensures
            h == self.spec_height(),
    {
        self.height
    }

    pub fn width(&self) -> (w: usize)
        ensures
            w == self.spec_width(),
    {
        self.width
    }

    pub fn get_data(&self) -> (d: &[u32])
        ensures
            d@ == self.spec_data(),
    {
        self.data.as_slice()
    }

    /// The colour at `(x, y)`, or `None` outside the image.
    pub fn get_pixel(&self, x: i16, y: i16) -> (c: Option<Rgb888>)
        requires
            self.wf(),
        ensures
            c is Some <==> in_bounds(self.spec_width(), self.spec_height(), x as int, y as int),
            c is Some ==> c.unwrap().r == (self.pixel(x as int, y as int) / 0x10000) % 0x100
                && c.unwrap().g == (self.pixel(x as int, y as int) / 0x100) % 0x100
                && c.unwrap().b == self.pixel(x as int, y as int) % 0x100,
    {
        if x < 0 || y < 0 || x as usize >= self.width || y as usize >= self.height {
            return None;
        }
        proof {
            lemma_index_in_range(self.width as int, self.height as int, x as int, y as int);
        }
        Some(Rgb888::from_u32(self.data[y as usize * self.width + x as usize]))
    }

    /// Writes `color` as an opaque pixel at `(x, y)`; outside the image nothing changes.
    pub fn set_pixel(&mut self, x: i16, y: i16, color: Rgb888)
        requires
            old(self).wf(),
        ensures
            final(self).wf(),
            final(self).spec_width() == old(self).spec_width(),
            final(self).spec_height() == old(self).spec_height(),
            final(self).spec_data() == if in_bounds(old(self).spec_width(), old(self).spec_height(), x as int, y as int) {
                old(self).spec_data().update(
                    pixel_index(old(self).spec_width(), x as int, y as int),
                    xrgb(color.r as int, color.g as int, color.b as int) as u32,
                )
            } else {
                old(self).spec_data()
            },
    {
        if x < 0 || y < 0 || x as usize >= self.width || y as usize >= self.height {
            return;
        }
        proof {
            lemma_index_in_range(self.width as int, self.height as int, x as int, y as int);
        }
        let i = y as usize * self.width + x as usize;
        self.data.set(i, color.to_u32());
    }

    /// The image as 8-bit RGBA bytes.
    pub fn to_rgba(&self) -> (out: Vec<u8>)
        ensures
            out@.len() == 4 * self.spec_data().len(),
            forall|i: int| 0 <= i < self.spec_data().len() ==> {
                let v = #[trigger] self.spec_data()[i];
                out@[4 * i] == (v / 0x10000) % 0x100 && out@[4 * i + 1] == (v / 0x100) % 0x100
                    && out@[4 * i + 2] == v % 0x100 && out@[4 * i + 3] == v / 0x1000000
            },
    {
        let mut out: Vec<u8> = Vec::new();
        let mut i: usize = 0;
        while i < self.data.len()
            invariant
                i <= self.data@.len(),
                out@.len() == 4 * i,
                forall|j: int| 0 <= j < i ==> {
                    let v = #[trigger] self.data@[j];
                    out@[4 * j] == (v / 0x10000) % 0x100 && out@[4 * j + 1] == (v / 0x100) % 0x100
                        && out@[4 * j + 2] == v % 0x100 && out@[4 * j + 3] == v / 0x1000000
                },
            decreases self.data@.len() - i,
        {
            let v = self.data[i];
            out.push(((v / 0x10000) % 0x100) as u8);
            out.push(((v / 0x100) % 0x100) as u8);
            out.push((v % 0x100) as u8);
            out.push((v / 0x1000000) as u8);
            i = i + 1;
        }
        out
    }
}

/// The source column (or row) that destination offset `d` samples when
/// `dst` pixels stand for `src` ones, counted from `origin`.
pub open spec fn sample(d: int, src: int, dst: int, origin: int) -> int {
    d * src / dst + origin
}

/// The word pixel `(x, y)` of the destination holds after a blit, given the
/// word `old` it held before.
pub open spec fn blit_at(
    old: u32,
    dr: Rect,
    source: IndexedImageBuffer,
    sr: Rect,
    palette: Palette,
    transparent: Option<u8>,
    x: int,
    y: int,
) -> u32 {
    let dx = x - dr.x0;
    let dy = y - dr.y0;
    if dr.spec_is_empty() || sr.spec_is_empty() || !(0 <= dx < dr.spec_width() && 0 <= dy < dr.spec_height()) {
        old
    } else {
        let sx = sample(dx, sr.spec_width(), dr.spec_width(), sr.x0 as int);
        let sy = sample(dy, sr.spec_height(), dr.spec_height(), sr.y0 as int);
        if !(sx <= i16::MAX && sy <= i16::MAX && in_bounds(source.spec_width(), source.spec_height(), sx, sy)) {
            old
        } else {
            let c = source.pixel(sx, sy);
            if transparent == Some(c) {
                old
            } else {
                let rgb = rgb888_of(palette.entries()[c as int]);
                xrgb(rgb.r as int, rgb.g as int, rgb.b as int) as u32
            }
        }
    }
}

proof fn lemma_index_distinct(w: int, h: int, x: int, y: int, x2: int, y2: int)
    requires
        in_bounds(w, h, x, y),
        in_bounds(w, h, x2, y2),
        x != x2 || y != y2,
    ensures
        pixel_index(w, x, y) != pixel_index(w, x2, y2),
{
    if y == y2 {
    } else if y < y2 {
        assert(y * w + x < y2 * w + x2) by (nonlinear_arith)
            requires y < y2, 0 <= x < w, 0 <= x2;
    } else {
        assert(y2 * w + x2 < y * w + x) by (nonlinear_arith)
            requires y2 < y, 0 <= x2 < w, 0 <= x;
    }
}

/// Draws `source_rect` of `source` into `destination_rect` of `destination`,
/// scaling by whole-pixel sampling: destination offset `(dx, dy)` shows
/// source pixel `(dx * sw / dw, dy * sh / dh)` from the source rectangle's
/// corner, where that is a 16-bit coordinate inside the source. Each colour index is looked up in `palette`; pixels of the
/// transparent index, and samples outside the source, leave the destination
/// as it was. Nothing is drawn when either rectangle is empty.
pub fn blit(
    destination: &mut ImageBuffer,
    destination_rect: Rect,
    source: &IndexedImageBuffer,
    source_rect: Rect,
    palette: &Palette,
    transparent_color_index: Option<u8>,
)
    requires
        old(destination).wf(),
        source.wf(),
    ensures
        final(destination).wf(),
        final(destination).spec_width() == old(destination).spec_width(),
        final(destination).spec_height() == old(destination).spec_height(),
        forall|x: int, y: int|
            in_bounds(old(destination).spec_width(), old(destination).spec_height(), x, y)
                ==> #[trigger] final(destination).pixel(x, y) == blit_at(
                old(destination).pixel(x, y),
                destination_rect,
                *source,
                source_rect,
                *palette,
                transparent_color_index,
                x,
                y,
            ),
{
    let ghost start = *destination;
    let ghost w = start.spec_width();
    let ghost h = start.spec_height();
    if destination_rect.is_empty() || source_rect.is_empty() {
        return;
    }
    let dw = destination_rect.width() as i64;
    let dh = destination_rect.height() as i64;
    let sw = source_rect.width() as i64;
    let sh = source_rect.height() as i64;
    let mut dy: i64 = 0;
    while dy < dh
        invariant
            0 <= dy <= dh,
            dw == destination_rect.spec_width(),
            dh == destination_rect.spec_height(),
            sw == source_rect.spec_width(),
            sh == source_rect.spec_height(),
            0 < dw < 0x10000,
            0 < dh < 0x10000,
            0 < sw < 0x10000,
            0 < sh < 0x10000,
            !destination_rect.spec_is_empty(),
            !source_rect.spec_is_empty(),
            source.wf(),
            destination.wf(),
            destination.spec_width() == w,
            destination.spec_height() == h,
            forall|x: int, y: int|
                in_bounds(w, h, x, y) ==> #[trigger] destination.pixel(x, y) == if y - destination_rect.y0 < dy {
                    blit_at(start.pixel(x, y), destination_rect, *source, source_rect, *palette, transparent_color_index, x, y)
                } else {
                    start.pixel(x, y)
                },
        decreases dh - dy,
    {
        let mut dx: i64 = 0;
        while dx < dw
            invariant
                0 <= dy < dh,
                0 <= dx <= dw,
                dw == destination_rect.spec_width(),
                dh == destination_rect.spec_height(),
                sw == source_rect.spec_width(),
                sh == source_rect.spec_height(),
                0 < dw < 0x10000,
                0 < dh < 0x10000,
                0 < sw < 0x10000,
                0 < sh < 0x10000,
                !destination_rect.spec_is_empty(),
                !source_rect.spec_is_empty(),
                source.wf(),
                destination.wf(),
                destination.spec_width() == w,
                destination.spec_height() == h,
                forall|x: int, y: int|
                    in_bounds(w, h, x, y) ==> #[trigger] destination.pixel(x, y) == if y - destination_rect.y0 < dy
                        || (y - destination_rect.y0 == dy && x - destination_rect.x0 < dx) {
                        blit_at(start.pixel(x, y), destination_rect, *source, source_rect, *palette, transparent_color_index, x, y)
                    } else {
                        start.pixel(x, y)
                    },
            decreases dw - dx,
        {
            let ghost before = *destination;
            let tx = destination_rect.x0 as i64 + dx;
            let ty = destination_rect.y0 as i64 + dy;
            assert(0 <= dx * sw <= 0x10000 * 0x10000) by (nonlinear_arith)
                requires 0 <= dx < 0x10000, 0 < sw < 0x10000;
            assert(0 <= dy * sh <= 0x10000 * 0x10000) by (nonlinear_arith)
                requires 0 <= dy < 0x10000, 0 < sh < 0x10000;
            let sx = dx * sw / dw + source_rect.x0 as i64;
            let sy = dy * sh / dh + source_rect.y0 as i64;
            let mut color: Option<Rgb888> = None;
            if 0 <= sx && sx <= i16::MAX as i64 && 0 <= sy && sy <= i16::MAX as i64 {
                match source.get_color_index(sx as i16, sy as i16) {
                    Some(index) => {
                        let keyed = match transparent_color_index {
                            Some(t) => t == index,
                            None => false,
                        };
                        if !keyed {
                            color = palette.get_rgb888(index);
                        }
                    },
                    None => {},
                }
            }
            let ghost mut wrote = false;
            if let Some(c) = color {
                if 0 <= tx && tx <= i16::MAX as i64 && 0 <= ty && ty <= i16::MAX as i64 {
                    destination.set_pixel(tx as i16, ty as i16, c);
                    proof {
                        wrote = true;
                        assert((tx as i16) as int == tx as int);
                        assert((ty as i16) as int == ty as int);
                    }
                }
            }
            proof {
                if !wrote {
                    assert(*destination == before);
                }
                let sxi = sample(dx as int, sw as int, dw as int, source_rect.x0 as int);
                let syi = sample(dy as int, sh as int, dh as int, source_rect.y0 as int);
                assert(sxi == sx && syi == sy);
                if in_bounds(w, h, tx as int, ty as int) {
                    assert(before.pixel(tx as int, ty as int) == start.pixel(tx as int, ty as int));
                    if sxi <= i16::MAX && syi <= i16::MAX && in_bounds(source.spec_width(), source.spec_height(), sxi, syi) {
                        let ci = source.pixel(sxi, syi);
                        if transparent_color_index == Some(ci) {
                            assert(color is None);
                            assert(!wrote);
                        } else {
                            assert(color == Some(rgb888_of(palette.entries()[ci as int])));
                            assert(wrote);
                        }
                    } else {
                        assert(color is None);
                    }
                }
            }
            proof {
                assert forall|x: int, y: int| in_bounds(w, h, x, y) implies #[trigger] destination.pixel(x, y) == if y - destination_rect.y0 < dy
                    || (y - destination_rect.y0 == dy && x - destination_rect.x0 < dx + 1) {
                    blit_at(start.pixel(x, y), destination_rect, *source, source_rect, *palette, transparent_color_index, x, y)
                } else {
                    start.pixel(x, y)
                } by {
                    if x == tx && y == ty {
                        lemma_index_in_range(w, h, x, y);
                        assert(before.pixel(x, y) == start.pixel(x, y));
                    } else {
                        lemma_index_in_range(w, h, x, y);
                        if wrote && in_bounds(w, h, tx as int, ty as int) {
                            lemma_index_distinct(w, h, x, y, tx as int, ty as int);
                            lemma_index_in_range(w, h, tx as int, ty as int);
                            let it = pixel_index(w, tx as int, ty as int);
                            let ix = pixel_index(w, x, y);
                            assert(destination.spec_data()[ix] == before.spec_data()[ix]);
                        } else if wrote {
                            assert(destination.spec_data() == before.spec_data());
                        } else {
                            assert(destination.spec_data() == before.spec_data());
                        }
                        assert(destination.pixel(x, y) == before.pixel(x, y));
                        if y - destination_rect.y0 == dy && x - destination_rect.x0 == dx {
                            assert(false);
                        }
                    }
                }
            }
            dx = dx + 1;
        }
        proof {
            assert forall|x: int, y: int| in_bounds(w, h, x, y) implies #[trigger] destination.pixel(x, y) == if y - destination_rect.y0 < dy + 1 {
                blit_at(start.pixel(x, y), destination_rect, *source, source_rect, *palette, transparent_color_index, x, y)
            } else {
                start.pixel(x, y)
            } by {
                if y - destination_rect.y0 == dy && !(x - destination_rect.x0 < dw) {
                    assert(blit_at(start.pixel(x, y), destination_rect, *source, source_rect, *palette, transparent_color_index, x, y)
                        == start.pixel(x, y));
                }
                if y - destination_rect.y0 == dy && x - destination_rect.x0 < 0 {
                    assert(blit_at(start.pixel(x, y), destination_rect, *source, source_rect, *palette, transparent_color_index, x, y)
                        == start.pixel(x, y));
                }
            }
        }
        dy = dy + 1;
    }
    proof {
        assert forall|x: int, y: int| in_bounds(w, h, x, y) implies #[trigger] destination.pixel(x, y) == blit_at(
            start.pixel(x, y), destination_rect, *source, source_rect, *palette, transparent_color_index, x, y) by {
            if y - destination_rect.y0 >= dh || y - destination_rect.y0 < 0 {
                assert(blit_at(start.pixel(x, y), destination_rect, *source, source_rect, *palette, transparent_color_index, x, y)
                    == start.pixel(x, y));
            }
        }
    }
}

} // verus!
