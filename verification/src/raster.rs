//! The RGB raster that images are painted into, and its mathematical model.

use vstd::prelude::*;

verus! {

/// An RGB triple: red, green, blue.
pub type Rgb = (u8, u8, u8);

/// Pure black, the colour of points that stay bounded.
pub const BLACK: Rgb = (0u8, 0u8, 0u8);

/// Pure white, the colour of the background and of points that escape.
pub const WHITE: Rgb = (255u8, 255u8, 255u8);

/// The mathematical model of a raster: its dimensions and its pixels in
/// row-major order (the pixel at column `x`, row `y` is number
/// `y * width + x`).
pub struct PixelGrid {
    pub width: nat,
    pub height: nat,
    pub pixels: Seq<Rgb>,
}

impl PixelGrid {
    /// There is exactly one pixel for each position.
    pub open spec fn wf(self) -> bool {
        self.pixels.len() == self.width * self.height
    }

    /// Whether `(x, y)` is a position of the grid.
    pub open spec fn contains(self, x: int, y: int) -> bool {
        0 <= x < self.width && 0 <= y < self.height
    }

    /// The pixel at column `x`, row `y`.
    pub open spec fn pixel(self, x: int, y: int) -> Rgb
        recommends
            self.contains(x, y),
    {
        self.pixels[y * self.width + x]
    }

    /// Every pixel has the colour `color`.
    pub open spec fn is_uniform(self, color: Rgb) -> bool {
        forall|i: int| 0 <= i < self.pixels.len() ==> self.pixels[i] == color
    }

    /// Every pixel is pure black or pure white.
    pub open spec fn is_two_tone(self) -> bool {
        forall|i: int|
            0 <= i < self.pixels.len() ==> self.pixels[i] == BLACK || self.pixels[i] == WHITE
    }

    /// The channel values in storage order: red, green and blue of the first
    /// pixel, then of the second, and so on.
    pub open spec fn samples(self) -> Seq<u8> {
        Seq::new(3 * self.pixels.len(), |i: int| channel(self.pixels[i / 3], i % 3))
    }
}

/// Channel `k` of a colour: 0 is red, 1 is green, anything else is blue.
pub open spec fn channel(color: Rgb, k: int) -> u8 {
    if k == 0 {
        color.0
    } else if k == 1 {
        color.1
    } else {
        color.2
    }
}

/// The pixels that a sequence of channel values in storage order describes;
/// values after the last full triple are not part of any pixel.
pub open spec fn pixels_of(samples: Seq<u8>) -> Seq<Rgb> {
    Seq::new(
        (samples.len() / 3) as nat,
        |i: int| (samples[3 * i], samples[3 * i + 1], samples[3 * i + 2]),
    )
}

/// Number of pure black pixels in a sequence of pixels.
pub open spec fn black_count(pixels: Seq<Rgb>) -> nat
    decreases pixels.len(),
{
    if pixels.len() == 0 {
        0
    } else {
        black_count(pixels.drop_last()) + if pixels.last() == BLACK {
            1nat
        } else {
            0nat
        }
    }
}

/// There are never more black pixels than pixels.
pub proof fn lemma_black_count_bounded(pixels: Seq<Rgb>)
    ensures
        black_count(pixels) <= pixels.len(),
    decreases pixels.len(),
{
    if pixels.len() > 0 {
        lemma_black_count_bounded(pixels.drop_last());
    }
}

/// Position `(x, y)` of a grid `width` wide and `height` high has a pixel
/// number below `width * height`.
pub proof fn lemma_position_in_range(width: int, height: int, x: int, y: int)
    requires
        0 <= x < width,
        0 <= y < height,
    ensures
        0 <= y * width + x < width * height,
{
    assert(y * width + x < width * height) by (nonlinear_arith)
        requires
            0 <= x < width,
            0 <= y < height,
    {
        assert((y + 1) * width <= height * width);
    }
    assert(0 <= y * width) by (nonlinear_arith)
        requires
            0 <= y,
            0 <= width,
    ;
}

/// Different positions have different pixel numbers.
pub proof fn lemma_position_injective(width: int, x1: int, y1: int, x2: int, y2: int)
    requires
        0 <= x1 < width,
        0 <= x2 < width,
        0 <= y1,
        0 <= y2,
        y1 * width + x1 == y2 * width + x2,
    ensures
        x1 == x2,
        y1 == y2,
{
    if y1 < y2 {
        assert((y1 + 1) * width <= y2 * width) by (nonlinear_arith)
            requires
                y1 + 1 <= y2,
                0 <= width,
        ;
        assert((y1 + 1) * width == y1 * width + width) by (nonlinear_arith);
    } else if y2 < y1 {
        assert((y2 + 1) * width <= y1 * width) by (nonlinear_arith)
            requires
                y2 + 1 <= y1,
                0 <= width,
        ;
        assert((y2 + 1) * width == y2 * width + width) by (nonlinear_arith);
    }
}

/// An RGB image with eight bits per channel, held in an `RgbImage` of the
/// `image` crate.
///
/// Verus does not look inside the buffer: what it holds is named by
/// `raster_width`, `raster_height` and `raster_pixels`, and the four private
/// functions below say what the calls into the `image` crate do to them. The
/// buffer is private to this module, so every value is built and changed
/// through those functions.
#[verifier::external_body]
pub struct Raster {
    buffer: image::RgbImage,
}

/// Number of columns of a raster.
pub uninterp spec fn raster_width(img: Raster) -> nat;

/// Number of rows of a raster.
pub uninterp spec fn raster_height(img: Raster) -> nat;

/// The pixels of a raster in row-major order.
pub uninterp spec fn raster_pixels(img: Raster) -> Seq<Rgb>;

impl View for Raster {
    type V = PixelGrid;

    open spec fn view(&self) -> PixelGrid {
        PixelGrid {
            width: raster_width(*self),
            height: raster_height(*self),
            pixels: raster_pixels(*self),
        }
    }
}

/// A fresh raster of the given size.
///
/// Trusted: this is `ImageBuffer::new` of the `image` crate, which allocates
/// `3 * width * height` samples, one pixel for each position, and panics only
/// when that count does not fit a vector; the precondition leaves those sizes
/// out. Nothing is claimed of the colours, which callers overwrite.
#[verifier::external_body]
fn blank(width: u32, height: u32) -> (img: Raster)
    requires
        3 * width * height <= isize::MAX,
    ensures
        raster_width(img) == width,
        raster_height(img) == height,
        raster_pixels(img).len() == width * height,
{
    Raster { buffer: image::RgbImage::new(width, height) }
}

/// Width and height of a raster.
///
/// Trusted: this is `ImageBuffer::dimensions` of the `image` crate. The
/// buffer holds a pixel for every position within these bounds, which is what
/// the length of the pixel sequence says.
#[verifier::external_body]
fn dimensions(img: &Raster) -> (size: (u32, u32))
    ensures
        size.0 == raster_width(*img),
        size.1 == raster_height(*img),
        raster_pixels(*img).len() == size.0 * size.1,
{
    img.buffer.dimensions()
}

/// The pixel at column `x`, row `y`.
///
/// Trusted: this is `ImageBuffer::get_pixel` of the `image` crate, which
/// reads the three samples stored at pixel number `y * width + x` and panics
/// outside the bounds; the precondition leaves those positions out.
#[verifier::external_body]
fn get(img: &Raster, x: u32, y: u32) -> (color: Rgb)
    requires
        x < raster_width(*img),
        y < raster_height(*img),
    ensures
        color == raster_pixels(*img)[y * raster_width(*img) + x],
{
    let p = img.buffer.get_pixel(x, y);
    (p.0[0], p.0[1], p.0[2])
}

/// Stores a colour at column `x`, row `y`.
///
/// Trusted: this is `ImageBuffer::put_pixel` of the `image` crate, which
/// overwrites pixel number `y * width + x`, leaves every other pixel and the
/// dimensions as they were, and panics outside the bounds; the precondition
/// leaves those positions out.
#[verifier::external_body]
fn put(img: &mut Raster, x: u32, y: u32, color: Rgb)
    requires
        x < raster_width(*old(img)),
        y < raster_height(*old(img)),
    ensures
        raster_width(*final(img)) == raster_width(*old(img)),
        raster_height(*final(img)) == raster_height(*old(img)),
        raster_pixels(*final(img)) == raster_pixels(*old(img)).update(
            y * raster_width(*old(img)) + x,
            color,
        ),
{
    img.buffer.put_pixel(x, y, image::Rgb([color.0, color.1, color.2]))
}

impl Raster {
    /// A raster of the given size with every pixel of one colour.
    pub fn filled(width: u32, height: u32, color: Rgb) -> (img: Raster)
        requires
            3 * width * height <= isize::MAX,
        ensures
            img@.width == width,
            img@.height == height,
            img@.wf(),
            img@.is_uniform(color),
    {
        let mut img = blank(width, height);
        let mut x: u32 = 0;
        while x < width
            invariant
                x <= width,
                img@.width == width,
                img@.height == height,
                img@.wf(),
                forall|i: int, j: int|
                    0 <= i < x && 0 <= j < height ==> #[trigger] img@.pixel(i, j) == color,
            decreases width - x,
        {
            let mut y: u32 = 0;
            while y < height
                invariant
                    x < width,
                    y <= height,
                    img@.width == width,
                    img@.height == height,
                    img@.wf(),
                    forall|i: int, j: int|
                        0 <= i < x && 0 <= j < height ==> #[trigger] img@.pixel(i, j) == color,
                    forall|j: int| 0 <= j < y ==> #[trigger] img@.pixel(x as int, j) == color,
                decreases height - y,
            {
                let ghost before = img@;
                put(&mut img, x, y, color);
                proof {
                    lemma_put_frame(before, img@, x as int, y as int, color);
                    assert(img@.pixel(x as int, y as int) == color);
                }
                y = y + 1;
            }
            x = x + 1;
        }
        proof {
            assert forall|k: int| 0 <= k < img@.pixels.len() implies img@.pixels[k] == color by {
                lemma_position_split(width as int, height as int, k);
                let i = k % (width as int);
                let j = k / (width as int);
                assert(img@.pixel(i, j) == color);
            }
        }
        img
    }
}

impl Raster {
    /// Number of columns.
    pub fn width(&self) -> (w: u32)
        ensures
            w == self@.width,
            self@.wf(),
    {
        dimensions(self).0
    }

    /// Number of rows.
    pub fn height(&self) -> (h: u32)
        ensures
            h == self@.height,
            self@.wf(),
    {
        dimensions(self).1
    }

    /// The pixel at column `x`, row `y`, or `None` outside the raster.
    pub fn pixel(&self, x: u32, y: u32) -> (color: Option<Rgb>)
        ensures
            self@.wf(),
            color == if self@.contains(x as int, y as int) {
                Some(self@.pixel(x as int, y as int))
            } else {
                None
            },
    {
        let (w, h) = dimensions(self);
        if x < w && y < h {
            Some(get(self, x, y))
        } else {
            None
        }
    }

    /// Stores a colour at column `x`, row `y`.
    pub fn set_pixel(&mut self, x: u32, y: u32, color: Rgb)
        requires
            old(self)@.contains(x as int, y as int),
        ensures
            final(self)@.width == old(self)@.width,
            final(self)@.height == old(self)@.height,
            final(self)@.pixels == old(self)@.pixels.update(y * old(self)@.width + x, color),
            old(self)@.wf() ==> final(self)@.wf(),
    {
        let ghost before = self@;
        put(self, x, y, color);
        proof {
            if before.wf() {
                lemma_put_frame(before, self@, x as int, y as int, color);
            }
        }
    }

    /// Number of pure black pixels, and number of pixels.
    pub fn count_black(&self) -> (counts: (u64, u64))
        ensures
            self@.wf(),
            counts.0 == black_count(self@.pixels),
            counts.1 == self@.pixels.len(),
            counts.0 <= counts.1,
    {
        let (w, h) = dimensions(self);
        let ghost pixels = self@.pixels;
        let mut black: u64 = 0;
        let mut seen: u64 = 0;
        assert(w * h <= 0xffff_ffff * 0xffff_ffff) by (nonlinear_arith)
            requires
                0 <= w <= 0xffff_ffff,
                0 <= h <= 0xffff_ffff,
        ;
        let mut y: u32 = 0;
        while y < h
            invariant
                y <= h,
                self@.width == w,
                self@.height == h,
                self@.wf(),
                pixels == self@.pixels,
                seen == y * w,
                w * h <= 0xffff_ffff * 0xffff_ffff,
                black == black_count(pixels.take(seen as int)),
                black <= seen,
            decreases h - y,
        {
            let mut x: u32 = 0;
            while x < w
                invariant
                    y < h,
                    x <= w,
                    self@.width == w,
                    self@.height == h,
                    self@.wf(),
                    pixels == self@.pixels,
                    seen == y * w + x,
                    w * h <= 0xffff_ffff * 0xffff_ffff,
                    black == black_count(pixels.take(seen as int)),
                    black <= seen,
                decreases w - x,
            {
                proof {
                    lemma_position_in_range(w as int, h as int, x as int, y as int);
                    assert(pixels.take(seen + 1).drop_last() =~= pixels.take(seen as int));
                    assert(pixels.take(seen + 1).last() == pixels[seen as int]);
                }
                let color = get(self, x, y);
                if color.0 == 0 && color.1 == 0 && color.2 == 0 {
                    black = black + 1;
                }
                seen = seen + 1;
                x = x + 1;
            }
            proof {
                assert((y + 1) * w == y * w + w) by (nonlinear_arith);
            }
            y = y + 1;
        }
        proof {
            assert(h * w == w * h) by (nonlinear_arith);
            assert(pixels.take(seen as int) =~= pixels);
        }
        (black, seen)
    }

    /// The channel values of all pixels in storage order, three for each
    /// pixel, row by row.
    pub fn samples(&self) -> (out: Vec<u8>)
        ensures
            self@.wf(),
            out@ == self@.samples(),
    {
        let (w, h) = dimensions(self);
        let ghost pixels = self@.pixels;
        let ghost mut seen: int = 0;
        let mut out: Vec<u8> = Vec::new();
        let mut y: u32 = 0;
        while y < h
            invariant
                y <= h,
                self@.width == w,
                self@.height == h,
                self@.wf(),
                pixels == self@.pixels,
                seen == y * w,
                out@.len() == 3 * seen,
                forall|k: int| 0 <= k < out@.len() ==> out@[k] == channel(pixels[k / 3], k % 3),
            decreases h - y,
        {
            let mut x: u32 = 0;
            while x < w
                invariant
                    y < h,
                    x <= w,
                    self@.width == w,
                    self@.height == h,
                    self@.wf(),
                    pixels == self@.pixels,
                    seen == y * w + x,
                    out@.len() == 3 * seen,
                    forall|k: int| 0 <= k < out@.len() ==> out@[k] == channel(pixels[k / 3], k % 3),
                decreases w - x,
            {
                proof {
                    lemma_position_in_range(w as int, h as int, x as int, y as int);
                }
                let color = get(self, x, y);
                out.push(color.0);
                out.push(color.1);
                out.push(color.2);
                proof {
                    seen = seen + 1;
                }
                x = x + 1;
            }
            proof {
                assert((y + 1) * w == y * w + w) by (nonlinear_arith);
            }
            y = y + 1;
        }
        proof {
            assert(h * w == w * h) by (nonlinear_arith);
            assert(out@ =~= self@.samples());
        }
        out
    }

    /// The raster of the given size whose channel values in storage order are
    /// `samples`, or `None` when `samples` does not hold exactly three values
    /// for each pixel.
    pub fn from_samples(width: u32, height: u32, samples: &Vec<u8>) -> (made: Option<Raster>)
        ensures
            made is Some <==> samples@.len() == 3 * width * height && 3 * width * height
                <= isize::MAX,
            made matches Some(img) ==> {
                &&& img@.width == width
                &&& img@.height == height
                &&& img@.wf()
                &&& img@.pixels == pixels_of(samples@)
            },
    {
        assert(3 * width * height <= 3 * 0xffff_ffff * 0xffff_ffff) by (nonlinear_arith)
            requires
                0 <= width <= 0xffff_ffff,
                0 <= height <= 0xffff_ffff,
        ;
        let needed: u128 = 3u128 * (width as u128) * (height as u128);
        if samples.len() as u128 != needed || needed > isize::MAX as u128 {
            return None;
        }
        let mut img = blank(width, height);
        let mut at: usize = 0;
        let mut y: u32 = 0;
        while y < height
            invariant
                y <= height,
                img@.width == width,
                img@.height == height,
                img@.wf(),
                samples@.len() == 3 * width * height,
                samples@.len() <= usize::MAX,
                at == y * width,
                forall|k: int| 0 <= k < at ==> img@.pixels[k] == pixels_of(samples@)[k],
            decreases height - y,
        {
            let mut x: u32 = 0;
            while x < width
                invariant
                    y < height,
                    x <= width,
                    img@.width == width,
                    img@.height == height,
                    img@.wf(),
                    samples@.len() == 3 * width * height,
                    samples@.len() <= usize::MAX,
                    at == y * width + x,
                    forall|k: int| 0 <= k < at ==> img@.pixels[k] == pixels_of(samples@)[k],
                decreases width - x,
            {
                proof {
                    lemma_position_in_range(width as int, height as int, x as int, y as int);
                    assert(3 * (width * height) == 3 * width * height) by (nonlinear_arith);
                    assert(at < width * height);
                    assert(3 * at + 2 < samples@.len());
                }
                let color = (samples[3 * at], samples[3 * at + 1], samples[3 * at + 2]);
                put(&mut img, x, y, color);
                at = at + 1;
                x = x + 1;
            }
            proof {
                assert((y + 1) * width == y * width + width) by (nonlinear_arith);
            }
            y = y + 1;
        }
        proof {
            assert(3 * (width * height) == 3 * width * height) by (nonlinear_arith);
            assert(height * width == width * height) by (nonlinear_arith);
            assert(img@.pixels =~= pixels_of(samples@));
        }
        Some(img)
    }
}

/// The pixels of a grid are those that its channel values describe.
pub proof fn lemma_samples_round_trip(grid: PixelGrid)
    ensures
        pixels_of(grid.samples()) == grid.pixels,
{
    assert(pixels_of(grid.samples()) =~= grid.pixels);
}

/// Storing a colour at one position of a well-formed grid changes the pixel
/// there and no other.
pub proof fn lemma_put_frame(before: PixelGrid, after: PixelGrid, x: int, y: int, color: Rgb)
    requires
        before.wf(),
        before.contains(x, y),
        after.width == before.width,
        after.height == before.height,
        after.pixels == before.pixels.update(y * before.width + x, color),
    ensures
        after.wf(),
        after.pixel(x, y) == color,
        forall|i: int, j: int|
            before.contains(i, j) && (i != x || j != y) ==> #[trigger] after.pixel(i, j)
                == before.pixel(i, j),
{
    let w = before.width as int;
    let h = before.height as int;
    lemma_position_in_range(w, h, x, y);
    assert forall|i: int, j: int| before.contains(i, j) && (i != x || j != y) implies #[trigger] after.pixel(
        i,
        j,
    ) == before.pixel(i, j) by {
        lemma_position_in_range(w, h, i, j);
        if j * w + i == y * w + x {
            lemma_position_injective(w, i, j, x, y);
        }
    }
}

/// Every pixel number below `width * height` is the number of a position.
pub proof fn lemma_position_split(width: int, height: int, k: int)
    requires
        0 <= k < width * height,
        0 <= height,
    ensures
        0 < width,
        0 <= k % width < width,
        0 <= k / width < height,
        (k / width) * width + k % width == k,
{
    assert(0 < width) by (nonlinear_arith)
        requires
            0 <= k < width * height,
            0 <= height,
    ;
    vstd::arithmetic::div_mod::lemma_fundamental_div_mod(k, width);
    vstd::arithmetic::div_mod::lemma_mod_bound(k, width);
    assert(width * (k / width) == (k / width) * width) by (nonlinear_arith);
    let q = k / width;
    assert(0 <= q) by (nonlinear_arith)
        requires
            0 < width,
            0 <= k,
            q == k / width,
    ;
    assert(q < height) by (nonlinear_arith)
        requires
            0 < width,
            q * width + k % width == k,
            0 <= k % width,
            k < width * height,
    {
        if q >= height {
            assert(q * width >= height * width);
        }
    }
}

} // verus!
