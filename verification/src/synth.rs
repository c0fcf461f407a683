//! The image synthesizer: a white background, then either the two-tone
//! rendering of an escape-time fractal or random noise.

use crate::entropy::random_byte;
use crate::raster::{lemma_position_split, lemma_put_frame, PixelGrid, Raster, Rgb, BLACK, WHITE};
use vstd::prelude::*;
use vstd::string::StringExecFns;

verus! {

/// The colour of a point whose iteration stopped after `iterations` steps of
/// at most `max_iterations`: black when the bound was reached, which means
/// that the point never escaped, and white otherwise.
pub open spec fn two_tone_spec(iterations: u32, max_iterations: u32) -> Rgb {
    if iterations == max_iterations {
        BLACK
    } else {
        WHITE
    }
}

/// The colour of a point under the two-tone policy.
pub fn two_tone(iterations: u32, max_iterations: u32) -> (color: Rgb)
    ensures
        color == two_tone_spec(iterations, max_iterations),
        color == BLACK || color == WHITE,
{
    if iterations == max_iterations {
        BLACK
    } else {
        WHITE
    }
}

/// Whether a pattern name selects the fractal; every other name selects noise.
pub open spec fn is_mandelbrot_spec(pattern_type: Seq<char>) -> bool {
    pattern_type == "mandelbrot"@
}

/// Whether a pattern name selects the fractal.
pub fn is_mandelbrot(pattern_type: &str) -> (yes: bool)
    ensures
        yes == is_mandelbrot_spec(pattern_type@),
{
    String::from_str(pattern_type) == String::from_str("mandelbrot")
}

/// `color` is what the two-tone policy gives for some iteration count that
/// `escape_time` may return for the pixel `(x, y)`.
pub open spec fn painted_by<F: Fn(u32, u32) -> u32>(
    escape_time: F,
    max_iterations: u32,
    x: u32,
    y: u32,
    color: Rgb,
) -> bool {
    exists|n: u32| #[trigger]
        call_ensures(escape_time, (x, y), n) && color == two_tone_spec(n, max_iterations)
}

/// A point is painted black exactly when its iteration reached the bound.
pub proof fn lemma_black_exactly_at_bound(iterations: u32, max_iterations: u32)
    ensures
        two_tone_spec(iterations, max_iterations) == BLACK <==> iterations == max_iterations,
        two_tone_spec(iterations, max_iterations) == WHITE <==> iterations != max_iterations,
{
}

/// Rendering is determined by the evaluator: two grids of one size that were
/// painted under one bound by evaluators that agree at every pixel hold the
/// same pixels. Nothing else enters: no random draw and no file name.
pub proof fn lemma_rendering_determined<F1: Fn(u32, u32) -> u32, F2: Fn(u32, u32) -> u32>(
    first: PixelGrid,
    second: PixelGrid,
    evaluator1: F1,
    evaluator2: F2,
    max_iterations: u32,
)
    requires
        first.wf(),
        second.wf(),
        first.width == second.width,
        first.height == second.height,
        first.width <= u32::MAX,
        first.height <= u32::MAX,
        forall|x: u32, y: u32|
            first.contains(x as int, y as int) ==> #[trigger] painted_by(
                evaluator1,
                max_iterations,
                x,
                y,
                first.pixel(x as int, y as int),
            ),
        forall|x: u32, y: u32|
            second.contains(x as int, y as int) ==> #[trigger] painted_by(
                evaluator2,
                max_iterations,
                x,
                y,
                second.pixel(x as int, y as int),
            ),
        forall|x: u32, y: u32, n1: u32, n2: u32|
            #![trigger call_ensures(evaluator1, (x, y), n1), call_ensures(evaluator2, (x, y), n2)]
            first.contains(x as int, y as int) && call_ensures(evaluator1, (x, y), n1)
                && call_ensures(evaluator2, (x, y), n2) ==> n1 == n2,
    ensures
        first == second,
{
    assert forall|k: int| 0 <= k < first.pixels.len() implies first.pixels[k]
        == second.pixels[k] by {
        lemma_position_split(first.width as int, first.height as int, k);
        let x = (k % (first.width as int)) as u32;
        let y = (k / (first.width as int)) as u32;
        assert(first.contains(x as int, y as int));
        assert(first.pixel(x as int, y as int) == first.pixels[k]);
        assert(second.pixel(x as int, y as int) == second.pixels[k]);
        assert(painted_by(evaluator1, max_iterations, x, y, first.pixels[k]));
        assert(painted_by(evaluator2, max_iterations, x, y, second.pixels[k]));
        let n1 = choose|n: u32| #[trigger]
            call_ensures(evaluator1, (x, y), n) && first.pixels[k] == two_tone_spec(
                n,
                max_iterations,
            );
        let n2 = choose|n: u32| #[trigger]
            call_ensures(evaluator2, (x, y), n) && second.pixels[k] == two_tone_spec(
                n,
                max_iterations,
            );
        assert(n1 == n2);
    }
    assert(first.pixels =~= second.pixels);
}

/// Paints every pixel of `img` from its escape time: black where
/// `escape_time` returns `max_iterations`, white elsewhere. `escape_time` is
/// called once for each pixel, column by column.
pub fn paint_fractal<F: Fn(u32, u32) -> u32>(
    img: &mut Raster,
    max_iterations: u32,
    escape_time: F,
)
    requires
        forall|x: u32, y: u32|
            x < old(img)@.width && y < old(img)@.height ==> call_requires(escape_time, (x, y)),
    ensures
        final(img)@.width == old(img)@.width,
        final(img)@.height == old(img)@.height,
        final(img)@.wf(),
        final(img)@.is_two_tone(),
        forall|x: u32, y: u32|
            final(img)@.contains(x as int, y as int) ==> #[trigger] painted_by(
                escape_time,
                max_iterations,
                x,
                y,
                final(img)@.pixel(x as int, y as int),
            ),
{
    let width = img.width();
    let height = img.height();
    let mut x: u32 = 0;
    while x < width
        invariant
            x <= width,
            img@.width == width,
            img@.height == height,
            img@.wf(),
            forall|i: u32, j: u32| i < width && j < height ==> call_requires(escape_time, (i, j)),
            forall|i: u32, j: u32|
                i < x && j < height ==> {
                    let c = #[trigger] img@.pixel(i as int, j as int);
                    (c == BLACK || c == WHITE) && painted_by(escape_time, max_iterations, i, j, c)
                },
        decreases width - x,
    {
        let mut y: u32 = 0;
        while y < height
            invariant
                x < width,
                y <= height,
                img@.width == width,
                img@.height == height,
                img@.wf(),
                forall|i: u32, j: u32|
                    i < width && j < height ==> call_requires(escape_time, (i, j)),
                forall|i: u32, j: u32|
                    i < x && j < height ==> {
                        let c = #[trigger] img@.pixel(i as int, j as int);
                        (c == BLACK || c == WHITE) && painted_by(
                            escape_time,
                            max_iterations,
                            i,
                            j,
                            c,
                        )
                    },
                forall|j: u32|
                    j < y ==> {
                        let c = #[trigger] img@.pixel(x as int, j as int);
                        (c == BLACK || c == WHITE) && painted_by(
                            escape_time,
                            max_iterations,
                            x,
                            j,
                            c,
                        )
                    },
            decreases height - y,
        {
            let iterations = escape_time(x, y);
            let color = two_tone(iterations, max_iterations);
            let ghost before = img@;
            img.set_pixel(x, y, color);
            proof {
                lemma_put_frame(before, img@, x as int, y as int, color);
                assert(painted_by(escape_time, max_iterations, x, y, color));
                assert forall|i: u32, j: u32| i < x && j < height implies {
                    let c = #[trigger] img@.pixel(i as int, j as int);
                    (c == BLACK || c == WHITE) && painted_by(escape_time, max_iterations, i, j, c)
                } by {
                    assert(img@.pixel(i as int, j as int) == before.pixel(i as int, j as int));
                }
                assert forall|j: u32| j < y + 1 implies {
                    let c = #[trigger] img@.pixel(x as int, j as int);
                    (c == BLACK || c == WHITE) && painted_by(escape_time, max_iterations, x, j, c)
                } by {
                    if j < y {
                        assert(img@.pixel(x as int, j as int) == before.pixel(x as int, j as int));
                    }
                }
            }
            y = y + 1;
        }
        x = x + 1;
    }
    proof {
        assert forall|k: int| 0 <= k < img@.pixels.len() implies img@.pixels[k] == BLACK
            || img@.pixels[k] == WHITE by {
            lemma_position_split(width as int, height as int, k);
            let i = (k % (width as int)) as u32;
            let j = (k / (width as int)) as u32;
            assert(img@.pixel(i as int, j as int) == img@.pixels[k]);
        }
    }
}

/// The colour that noise painting gives the pixel `(x, y)` of an image
/// `height` rows high: the pixels are served column by column, and pixel
/// number `k = x * height + y` in that order takes the draws `3k`, `3k + 1`
/// and `3k + 2` as its red, green and blue.
pub open spec fn noise_color(draws: Seq<u8>, height: nat, x: int, y: int) -> Rgb {
    let k = x * height + y;
    (draws[3 * k], draws[3 * k + 1], draws[3 * k + 2])
}

/// Draws the bytes for a noise image of the given size: three for each
/// pixel, one after the other. Nothing is known of the bytes but their
/// number.
pub fn draw_samples(width: u32, height: u32, rng: &mut rand::rngs::ThreadRng) -> (draws: Vec<u8>)
    ensures
        draws@.len() == 3 * width * height,
{
    let mut draws: Vec<u8> = Vec::new();
    let mut x: u32 = 0;
    while x < width
        invariant
            x <= width,
            draws@.len() == 3 * (x * height),
        decreases width - x,
    {
        let mut y: u32 = 0;
        while y < height
            invariant
                x < width,
                y <= height,
                draws@.len() == 3 * (x * height + y),
            decreases height - y,
        {
            let r = random_byte(rng);
            let g = random_byte(rng);
            let b = random_byte(rng);
            draws.push(r);
            draws.push(g);
            draws.push(b);
            y = y + 1;
        }
        proof {
            assert((x + 1) * height == x * height + height) by (nonlinear_arith);
        }
        x = x + 1;
    }
    proof {
        assert(3 * (width * height) == 3 * width * height) by (nonlinear_arith);
    }
    draws
}

/// Paints an image from drawn bytes: every channel of every pixel is a draw
/// of its own, and the pixels take their draws column by column.
///
/// Returns whether `draws` holds exactly three bytes for each pixel; when it
/// does not, the image stays as it is.
pub fn paint_samples(img: &mut Raster, draws: &Vec<u8>) -> (painted: bool)
    ensures
        painted == (draws@.len() == 3 * old(img)@.width * old(img)@.height),
        final(img)@.width == old(img)@.width,
        final(img)@.height == old(img)@.height,
        final(img)@.wf(),
        !painted ==> final(img)@ == old(img)@,
        painted ==> forall|x: u32, y: u32|
            final(img)@.contains(x as int, y as int) ==> #[trigger] final(img)@.pixel(
                x as int,
                y as int,
            ) == noise_color(draws@, old(img)@.height, x as int, y as int),
{
    let width = img.width();
    let height = img.height();
    assert(3 * width * height <= 3 * 0xffff_ffff * 0xffff_ffff) by (nonlinear_arith)
        requires
            0 <= width <= 0xffff_ffff,
            0 <= height <= 0xffff_ffff,
    ;
    let needed: u128 = 3u128 * (width as u128) * (height as u128);
    if draws.len() as u128 != needed {
        return false;
    }
    let mut at: usize = 0;
    let mut x: u32 = 0;
    while x < width
        invariant
            x <= width,
            img@.width == width,
            img@.height == height,
            img@.wf(),
            draws@.len() == 3 * width * height,
            draws@.len() <= usize::MAX,
            at == x * height,
            forall|i: u32, j: u32|
                i < x && j < height ==> #[trigger] img@.pixel(i as int, j as int) == noise_color(
                    draws@,
                    height as nat,
                    i as int,
                    j as int,
                ),
        decreases width - x,
    {
        let mut y: u32 = 0;
        while y < height
            invariant
                x < width,
                y <= height,
                img@.width == width,
                img@.height == height,
                img@.wf(),
                draws@.len() == 3 * width * height,
                draws@.len() <= usize::MAX,
                at == x * height + y,
                forall|i: u32, j: u32|
                    i < x && j < height ==> #[trigger] img@.pixel(i as int, j as int)
                        == noise_color(draws@, height as nat, i as int, j as int),
                forall|j: u32|
                    j < y ==> #[trigger] img@.pixel(x as int, j as int) == noise_color(
                        draws@,
                        height as nat,
                        x as int,
                        j as int,
                    ),
            decreases height - y,
        {
            proof {
                crate::raster::lemma_position_in_range(
                    height as int,
                    width as int,
                    y as int,
                    x as int,
                );
                assert(3 * (height * width) == 3 * width * height) by (nonlinear_arith);
                assert(3 * at + 2 < draws@.len());
            }
            let color = (draws[3 * at], draws[3 * at + 1], draws[3 * at + 2]);
            let ghost before = img@;
            img.set_pixel(x, y, color);
            proof {
                lemma_put_frame(before, img@, x as int, y as int, color);
                assert(color == noise_color(draws@, height as nat, x as int, y as int));
                assert forall|i: u32, j: u32| i < x && j < height implies #[trigger] img@.pixel(
                    i as int,
                    j as int,
                ) == noise_color(draws@, height as nat, i as int, j as int) by {
                    assert(img@.pixel(i as int, j as int) == before.pixel(i as int, j as int));
                }
                assert forall|j: u32| j < y + 1 implies #[trigger] img@.pixel(x as int, j as int)
                    == noise_color(draws@, height as nat, x as int, j as int) by {
                    if j < y {
                        assert(img@.pixel(x as int, j as int) == before.pixel(x as int, j as int));
                    }
                }
            }
            at = at + 1;
            y = y + 1;
        }
        proof {
            assert((x + 1) * height == x * height + height) by (nonlinear_arith);
        }
        x = x + 1;
    }
    true
}

/// Paints every pixel of `img` with random noise: draws three bytes for each
/// pixel and paints the image from them as `paint_samples` does. Of the
/// colours nothing is known, since nothing is known of the draws.
pub fn paint_noise(img: &mut Raster, rng: &mut rand::rngs::ThreadRng)
    ensures
        final(img)@.width == old(img)@.width,
        final(img)@.height == old(img)@.height,
        final(img)@.wf(),
{
    let width = img.width();
    let height = img.height();
    let draws = draw_samples(width, height, rng);
    let _ = paint_samples(img, &draws);
}

/// Synthesizes an image of the given size.
///
/// The background is white. For the pattern `"mandelbrot"` every pixel is
/// then painted from its escape time under the two-tone policy; for every
/// other pattern name three bytes are drawn for each pixel and the image is
/// painted from them as `paint_samples` does.
pub fn generate_mathematical_image<F: Fn(u32, u32) -> u32>(
    width: u32,
    height: u32,
    pattern_type: &str,
    max_iterations: u32,
    escape_time: F,
    rng: &mut rand::rngs::ThreadRng,
) -> (img: Raster)
    requires
        3 * width * height <= isize::MAX,
        is_mandelbrot_spec(pattern_type@) ==> forall|x: u32, y: u32|
            x < width && y < height ==> call_requires(escape_time, (x, y)),
    ensures
        img@.width == width,
        img@.height == height,
        img@.wf(),
        is_mandelbrot_spec(pattern_type@) ==> img@.is_two_tone(),
        is_mandelbrot_spec(pattern_type@) ==> forall|x: u32, y: u32|
            x < width && y < height ==> #[trigger] painted_by(
                escape_time,
                max_iterations,
                x,
                y,
                img@.pixel(x as int, y as int),
            ),
{
    let mut img = Raster::filled(width, height, WHITE);
    if is_mandelbrot(pattern_type) {
        paint_fractal(&mut img, max_iterations, escape_time);
    } else {
        let draws = draw_samples(width, height, rng);
        let _ = paint_samples(&mut img, &draws);
    }
    img
}

} // verus!
