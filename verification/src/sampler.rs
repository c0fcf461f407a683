//! The acceptance sampler: which sizes and iteration limits are drawn, which
//! share of in-set pixels is accepted, and what follows each measurement.

use crate::entropy::{uniform_u32, uniform_u32_inclusive};
use vstd::prelude::*;

verus! {

/// The ranges from which the integer parameters of an attempt are drawn.
/// Width and height come from closed ranges, the iteration bound and the
/// smoothness from half-open ones.
#[derive(Clone, Copy, Debug, PartialEq, Eq, Structural)]
pub struct SamplingRanges {
    pub width_min: u32,
    pub width_max: u32,
    pub height_min: u32,
    pub height_max: u32,
    pub iterations_min: u32,
    pub iterations_end: u32,
    pub smoothness_min: u32,
    pub smoothness_end: u32,
}

impl SamplingRanges {
    /// No range is empty.
    pub open spec fn wf(self) -> bool {
        &&& self.width_min <= self.width_max
        &&& self.height_min <= self.height_max
        &&& self.iterations_min < self.iterations_end
        &&& self.smoothness_min < self.smoothness_end
    }

    /// Whether a size lies in the ranges for width and height.
    pub open spec fn admits_size(self, width: u32, height: u32) -> bool {
        &&& self.width_min <= width <= self.width_max
        &&& self.height_min <= height <= self.height_max
    }

    /// Whether an iteration bound and a smoothness lie in their ranges.
    pub open spec fn admits_limits(self, max_iterations: u32, smoothness: u32) -> bool {
        &&& self.iterations_min <= max_iterations < self.iterations_end
        &&& self.smoothness_min <= smoothness < self.smoothness_end
    }

    /// The documented ranges: width in `[3000, 5000]`, height in
    /// `[2000, 3500]`, iteration bound in `[400, 1200)`, smoothness in
    /// `[1, 20)`.
    pub fn documented() -> (ranges: SamplingRanges)
        ensures
            ranges.wf(),
            ranges == (SamplingRanges {
                width_min: 3000,
                width_max: 5000,
                height_min: 2000,
                height_max: 3500,
                iterations_min: 400,
                iterations_end: 1200,
                smoothness_min: 1,
                smoothness_end: 20,
            }),
    {
        SamplingRanges {
            width_min: 3000,
            width_max: 5000,
            height_min: 2000,
            height_max: 3500,
            iterations_min: 400,
            iterations_end: 1200,
            smoothness_min: 1,
            smoothness_end: 20,
        }
    }

    /// Whether no range is empty.
    pub fn is_valid(&self) -> (ok: bool)
        ensures
            ok == self.wf(),
    {
        self.width_min <= self.width_max && self.height_min <= self.height_max
            && self.iterations_min < self.iterations_end && self.smoothness_min
            < self.smoothness_end
    }

    /// Draws a width and a height, in this order.
    pub fn draw_size(&self, rng: &mut rand::rngs::ThreadRng) -> (size: (u32, u32))
        requires
            self.wf(),
        ensures
            self.admits_size(size.0, size.1),
    {
        let width = uniform_u32_inclusive(rng, self.width_min, self.width_max);
        let height = uniform_u32_inclusive(rng, self.height_min, self.height_max);
        (width, height)
    }

    /// Draws an iteration bound and a smoothness, in this order.
    pub fn draw_limits(&self, rng: &mut rand::rngs::ThreadRng) -> (limits: (u32, u32))
        requires
            self.wf(),
        ensures
            self.admits_limits(limits.0, limits.1),
    {
        let max_iterations = uniform_u32(rng, self.iterations_min, self.iterations_end);
        let smoothness = uniform_u32(rng, self.smoothness_min, self.smoothness_end);
        (max_iterations, smoothness)
    }
}

/// The band of accepted fractal ratios, `lo / scale` to `hi / scale`, both
/// ends included.
#[derive(Clone, Copy, Debug, PartialEq, Eq, Structural)]
pub struct AcceptanceBand {
    pub lo: u32,
    pub hi: u32,
    pub scale: u32,
}

impl AcceptanceBand {
    /// The band is a part of `[0, 1]`: `0 <= lo <= hi <= scale`, `scale > 0`.
    pub open spec fn wf(self) -> bool {
        self.lo <= self.hi <= self.scale && self.scale > 0
    }

    /// Whether `black / total` lies in the band, stated without division:
    /// `lo / scale <= black / total <= hi / scale`.
    pub open spec fn contains(self, black: nat, total: nat) -> bool {
        self.lo * total <= black * self.scale && black * self.scale <= self.hi * total
    }

    /// The band `[lo / scale, hi / scale]`, or `None` when it is not a part
    /// of `[0, 1]`.
    pub fn new(lo: u32, hi: u32, scale: u32) -> (band: Option<AcceptanceBand>)
        ensures
            band == if lo <= hi <= scale && scale > 0 {
                Some(AcceptanceBand { lo, hi, scale })
            } else {
                None
            },
            band matches Some(b) ==> b.wf(),
    {
        if lo <= hi && hi <= scale && scale > 0 {
            Some(AcceptanceBand { lo, hi, scale })
        } else {
            None
        }
    }

    /// The band `[0.3, 0.7]`.
    pub fn wide() -> (band: AcceptanceBand)
        ensures
            band == (AcceptanceBand { lo: 3, hi: 7, scale: 10 }),
            band.wf(),
    {
        AcceptanceBand { lo: 3, hi: 7, scale: 10 }
    }

    /// The band `[0.4, 0.6]`.
    pub fn narrow() -> (band: AcceptanceBand)
        ensures
            band == (AcceptanceBand { lo: 4, hi: 6, scale: 10 }),
            band.wf(),
    {
        AcceptanceBand { lo: 4, hi: 6, scale: 10 }
    }

    /// Whether an image with `black` in-set pixels among `total` is accepted.
    pub fn accepts(&self, black: u64, total: u64) -> (yes: bool)
        ensures
            yes == self.contains(black as nat, total as nat),
    {
        let lo = self.lo as u128;
        let hi = self.hi as u128;
        let scale = self.scale as u128;
        let b = black as u128;
        let t = total as u128;
        assert(lo * t <= 0xffff_ffff * 0xffff_ffff_ffff_ffff) by (nonlinear_arith)
            requires
                0 <= lo <= 0xffff_ffff,
                0 <= t <= 0xffff_ffff_ffff_ffff,
        ;
        assert(hi * t <= 0xffff_ffff * 0xffff_ffff_ffff_ffff) by (nonlinear_arith)
            requires
                0 <= hi <= 0xffff_ffff,
                0 <= t <= 0xffff_ffff_ffff_ffff,
        ;
        assert(b * scale <= 0xffff_ffff_ffff_ffff * 0xffff_ffff) by (nonlinear_arith)
            requires
                0 <= scale <= 0xffff_ffff,
                0 <= b <= 0xffff_ffff_ffff_ffff,
        ;
        lo * t <= b * scale && b * scale <= hi * t
    }
}

/// A ratio in a well-formed band is a share: there are no more in-set pixels
/// than pixels.
pub proof fn lemma_band_within_unit(band: AcceptanceBand, black: nat, total: nat)
    requires
        band.wf(),
        band.contains(black, total),
    ensures
        black <= total,
{
    let hi = band.hi as int;
    let scale = band.scale as int;
    assert(black <= total) by (nonlinear_arith)
        requires
            0 < scale,
            0 <= hi <= scale,
            black * scale <= hi * total,
    {
        assert(hi * total <= scale * total);
        if black > total {
            assert(black * scale >= (total + 1) * scale);
        }
    }
}

/// What an accepted image measured: its in-set pixels, its pixels, and how
/// many images were rejected before it. The fractal ratio is
/// `black_pixels / total_pixels`.
#[derive(Clone, Copy, Debug, PartialEq, Eq, Structural)]
pub struct AcceptanceResult {
    pub black_pixels: u64,
    pub total_pixels: u64,
    pub attempts: u32,
}

/// What follows a measurement.
#[derive(Clone, Copy, Debug, PartialEq, Eq, Structural)]
pub enum Verdict {
    /// The ratio lies in the band: the image is kept.
    Accepted(AcceptanceResult),
    /// The ratio lies outside the band: draw new parameters and synthesize
    /// again.
    Rejected,
    /// The ratio lies outside the band and the ceiling on attempts is
    /// reached: stop without an image.
    Exhausted,
}

/// The state of one sampler: its band, its ceiling on attempts, if any, and
/// the number of images rejected so far.
#[derive(Clone, Copy, Debug, PartialEq, Eq, Structural)]
pub struct Sampler {
    pub band: AcceptanceBand,
    pub ceiling: Option<u32>,
    pub attempts: u32,
}

/// One more, but never past the largest `u32`.
pub open spec fn next_count(n: u32) -> u32 {
    if n < u32::MAX {
        (n + 1) as u32
    } else {
        n
    }
}

impl Sampler {
    /// A sampler that has rejected nothing yet. Without a ceiling it retries
    /// for ever; with the ceiling `c` it gives up at the rejection that
    /// brings the count to `c` or more.
    pub fn new(band: AcceptanceBand, ceiling: Option<u32>) -> (sampler: Sampler)
        ensures
            sampler == (Sampler { band, ceiling, attempts: 0 }),
    {
        Sampler { band, ceiling, attempts: 0 }
    }

    /// The verdict on a measurement and the state after it, as a function of
    /// the state before it.
    pub open spec fn judged(self, black: u64, total: u64) -> (Verdict, Sampler) {
        if self.band.contains(black as nat, total as nat) {
            (
                Verdict::Accepted(
                    AcceptanceResult {
                        black_pixels: black,
                        total_pixels: total,
                        attempts: self.attempts,
                    },
                ),
                self,
            )
        } else {
            let after = Sampler { attempts: next_count(self.attempts), ..self };
            if self.ceiling is Some && after.attempts >= self.ceiling->0 {
                (Verdict::Exhausted, after)
            } else {
                (Verdict::Rejected, after)
            }
        }
    }

    /// Judges an image with `black` in-set pixels among `total`.
    ///
    /// The image is accepted exactly when its ratio lies in the band; the
    /// state then stays as it is. Otherwise the count of rejected images
    /// grows by one (it stops growing at the largest `u32`), and the verdict
    /// is `Exhausted` when a ceiling is set and reached, `Rejected` when not.
    pub fn judge(&mut self, black: u64, total: u64) -> (verdict: Verdict)
        ensures
            (verdict, *final(self)) == old(self).judged(black, total),
            verdict matches Verdict::Accepted(r) ==> old(self).band.contains(
                r.black_pixels as nat,
                r.total_pixels as nat,
            ),
    {
        if self.band.accepts(black, total) {
            Verdict::Accepted(
                AcceptanceResult {
                    black_pixels: black,
                    total_pixels: total,
                    attempts: self.attempts,
                },
            )
        } else {
            if self.attempts < u32::MAX {
                self.attempts = self.attempts + 1;
            }
            match self.ceiling {
                Some(c) => {
                    if self.attempts >= c {
                        Verdict::Exhausted
                    } else {
                        Verdict::Rejected
                    }
                },
                None => Verdict::Rejected,
            }
        }
    }
}

/// The count of rejected images after `n` further rejections: it grows by
/// one each time and stops at the largest `u32`.
pub open spec fn count_after(start: u32, n: nat) -> u32 {
    if start + n <= u32::MAX {
        (start + n) as u32
    } else {
        u32::MAX
    }
}

/// The state of a sampler after a run of measurements, judged one after the
/// other.
pub open spec fn judged_all(sampler: Sampler, measurements: Seq<(u64, u64)>) -> Sampler
    decreases measurements.len(),
{
    if measurements.len() == 0 {
        sampler
    } else {
        judged_all(sampler, measurements.drop_last()).judged(
            measurements.last().0,
            measurements.last().1,
        ).1
    }
}

/// Whether every measurement of a run lies outside the band.
pub open spec fn all_outside(band: AcceptanceBand, measurements: Seq<(u64, u64)>) -> bool {
    forall|i: int|
        0 <= i < measurements.len() ==> !band.contains(
            (#[trigger] measurements[i]).0 as nat,
            measurements[i].1 as nat,
        )
}

/// A run of rejected images changes nothing but the count, which grows by
/// one for each of them.
pub proof fn lemma_rejections_are_counted(sampler: Sampler, rejected: Seq<(u64, u64)>)
    requires
        all_outside(sampler.band, rejected),
    ensures
        judged_all(sampler, rejected) == (Sampler {
            attempts: count_after(sampler.attempts, rejected.len()),
            ..sampler
        }),
    decreases rejected.len(),
{
    if rejected.len() > 0 {
        let front = rejected.drop_last();
        assert forall|i: int| 0 <= i < front.len() implies !sampler.band.contains(
            (#[trigger] front[i]).0 as nat,
            front[i].1 as nat,
        ) by {
            assert(front[i] == rejected[i]);
        }
        lemma_rejections_are_counted(sampler, front);
        assert(rejected.last() == rejected[rejected.len() - 1]);
    }
}

/// The verdict on one more image outside the band, after a run of rejected
/// images: the sampler asks for another attempt unless a ceiling is set and
/// the count has reached it.
pub proof fn lemma_verdict_after_rejections(
    sampler: Sampler,
    rejected: Seq<(u64, u64)>,
    black: u64,
    total: u64,
)
    requires
        all_outside(sampler.band, rejected),
        !sampler.band.contains(black as nat, total as nat),
    ensures
        judged_all(sampler, rejected).judged(black, total).0 == if sampler.ceiling is Some
            && count_after(sampler.attempts, rejected.len() + 1) >= sampler.ceiling->0 {
            Verdict::Exhausted
        } else {
            Verdict::Rejected
        },
{
    lemma_rejections_are_counted(sampler, rejected);
}

/// The loop as a whole: when the images of the first attempts lie outside
/// the band and the next one lies inside, that one is accepted, the count of
/// rejected images it reports is the number of attempts before it, and
/// judging it leaves the state as it was.
pub proof fn lemma_accepted_after_rejections(
    sampler: Sampler,
    rejected: Seq<(u64, u64)>,
    black: u64,
    total: u64,
)
    requires
        all_outside(sampler.band, rejected),
        sampler.band.contains(black as nat, total as nat),
    ensures
        judged_all(sampler, rejected).judged(black, total) == (
            Verdict::Accepted(
                AcceptanceResult {
                    black_pixels: black,
                    total_pixels: total,
                    attempts: count_after(sampler.attempts, rejected.len()),
                },
            ),
            judged_all(sampler, rejected),
        ),
{
    lemma_rejections_are_counted(sampler, rejected);
}

} // verus!
