use fractal_gen::raster::Raster;
use fractal_gen::sampler::{AcceptanceBand, AcceptanceResult, Sampler, SamplingRanges, Verdict};
use fractal_gen::synth::generate_mathematical_image;

fn mandelbrot_iterations(c_real: f64, c_imag: f64, max_iterations: u32) -> u32 {
    let (mut zr, mut zi) = (0.0f64, 0.0f64);
    let mut iterations = 0;
    let mut magnitude_sq = 0.0;
    while magnitude_sq < 4.0 && iterations < max_iterations {
        let next = zr * zr - zi * zi + c_real;
        zi = 2.0 * zr * zi + c_imag;
        zr = next;
        magnitude_sq = zr * zr + zi * zi;
        iterations += 1;
    }
    iterations
}

fn render(width: u32, height: u32, x_pos: f64, y_pos: f64, radius: f64, max: u32) -> Raster {
    let mut rng = rand::thread_rng();
    let view_width = 4.0 * radius;
    let view_height = view_width * (height as f64 / width as f64);
    let x_min = x_pos - view_width / 2.0;
    let y_min = y_pos - view_height / 2.0;
    generate_mathematical_image(
        width,
        height,
        "mandelbrot",
        max,
        |x, y| {
            let cr = x_min + (x as f64 / width as f64) * view_width;
            let ci = y_min + (y as f64 / height as f64) * view_height;
            mandelbrot_iterations(cr, ci, max)
        },
        &mut rng,
    )
}

#[test]
fn documented_ranges_are_as_published() {
    let r = SamplingRanges::documented();
    assert_eq!((r.width_min, r.width_max), (3000, 5000));
    assert_eq!((r.height_min, r.height_max), (2000, 3500));
    assert_eq!((r.iterations_min, r.iterations_end), (400, 1200));
    assert_eq!((r.smoothness_min, r.smoothness_end), (1, 20));
    assert!(r.is_valid());
}

#[test]
fn empty_ranges_are_not_valid() {
    let mut r = SamplingRanges::documented();
    r.width_min = 5001;
    assert!(!r.is_valid());
    let mut r = SamplingRanges::documented();
    r.iterations_end = 400;
    assert!(!r.is_valid());
    let mut r = SamplingRanges::documented();
    r.smoothness_min = 20;
    assert!(!r.is_valid());
    let mut r = SamplingRanges::documented();
    r.height_max = 2000;
    assert!(r.is_valid());
}

#[test]
fn drawn_sizes_lie_in_their_ranges() {
    let mut rng = rand::thread_rng();
    let r = SamplingRanges::documented();
    let mut widths = std::collections::HashSet::new();
    for _ in 0..2000 {
        let (w, h) = r.draw_size(&mut rng);
        assert!((3000..=5000).contains(&w));
        assert!((2000..=3500).contains(&h));
        widths.insert(w);
    }
    assert!(widths.len() > 100);
}

#[test]
fn drawn_limits_lie_in_their_ranges() {
    let mut rng = rand::thread_rng();
    let r = SamplingRanges::documented();
    let mut seen = std::collections::HashSet::new();
    for _ in 0..2000 {
        let (max_iterations, smoothness) = r.draw_limits(&mut rng);
        assert!((400..1200).contains(&max_iterations));
        assert!((1..20).contains(&smoothness));
        seen.insert(smoothness);
    }
    assert_eq!(seen.len(), 19);
}

#[test]
fn one_point_ranges_give_that_point() {
    let mut rng = rand::thread_rng();
    let r = SamplingRanges {
        width_min: 7,
        width_max: 7,
        height_min: 9,
        height_max: 9,
        iterations_min: 5,
        iterations_end: 6,
        smoothness_min: 0,
        smoothness_end: 1,
    };
    assert!(r.is_valid());
    assert_eq!(r.draw_size(&mut rng), (7, 9));
    assert_eq!(r.draw_limits(&mut rng), (5, 0));
}

#[test]
fn band_must_be_part_of_the_unit_interval() {
    assert_eq!(
        AcceptanceBand::new(3, 7, 10),
        Some(AcceptanceBand { lo: 3, hi: 7, scale: 10 })
    );
    assert_eq!(AcceptanceBand::new(7, 3, 10), None);
    assert_eq!(AcceptanceBand::new(3, 11, 10), None);
    assert_eq!(AcceptanceBand::new(0, 0, 0), None);
    assert_eq!(
        AcceptanceBand::new(0, 1, 1),
        Some(AcceptanceBand { lo: 0, hi: 1, scale: 1 })
    );
    assert_eq!(AcceptanceBand::wide(), AcceptanceBand { lo: 3, hi: 7, scale: 10 });
    assert_eq!(AcceptanceBand::narrow(), AcceptanceBand { lo: 4, hi: 6, scale: 10 });
}

#[test]
fn band_ends_are_included() {
    let wide = AcceptanceBand::wide();
    assert!(wide.accepts(30, 100));
    assert!(wide.accepts(70, 100));
    assert!(wide.accepts(50, 100));
    assert!(!wide.accepts(29, 100));
    assert!(!wide.accepts(71, 100));
    assert!(!wide.accepts(0, 100));
    assert!(!wide.accepts(100, 100));
    assert!(wide.accepts(3, 10));
    assert!(!wide.accepts(2_999_999, 10_000_000));
    assert!(wide.accepts(3_000_000, 10_000_000));
    let narrow = AcceptanceBand::narrow();
    assert!(!narrow.accepts(30, 100));
    assert!(narrow.accepts(40, 100));
    assert!(narrow.accepts(60, 100));
    assert!(!narrow.accepts(61, 100));
}

#[test]
fn band_agrees_with_the_floating_point_ratio() {
    let wide = AcceptanceBand::wide();
    for total in [1u64, 7, 10, 100, 999, 6_000_000, 17_500_000] {
        for k in 0..=20u64 {
            let black = total * k / 20;
            let ratio = black as f64 / total as f64;
            let by_float = !(ratio < 0.3 || ratio > 0.7);
            assert_eq!(wide.accepts(black, total), by_float, "{} / {}", black, total);
        }
    }
}

#[test]
fn band_handles_the_largest_counts() {
    let wide = AcceptanceBand::wide();
    assert!(wide.accepts(u64::MAX / 2, u64::MAX));
    assert!(!wide.accepts(u64::MAX, u64::MAX));
    let all = AcceptanceBand { lo: 0, hi: u32::MAX, scale: u32::MAX };
    assert!(all.accepts(u64::MAX, u64::MAX));
    assert!(all.accepts(0, u64::MAX));
}

#[test]
fn image_without_pixels_is_accepted() {
    assert!(AcceptanceBand::wide().accepts(0, 0));
}

#[test]
fn accepted_measurement_is_reported_with_the_rejections_before_it() {
    let mut sampler = Sampler::new(AcceptanceBand::wide(), None);
    assert_eq!(sampler.attempts, 0);
    assert_eq!(sampler.judge(10, 100), Verdict::Rejected);
    assert_eq!(sampler.judge(90, 100), Verdict::Rejected);
    assert_eq!(sampler.attempts, 2);
    assert_eq!(
        sampler.judge(45, 100),
        Verdict::Accepted(AcceptanceResult { black_pixels: 45, total_pixels: 100, attempts: 2 })
    );
    assert_eq!(sampler.attempts, 2);
}

#[test]
fn first_measurement_in_band_is_accepted_at_once() {
    let mut sampler = Sampler::new(AcceptanceBand::narrow(), Some(1));
    assert_eq!(
        sampler.judge(5, 10),
        Verdict::Accepted(AcceptanceResult { black_pixels: 5, total_pixels: 10, attempts: 0 })
    );
}

#[test]
fn ceiling_ends_the_retries() {
    let mut sampler = Sampler::new(AcceptanceBand::wide(), Some(3));
    assert_eq!(sampler.judge(0, 100), Verdict::Rejected);
    assert_eq!(sampler.judge(0, 100), Verdict::Rejected);
    assert_eq!(sampler.judge(0, 100), Verdict::Exhausted);
    assert_eq!(sampler.attempts, 3);
    let mut none = Sampler::new(AcceptanceBand::wide(), Some(0));
    assert_eq!(none.judge(0, 100), Verdict::Exhausted);
}

#[test]
fn without_ceiling_rejections_never_exhaust() {
    let mut sampler = Sampler::new(AcceptanceBand::wide(), None);
    for k in 0..10_000u32 {
        assert_eq!(sampler.attempts, k);
        assert_eq!(sampler.judge(1, 100), Verdict::Rejected);
    }
    sampler.attempts = u32::MAX;
    assert_eq!(sampler.judge(1, 100), Verdict::Rejected);
    assert_eq!(sampler.attempts, u32::MAX);
}

#[test]
fn known_view_is_accepted_by_the_wide_band() {
    let img = render(100, 100, -0.5, 0.0, 0.5, 50);
    let (black, total) = img.count_black();
    assert_eq!(total, 10_000);
    let mut sampler = Sampler::new(AcceptanceBand::wide(), None);
    match sampler.judge(black, total) {
        Verdict::Accepted(result) => {
            let ratio = result.black_pixels as f64 / result.total_pixels as f64;
            assert!((0.3..=0.7).contains(&ratio));
            assert_eq!(result.attempts, 0);
        }
        other => panic!("expected acceptance, got {:?} for {} of {}", other, black, total),
    }
}

#[test]
fn sampling_loop_ends_in_band_or_at_the_ceiling() {
    let mut rng = rand::thread_rng();
    let ranges = SamplingRanges {
        width_min: 30,
        width_max: 50,
        height_min: 20,
        height_max: 35,
        iterations_min: 40,
        iterations_end: 120,
        smoothness_min: 1,
        smoothness_end: 20,
    };
    let band = AcceptanceBand::wide();
    let mut sampler = Sampler::new(band, Some(500));
    let mut rounds = 0u32;
    loop {
        let (width, height) = ranges.draw_size(&mut rng);
        let x_pos: f64 = rand::Rng::gen_range(&mut rng, -0.5..0.5);
        let y_pos: f64 = rand::Rng::gen_range(&mut rng, 0.6..0.9);
        let radius: f64 = rand::Rng::gen_range(&mut rng, 0.01..0.2);
        let (max_iterations, _smoothness) = ranges.draw_limits(&mut rng);
        let img = render(width, height, x_pos, y_pos, radius, max_iterations);
        let (black, total) = img.count_black();
        assert_eq!(total, width as u64 * height as u64);
        rounds += 1;
        match sampler.judge(black, total) {
            Verdict::Accepted(result) => {
                assert!(band.accepts(result.black_pixels, result.total_pixels));
                let ratio = result.black_pixels as f64 / result.total_pixels as f64;
                assert!((0.3..=0.7).contains(&ratio));
                assert_eq!(result.attempts + 1, rounds);
                break;
            }
            Verdict::Rejected => {
                assert!(!band.accepts(black, total));
                assert!(rounds < 500);
            }
            Verdict::Exhausted => {
                assert!(!band.accepts(black, total));
                assert_eq!(rounds, 500);
                break;
            }
        }
    }
}

#[test]
fn accepted_attempt_reports_exactly_the_rejections_before_it() {
    for k in 1..=20u32 {
        let mut sampler = Sampler::new(AcceptanceBand::narrow(), Some(k));
        for i in 0..k - 1 {
            assert_eq!(sampler.judge(39, 100), Verdict::Rejected, "attempt {}", i);
        }
        assert_eq!(
            sampler.judge(40, 100),
            Verdict::Accepted(AcceptanceResult {
                black_pixels: 40,
                total_pixels: 100,
                attempts: k - 1
            })
        );
        assert_eq!(sampler.attempts, k - 1);
    }
}
