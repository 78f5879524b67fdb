use artgen::canvas::Canvas;
use artgen::engine::{Generator, ProcessConfig};
use artgen::error::ProcessError;
use artgen::painter::circle::CirclePainter;
use artgen::painter::rect::RectPainter;
use artgen::painter::stroke::StrokePainter;
use artgen::painter::Painter;
use artgen::units::{SizeUnit, UnitMargins};

fn clone_canvas(c: &Canvas) -> Canvas {
    let (w, h) = c.dimensions();
    Canvas::from_raw(w, h, c.as_raw().clone()).unwrap()
}

#[test]
fn test_determinism_scenario() {
    // 8x8 all-black target, seed 1234, rectangle variant, alpha fixed to
    // one, one candidate per try, fifty tries: two runs must agree
    // bit-for-bit on the trajectory and the final canvas.
    let run = || {
        let target = Canvas::from_pixel(8, 8, [0, 0, 0]);
        let mut generator = Generator::from(target);
        generator.prepopulate_with_color(255, 255, 255);
        let mut painter = RectPainter::new();
        painter.options.rng_seed = 1234;
        let config = ProcessConfig {
            target_tries: 50,
            target_generations: 0,
            target_diff: 0,
            num_candidates: 1,
        };
        let result = generator.process(&config, &painter).unwrap();
        (result, generator.finalize())
    };
    let (res1, cur1) = run();
    let (res2, cur2) = run();
    assert_eq!(res1.num_tries, res2.num_tries);
    assert_eq!(res1.num_generations, res2.num_generations);
    assert_eq!(res1.final_diff, res2.final_diff);
    assert_eq!(res1.events, res2.events);
    assert_eq!(cur1.as_raw(), cur2.as_raw());
    assert_eq!(res1.num_tries, 50);
}

#[test]
fn test_determinism_across_candidate_counts() {
    // With identical inputs, each candidate count gives one reproducible
    // trajectory of its own.
    for k in [1u32, 4, 16] {
        let run = |k: u32| {
            let target = Canvas::from_pixel(6, 6, [200, 40, 90]);
            let mut generator = Generator::from(target);
            let mut painter = RectPainter::new();
            painter.options.rng_seed = 77;
            let config = ProcessConfig {
                target_tries: 12,
                target_generations: 0,
                target_diff: 0,
                num_candidates: k,
            };
            let result = generator.process(&config, &painter).unwrap();
            (result, generator.finalize())
        };
        let (res1, cur1) = run(k);
        let (res2, cur2) = run(k);
        assert_eq!(res1.events, res2.events);
        assert_eq!(cur1.as_raw(), cur2.as_raw());
    }
}

#[test]
fn test_monotonic_diff_trajectory() {
    let target = Canvas::from_pixel(8, 8, [255, 255, 255]);
    let mut generator = Generator::from(target);
    let mut painter = RectPainter::new();
    painter.options.rng_seed = 4321;
    let config = ProcessConfig {
        target_tries: 40,
        target_generations: 0,
        target_diff: 0,
        num_candidates: 2,
    };
    let initial = Generator::diff(generator.get_current(), &Canvas::from_pixel(8, 8, [255, 255, 255]));
    let result = generator.process(&config, &painter).unwrap();
    let mut last = initial.num;
    for event in &result.events {
        assert!(event.diff.num <= last);
        last = event.diff.num;
    }
    assert!(result.final_diff.num <= initial.num);
    assert!(result.num_generations <= result.num_tries);
    // Painting white rectangles over a black start towards a white target
    // must improve at least once.
    assert!(result.num_generations > 0);
}

#[test]
fn test_termination_by_tries() {
    // With maxTries set to fifty and no other bound, the engine halts in
    // at most fifty tries.
    let target = Canvas::from_pixel(4, 4, [9, 9, 9]);
    let mut generator = Generator::from(target);
    let mut painter = RectPainter::new();
    painter.options.rng_seed = 5;
    let config = ProcessConfig {
        target_tries: 50,
        target_generations: 0,
        target_diff: 0,
        num_candidates: 1,
    };
    let result = generator.process(&config, &painter).unwrap();
    assert!(result.num_tries <= 50);
    assert!(result.events.last().unwrap().is_final);
}

#[test]
fn test_termination_by_generations() {
    let target = Canvas::from_pixel(8, 8, [255, 255, 255]);
    let mut generator = Generator::from(target);
    let mut painter = RectPainter::new();
    painter.options.rng_seed = 4321;
    let config = ProcessConfig {
        target_tries: 0,
        target_generations: 2,
        target_diff: 0,
        num_candidates: 2,
    };
    let result = generator.process(&config, &painter).unwrap();
    assert_eq!(result.num_generations, 2);
}

#[test]
fn test_termination_by_target_diff() {
    // A target difference of one whole unit is met by any canvas, so the
    // run stops after its first try.
    let target = Canvas::from_pixel(4, 4, [50, 60, 70]);
    let mut generator = Generator::from(target);
    let mut painter = RectPainter::new();
    painter.options.rng_seed = 11;
    let config = ProcessConfig {
        target_tries: 50,
        target_generations: 0,
        target_diff: 1_000_000,
        num_candidates: 1,
    };
    let result = generator.process(&config, &painter).unwrap();
    assert_eq!(result.num_tries, 1);
}

#[test]
fn test_final_diff_matches_final_canvas() {
    let make_target = || Canvas::from_pixel(8, 8, [220, 10, 10]);
    let mut generator = Generator::from(make_target());
    let mut painter = RectPainter::new();
    painter.options.rng_seed = 321;
    let config = ProcessConfig {
        target_tries: 25,
        target_generations: 0,
        target_diff: 0,
        num_candidates: 2,
    };
    let result = generator.process(&config, &painter).unwrap();
    let recomputed = Generator::diff(generator.get_current(), &make_target());
    assert_eq!(recomputed.num, result.final_diff.num);
    assert_eq!(recomputed.den, result.final_diff.den);
}

#[test]
fn test_no_termination_bound_is_rejected() {
    let target = Canvas::from_pixel(4, 4, [0, 0, 0]);
    let mut generator = Generator::from(target);
    let painter = RectPainter::new();
    let config = ProcessConfig {
        target_tries: 0,
        target_generations: 0,
        target_diff: 500_000,
        num_candidates: 1,
    };
    assert_eq!(generator.process(&config, &painter), Err(ProcessError::NoTerminationBound));
}

#[test]
fn test_invalid_painter_options_are_rejected() {
    let target = Canvas::from_pixel(4, 4, [0, 0, 0]);
    let mut generator = Generator::from(target);
    let mut painter = RectPainter::new();
    painter.options.alpha = Vec::new();
    let config = ProcessConfig {
        target_tries: 10,
        target_generations: 0,
        target_diff: 0,
        num_candidates: 1,
    };
    assert_eq!(generator.process(&config, &painter), Err(ProcessError::InvalidPainterOptions));
}

#[test]
fn test_degenerate_margins_fail_fast() {
    // Margins of 200% on every side leave no drawable area: every
    // candidate of the first try fails, which is fatal.
    let target = Canvas::from_pixel(8, 8, [0, 0, 0]);
    let mut generator = Generator::from(target);
    let mut painter = RectPainter::new();
    painter.options.rng_seed = 1;
    painter.options.margins = UnitMargins {
        top: SizeUnit::Fraction(2_000_000),
        right: SizeUnit::Fraction(2_000_000),
        bottom: SizeUnit::Fraction(2_000_000),
        left: SizeUnit::Fraction(2_000_000),
    };
    let config = ProcessConfig {
        target_tries: 10,
        target_generations: 0,
        target_diff: 0,
        num_candidates: 1,
    };
    let result = generator.process(&config, &painter);
    assert_eq!(result, Err(ProcessError::AllCandidatesFailed(0)));
}

#[test]
fn test_color_seed_copies_target_color() {
    // With the color seed at one, a candidate's color is exactly the
    // target's color at the candidate's center, never a random one.
    let target_color = [10u8, 200u8, 30u8];
    let background = [255u8, 255u8, 255u8];
    let target = Canvas::from_pixel(16, 16, target_color);
    let canvas = Canvas::from_pixel(16, 16, background);
    let mut painter = RectPainter::new();
    painter.options.rng_seed = 97;
    painter.options.color_seed = 1_000_000;
    let mut painted_any = false;
    for iteration in 0..8 {
        let painted = painter.paint(&canvas, iteration, &target).unwrap();
        for x in 0..16 {
            for y in 0..16 {
                let px = painted.get_pixel(x, y);
                assert!(px == background || px == target_color, "unexpected color {:?}", px);
                if px == target_color {
                    painted_any = true;
                }
            }
        }
    }
    assert!(painted_any);
}

#[test]
fn test_circle_painter_stays_within_canvas() {
    let target = Canvas::from_pixel(12, 12, [0, 0, 0]);
    let canvas = Canvas::from_pixel(12, 12, [255, 255, 255]);
    let mut painter = CirclePainter::new();
    painter.options.rng_seed = 31;
    for iteration in 0..4 {
        let painted = painter.paint(&canvas, iteration, &target).unwrap();
        assert_eq!(painted.dimensions(), (12, 12));
    }
}

#[test]
fn test_stroke_painter_produces_candidates() {
    let target = Canvas::from_pixel(12, 12, [0, 0, 0]);
    let canvas = Canvas::from_pixel(12, 12, [255, 255, 255]);
    let mut painter = StrokePainter::new();
    painter.options.rng_seed = 67;
    let mut changed_any = false;
    for iteration in 0..6 {
        let painted = painter.paint(&canvas, iteration, &target).unwrap();
        assert_eq!(painted.dimensions(), (12, 12));
        if painted.as_raw() != canvas.as_raw() {
            changed_any = true;
        }
    }
    assert!(changed_any);
}

#[test]
fn test_stroke_painter_wavy_edges() {
    // A wave height of 20% of the canvas forces the wavy slow path, which
    // samples the noise table for the edge coverage.
    let target = Canvas::from_pixel(20, 20, [0, 0, 0]);
    let canvas = Canvas::from_pixel(20, 20, [255, 255, 255]);
    let mut painter = StrokePainter::new();
    painter.options.rng_seed = 12;
    painter.options.wave_height = vec![artgen::units::WeightedValue {
        value: (SizeUnit::Fraction(200_000), SizeUnit::Fraction(200_000)),
        weight: 1_000_000,
    }];
    painter.options.wave_length = vec![artgen::units::WeightedValue {
        value: (SizeUnit::Fraction(500_000), SizeUnit::Fraction(500_000)),
        weight: 1_000_000,
    }];
    let mut changed_any = false;
    for iteration in 0..6 {
        let painted = painter.paint(&canvas, iteration, &target).unwrap();
        let again = painter.paint(&canvas, iteration, &target).unwrap();
        // The painter is a pure function of its inputs.
        assert_eq!(painted.as_raw(), again.as_raw());
        if painted.as_raw() != canvas.as_raw() {
            changed_any = true;
        }
    }
    assert!(changed_any);
}

#[test]
fn test_noise_sequence_and_sampling() {
    let mut rng = artgen::rng::Rng::from_seed(2718);
    let noise = artgen::random::get_random_noise_sequence(&mut rng, -5_000_000, 5_000_000);
    assert_eq!(noise.len(), 256);
    assert!(noise.iter().all(|&v| -5_000_000 <= v && v <= 5_000_000));
    // Sampling at a whole table position returns that entry.
    // Sampling between positions stays between neighboring entries.
    for i in 0..64u32 {
        let pos = (i as i64) * 1_000_000 / 256 + 1_700;
        let v = artgen::random::get_noise_value(&noise, pos);
        assert!(-5_000_000 <= v && v <= 5_000_000);
    }
    let mut rng2 = artgen::rng::Rng::from_seed(2718);
    let noise2 = artgen::random::get_random_noise_sequence(&mut rng2, -5_000_000, 5_000_000);
    assert_eq!(noise, noise2);
}

#[test]
fn test_engine_with_circle_painter_is_deterministic() {
    let run = || {
        let target = Canvas::from_pixel(10, 10, [128, 60, 210]);
        let mut generator = Generator::from(target);
        let mut painter = CirclePainter::new();
        painter.options.rng_seed = 2024;
        let config = ProcessConfig {
            target_tries: 20,
            target_generations: 0,
            target_diff: 0,
            num_candidates: 3,
        };
        let result = generator.process(&config, &painter).unwrap();
        (result, generator.finalize())
    };
    let (res1, cur1) = run();
    let (res2, cur2) = run();
    assert_eq!(res1.events, res2.events);
    assert_eq!(cur1.as_raw(), cur2.as_raw());
}

#[test]
fn test_prepopulate_and_finalize() {
    let target = Canvas::from_pixel(5, 5, [0, 0, 0]);
    let mut generator = Generator::from(target);
    // A fresh generator starts from a black canvas.
    assert!(generator.get_current().as_raw().iter().all(|&b| b == 0));

    generator.prepopulate_with_color(7, 8, 9);
    assert_eq!(generator.get_current().get_pixel(2, 2), [7, 8, 9]);

    let replacement = Canvas::from_pixel(5, 5, [1, 1, 1]);
    generator.prepopulate(clone_canvas(&replacement));
    assert_eq!(generator.get_current().as_raw(), replacement.as_raw());

    let mut generator2 = Generator::from(Canvas::from_pixel(5, 5, [0, 0, 0]));
    generator2.prepopulate_with_image(clone_canvas(&replacement));
    let fin = generator2.finalize();
    assert_eq!(fin.as_raw(), replacement.as_raw());
}

#[test]
fn test_benchmark_bookkeeping() {
    let mut bench = artgen::benchmark::TimerBenchmark::new();
    assert_eq!(bench.len(), 0);
    assert!(!bench.is_started());
    bench.mock_insert(2_120_000);
    bench.mock_insert(100_000);
    bench.mock_insert(3_912_332);
    assert_eq!(bench.len(), 3);
    assert_eq!(bench.min_ns(), 100_000);
    assert_eq!(bench.max_ns(), 3_912_332);
    assert_eq!(bench.last_ns(), 3_912_332);
    bench.start();
    assert!(bench.is_started());
    bench.stop();
    assert_eq!(bench.len(), 4);
    bench.clear();
    assert_eq!(bench.len(), 0);
}
