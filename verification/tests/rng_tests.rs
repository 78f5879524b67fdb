use artgen::random::{get_random_entry_weighted, get_random_range, get_random_range_bias, get_rng};
use artgen::rng::Rng;
use artgen::units::{WeightedValue, UNIT};

#[test]
fn test_basic_and_reset() {
    let mut rng = Rng::new();
    let num1 = rng.next();
    let num2 = rng.next();

    assert_ne!(num1, num2);

    rng.reset();
    assert_eq!(rng.next(), num1);
    assert_eq!(rng.next(), num2);
}

#[test]
fn test_seed() {
    let mut rng = Rng::from_seed(12345678);
    let num1 = rng.next();
    let num2 = rng.next();

    assert_ne!(num1, num2);

    // Pre-generated values
    assert_eq!(num1, 506005380);
    assert_eq!(num2, 3857352168);

    rng.reset();
    assert_eq!(rng.next(), num1);
    assert_eq!(rng.next(), num2);

    let mut rng2 = Rng::from_seed(97342);
    assert_ne!(rng2.next(), num1);
    assert_ne!(rng2.next(), num2);
}

#[test]
fn test_skip() {
    let seed = 1234337;

    let mut rng = Rng::from_seed(seed);
    let num1 = rng.next();
    for _ in 0..10 {
        rng.next();
    }
    let num2 = rng.next();

    let mut rng2 = Rng::from_seed(seed);
    assert_eq!(rng2.next(), num1);
    rng2.skip(10);
    assert_eq!(rng2.next(), num2);
    rng2.reset();
    rng2.skip(11);
    assert_eq!(rng2.next(), num2);
}

#[test]
fn test_generate_integers() {
    let mut rng = Rng::from_seed(1337);

    let num1 = rng.next_u32_range(5, 15);
    let num2 = rng.next_u32_range(5, 15);

    assert_ne!(num2, num1);

    // Pre-generated values
    assert_eq!(num1, 5);
    assert_eq!(num2, 13);

    rng.reset();
    assert_eq!(rng.next_u32_range(5, 15), num1);
    assert_eq!(rng.next_u32_range(5, 15), num2);

    // Within range
    let mut any_lower = false;
    let mut any_higher = false;

    for _ in 0..100 {
        let f = rng.next_u32_range(2, 42);
        if f < 2 {
            any_lower = true;
        }
        if f >= 42 {
            any_higher = true;
        }
    }

    assert_eq!(any_lower, false);
    assert_eq!(any_higher, false);
}

#[test]
fn test_generate_bools() {
    let mut rng = Rng::from_seed(31339);

    // Pre-generated values
    assert_eq!(rng.next_bool(), true);
    assert_eq!(rng.next_bool(), false);
    assert_eq!(rng.next_bool(), false);

    rng.reset();
    assert_eq!(rng.next_bool(), true);
    assert_eq!(rng.next_bool(), false);
    assert_eq!(rng.next_bool(), false);
}

#[test]
fn test_randomize_evenly() {
    let mut totals = Vec::<u32>::new();
    let numbers_created: u32 = 60000;
    let slots: u32 = 10;
    let mut rng = Rng::from_seed(924576);

    while totals.len() < slots as usize {
        totals.push(0);
    }

    for _ in 0..numbers_created {
        let pos: usize = rng.next_u32_range(0, slots) as usize;
        totals[pos] = totals[pos] + 1;
    }

    let expected_total_per_range = numbers_created as f64 / slots as f64;
    for i in 0..totals.len() {
        // Percentage off the expected amount
        let delta = (totals[i] as f64 - expected_total_per_range) / expected_total_per_range as f64;
        // Max 2% deviation from expected
        assert!(delta < 0.02);
        assert!(delta > -0.02);
    }
}

#[test]
fn test_full_sequence() {
    // Should allow a minimum 2^32-2 sequence
    let mut rng = Rng::from_seed(237622);
    let num = rng.next();

    // Create a sequence
    let mut repeat_pos: u64 = 0;
    let l = 2u64.pow(32);
    for i in 0..l {
        if rng.next() == num {
            repeat_pos = i;
            break;
        }
    }

    assert!(repeat_pos > 2u64.pow(32) - 3);
}

#[test]
fn test_uniform_range_collapses_to_min() {
    let mut rng = Rng::from_seed(555);
    let before = rng.next();
    let mut rng2 = Rng::from_seed(555);
    rng2.next();
    // An empty range returns its bound without consuming a draw.
    assert_eq!(get_random_range(&mut rng2, 42, 42), 42);
    let mut rng3 = Rng::from_seed(555);
    rng3.next();
    assert_eq!(rng2.next(), rng3.next());
    let _ = before;
}

#[test]
fn test_derived_streams_differ() {
    let mut a = get_rng(1234, 0);
    let mut b = get_rng(1234, 1);
    assert_ne!(a.next(), b.next());
    let mut a2 = get_rng(1234, 0);
    a2.next();
    a2.reset();
    let mut a3 = get_rng(1234, 0);
    assert_eq!(a2.next(), a3.next());
}

#[test]
fn test_weighted_choice_even_split() {
    // 100,000 draws from a 2-entry 50/50 weighted list land within 2% of
    // 50% each.
    let entries = vec![
        WeightedValue { value: 0u32, weight: 500_000u64 },
        WeightedValue { value: 1u32, weight: 500_000u64 },
    ];
    let mut rng = Rng::from_seed(424242);
    let mut counts = [0u64, 0u64];
    for _ in 0..100_000 {
        let v = *get_random_entry_weighted(&mut rng, &entries);
        counts[v as usize] += 1;
    }
    let half = 50_000f64;
    for count in counts {
        let delta = (count as f64 - half) / half;
        assert!(delta.abs() < 0.02, "delta was {}", delta);
    }
}

#[test]
fn test_weighted_choice_prefers_heavy_entry() {
    let entries = vec![
        WeightedValue { value: 7u32, weight: 1_000_000u64 },
        WeightedValue { value: 9u32, weight: 0u64 },
    ];
    let mut rng = Rng::from_seed(99);
    for _ in 0..100 {
        assert_eq!(*get_random_entry_weighted(&mut rng, &entries), 7);
    }
}

#[test]
fn test_bias_skew() {
    // biased(0, 1, -1) mean over 10,000 samples < 0.4; biased(0, 1, 1)
    // mean > 0.6.
    let mut rng = Rng::from_seed(808080);
    let mut sum_low: i128 = 0;
    for _ in 0..10_000 {
        sum_low += get_random_range_bias(&mut rng, 0, UNIT, -1) as i128;
    }
    let mean_low = sum_low as f64 / 10_000f64 / UNIT as f64;
    assert!(mean_low < 0.4, "mean was {}", mean_low);

    let mut sum_high: i128 = 0;
    for _ in 0..10_000 {
        sum_high += get_random_range_bias(&mut rng, 0, UNIT, 1) as i128;
    }
    let mean_high = sum_high as f64 / 10_000f64 / UNIT as f64;
    assert!(mean_high > 0.6, "mean was {}", mean_high);

    let mut sum_flat: i128 = 0;
    for _ in 0..10_000 {
        sum_flat += get_random_range_bias(&mut rng, 0, UNIT, 0) as i128;
    }
    let mean_flat = sum_flat as f64 / 10_000f64 / UNIT as f64;
    assert!(mean_flat > 0.45 && mean_flat < 0.55, "mean was {}", mean_flat);
}
