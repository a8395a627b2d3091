use rand::rngs::StdRng;
use rand::SeedableRng;
use trident_bot::thunder::{
    get_first_thunder, get_thunder_successes, MAX_THUNDER_CYCLE_DURATION, MIN_TIME_BETWEEN_CYCLES,
    ONE_MINUTE_IN_TICKS,
};

#[test]
fn sampler_returns_positive_duration() {
    let mut rng = StdRng::seed_from_u64(42);
    for _ in 0..200 {
        let (start, duration) = get_first_thunder(&mut rng);
        assert!(duration > 0);
        assert!(duration < MAX_THUNDER_CYCLE_DURATION);
        assert!(start > MIN_TIME_BETWEEN_CYCLES);
    }
}

#[test]
fn sampler_depends_on_generator_state() {
    // Successive samples from one generator are not all identical, so the
    // drawn values really feed the simulation.
    let mut rng = StdRng::seed_from_u64(7);
    let first = get_first_thunder(&mut rng);
    let mut saw_other = false;
    for _ in 0..50 {
        if get_first_thunder(&mut rng) != first {
            saw_other = true;
        }
    }
    assert!(saw_other);
}

#[test]
fn estimator_boundary_zero_threshold() {
    // No overlap can begin before tick 0, so the estimate is exactly 0.
    let mut rng = StdRng::seed_from_u64(1);
    let successes = get_thunder_successes(0, 1_000, &mut rng);
    assert_eq!(successes, 0);
    assert_eq!(successes as f64 / 1_000f64, 0.0);
}

#[test]
fn estimator_zero_below_first_possible_start() {
    // The earliest any cycle can start is tick MIN_TIME_BETWEEN_CYCLES + 1.
    let mut rng = StdRng::seed_from_u64(2);
    assert_eq!(
        get_thunder_successes(MIN_TIME_BETWEEN_CYCLES + 1, 1_000, &mut rng),
        0
    );
}

#[test]
fn estimator_counts_at_most_trials() {
    let mut rng = StdRng::seed_from_u64(3);
    let trials = 2_000;
    let successes = get_thunder_successes(u64::MAX, trials, &mut rng);
    assert!(successes <= trials);
    let odds = successes as f64 / trials as f64;
    assert!((0.0..=1.0).contains(&odds));
}

#[test]
fn estimator_monotone_in_threshold() {
    // Statistical check: a larger threshold can only admit more overlaps, so
    // the estimate grows with it, up to Monte Carlo noise.
    let trials = 30_000;
    let t_small = 20 * ONE_MINUTE_IN_TICKS;
    let t_large = 100 * ONE_MINUTE_IN_TICKS;
    let mut rng_a = StdRng::seed_from_u64(11);
    let mut rng_b = StdRng::seed_from_u64(12);
    let s_small = get_thunder_successes(t_small, trials, &mut rng_a);
    let s_large = get_thunder_successes(t_large, trials, &mut rng_b);
    let tolerance = trials / 100;
    assert!(s_small <= s_large + tolerance);
    // With these thresholds the gap is far wider than the noise band.
    assert!(s_small < s_large);
}
