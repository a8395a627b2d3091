use trident_bot::thunder::{get_thunder_duration, get_thunder_start_time};

#[test]
fn containment_case() {
    // Thunder cycle fully inside the rain cycle: the whole thunder duration.
    assert_eq!(get_thunder_duration(0, 100, 10, 20), 20);
}

#[test]
fn rain_contained_case() {
    // Rain cycle fully inside the thunder cycle: the whole rain duration.
    assert_eq!(get_thunder_duration(50, 10, 0, 100), 10);
}

#[test]
fn disjoint_case() {
    assert_eq!(get_thunder_duration(0, 10, 100, 10), 0);
}

#[test]
fn touching_intervals_do_not_overlap() {
    // Half-open intervals: [0, 10) and [10, 20) share no tick.
    assert_eq!(get_thunder_duration(0, 10, 10, 10), 0);
}

#[test]
fn partial_overlap_case() {
    // Thunder starts mid-rain and ends after it.
    assert_eq!(get_thunder_duration(0, 10, 5, 10), 5);
}

#[test]
fn partial_overlap_other_side() {
    // Rain starts mid-thunder and ends after it.
    assert_eq!(get_thunder_duration(5, 10, 0, 10), 5);
}

#[test]
fn identical_intervals() {
    assert_eq!(get_thunder_duration(7, 42, 7, 42), 42);
}

#[test]
fn overlap_symmetry_on_samples() {
    let cases: Vec<(u64, u64, u64, u64)> = vec![
        (0, 100, 10, 20),
        (0, 10, 100, 10),
        (0, 10, 5, 10),
        (3, 1, 3, 1),
        (0, 1, 1, 1),
        (1_000_000, 500, 999_900, 400),
    ];
    for &(a, ad, b, bd) in &cases {
        assert_eq!(
            get_thunder_duration(a, ad, b, bd),
            get_thunder_duration(b, bd, a, ad)
        );
    }
}

#[test]
fn overlap_bounds_on_samples() {
    let cases: Vec<(u64, u64, u64, u64)> = vec![
        (0, 100, 10, 20),
        (0, 10, 100, 10),
        (0, 10, 5, 10),
        (12_001, 24_000, 30_000, 15_599),
        (5, 10, 5, 3),
    ];
    for &(a, ad, b, bd) in &cases {
        let d = get_thunder_duration(a, ad, b, bd);
        assert!(d <= ad.min(bd));
    }
}

#[test]
fn no_overflow_near_u64_max() {
    // Ends past u64::MAX are handled without panicking.
    let d = get_thunder_duration(u64::MAX - 5, 10, u64::MAX - 3, 10);
    assert_eq!(d, 8);
    assert_eq!(get_thunder_duration(u64::MAX, u64::MAX, u64::MAX, u64::MAX), u64::MAX);
}

#[test]
fn overlap_start_correctness() {
    assert_eq!(get_thunder_start_time(5, 10), 10);
    assert_eq!(get_thunder_start_time(10, 5), 10);
    assert_eq!(get_thunder_start_time(10, 10), 10);
}
