//! Thunder-cycle overlap engine.
//!
//! A rain stream and a thunder stream each consist of cycles: half-open tick
//! intervals `[start, start + duration)`. Thunder is audible exactly while a
//! rain cycle and a thunder cycle overlap; this module computes that overlap.

use vstd::prelude::*;

verus! {

pub const ONE_MINUTE_IN_TICKS: u64 = 1200;

pub const MIN_TIME_BETWEEN_CYCLES: u64 = ONE_MINUTE_IN_TICKS * 10;
pub const MAX_TIME_BETWEEN_CYCLES: u64 = ONE_MINUTE_IN_TICKS * 150;

pub const MIN_RAIN_CYCLE_DURATION: u64 = ONE_MINUTE_IN_TICKS * 10;
pub const MAX_RAIN_CYCLE_DURATION: u64 = ONE_MINUTE_IN_TICKS * 20;
pub const MIN_THUNDER_CYCLE_DURATION: u64 = ONE_MINUTE_IN_TICKS * 3;
pub const MAX_THUNDER_CYCLE_DURATION: u64 = ONE_MINUTE_IN_TICKS * 13;

/// Length of the intersection of `[a_start, a_start + a_duration)` and
/// `[b_start, b_start + b_duration)`: `max(0, min(ends) - max(starts))`.
pub open spec fn overlap_duration_of(a_start: int, a_duration: int, b_start: int, b_duration: int) -> int {
    let first_end = if a_start + a_duration < b_start + b_duration {
        a_start + a_duration
    } else {
        b_start + b_duration
    };
    let last_start = if a_start > b_start {
        a_start
    } else {
        b_start
    };
    if first_end > last_start {
        first_end - last_start
    } else {
        0
    }
}

/// Start of the intersection: the later of the two interval starts.
pub open spec fn overlap_start_of(a_start: int, b_start: int) -> int {
    if a_start > b_start {
        a_start
    } else {
        b_start
    }
}

/// How long a rain cycle and a thunder cycle overlap; 0 when they are disjoint.
pub fn get_thunder_duration(
    rain_cycle_start: u64,
    rain_cycle_duration: u64,
    thunder_cycle_start: u64,
    thunder_cycle_duration: u64,
) -> (duration: u64)
    ensures
        duration == overlap_duration_of(
            rain_cycle_start as int,
            rain_cycle_duration as int,
            thunder_cycle_start as int,
            thunder_cycle_duration as int,
        ),
{
    let rain_cycle_end: u128 = rain_cycle_start as u128 + rain_cycle_duration as u128;
    let thunder_cycle_end: u128 = thunder_cycle_start as u128 + thunder_cycle_duration as u128;

    let first_end: u128 = if rain_cycle_end < thunder_cycle_end {
        rain_cycle_end
    } else {
        thunder_cycle_end
    };
    let last_start: u128 = if rain_cycle_start > thunder_cycle_start {
        rain_cycle_start as u128
    } else {
        thunder_cycle_start as u128
    };

    if first_end > last_start {
        let duration: u128 = first_end - last_start;
        assert(duration <= rain_cycle_duration);
        duration as u64
    } else {
        0
    }
}

/// Tick at which an overlap of the two cycles would begin: the later start.
pub fn get_thunder_start_time(rain_cycle_start: u64, thunder_cycle_start: u64) -> (start: u64)
    ensures
        start == overlap_start_of(rain_cycle_start as int, thunder_cycle_start as int),
{
    if rain_cycle_start > thunder_cycle_start {
        rain_cycle_start
    } else {
        thunder_cycle_start
    }
}

/// Start ticks the generator can produce: the first cycle of a stream starts
/// after the minimum gap, and every later cycle starts at least a full gap
/// after the end of its predecessor.
pub open spec fn valid_cycle_start(start: u64) -> bool {
    start > MIN_TIME_BETWEEN_CYCLES
}

/// Rain cycle lengths the generator draws from.
pub open spec fn valid_rain_duration(duration: u64) -> bool {
    MIN_RAIN_CYCLE_DURATION <= duration < MAX_RAIN_CYCLE_DURATION
}

/// Thunder cycle lengths the generator draws from.
pub open spec fn valid_thunder_duration(duration: u64) -> bool {
    MIN_THUNDER_CYCLE_DURATION <= duration < MAX_THUNDER_CYCLE_DURATION
}

/// A cycle pair state of one simulation: the current rain cycle's start and
/// duration, then the current thunder cycle's start and duration.
///
/// A pair is fresh when both cycles look as initially drawn: each start one
/// full gap into the world, each duration from its stream's range.
pub open spec fn fresh_cycle_pair(s: (u64, u64, u64, u64)) -> bool {
    MIN_TIME_BETWEEN_CYCLES < s.0 < MAX_TIME_BETWEEN_CYCLES && valid_rain_duration(s.1)
        && MIN_TIME_BETWEEN_CYCLES < s.2 < MAX_TIME_BETWEEN_CYCLES && valid_thunder_duration(s.3)
}

/// Gaps the generator may leave between the end of one cycle and the start
/// of the next one in the same stream.
pub open spec fn valid_cycle_gap(gap: u64) -> bool {
    MIN_TIME_BETWEEN_CYCLES <= gap < MAX_TIME_BETWEEN_CYCLES - 1
}

/// Pair `s` is pair `p` with its rain stream moved on: the next rain cycle
/// starts `gap` ticks after the end of the old one (saturating at
/// `u64::MAX`) and lasts `duration`; the thunder cycle stays.
pub open spec fn rain_stream_advanced(
    p: (u64, u64, u64, u64),
    s: (u64, u64, u64, u64),
    gap: u64,
    duration: u64,
) -> bool {
    valid_cycle_gap(gap) && valid_rain_duration(duration) && s == (
        p.0.saturating_add(p.1).saturating_add(gap),
        duration,
        p.2,
        p.3,
    )
}

/// Pair `s` is pair `p` with its thunder stream moved on, as in
/// [`rain_stream_advanced`].
pub open spec fn thunder_stream_advanced(
    p: (u64, u64, u64, u64),
    s: (u64, u64, u64, u64),
    gap: u64,
    duration: u64,
) -> bool {
    valid_cycle_gap(gap) && valid_thunder_duration(duration) && s == (
        p.0,
        p.1,
        p.2.saturating_add(p.3).saturating_add(gap),
        duration,
    )
}

/// The advancement rule, as one step from pair `p` to pair `s`: the cycles of
/// `p` are disjoint, and the stream whose cycle starts earlier (rain on a
/// tie) moves on by some admissible gap and duration, while the other stream
/// keeps its cycle.
pub open spec fn advanced_cycle_pair(p: (u64, u64, u64, u64), s: (u64, u64, u64, u64)) -> bool {
    overlap_duration_of(p.0 as int, p.1 as int, p.2 as int, p.3 as int) == 0 && if p.0 <= p.2 {
        exists|gap: u64, duration: u64| #[trigger] rain_stream_advanced(p, s, gap, duration)
    } else {
        exists|gap: u64, duration: u64| #[trigger] thunder_stream_advanced(p, s, gap, duration)
    }
}

/// Pair `s` after exactly `n` advancement steps from some fresh pair.
pub open spec fn cycle_pair_reachable_in(s: (u64, u64, u64, u64), n: nat) -> bool
    decreases n,
{
    if n == 0 {
        fresh_cycle_pair(s)
    } else {
        exists|p: (u64, u64, u64, u64)|
            #![auto]
            cycle_pair_reachable_in(p, (n - 1) as nat) && advanced_cycle_pair(p, s)
    }
}

/// Pair `s` can arise by starting from a fresh pair and applying the
/// advancement rule some number of times.
pub open spec fn cycle_pair_reachable(s: (u64, u64, u64, u64)) -> bool {
    exists|n: nat| cycle_pair_reachable_in(s, n)
}

proof fn lemma_reachable_in_valid(s: (u64, u64, u64, u64), n: nat)
    requires
        cycle_pair_reachable_in(s, n),
    ensures
        valid_cycle_start(s.0),
        valid_rain_duration(s.1),
        valid_cycle_start(s.2),
        valid_thunder_duration(s.3),
    decreases n,
{
    if n > 0 {
        let p = choose|p: (u64, u64, u64, u64)|
            #![auto]
            cycle_pair_reachable_in(p, (n - 1) as nat) && advanced_cycle_pair(p, s);
        lemma_reachable_in_valid(p, (n - 1) as nat);
        if p.0 <= p.2 {
            let (gap, duration) = choose|gap: u64, duration: u64|
                #[trigger] rain_stream_advanced(p, s, gap, duration);
        } else {
            let (gap, duration) = choose|gap: u64, duration: u64|
                #[trigger] thunder_stream_advanced(p, s, gap, duration);
        }
    }
}

/// Invariant of the simulation: every cycle pair reachable by the
/// advancement rule starts each cycle after the minimum gap and draws each
/// duration from its stream's range.
pub proof fn lemma_reachable_pair_valid(s: (u64, u64, u64, u64))
    requires
        cycle_pair_reachable(s),
    ensures
        valid_cycle_start(s.0),
        valid_rain_duration(s.1),
        valid_cycle_start(s.2),
        valid_thunder_duration(s.3),
{
    let n = choose|n: nat| cycle_pair_reachable_in(s, n);
    lemma_reachable_in_valid(s, n);
}

/// Simulates one realization of the two cycle streams and returns the first
/// overlap as `(start, duration)`.
///
/// Whenever the current pair of cycles is disjoint, the stream whose cycle
/// started earlier is advanced: its next cycle starts a freshly drawn gap
/// after the end of the old one, with a freshly drawn duration. The returned
/// overlap is always non-empty and belongs to a cycle pair reachable by the
/// advancement rule. Cycle starts saturate at `u64::MAX`, which also bounds
/// the number of advances, so the search provably terminates.
pub fn get_first_thunder(rng: &mut rand::rngs::StdRng) -> (r: (u64, u64))
    ensures
        r.1 > 0,
        r.1 < MAX_THUNDER_CYCLE_DURATION,
        r.0 > MIN_TIME_BETWEEN_CYCLES,
        exists|s: (u64, u64, u64, u64)|
            #![auto]
            cycle_pair_reachable(s) && r.0 == overlap_start_of(s.0 as int, s.2 as int) && r.1
                == overlap_duration_of(s.0 as int, s.1 as int, s.2 as int, s.3 as int),
{
    let mut rain_cycle_start: u64 =
        crate::rng::draw_in_range(rng, MIN_TIME_BETWEEN_CYCLES + 1, MAX_TIME_BETWEEN_CYCLES);
    let mut rain_cycle_duration: u64 =
        crate::rng::draw_in_range(rng, MIN_RAIN_CYCLE_DURATION, MAX_RAIN_CYCLE_DURATION);
    let mut thunder_cycle_start: u64 =
        crate::rng::draw_in_range(rng, MIN_TIME_BETWEEN_CYCLES + 1, MAX_TIME_BETWEEN_CYCLES);
    let mut thunder_cycle_duration: u64 =
        crate::rng::draw_in_range(rng, MIN_THUNDER_CYCLE_DURATION, MAX_THUNDER_CYCLE_DURATION);

    let mut duration: u64 = get_thunder_duration(
        rain_cycle_start,
        rain_cycle_duration,
        thunder_cycle_start,
        thunder_cycle_duration,
    );
    let ghost mut steps: nat = 0;

    while duration == 0
        invariant
            valid_cycle_start(rain_cycle_start),
            valid_rain_duration(rain_cycle_duration),
            valid_cycle_start(thunder_cycle_start),
            valid_thunder_duration(thunder_cycle_duration),
            duration == overlap_duration_of(
                rain_cycle_start as int,
                rain_cycle_duration as int,
                thunder_cycle_start as int,
                thunder_cycle_duration as int,
            ),
            cycle_pair_reachable_in(
                (rain_cycle_start, rain_cycle_duration, thunder_cycle_start, thunder_cycle_duration),
                steps,
            ),
        decreases (u64::MAX - rain_cycle_start) + (u64::MAX - thunder_cycle_start),
    {
        let ghost prev: (u64, u64, u64, u64) = (
            rain_cycle_start,
            rain_cycle_duration,
            thunder_cycle_start,
            thunder_cycle_duration,
        );
        proof {
            // The loop runs only on disjoint cycles, so the starts differ:
            // equal starts would overlap for the shorter of the durations.
            assert(rain_cycle_start != thunder_cycle_start);
        }
        if rain_cycle_start <= thunder_cycle_start {
            let rain_cycle_end: u64 = rain_cycle_start.saturating_add(rain_cycle_duration);
            let gap: u64 = crate::rng::draw_in_range(
                rng,
                MIN_TIME_BETWEEN_CYCLES,
                MAX_TIME_BETWEEN_CYCLES - 1,
            );
            rain_cycle_start = rain_cycle_end.saturating_add(gap);
            rain_cycle_duration =
                crate::rng::draw_in_range(rng, MIN_RAIN_CYCLE_DURATION, MAX_RAIN_CYCLE_DURATION);
            proof {
                assert(rain_stream_advanced(
                    prev,
                    (rain_cycle_start, rain_cycle_duration, thunder_cycle_start, thunder_cycle_duration),
                    gap,
                    rain_cycle_duration,
                ));
            }
        } else {
            let thunder_cycle_end: u64 = thunder_cycle_start.saturating_add(thunder_cycle_duration);
            let gap: u64 = crate::rng::draw_in_range(
                rng,
                MIN_TIME_BETWEEN_CYCLES,
                MAX_TIME_BETWEEN_CYCLES - 1,
            );
            thunder_cycle_start = thunder_cycle_end.saturating_add(gap);
            thunder_cycle_duration = crate::rng::draw_in_range(
                rng,
                MIN_THUNDER_CYCLE_DURATION,
                MAX_THUNDER_CYCLE_DURATION,
            );
            proof {
                assert(thunder_stream_advanced(
                    prev,
                    (rain_cycle_start, rain_cycle_duration, thunder_cycle_start, thunder_cycle_duration),
                    gap,
                    thunder_cycle_duration,
                ));
            }
        }
        proof {
            assert(advanced_cycle_pair(
                prev,
                (rain_cycle_start, rain_cycle_duration, thunder_cycle_start, thunder_cycle_duration),
            ));
            steps = steps + 1;
            assert(cycle_pair_reachable_in(
                (rain_cycle_start, rain_cycle_duration, thunder_cycle_start, thunder_cycle_duration),
                steps,
            ));
        }
        duration = get_thunder_duration(
            rain_cycle_start,
            rain_cycle_duration,
            thunder_cycle_start,
            thunder_cycle_duration,
        );
    }

    let start_time: u64 = get_thunder_start_time(rain_cycle_start, thunder_cycle_start);
    proof {
        lemma_overlap_bounds(
            rain_cycle_start as int,
            rain_cycle_duration as int,
            thunder_cycle_start as int,
            thunder_cycle_duration as int,
        );
        assert(cycle_pair_reachable(
            (rain_cycle_start, rain_cycle_duration, thunder_cycle_start, thunder_cycle_duration),
        ));
    }
    (start_time, duration)
}

/// Runs one trial of the interleaved cycle process: advances the
/// earlier-starting stream until either a non-empty overlap begins before
/// `time` (a hit), or both a hit has not happened and one of the current
/// cycles already starts at or past `time`, so no overlap can begin before
/// `time` any more (give up).
fn run_trial(time: u64, rng: &mut rand::rngs::StdRng) -> (hit: bool)
    ensures
        hit ==> time > MIN_TIME_BETWEEN_CYCLES + 1,
        hit ==> exists|rs: u64, rd: u64, ts: u64, td: u64|
            #![auto]
            valid_cycle_start(rs) && valid_rain_duration(rd) && valid_cycle_start(ts)
                && valid_thunder_duration(td)
                && overlap_duration_of(rs as int, rd as int, ts as int, td as int) > 0
                && overlap_start_of(rs as int, ts as int) < time,
{
    let mut rain_cycle_start: u64 =
        crate::rng::draw_in_range(rng, MIN_TIME_BETWEEN_CYCLES + 1, MAX_TIME_BETWEEN_CYCLES);
    let mut rain_cycle_duration: u64 =
        crate::rng::draw_in_range(rng, MIN_RAIN_CYCLE_DURATION, MAX_RAIN_CYCLE_DURATION);
    let mut thunder_cycle_start: u64 =
        crate::rng::draw_in_range(rng, MIN_TIME_BETWEEN_CYCLES + 1, MAX_TIME_BETWEEN_CYCLES);
    let mut thunder_cycle_duration: u64 =
        crate::rng::draw_in_range(rng, MIN_THUNDER_CYCLE_DURATION, MAX_THUNDER_CYCLE_DURATION);
    let mut hit: bool = false;

    loop
        invariant_except_break
            !hit,
        invariant
            valid_cycle_start(rain_cycle_start),
            valid_rain_duration(rain_cycle_duration),
            valid_cycle_start(thunder_cycle_start),
            valid_thunder_duration(thunder_cycle_duration),
        ensures
            hit ==> time > MIN_TIME_BETWEEN_CYCLES + 1,
            hit ==> exists|rs: u64, rd: u64, ts: u64, td: u64|
                #![auto]
                valid_cycle_start(rs) && valid_rain_duration(rd) && valid_cycle_start(ts)
                    && valid_thunder_duration(td)
                    && overlap_duration_of(rs as int, rd as int, ts as int, td as int) > 0
                    && overlap_start_of(rs as int, ts as int) < time,
        decreases (if rain_cycle_start < time {
            time - rain_cycle_start
        } else {
            0
        }) + (if thunder_cycle_start < time {
            time - thunder_cycle_start
        } else {
            0
        }),
    {
        let duration: u64 = get_thunder_duration(
            rain_cycle_start,
            rain_cycle_duration,
            thunder_cycle_start,
            thunder_cycle_duration,
        );
        let start_time: u64 = get_thunder_start_time(rain_cycle_start, thunder_cycle_start);

        if duration > 0 && start_time < time {
            hit = true;
            break;
        } else if thunder_cycle_start >= time || rain_cycle_start >= time {
            break;
        }

        if rain_cycle_start <= thunder_cycle_start {
            let rain_cycle_end: u64 = rain_cycle_start.saturating_add(rain_cycle_duration);
            let gap: u64 = crate::rng::draw_in_range(
                rng,
                MIN_TIME_BETWEEN_CYCLES + 1,
                MAX_TIME_BETWEEN_CYCLES,
            );
            rain_cycle_start = rain_cycle_end.saturating_add(gap);
            rain_cycle_duration =
                crate::rng::draw_in_range(rng, MIN_RAIN_CYCLE_DURATION, MAX_RAIN_CYCLE_DURATION);
        } else {
            let thunder_cycle_end: u64 = thunder_cycle_start.saturating_add(thunder_cycle_duration);
            let gap: u64 = crate::rng::draw_in_range(
                rng,
                MIN_TIME_BETWEEN_CYCLES + 1,
                MAX_TIME_BETWEEN_CYCLES,
            );
            thunder_cycle_start = thunder_cycle_end.saturating_add(gap);
            thunder_cycle_duration = crate::rng::draw_in_range(
                rng,
                MIN_THUNDER_CYCLE_DURATION,
                MAX_THUNDER_CYCLE_DURATION,
            );
        }
    }

    hit
}

/// Counts over `trials` independent trials how often a thundering period
/// begins strictly before tick `time`. The Monte Carlo probability estimate
/// is `successes / trials`; the count is returned so that the caller owns
/// the floating-point division.
///
/// A trial can succeed only if `time` leaves room for any overlap at all:
/// the earliest possible cycle start is tick `MIN_TIME_BETWEEN_CYCLES + 1`,
/// so for any `time` at or below that the count is exactly zero.
pub fn get_thunder_successes(time: u64, trials: u64, rng: &mut rand::rngs::StdRng) -> (successes: u64)
    ensures
        successes <= trials,
        time <= MIN_TIME_BETWEEN_CYCLES + 1 ==> successes == 0,
{
    let mut successes: u64 = 0;

    for t in 0..trials
        invariant
            successes <= t,
            time <= MIN_TIME_BETWEEN_CYCLES + 1 ==> successes == 0,
    {
        let hit: bool = run_trial(time, rng);
        if hit {
            successes = successes + 1;
        }
    }

    successes
}

/// The overlap of two intervals does not depend on which one is called rain
/// and which thunder.
pub proof fn lemma_overlap_symmetric(a_start: int, a_duration: int, b_start: int, b_duration: int)
    ensures
        overlap_duration_of(a_start, a_duration, b_start, b_duration)
            == overlap_duration_of(b_start, b_duration, a_start, a_duration),
{
}

/// An overlap is never negative and never longer than either interval.
pub proof fn lemma_overlap_bounds(a_start: int, a_duration: int, b_start: int, b_duration: int)
    requires
        a_duration >= 0,
        b_duration >= 0,
    ensures
        0 <= overlap_duration_of(a_start, a_duration, b_start, b_duration),
        overlap_duration_of(a_start, a_duration, b_start, b_duration) <= a_duration,
        overlap_duration_of(a_start, a_duration, b_start, b_duration) <= b_duration,
{
}

} // verus!
