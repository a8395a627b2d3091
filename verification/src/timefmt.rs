//! Rendering of tick counts as clock strings and duration phrases.
//!
//! A tick is 1/20 second, so 20 ticks make a second, 1200 a minute and one
//! tick lasts 50 milliseconds.

use vstd::prelude::*;
use vstd::string::StringExecFns;

use crate::thunder::ONE_MINUTE_IN_TICKS;

verus! {

/// The decimal digit character for `d`.
pub open spec fn digit_str(d: int) -> Seq<char>
    recommends
        0 <= d < 10,
{
    if d == 0 {
        "0"@
    } else if d == 1 {
        "1"@
    } else if d == 2 {
        "2"@
    } else if d == 3 {
        "3"@
    } else if d == 4 {
        "4"@
    } else if d == 5 {
        "5"@
    } else if d == 6 {
        "6"@
    } else if d == 7 {
        "7"@
    } else if d == 8 {
        "8"@
    } else {
        "9"@
    }
}

/// The usual decimal rendering of `n`, without leading zeros (except for 0
/// itself).
pub open spec fn dec_str(n: int) -> Seq<char>
    recommends
        n >= 0,
    decreases n,
{
    if n < 10 {
        digit_str(n)
    } else {
        dec_str(n / 10) + digit_str(n % 10)
    }
}

/// Decimal rendering of `n`, zero-padded to at least two digits.
pub open spec fn padded2_str(n: int) -> Seq<char>
    recommends
        n >= 0,
{
    if n < 10 {
        "0"@ + dec_str(n)
    } else {
        dec_str(n)
    }
}

/// Decimal rendering of `n`, zero-padded to at least three digits.
pub open spec fn padded3_str(n: int) -> Seq<char>
    recommends
        n >= 0,
{
    if n < 10 {
        "00"@ + dec_str(n)
    } else if n < 100 {
        "0"@ + dec_str(n)
    } else {
        dec_str(n)
    }
}

/// `time` ticks rendered as `HH:MM:SS.mmm`: hours, minutes and seconds on a
/// 20-ticks-per-second clock, each zero-padded to two digits, and the
/// sub-second remainder as milliseconds (50 per tick) padded to three.
pub open spec fn clock_str(time: int) -> Seq<char>
    recommends
        time >= 0,
{
    let hours = time / (ONE_MINUTE_IN_TICKS * 60) as int;
    let minutes = (time % (ONE_MINUTE_IN_TICKS * 60) as int) / ONE_MINUTE_IN_TICKS as int;
    let seconds = (time % ONE_MINUTE_IN_TICKS as int) / 20;
    let milliseconds = (time % 20) * 50;
    padded2_str(hours) + ":"@ + padded2_str(minutes) + ":"@ + padded2_str(seconds) + "."@
        + padded3_str(milliseconds)
}

/// `time` ticks rendered as an English phrase of minutes, seconds and ticks,
/// each omitted when zero, singular when exactly one, and separated by
/// single spaces.
pub open spec fn duration_str(time: int) -> Seq<char>
    recommends
        time >= 0,
{
    let minutes = time / ONE_MINUTE_IN_TICKS as int;
    let seconds = (time % ONE_MINUTE_IN_TICKS as int) / 20;
    let ticks = time % 20;
    let minutes_part = if minutes == 0 {
        Seq::<char>::empty()
    } else {
        dec_str(minutes) + (if minutes == 1 {
            " minute"@
        } else {
            " minutes"@
        })
    };
    let seconds_part = if seconds == 0 {
        Seq::<char>::empty()
    } else {
        dec_str(seconds) + (if seconds == 1 {
            " second"@
        } else {
            " seconds"@
        })
    };
    let ticks_part = if ticks == 0 {
        Seq::<char>::empty()
    } else {
        dec_str(ticks) + (if ticks == 1 {
            " tick"@
        } else {
            " ticks"@
        })
    };
    minutes_part + (if minutes != 0 && seconds != 0 {
        " "@
    } else {
        Seq::<char>::empty()
    }) + seconds_part + (if (minutes != 0 || seconds != 0) && ticks != 0 {
        " "@
    } else {
        Seq::<char>::empty()
    }) + ticks_part
}

/// Appends the single digit `d` to `s`.
fn push_digit(s: &mut String, d: u64)
    requires
        d < 10,
    ensures
        final(s)@ == old(s)@ + digit_str(d as int),
{
    if d == 0 {
        s.append("0");
    } else if d == 1 {
        s.append("1");
    } else if d == 2 {
        s.append("2");
    } else if d == 3 {
        s.append("3");
    } else if d == 4 {
        s.append("4");
    } else if d == 5 {
        s.append("5");
    } else if d == 6 {
        s.append("6");
    } else if d == 7 {
        s.append("7");
    } else if d == 8 {
        s.append("8");
    } else {
        s.append("9");
    }
}

/// Appends the decimal rendering of `n` to `s`.
fn push_decimal(s: &mut String, n: u64)
    ensures
        final(s)@ == old(s)@ + dec_str(n as int),
    decreases n,
{
    if n < 10 {
        push_digit(s, n);
    } else {
        push_decimal(s, n / 10);
        push_digit(s, n % 10);
        assert(s@ =~= old(s)@ + dec_str(n as int));
    }
}

/// Appends the decimal rendering of `n`, zero-padded to two digits.
fn push_padded2(s: &mut String, n: u64)
    ensures
        final(s)@ == old(s)@ + padded2_str(n as int),
{
    if n < 10 {
        s.append("0");
        push_digit(s, n);
        assert(s@ =~= old(s)@ + padded2_str(n as int));
    } else {
        push_decimal(s, n);
    }
}

/// Appends the decimal rendering of `n`, zero-padded to three digits.
fn push_padded3(s: &mut String, n: u64)
    ensures
        final(s)@ == old(s)@ + padded3_str(n as int),
{
    if n < 10 {
        s.append("00");
        push_digit(s, n);
        assert(s@ =~= old(s)@ + padded3_str(n as int));
    } else if n < 100 {
        s.append("0");
        push_decimal(s, n);
        assert(s@ =~= old(s)@ + padded3_str(n as int));
    } else {
        push_decimal(s, n);
    }
}

/// Renders a tick count as a zero-padded `HH:MM:SS.mmm` clock string.
pub fn format_start_time(time: u64) -> (r: String)
    ensures
        r@ == clock_str(time as int),
{
    let hours: u64 = time / (ONE_MINUTE_IN_TICKS * 60);
    let minutes: u64 = (time % (ONE_MINUTE_IN_TICKS * 60)) / ONE_MINUTE_IN_TICKS;
    let seconds: u64 = (time % ONE_MINUTE_IN_TICKS) / 20;
    let milliseconds: u64 = (time % 20) * 50;

    let mut s: String = String::new();
    push_padded2(&mut s, hours);
    s.append(":");
    push_padded2(&mut s, minutes);
    s.append(":");
    push_padded2(&mut s, seconds);
    s.append(".");
    push_padded3(&mut s, milliseconds);
    assert(s@ =~= clock_str(time as int));
    s
}

/// Renders a tick count as a phrase such as `2 minutes 30 seconds 1 tick`,
/// omitting zero components and using singular words for a count of one.
pub fn format_duration(time: u64) -> (r: String)
    ensures
        r@ == duration_str(time as int),
{
    let minutes: u64 = time / ONE_MINUTE_IN_TICKS;
    let seconds: u64 = (time % ONE_MINUTE_IN_TICKS) / 20;
    let ticks: u64 = time % 20;

    let mut s: String = String::new();
    if minutes > 0 {
        push_decimal(&mut s, minutes);
        if minutes == 1 {
            s.append(" minute");
        } else {
            s.append(" minutes");
        }
    }
    if minutes > 0 && seconds > 0 {
        s.append(" ");
    }
    if seconds > 0 {
        push_decimal(&mut s, seconds);
        if seconds == 1 {
            s.append(" second");
        } else {
            s.append(" seconds");
        }
    }
    if (minutes > 0 || seconds > 0) && ticks > 0 {
        s.append(" ");
    }
    if ticks > 0 {
        push_decimal(&mut s, ticks);
        if ticks == 1 {
            s.append(" tick");
        } else {
            s.append(" ticks");
        }
    }
    assert(s@ =~= duration_str(time as int));
    s
}

} // verus!
