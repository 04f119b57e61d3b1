//! "N units ago" texts for the age of a comment or a check run.
use vstd::prelude::*;
use crate::clock::UtcTime;
use crate::text::{decimal, push_decimal};

verus! {

/// The second of the day (0 to 86399) of a count of seconds since the Unix epoch.
pub open spec fn second_of_day(secs: int) -> int {
    secs % 86400
}

/// The time from `then` to `now` in nanoseconds, as `chrono` counts it between two
/// `DateTime<Utc>` (`signed_duration_since`): the difference of the seconds and of the
/// nanoseconds, where a leap second (nanoseconds of 10^9 and more) of the instant whose
/// second of the day is the earlier one counts as a second of its own.
pub open spec fn elapsed_nanos(now: UtcTime, then: UtcTime) -> int {
    let day_now = second_of_day(now.0 as int);
    let day_then = second_of_day(then.0 as int);
    let leap: int = if day_now > day_then && then.1 >= 1_000_000_000 {
        1
    } else if day_now < day_then && now.1 >= 1_000_000_000 {
        -1
    } else {
        0
    };
    (now.0 - then.0 + leap) * 1_000_000_000 + (now.1 - then.1)
}

/// The whole seconds from `then` to `now`, the fraction dropped toward zero (as
/// `chrono::TimeDelta::num_seconds` does, which `num_minutes` and the larger units divide).
pub open spec fn elapsed_seconds(now: UtcTime, then: UtcTime) -> int {
    let d = elapsed_nanos(now, then);
    if d >= 0 {
        d / 1_000_000_000
    } else {
        -((-d) / 1_000_000_000)
    }
}

fn second_of_day_exec(secs: i64) -> (d: i128)
    ensures
        d == second_of_day(secs as int),
{
    let shifted: i128 = secs as i128 + 86400i128 * 140737488355328i128;
    proof {
        vstd::arithmetic::div_mod::lemma_mod_multiples_vanish(140737488355328, secs as int, 86400);
    }
    let r = (shifted as u128) % 86400;
    r as i128
}

/// The whole seconds from `then` to `now`, as `elapsed_seconds` counts them.
pub fn elapsed_seconds_exec(now: UtcTime, then: UtcTime) -> (secs: i128)
    ensures
        secs == elapsed_seconds(now, then),
        secs < 0x1_0000_0000_0000_0010,
{
    let day_now = second_of_day_exec(now.0);
    let day_then = second_of_day_exec(then.0);
    let leap: i128 = if day_now > day_then && then.1 >= 1_000_000_000 {
        1
    } else if day_now < day_then && now.1 >= 1_000_000_000 {
        -1
    } else {
        0
    };
    let d: i128 = (now.0 as i128 - then.0 as i128 + leap) * 1_000_000_000 + (now.1 as i128
        - then.1 as i128);
    if d >= 0 {
        ((d as u128) / 1_000_000_000) as i128
    } else {
        -((((-d) as u128) / 1_000_000_000) as i128)
    }
}

/// The plural ending for a count.
pub open spec fn plural(n: int) -> Seq<char> {
    if n == 1 {
        Seq::empty()
    } else {
        "s"@
    }
}

/// "`n` `unit`(s) ago".
pub open spec fn ago(n: int, unit: Seq<char>) -> Seq<char> {
    decimal(n as nat) + " "@ + unit + plural(n) + " ago"@
}

/// The age `secs` (seconds from the event to now) as the sidebars write it:
/// minutes under an hour, hours under a day, days under thirty days, then weeks;
/// with `years`, ages of 52 weeks and more are written in years of 52 weeks.
/// Ages under a minute, and events in the future, are "just now".
pub open spec fn age_text(secs: int, years: bool) -> Seq<char> {
    if secs < 60 {
        "just now"@
    } else if secs < 3600 {
        ago(secs / 60, "minute"@)
    } else if secs < 86400 {
        ago(secs / 3600, "hour"@)
    } else if secs < 2592000 {
        ago(secs / 86400, "day"@)
    } else if !years || secs < 31449600 {
        ago(secs / 604800, "week"@)
    } else {
        ago(secs / 604800 / 52, "year"@)
    }
}

fn push_ago(s: &mut String, n: u64, unit: &str)
    ensures
        final(s)@ == old(s)@ + ago(n as int, unit@),
{
    push_decimal(s, n);
    s.append(" ");
    s.append(unit);
    if n != 1 {
        s.append("s");
    }
    s.append(" ago");
    assert(final(s)@ =~= old(s)@ + ago(n as int, unit@));
}

/// The text for an event at `then`, seen at `now`.
pub fn age_text_at(now: UtcTime, then: UtcTime, years: bool) -> (s: String)
    ensures
        s@ == age_text(elapsed_seconds(now, then), years),
{
    let diff: i128 = elapsed_seconds_exec(now, then);
    let mut s = String::new();
    if diff < 60 {
        s.append("just now");
    } else {
        let d = diff as u128;
        if diff < 3600 {
            push_ago(&mut s, (d / 60) as u64, "minute");
        } else if diff < 86400 {
            push_ago(&mut s, (d / 3600) as u64, "hour");
        } else if diff < 2592000 {
            push_ago(&mut s, (d / 86400) as u64, "day");
        } else if !years || diff < 31449600 {
            push_ago(&mut s, (d / 604800) as u64, "week");
        } else {
            push_ago(&mut s, (d / 604800 / 52) as u64, "year");
        }
    }
    s
}

/// The text of a count of units: the count in decimal, the unit, an "s" unless the count
/// is one, and " ago".
pub open spec fn count_ago(n: int, unit: Seq<char>) -> Seq<char> {
    decimal(n as nat) + " "@ + unit + (if n == 1 {
        Seq::<char>::empty()
    } else {
        "s"@
    }) + " ago"@
}

/// The unit an age is written in, and how many of it: under a minute (and in the future)
/// it is "just now"; under an hour whole minutes; under a day whole hours; under thirty
/// days whole days; after that whole weeks, or with `years` from 52 weeks on whole years
/// of 52 weeks. The count written is the whole number of units in the age, so it is never
/// zero.
pub proof fn lemma_age_units(secs: int, years: bool)
    ensures
        secs < 60 ==> age_text(secs, years) == "just now"@,
        60 <= secs < 3600 ==> age_text(secs, years) == count_ago(secs / 60, "minute"@),
        3600 <= secs < 86400 ==> age_text(secs, years) == count_ago(secs / 3600, "hour"@),
        86400 <= secs < 2592000 ==> age_text(secs, years) == count_ago(secs / 86400, "day"@),
        2592000 <= secs && (!years || secs < 31449600) ==> age_text(secs, years) == count_ago(
            secs / 604800,
            "week"@,
        ),
        years && 31449600 <= secs ==> age_text(secs, years) == count_ago(
            secs / 31449600,
            "year"@,
        ),
        60 <= secs < 3600 ==> 1 <= secs / 60 < 60,
        3600 <= secs < 86400 ==> 1 <= secs / 3600 < 24,
        86400 <= secs < 2592000 ==> 1 <= secs / 86400 < 30,
        2592000 <= secs ==> secs / 604800 >= 4,
        years && 31449600 <= secs ==> secs / 31449600 >= 1,
{
    if secs >= 31449600 {
        assert(secs / 604800 / 52 == secs / 31449600) by {
            vstd::arithmetic::div_mod::lemma_div_denominator(secs, 604800, 52);
        }
    }
}

} // verus!
