//! Spans of time in whole milliseconds, and how long to wait for something.

use vstd::prelude::*;

verus! {

/// A span of time, to the millisecond.
#[derive(Clone, Copy, PartialEq, Eq, Debug, Default, Structural)]
pub struct Seconds {
    pub millis: i64,
}

impl Seconds {
    pub fn from_millis(millis: i64) -> (r: Self)
        ensures
            r.millis == millis,
    {
        Seconds { millis }
    }
}

/// How long a phase still lasts.
#[derive(Clone, Copy, PartialEq, Eq, Debug, Structural)]
pub enum TimeLeft {
    Infinite,
    Left(Seconds),
}

pub open spec fn smaller(a: int, b: int) -> int {
    if a <= b {
        a
    } else {
        b
    }
}

pub open spec fn larger(a: int, b: int) -> int {
    if a >= b {
        a
    } else {
        b
    }
}

/// A configured delay, cut so that the margin before the end of the phase is
/// kept, and never below zero.
pub open spec fn clamped(delay: Seconds, left: TimeLeft, margin: Seconds) -> int {
    match left {
        TimeLeft::Infinite => larger(delay.millis as int, 0),
        TimeLeft::Left(left) => larger(
            smaller(delay.millis as int, left.millis - margin.millis),
            0,
        ),
    }
}

/// Clamps a configured delay so that we always act before the phase timer
/// expires.
pub fn clamp_delay(delay_secs: Seconds, timer_left: TimeLeft, margin: Seconds) -> (r: Seconds)
    ensures
        r.millis == clamped(delay_secs, timer_left, margin),
{
    let wanted: i128 = delay_secs.millis as i128;
    let possible: i128 = match timer_left {
        TimeLeft::Infinite => wanted,
        TimeLeft::Left(left) => {
            let limit: i128 = left.millis as i128 - margin.millis as i128;
            if wanted <= limit {
                wanted
            } else {
                limit
            }
        },
    };
    Seconds {
        millis: if possible > 0 {
            possible as i64
        } else {
            0
        },
    }
}

/// We act before the margin begins whenever there is more time left than the
/// margin, never later than the user asked for, and at once where there is not.
pub proof fn law_a_delay_leaves_the_margin(delay: Seconds, left: Seconds, margin: Seconds)
    ensures
        0 <= clamped(delay, TimeLeft::Left(left), margin),
        clamped(delay, TimeLeft::Left(left), margin) <= larger(delay.millis as int, 0),
        left.millis >= margin.millis ==> clamped(delay, TimeLeft::Left(left), margin)
            + margin.millis <= left.millis,
        left.millis < margin.millis ==> clamped(delay, TimeLeft::Left(left), margin) == 0,
{
}

/// A span within these bounds.
pub open spec fn bounded(span: Seconds, low: int, high: int) -> int {
    larger(smaller(span.millis as int, high), low)
}

/// Cuts a span to between zero and `high_millis`.
pub fn bound(span: Seconds, high_millis: i64) -> (r: Seconds)
    requires
        high_millis >= 0,
    ensures
        r.millis == bounded(span, 0, high_millis as int),
{
    Seconds {
        millis: if span.millis < 0 {
            0
        } else if span.millis > high_millis {
            high_millis
        } else {
            span.millis
        },
    }
}

// ── Trying again ──

/// The wait before a failed download is first tried again, and the longest one,
/// in seconds.
pub const RETRY_MIN_SECS: u64 = 2;

pub const RETRY_MAX_SECS: u64 = 60;

/// The wait after this one: twice as long, up to a limit.
pub open spec fn doubled(secs: u64, max_secs: u64) -> u64 {
    if secs * 2 <= max_secs {
        (secs * 2) as u64
    } else {
        max_secs
    }
}

/// The wait after this one: twice as long, up to a limit.
pub fn next_wait(secs: u64, max_secs: u64) -> (r: u64)
    ensures
        r == doubled(secs, max_secs),
{
    if secs <= max_secs / 2 {
        secs * 2
    } else {
        max_secs
    }
}

/// The wait after some more failures.
pub open spec fn wait_after(secs: u64, max_secs: u64, failures: nat) -> u64
    decreases failures,
{
    if failures == 0 {
        secs
    } else {
        doubled(wait_after(secs, max_secs, (failures - 1) as nat), max_secs)
    }
}

/// However often it fails, a wait never shrinks and never outgrows its limit.
pub proof fn law_waits_grow_up_to_the_limit(secs: u64, max_secs: u64, failures: nat)
    requires
        secs <= max_secs,
    ensures
        wait_after(secs, max_secs, failures) <= max_secs,
        wait_after(secs, max_secs, failures) <= wait_after(secs, max_secs, failures + 1),
    decreases failures,
{
    if failures > 0 {
        law_waits_grow_up_to_the_limit(secs, max_secs, (failures - 1) as nat);
    }
}

/// A delay that fits is kept to the millisecond; one that does not ends exactly
/// where the margin begins; a negative one is no delay. Without a timer there is
/// nothing to cut it by.
pub proof fn law_a_delay_is_kept_where_it_fits(delay: Seconds, left: Seconds, margin: Seconds)
    ensures
        0 <= delay.millis && delay.millis + margin.millis <= left.millis ==> clamped(
            delay,
            TimeLeft::Left(left),
            margin,
        ) == delay.millis,
        margin.millis <= left.millis < delay.millis + margin.millis ==> clamped(
            delay,
            TimeLeft::Left(left),
            margin,
        ) == left.millis - margin.millis,
        delay.millis < 0 ==> clamped(delay, TimeLeft::Left(left), margin) == 0,
        delay.millis >= 0 ==> clamped(delay, TimeLeft::Infinite, margin) == delay.millis,
        delay.millis < 0 ==> clamped(delay, TimeLeft::Infinite, margin) == 0,
{
}

/// A span within the bounds is kept; one outside ends at the bound it passed.
pub proof fn law_a_span_is_cut_to_its_bounds(span: Seconds, low: int, high: int)
    requires
        low <= high,
    ensures
        low <= span.millis <= high ==> bounded(span, low, high) == span.millis,
        span.millis < low ==> bounded(span, low, high) == low,
        span.millis > high ==> bounded(span, low, high) == high,
{
}

/// Each wait is twice the one before it, until the limit cuts it.
pub proof fn law_each_wait_doubles(secs: u64, max_secs: u64)
    ensures
        secs + secs <= max_secs ==> doubled(secs, max_secs) == secs + secs,
        secs + secs > max_secs ==> doubled(secs, max_secs) == max_secs,
{
}

} // verus!
