use vstd::prelude::*;

use crate::color::Color;
use crate::position::Position;

verus! {

/// Length in seconds of a timer started without a duration.
pub const DEFAULT_TIMER_DURATION: u64 = 300;

/// Length in seconds of the longest timer: 99 hours, 59 minutes, 59 seconds.
pub const MAX_TIMER_DURATION: u64 = 359999;

/// The shortest refresh interval, in milliseconds, that the interval keys
/// step down to.
pub const MIN_STEP_INTERVAL: u64 = 100;

/// The longest refresh interval, in milliseconds, that the interval keys
/// step up to.
pub const MAX_STEP_INTERVAL: u64 = 9900;

/// How far one press of an interval key moves the interval, in milliseconds.
pub const INTERVAL_STEP: u64 = 100;

/// What a counter counts.
#[derive(Debug, PartialEq, Eq)]
pub enum CounterType {
    /// Counts up from zero.
    Stopwatch,
    /// Counts down from `duration_secs`; with `kill`, the program ends when
    /// the timer runs out.
    Timer { duration_secs: u64, kill: bool },
}

/// What the clock shows.
#[derive(Debug, PartialEq, Eq)]
pub enum ClockMode {
    /// The time of day, in UTC or local time, with a date below it.
    Time { utc: bool, date_format: String },
    /// A stopwatch or a timer.
    Counter(CounterType),
}

/// The settings of the clock that the keys and the configuration change.
#[derive(Debug, PartialEq, Eq)]
pub struct Clock {
    pub mode: ClockMode,
    pub color: Color,
    pub blink: bool,
    pub bold: bool,
    /// Refresh interval in milliseconds.
    pub interval_ms: u64,
    /// Whether the interval follows the blink setting rather than a number
    /// the user chose.
    pub interval_auto: bool,
    pub x_pos: Position,
    pub y_pos: Position,
    pub use_12h: bool,
    pub hide_seconds: bool,
}

/// The refresh interval chosen automatically: a blinking colon is redrawn
/// twice a second, a steady one once a second.
pub open spec fn spec_auto_interval(blink: bool) -> u64 {
    if blink {
        500
    } else {
        1000
    }
}

/// The interval after one press of the key that shortens it: one step
/// shorter, but not below the shortest step, and stopping at the automatic
/// interval when the step would pass it from above.
pub open spec fn spec_interval_down(ms: u64, auto: u64) -> u64 {
    let raw: u64 = if ms >= MIN_STEP_INTERVAL + INTERVAL_STEP {
        (ms - INTERVAL_STEP) as u64
    } else {
        MIN_STEP_INTERVAL
    };
    if ms > auto && raw < auto {
        auto
    } else {
        raw
    }
}

/// The interval after one press of the key that lengthens it: one step
/// longer, but not above the longest step, and stopping at the automatic
/// interval when the step would pass it from below.
pub open spec fn spec_interval_up(ms: u64, auto: u64) -> u64 {
    let raw: u64 = if ms + INTERVAL_STEP <= MAX_STEP_INTERVAL {
        (ms + INTERVAL_STEP) as u64
    } else {
        MAX_STEP_INTERVAL
    };
    if ms < auto && raw > auto {
        auto
    } else {
        raw
    }
}

/// The automatic refresh interval for the given blink setting.
pub fn auto_interval(blink: bool) -> (ms: u64)
    ensures
        ms == spec_auto_interval(blink),
{
    if blink {
        500
    } else {
        1000
    }
}

/// One step down from `ms`, as the shortening key takes it.
pub fn interval_down(ms: u64, auto: u64) -> (r: u64)
    ensures
        r == spec_interval_down(ms, auto),
{
    let sub = ms.saturating_sub(INTERVAL_STEP);
    let raw = if sub < MIN_STEP_INTERVAL {
        MIN_STEP_INTERVAL
    } else {
        sub
    };
    if ms > auto && raw < auto {
        auto
    } else {
        raw
    }
}

/// One step up from `ms`, as the lengthening key takes it.
pub fn interval_up(ms: u64, auto: u64) -> (r: u64)
    requires
        ms + INTERVAL_STEP <= u64::MAX,
    ensures
        r == spec_interval_up(ms, auto),
{
    let added = ms + INTERVAL_STEP;
    let raw = if added > MAX_STEP_INTERVAL {
        MAX_STEP_INTERVAL
    } else {
        added
    };
    if ms < auto && raw > auto {
        auto
    } else {
        raw
    }
}

/// A step never passes over the automatic interval: from above, the
/// shortening key stops at it; from below, the lengthening key stops at it.
/// Steps stay within the shortest and longest step as long as the automatic
/// interval does.
pub proof fn lemma_interval_steps_stop_at_auto(ms: u64, auto: u64)
    ensures
        ms > auto ==> spec_interval_down(ms, auto) >= auto,
        ms < auto ==> spec_interval_up(ms, auto) <= auto,
        MIN_STEP_INTERVAL <= auto ==> spec_interval_down(ms, auto) >= MIN_STEP_INTERVAL,
        auto <= MAX_STEP_INTERVAL ==> spec_interval_up(ms, auto) <= MAX_STEP_INTERVAL,
        spec_interval_down(ms, auto) <= ms || spec_interval_down(ms, auto) == MIN_STEP_INTERVAL,
{
}

/// From an interval that lies a whole number of steps from the automatic
/// one, and away from the ends of the range, lengthening then shortening
/// (or shortening then lengthening) comes back to the same interval.
pub proof fn lemma_interval_steps_undo(ms: u64, auto: u64)
    requires
        MIN_STEP_INTERVAL + INTERVAL_STEP <= ms,
        ms + INTERVAL_STEP <= MAX_STEP_INTERVAL,
        ms % INTERVAL_STEP == auto % INTERVAL_STEP,
    ensures
        spec_interval_down(spec_interval_up(ms, auto), auto) == ms,
        spec_interval_up(spec_interval_down(ms, auto), auto) == ms,
{
}

} // verus!
