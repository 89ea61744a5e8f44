//! Points in time, and the corrected time that an estimate gives.

use vstd::prelude::*;
use crate::world_time::WorldTimer;

verus! {

/// Nanoseconds in one second.
pub const NANOS_PER_SECOND: u32 = 1_000_000_000;

/// The first second that a calendar date stands for: the start of the year
/// -262143.
pub const MIN_SECONDS: i64 = -8_334_601_228_800;

/// The last second that a calendar date stands for: the end of the year
/// 262142.
pub const MAX_SECONDS: i64 = 8_210_266_876_799;

/// A point in time in UTC: whole seconds since 1970-01-01 00:00:00, which
/// may be negative, and the nanoseconds into that second.
#[derive(Debug, Clone, Copy, PartialEq, Eq, Structural)]
pub struct UtcInstant {
    pub seconds: i64,
    pub nanoseconds: u32,
}

impl UtcInstant {
    /// The nanoseconds stay below one second.
    pub open spec fn well_formed(&self) -> bool {
        self.nanoseconds < NANOS_PER_SECOND
    }

    /// The instant is well-formed and falls on a calendar date.
    pub open spec fn representable(&self) -> bool {
        self.well_formed() && MIN_SECONDS <= self.seconds <= MAX_SECONDS
    }

    /// Nanoseconds since 1970-01-01 00:00:00 UTC.
    pub open spec fn total_nanoseconds(&self) -> int {
        self.seconds * NANOS_PER_SECOND + self.nanoseconds
    }

    /// Whether the nanoseconds stay below one second.
    pub fn is_well_formed(&self) -> (ok: bool)
        ensures
            ok == self.well_formed(),
    {
        self.nanoseconds < NANOS_PER_SECOND
    }
}

/// A date and a time of day as a calendar shows them.
#[derive(Debug, Clone, Copy, PartialEq, Eq, Structural)]
pub struct CivilTime {
    pub year: i32,
    pub month: u32,
    pub day: u32,
    pub hour: u32,
    pub minute: u32,
    pub second: u32,
    pub nanosecond: u32,
}

impl CivilTime {
    /// Month, day and time of day lie in the ranges of a calendar and a
    /// clock: months 1 to 12, days 1 to 31, hours below 24, minutes and
    /// seconds below 60, nanoseconds below one second.
    pub open spec fn well_formed(&self) -> bool {
        &&& 1 <= self.month <= 12
        &&& 1 <= self.day <= 31
        &&& self.hour < 24
        &&& self.minute < 60
        &&& self.second < 60
        &&& self.nanosecond < NANOS_PER_SECOND
    }
}

/// The instant that lies `microseconds` after `start`, or before it where
/// they are negative; `None` where `start` or that instant falls on no
/// calendar date.
pub open spec fn shifted(start: UtcInstant, microseconds: i64) -> Option<UtcInstant> {
    let total = start.total_nanoseconds() + microseconds * 1000;
    let seconds = total / NANOS_PER_SECOND as int;
    let nanoseconds = total % NANOS_PER_SECOND as int;
    if start.representable() && MIN_SECONDS <= seconds <= MAX_SECONDS {
        Some(UtcInstant { seconds: seconds as i64, nanoseconds: nanoseconds as u32 })
    } else {
        None
    }
}

/// Adds a number of microseconds to a point in time with
/// `chrono::DateTime::checked_add_signed`, the duration made by
/// `chrono::TimeDelta::microseconds`. The instant goes in through
/// `chrono::DateTime::from_timestamp` and comes out through
/// `chrono::DateTime::timestamp` and `timestamp_subsec_nanos`.
///
/// Not proved: that the sum is exact to the nanosecond, and that the result
/// is `None` exactly where the start or the sum lies outside the years
/// -262143 to 262142, the range of `chrono`'s dates.
#[verifier::external_body]
fn add_microseconds(start: UtcInstant, microseconds: i64) -> (sum: Option<UtcInstant>)
    requires
        start.well_formed(),
    ensures
        sum == shifted(start, microseconds),
{
    let from = chrono::DateTime::from_timestamp(start.seconds, start.nanoseconds)?;
    let to = from.checked_add_signed(chrono::TimeDelta::microseconds(microseconds))?;
    Some(UtcInstant { seconds: to.timestamp(), nanoseconds: to.timestamp_subsec_nanos() })
}

/// The date and the time of day in UTC of the instant `nanoseconds` into the
/// second `seconds` since 1970-01-01 00:00:00, in the proleptic Gregorian
/// calendar, as `chrono` computes them.
pub uninterp spec fn civil_time_of(seconds: i64, nanoseconds: u32) -> CivilTime;

/// Reads the calendar fields of a point in time from a `chrono::DateTime`
/// made by `chrono::DateTime::from_timestamp`: `year`, `month` and `day` of
/// `chrono::Datelike`, and `hour`, `minute`, `second` and `nanosecond` of
/// `chrono::Timelike`.
///
/// Not proved: that there are fields exactly for the instants of the years
/// -262143 to 262142, that the fields depend on the instant alone, that
/// the nanoseconds are those of the instant, and that month, day, hour,
/// minute and second lie in the ranges that `chrono` documents for them.
#[verifier::external_body]
fn calendar_fields(instant: UtcInstant) -> (fields: Option<CivilTime>)
    requires
        instant.well_formed(),
    ensures
        fields is Some <==> instant.representable(),
        fields matches Some(time) ==> time == civil_time_of(instant.seconds, instant.nanoseconds),
        fields matches Some(time) ==> time.well_formed() && time.nanosecond
            == instant.nanoseconds,
{
    let at = chrono::DateTime::from_timestamp(instant.seconds, instant.nanoseconds)?;
    Some(
        CivilTime {
            year: chrono::Datelike::year(&at),
            month: chrono::Datelike::month(&at),
            day: chrono::Datelike::day(&at),
            hour: chrono::Timelike::hour(&at),
            minute: chrono::Timelike::minute(&at),
            second: chrono::Timelike::second(&at),
            nanosecond: chrono::Timelike::nanosecond(&at),
        },
    )
}

/// What [`shifted`] gives is well-formed, and lies from its start exactly as
/// far as asked.
pub proof fn lemma_shifted_is_exact(start: UtcInstant, microseconds: i64)
    requires
        start.well_formed(),
    ensures
        shifted(start, microseconds) matches Some(end) ==> end.representable()
            && end.total_nanoseconds() == start.total_nanoseconds() + microseconds * 1000,
        shifted(start, 0) == if start.representable() {
            Some(start)
        } else {
            None
        },
{
    let d = NANOS_PER_SECOND as int;
    let total = start.total_nanoseconds() + microseconds * 1000;
    assert(total == (total / d) * d + total % d && 0 <= total % d < d) by (nonlinear_arith)
        requires
            d > 0,
    ;
    let base = start.total_nanoseconds();
    assert(base / d == start.seconds && base % d == start.nanoseconds) by (nonlinear_arith)
        requires
            base == start.seconds * d + start.nanoseconds,
            0 <= start.nanoseconds < d,
    ;
}

impl WorldTimer {
    /// The time in UTC that the estimate gives for the local reading `now`:
    /// `now` moved by the offset. `None` where `now` is not well-formed, or
    /// it or the corrected time falls on no calendar date.
    pub fn utc_time(&self, now: UtcInstant) -> (corrected: Option<UtcInstant>)
        ensures
            corrected == shifted(now, self.offset),
    {
        if now.is_well_formed() {
            add_microseconds(now, self.offset)
        } else {
            None
        }
    }
}

/// The time to set the system clock to after `timer` was committed, read at
/// the local time `now`. An estimate without precision rests on no
/// measurement and never sets the clock.
pub open spec fn clock_target_of(timer: WorldTimer, now: UtcInstant) -> Option<UtcInstant> {
    if timer.precision is None {
        None
    } else {
        shifted(now, timer.offset)
    }
}

/// Decides whether the system clock is set after a commit, and to what.
pub fn clock_target(timer: &WorldTimer, now: UtcInstant) -> (target: Option<UtcInstant>)
    ensures
        target == clock_target_of(*timer, now),
        timer.precision is None ==> target is None,
{
    match timer.precision {
        None => None,
        Some(_) => timer.utc_time(now),
    }
}

impl UtcInstant {
    /// The date and the time of day of this instant in UTC; `None` where it
    /// falls on no calendar date.
    pub fn civil_time(&self) -> (fields: Option<CivilTime>)
        ensures
            fields is Some <==> self.representable(),
            fields matches Some(time) ==> time == civil_time_of(self.seconds, self.nanoseconds),
            fields matches Some(time) ==> time.well_formed() && time.nanosecond
                == self.nanoseconds,
    {
        if self.is_well_formed() {
            calendar_fields(*self)
        } else {
            None
        }
    }
}

} // verus!
