//! Time, as far as bans need it: instants, the local calendar day, and the start of the next one.

use vstd::prelude::*;

use chrono::TimeZone;

verus! {

/// The first day that a date can be, counted from the first day of the common era.
pub const MIN_DAY: i32 = -95_746_129;

/// The last day that a date can be.
pub const MAX_DAY: i32 = 95_745_399;

/// 1 January 1970.
pub const EPOCH_DAY: i32 = 719_163;

pub const DAY_SECONDS: i64 = 86_400;

/// The last second of the last day.
pub const MAX_SECONDS: i64 = 8_210_266_876_799;

/// A point in time: seconds since 1970, and nanoseconds.
#[derive(Clone, Copy, Debug, PartialEq, Eq, Structural)]
pub struct Instant {
    pub secs: i64,
    pub nanos: u32,
}

impl Instant {
    pub open spec fn before(self, other: Instant) -> bool {
        self.secs < other.secs || (self.secs == other.secs && self.nanos < other.nanos)
    }

    /// Whether this is earlier than the other.
    pub fn is_before(self, other: Instant) -> (earlier: bool)
        ensures
            earlier == self.before(other),
    {
        self.secs < other.secs || (self.secs == other.secs && self.nanos < other.nanos)
    }

    /// The instant some seconds later. A leap second is told by more than a second's nanoseconds;
    /// the instant after it has no more than that.
    pub open spec fn later_by(self, seconds: int) -> Instant {
        Instant {
            secs: (self.secs + seconds) as i64,
            nanos: if self.nanos >= 1_000_000_000 {
                (self.nanos - 1_000_000_000) as u32
            } else {
                self.nanos
            },
        }
    }

    /// The instant some minutes later.
    pub fn minutes_later(self, minutes: i64) -> (later: Instant)
        requires
            0 < minutes,
            60 * minutes <= i64::MAX,
            self.secs + 60 * minutes <= MAX_SECONDS,
        ensures
            later == self.later_by(60 * minutes),
            self.nanos < 1_000_000_000 ==> self.before(later),
    {
        Instant {
            secs: self.secs + 60 * minutes,
            nanos: if self.nanos >= 1_000_000_000 {
                self.nanos - 1_000_000_000
            } else {
                self.nanos
            },
        }
    }
}

/// An instant and the local day that it falls on.
#[derive(Clone, Copy, Debug, PartialEq, Eq, Structural)]
pub struct Moment {
    pub at: Instant,
    /// The local day, counted from the first day of the common era.
    pub day: i32,
}

impl Moment {
    /// The day is one that a date can be.
    pub open spec fn valid(self) -> bool {
        MIN_DAY <= self.day <= MAX_DAY
    }
}

/// The day after, or the last day where there is none.
pub open spec fn following_day(day: i32) -> i32 {
    if day < MAX_DAY {
        (day + 1) as i32
    } else {
        day
    }
}

/// The start of a day by universal time.
pub open spec fn universal_start(day: i32) -> Instant {
    Instant { secs: ((day - EPOCH_DAY) * DAY_SECONDS) as i64, nanos: 0 }
}

/// The start of a day: the one local time at which the day begins, where there is just one, and
/// otherwise the start of the day by universal time.
pub open spec fn start_of_day(day: i32, local: Option<Instant>) -> Instant {
    match local {
        Some(instant) => instant,
        None => universal_start(day),
    }
}

/// The one local time at which a day begins, where there is just one: it is less than a day away
/// from the start of the day by universal time, by whole seconds.
pub open spec fn is_local_start(day: i32, local: Option<Instant>) -> bool {
    match local {
        Some(instant) => {
            &&& instant.nanos == 0
            &&& -DAY_SECONDS < instant.secs - (day - EPOCH_DAY) * DAY_SECONDS < DAY_SECONDS
        },
        None => true,
    }
}

/// The start of a day, where `local` is the one local time at which it begins.
pub fn day_start(day: i32, local: Option<Instant>) -> (start: Instant)
    requires
        MIN_DAY <= day <= MAX_DAY,
    ensures
        start == start_of_day(day, local),
{
    match local {
        Some(instant) => instant,
        None => Instant { secs: (day as i64 - EPOCH_DAY as i64) * DAY_SECONDS, nanos: 0 },
    }
}

/// `chrono::Local.from_local_datetime(..).single()` at the start of a day: the instant, where the
/// local clock shows that time just once. Which it is rests with the machine's time zone, which is
/// less than a day away from universal time, by whole seconds.
#[verifier::external_body]
fn local_day_start(day: i32) -> (start: Option<Instant>)
    requires
        MIN_DAY <= day <= MAX_DAY,
    ensures
        is_local_start(day, start),
{
    let start = chrono::NaiveDate::from_num_days_from_ce_opt(day)?.and_hms_opt(0, 0, 0)?;
    let local = chrono::Local.from_local_datetime(&start).single()?;
    Some(Instant { secs: local.timestamp(), nanos: local.timestamp_subsec_nanos() })
}

/// The start of the day after.
pub fn next_day_zero(day: i32) -> (start: Instant)
    requires
        MIN_DAY <= day <= MAX_DAY,
    ensures
        exists|local: Option<Instant>|
            is_local_start(following_day(day), local) && start == #[trigger] start_of_day(
                following_day(day),
                local,
            ),
        start.nanos == 0,
        -DAY_SECONDS < start.secs - (following_day(day) - EPOCH_DAY) * DAY_SECONDS < DAY_SECONDS,
{
    let tomorrow: i32 = if day < MAX_DAY {
        day + 1
    } else {
        day
    };
    assert(tomorrow == following_day(day));
    let local = local_day_start(tomorrow);
    let start = day_start(tomorrow, local);
    assert(start == start_of_day(following_day(day), local));
    start
}

/// `chrono::Local::now()`: the time by the machine's clock and the day in its time zone. The day
/// is one that a date can be.
#[verifier::external_body]
pub(crate) fn local_now() -> (now: Moment)
    ensures
        now.valid(),
{
    let now = chrono::Local::now();
    let at = Instant { secs: now.timestamp(), nanos: now.timestamp_subsec_nanos() };
    Moment { at, day: chrono::Datelike::num_days_from_ce(&now.date_naive()) }
}

} // verus!
