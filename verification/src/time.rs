//! Instants and calendar days, as plain integers, and the `chrono` calls that
//! produce them.
//!
//! A [`Timestamp`] is an instant on the UTC time line without leap seconds:
//! whole seconds since the Unix epoch and the nanoseconds past them. A
//! [`Date`] is a day of the proleptic Gregorian calendar, counted from
//! January 1 of year 1 as day 1. Both stay within what `chrono` can hold.

use chrono::{DateTime, NaiveDate, NaiveDateTime, TimeZone, Utc};
use vstd::prelude::*;

verus! {

/// Unix seconds of the first instant `chrono` can hold: midnight of
/// January 1 of year -262143.
pub const MIN_SECONDS: i64 = -8_334_601_228_800;

/// Unix seconds of the last second `chrono` can hold: 23:59:59 of
/// December 31 of year 262142.
pub const MAX_SECONDS: i64 = 8_210_266_876_799;

/// Day number of January 1 of year -262143.
pub const MIN_DAY: i32 = -95_746_129;

/// Day number of December 31 of year 262142.
pub const MAX_DAY: i32 = 95_745_399;

/// Day number of January 1, 1970.
pub const EPOCH_DAY: i32 = 719_163;

pub const NANOS_PER_SECOND: u32 = 1_000_000_000;

/// What `chrono` reads from a date-time text with an offset, in the relaxed
/// RFC 3339 form that `DateTime<Utc>` parses: Unix seconds and the
/// nanoseconds of the second, where it reads one.
pub uninterp spec fn datetime_from_text(s: Seq<char>) -> Option<(i64, u32)>;

/// What `chrono` reads from a text in the form `%Y-%m-%d %H:%M:%S`, taken as
/// UTC: Unix seconds and the nanoseconds of the second, where it reads one.
pub uninterp spec fn plain_datetime_from_text(s: Seq<char>) -> Option<(i64, u32)>;

/// The text that `chrono` writes for the day with a given number.
pub uninterp spec fn date_display(day: int) -> Seq<char>;

/// `str::parse::<DateTime<Utc>>`, the result taken apart by
/// `DateTime::timestamp` and `DateTime::timestamp_subsec_nanos`.
#[verifier::external_body]
pub(crate) fn parse_datetime(s: &str) -> (out: Option<(i64, u32)>)
    ensures
        out == datetime_from_text(s@),
{
    match s.parse::<DateTime<Utc>>() {
        Ok(t) => Some((t.timestamp(), t.timestamp_subsec_nanos())),
        Err(_) => None,
    }
}

/// `NaiveDateTime::parse_from_str` with the format `%Y-%m-%d %H:%M:%S`, the
/// result placed in UTC and taken apart as in [`parse_datetime`].
#[verifier::external_body]
pub(crate) fn parse_plain_datetime(s: &str) -> (out: Option<(i64, u32)>)
    ensures
        out == plain_datetime_from_text(s@),
{
    match NaiveDateTime::parse_from_str(s, "%Y-%m-%d %H:%M:%S") {
        Ok(n) => {
            let t = Utc.from_utc_datetime(&n);
            Some((t.timestamp(), t.timestamp_subsec_nanos()))
        },
        Err(_) => None,
    }
}

/// `Utc.timestamp_opt(secs, 0).single()`: the instant of that many Unix
/// seconds where `chrono` can hold it, which is from the first second of
/// year -262143 to the last of year 262142.
#[verifier::external_body]
pub(crate) fn instant_of_seconds(secs: i64) -> (out: Option<(i64, u32)>)
    ensures
        out == if MIN_SECONDS <= secs <= MAX_SECONDS {
            Some((secs, 0u32))
        } else {
            None
        },
{
    match Utc.timestamp_opt(secs, 0).single() {
        Some(t) => Some((t.timestamp(), t.timestamp_subsec_nanos())),
        None => None,
    }
}

/// `Utc::now`: the system clock's reading, which `chrono` takes from the
/// time elapsed since the Unix epoch. Every reading lies at or after the
/// epoch, within `chrono`'s range, and short of a full second in its
/// nanoseconds; which one comes is not said.
#[verifier::external_body]
pub(crate) fn read_clock() -> (out: (i64, u32))
    ensures
        0 <= out.0 <= MAX_SECONDS,
        out.1 < NANOS_PER_SECOND,
{
    let t = Utc::now();
    (t.timestamp(), t.timestamp_subsec_nanos())
}

/// `NaiveDate::from_num_days_from_ce_opt` and `NaiveDate::to_string`: the
/// text of the day with that number, for the days `chrono` can hold.
#[verifier::external_body]
pub(crate) fn day_text(day: i32) -> (out: Option<String>)
    ensures
        match out {
            Some(s) => MIN_DAY <= day <= MAX_DAY && s@ == date_display(day as int),
            None => !(MIN_DAY <= day <= MAX_DAY),
        },
{
    match NaiveDate::from_num_days_from_ce_opt(day) {
        Some(d) => Some(d.to_string()),
        None => None,
    }
}

/// An instant: Unix seconds and nanoseconds past the second. Its view is
/// the number of nanoseconds since the Unix epoch.
#[derive(Clone, Copy, Debug)]
pub struct Timestamp {
    secs: i64,
    nanos: u32,
}

/// Whether an instant, in nanoseconds since the Unix epoch, is one that a
/// [`Timestamp`] can hold.
pub open spec fn instant_in_range(t: int) -> bool {
    MIN_SECONDS * NANOS_PER_SECOND <= t < (MAX_SECONDS + 1) * NANOS_PER_SECOND
}

/// The instant that `chrono`'s pair of seconds and nanoseconds stands for.
/// During a leap second `chrono` counts the nanoseconds on, up to two full
/// seconds; the instant then falls in the second that follows.
pub open spec fn instant_of_parts(secs: int, nanos: int) -> Option<int> {
    if 0 <= nanos < 2 * NANOS_PER_SECOND && instant_in_range(secs * NANOS_PER_SECOND + nanos) {
        Some(secs * NANOS_PER_SECOND + nanos)
    } else {
        None
    }
}

/// The quotient of `a` by a positive `b`, rounded towards zero.
pub open spec fn quotient_towards_zero(a: int, b: int) -> int {
    if a >= 0 {
        a / b
    } else {
        -((-a) / b)
    }
}

/// Whole milliseconds from the instant `earlier` to the instant `later`,
/// negative where `later` is the earlier one, rounded towards zero.
pub open spec fn millis_from_to(earlier: int, later: int) -> int {
    quotient_towards_zero(later - earlier, 1_000_000)
}

/// The number of the day on which an instant falls.
pub open spec fn day_of_instant(t: int) -> int {
    t / 86_400_000_000_000 + 719_163
}

impl View for Timestamp {
    type V = int;

    closed spec fn view(&self) -> int {
        self.secs * NANOS_PER_SECOND + self.nanos
    }
}

impl Timestamp {
    #[verifier::type_invariant]
    spec fn in_range(self) -> bool {
        MIN_SECONDS <= self.secs <= MAX_SECONDS && self.nanos < NANOS_PER_SECOND
    }

    /// Whether the value is one that executable code can hold.
    pub open spec fn wf(self) -> bool {
        instant_in_range(self@)
    }

    /// The instant of `secs` and `nanos` as `chrono` counts them, `None`
    /// where there is none within range.
    pub fn from_parts(secs: i64, nanos: u32) -> (out: Option<Timestamp>)
        ensures
            match out {
                Some(t) => t.wf() && instant_of_parts(secs as int, nanos as int) == Some(t@),
                None => instant_of_parts(secs as int, nanos as int).is_none(),
            },
    {
        if nanos < NANOS_PER_SECOND {
            if MIN_SECONDS <= secs && secs <= MAX_SECONDS {
                Some(Timestamp { secs, nanos })
            } else {
                None
            }
        } else if nanos < 2 * NANOS_PER_SECOND && MIN_SECONDS - 1 <= secs && secs < MAX_SECONDS {
            Some(Timestamp { secs: secs + 1, nanos: nanos - NANOS_PER_SECOND })
        } else {
            None
        }
    }

    /// The instant of a whole number of Unix seconds, `None` where it lies
    /// out of range.
    pub fn from_unix_seconds(secs: i64) -> (out: Option<Timestamp>)
        ensures
            match out {
                Some(t) => t.wf() && t@ == secs * NANOS_PER_SECOND && MIN_SECONDS <= secs
                    <= MAX_SECONDS,
                None => !(MIN_SECONDS <= secs <= MAX_SECONDS),
            },
    {
        match instant_of_seconds(secs) {
            Some((s, n)) => Timestamp::from_parts(s, n),
            None => None,
        }
    }

    /// The system clock's reading. Each call may give another instant; none
    /// lies before the Unix epoch.
    pub fn now() -> (out: Timestamp)
        ensures
            out.wf(),
            out@ >= 0,
    {
        let (secs, nanos) = read_clock();
        Timestamp { secs, nanos }
    }

    /// Whole Unix seconds, rounded down.
    pub fn seconds(&self) -> (out: i64)
        ensures
            self.wf(),
            out == self@ / (NANOS_PER_SECOND as int),
    {
        proof {
            use_type_invariant(self);
        }
        self.secs
    }

    /// Nanoseconds past the whole second.
    pub fn nanos(&self) -> (out: u32)
        ensures
            self.wf(),
            out == self@ % (NANOS_PER_SECOND as int),
    {
        proof {
            use_type_invariant(self);
        }
        self.nanos
    }

    /// Whether two values stand for the same instant.
    pub fn same(&self, other: &Timestamp) -> (out: bool)
        ensures
            out == (self@ == other@),
    {
        proof {
            use_type_invariant(self);
            use_type_invariant(other);
        }
        self.secs == other.secs && self.nanos == other.nanos
    }

    /// Whether this instant lies before `other`.
    pub fn before(&self, other: &Timestamp) -> (out: bool)
        ensures
            out == (self@ < other@),
    {
        proof {
            use_type_invariant(self);
            use_type_invariant(other);
        }
        self.secs < other.secs || (self.secs == other.secs && self.nanos < other.nanos)
    }

    /// Whole milliseconds from `earlier` to `self`.
    pub fn millis_between(&self, earlier: &Timestamp) -> (out: i64)
        ensures
            out == millis_from_to(earlier@, self@),
    {
        proof {
            use_type_invariant(self);
            use_type_invariant(earlier);
        }
        let seconds: i128 = self.secs as i128 - earlier.secs as i128;
        let nanos: i128 = self.nanos as i128 - earlier.nanos as i128;
        let total: i128 = seconds * 1_000_000_000 + nanos;
        if total >= 0 {
            (total / 1_000_000) as i64
        } else {
            (-((-total) / 1_000_000)) as i64
        }
    }

    /// The day on which the instant falls.
    pub fn date(&self) -> (out: Date)
        ensures
            out.wf(),
            out@ == day_of_instant(self@),
    {
        proof {
            use_type_invariant(self);
        }
        let whole: i64 = if self.secs >= 0 {
            self.secs / 86_400
        } else {
            -((-self.secs + 86_399) / 86_400)
        };
        proof {
            let rest = self.secs - whole * 86_400;
            assert(0 <= rest < 86_400);
            assert(self@ == whole * 86_400_000_000_000 + (rest * 1_000_000_000 + self.nanos));
            vstd::arithmetic::div_mod::lemma_fundamental_div_mod_converse(
                self@,
                86_400_000_000_000,
                whole as int,
                rest * 1_000_000_000 + self.nanos,
            );
        }
        Date { day: (whole + 719_163) as i32 }
    }
}

/// A calendar day. Its view is the day's number: January 1 of year 1 is
/// day 1.
#[derive(Clone, Copy, Debug)]
pub struct Date {
    day: i32,
}

impl View for Date {
    type V = int;

    closed spec fn view(&self) -> int {
        self.day as int
    }
}

impl Date {
    #[verifier::type_invariant]
    spec fn in_range(self) -> bool {
        MIN_DAY <= self.day <= MAX_DAY
    }

    /// Whether the value is one that executable code can hold.
    pub open spec fn wf(self) -> bool {
        MIN_DAY <= self@ <= MAX_DAY
    }

    /// The day with the given number, `None` where it lies out of range.
    pub fn from_day_number(day: i32) -> (out: Option<Date>)
        ensures
            match out {
                Some(d) => d.wf() && d@ == day,
                None => !(MIN_DAY <= day <= MAX_DAY),
            },
    {
        if MIN_DAY <= day && day <= MAX_DAY {
            Some(Date { day })
        } else {
            None
        }
    }

    /// The day's number.
    pub fn day_number(&self) -> (out: i32)
        ensures
            self.wf(),
            out == self@,
    {
        proof {
            use_type_invariant(self);
        }
        self.day
    }

    /// The day `n` days before this one (after it, for a negative `n`),
    /// `None` where that day lies out of range.
    pub fn minus_days(&self, n: i64) -> (out: Option<Date>)
        ensures
            match out {
                Some(d) => d.wf() && d@ == self@ - n,
                None => !(MIN_DAY <= self@ - n <= MAX_DAY),
            },
    {
        proof {
            use_type_invariant(self);
        }
        let day: i128 = self.day as i128 - n as i128;
        if MIN_DAY as i128 <= day && day <= MAX_DAY as i128 {
            Some(Date { day: day as i32 })
        } else {
            None
        }
    }

    /// The day as text, year first.
    pub fn text(&self) -> (out: String)
        ensures
            out@ == date_display(self@),
    {
        proof {
            use_type_invariant(self);
        }
        match day_text(self.day) {
            Some(s) => s,
            None => String::new(),
        }
    }
}

} // verus!
