//! Today's date from the system clock.
use vstd::prelude::*;

use crate::calendar::{in_date_range, MAX_DAYS_FROM_CE, MIN_DAYS_FROM_CE};
use crate::date::{max_date, min_date, opt_date_view, Date};
use crate::naive_date::NaiveDate;
use crate::offset::Utc;

verus! {

#[verifier::external_type_specification]
#[verifier::external_body]
pub struct ExSystemTime(std::time::SystemTime);

#[verifier::external_type_specification]
#[verifier::external_body]
pub struct ExSystemTimeError(std::time::SystemTimeError);

/// Reads the system clock with `std::time::SystemTime::now`. Nothing is stated
/// of the value: it is the moment of the call.
#[verifier::external_body]
fn system_time_now() -> std::time::SystemTime {
    std::time::SystemTime::now()
}

/// `SystemTime::duration_since(UNIX_EPOCH)`: how long after 1970-01-01T00:00:00 UTC
/// `t` lies, or, as the error, that `t` lies before it. Nothing is stated of the
/// result, as `SystemTime` is opaque here.
#[verifier::external_body]
fn since_unix_epoch(t: &std::time::SystemTime) -> Result<
    core::time::Duration,
    std::time::SystemTimeError,
> {
    t.duration_since(std::time::UNIX_EPOCH)
}

/// `SystemTimeError::duration`: how far before the reference time the measured
/// time lies. Nothing is stated of it, as the error is opaque here.
#[verifier::external_body]
fn how_far_before(e: &std::time::SystemTimeError) -> core::time::Duration {
    e.duration()
}

/// `core::time::Duration::as_nanos`: the whole length in nanoseconds. Nothing is
/// stated of it, as `core::time::Duration` is opaque here.
#[verifier::external_body]
fn whole_nanos(d: &core::time::Duration) -> u128 {
    d.as_nanos()
}

/// Nanoseconds per day.
pub const NANOS_PER_DAY: i128 = 86_400_000_000_000;

/// `n` as an `i128`, or `i128::MAX` if it does not fit; negated when `before` holds.
fn signed_nanos(n: u128, before: bool) -> (r: i128)
    ensures
        n <= i128::MAX ==> r == (if before {
            -n
        } else {
            n as int
        }),
        n > i128::MAX ==> r == (if before {
            -i128::MAX
        } else {
            i128::MAX as int
        }),
{
    let m: i128 = if n > i128::MAX as u128 {
        i128::MAX
    } else {
        n as i128
    };
    if before {
        -m
    } else {
        m
    }
}

/// The day number of the UTC date of the instant `nanos` nanoseconds after
/// 1970-01-01T00:00:00 UTC (before it, when `before` holds), brought into the
/// supported range: earlier instants give the first date, later ones the last.
pub open spec fn clock_reading_days(nanos: int, before: bool) -> int {
    let v = if before {
        -nanos
    } else {
        nanos
    };
    let days = 719163 + v / (NANOS_PER_DAY as int);
    if days < MIN_DAYS_FROM_CE {
        MIN_DAYS_FROM_CE as int
    } else if days > MAX_DAYS_FROM_CE {
        MAX_DAYS_FROM_CE as int
    } else {
        days
    }
}

impl Utc {
    /// The UTC date of the instant `nanos` nanoseconds after 1970-01-01T00:00:00 UTC
    /// (before it, when negative), if that date lies in the supported range.
    pub fn date_at_unix_nanos(nanos: i128) -> (r: Option<Date<Utc>>)
        ensures
            opt_date_view(r) == (if in_date_range(719163 + nanos as int / NANOS_PER_DAY as int) {
                Some((719163 + nanos as int / NANOS_PER_DAY as int, Utc))
            } else {
                None
            }),
    {
        let mut days: i128 = nanos / NANOS_PER_DAY;
        if nanos % NANOS_PER_DAY < 0 {
            days = days - 1;
        }
        assert(days == nanos as int / NANOS_PER_DAY as int);
        if days < MIN_DAYS_FROM_CE as i128 - 719163 || days > MAX_DAYS_FROM_CE as i128 - 719163 {
            return None;
        }
        match NaiveDate::from_num_days_from_ce_opt((days + 719163) as i32) {
            Some(date) => Some(Date::from_utc(date, Utc)),
            None => None,
        }
    }

    /// The UTC date of a clock reading: the instant `nanos` nanoseconds after
    /// 1970-01-01T00:00:00 UTC, or before it when `before` holds. A reading
    /// outside the supported years gives the nearest supported date.
    pub fn date_at_clock_reading(nanos: u128, before: bool) -> (r: Date<Utc>)
        ensures
            r@ == (clock_reading_days(nanos as int, before), Utc),
    {
        let signed = signed_nanos(nanos, before);
        match Utc::date_at_unix_nanos(signed) {
            Some(d) => d,
            None => if signed < 0 {
                min_date()
            } else {
                max_date()
            },
        }
    }

    /// Today's date in UTC: the date of the system clock's reading, as
    /// `date_at_clock_reading` gives it.
    pub fn today() -> (r: Date<Utc>)
        ensures
            exists|nanos: u128, before: bool|
                r@ == (#[trigger] clock_reading_days(nanos as int, before), Utc),
    {
        let now = system_time_now();
        let (nanos, before) = match since_unix_epoch(&now) {
            Ok(d) => (whole_nanos(&d), false),
            Err(e) => (whole_nanos(&how_far_before(&e)), true),
        };
        let r = Utc::date_at_clock_reading(nanos, before);
        assert(r@ == (clock_reading_days(nanos as int, before), Utc));
        r
    }
}

} // verus!
