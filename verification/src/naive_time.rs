//! Times of day and date-times without a time zone.
use vstd::prelude::*;

use crate::calendar::{in_date_range, MAX_DAYS_FROM_CE, MIN_DAYS_FROM_CE};
use crate::naive_date::{opt_days, shifted, NaiveDate};
use crate::offset::FixedOffset;

verus! {

/// The time of `hour:min:sec` as seconds since midnight, if it is a time of day.
pub open spec fn hms_secs(hour: int, min: int, sec: int) -> Option<int> {
    if 0 <= hour < 24 && 0 <= min < 60 && 0 <= sec < 60 {
        Some(hour * 3600 + min * 60 + sec)
    } else {
        None
    }
}

/// The time of `hour:min:sec` plus `nano` nanoseconds, if it is a time of day.
/// A nanosecond part of one second or more stands for a leap second.
pub open spec fn hms_nano_time(hour: int, min: int, sec: int, nano: int) -> Option<(int, int)> {
    match hms_secs(hour, min, sec) {
        Some(s) => if 0 <= nano < 2_000_000_000 {
            Some((s, nano))
        } else {
            None
        },
        None => None,
    }
}

/// A time of day with nanosecond precision; the nanosecond part may reach
/// into a second second to stand for a leap second.
#[derive(Clone, Copy, Debug, PartialEq, Eq, Structural, Hash)]
pub struct NaiveTime {
    secs: u32,
    frac: u32,
}

impl View for NaiveTime {
    /// Seconds since midnight, and nanoseconds within the second.
    type V = (int, int);

    closed spec fn view(&self) -> (int, int) {
        (self.secs as int, self.frac as int)
    }
}

/// The seconds-and-nanoseconds view of an optional time.
pub open spec fn opt_time(r: Option<NaiveTime>) -> Option<(int, int)> {
    match r {
        Some(t) => Some(t@),
        None => None,
    }
}

impl NaiveTime {
    #[verifier::type_invariant]
    pub closed spec fn well_formed(self) -> bool {
        self.secs < 86400 && self.frac < 2_000_000_000
    }

    /// Times of day are told apart by their views.
    pub proof fn lemma_view_injective(a: NaiveTime, b: NaiveTime)
        requires
            a@ == b@,
        ensures
            a == b,
    {
    }

    /// `hour:min:sec` and `nano` nanoseconds, if that is a time of day.
    pub fn from_hms_nano_opt(hour: u32, min: u32, sec: u32, nano: u32) -> (r: Option<NaiveTime>)
        ensures
            opt_time(r) == hms_nano_time(hour as int, min as int, sec as int, nano as int),
    {
        if hour >= 24 || min >= 60 || sec >= 60 || nano >= 2_000_000_000 {
            return None;
        }
        Some(NaiveTime { secs: hour * 3600 + min * 60 + sec, frac: nano })
    }

    /// `hour:min:sec`, if that is a time of day.
    pub fn from_hms_opt(hour: u32, min: u32, sec: u32) -> (r: Option<NaiveTime>)
        ensures
            opt_time(r) == hms_nano_time(hour as int, min as int, sec as int, 0),
    {
        NaiveTime::from_hms_nano_opt(hour, min, sec, 0)
    }

    /// `hour:min:sec` and `milli` milliseconds, if that is a time of day.
    pub fn from_hms_milli_opt(hour: u32, min: u32, sec: u32, milli: u32) -> (r: Option<NaiveTime>)
        ensures
            opt_time(r) == hms_nano_time(hour as int, min as int, sec as int, milli * 1_000_000),
    {
        if milli >= 2000 {
            return None;
        }
        NaiveTime::from_hms_nano_opt(hour, min, sec, milli * 1_000_000)
    }

    /// `hour:min:sec` and `micro` microseconds, if that is a time of day.
    pub fn from_hms_micro_opt(hour: u32, min: u32, sec: u32, micro: u32) -> (r: Option<NaiveTime>)
        ensures
            opt_time(r) == hms_nano_time(hour as int, min as int, sec as int, micro * 1_000),
    {
        if micro >= 2_000_000 {
            return None;
        }
        NaiveTime::from_hms_nano_opt(hour, min, sec, micro * 1_000)
    }

    /// The time `secs` seconds after midnight plus `nano` nanoseconds, if that is a time of day.
    pub fn from_num_seconds_from_midnight_opt(secs: u32, nano: u32) -> (r: Option<NaiveTime>)
        ensures
            opt_time(r) == (if secs < 86400 && nano < 2_000_000_000 {
                Some((secs as int, nano as int))
            } else {
                None
            }),
    {
        if secs >= 86400 || nano >= 2_000_000_000 {
            return None;
        }
        Some(NaiveTime { secs, frac: nano })
    }

    /// The hour, from 0 to 23.
    pub fn hour(&self) -> (r: u32)
        ensures
            r == self@.0 / 3600,
            r < 24,
    {
        proof {
            use_type_invariant(self);
        }
        self.secs / 3600
    }

    /// The minute, from 0 to 59.
    pub fn minute(&self) -> (r: u32)
        ensures
            r == self@.0 / 60 % 60,
    {
        self.secs / 60 % 60
    }

    /// The second, from 0 to 59.
    pub fn second(&self) -> (r: u32)
        ensures
            r == self@.0 % 60,
    {
        self.secs % 60
    }

    /// The nanoseconds within the second; 10^9 or more during a leap second.
    pub fn nanosecond(&self) -> (r: u32)
        ensures
            r == self@.1,
    {
        self.frac
    }
}

/// A date and a time of day, without a time zone.
#[derive(Clone, Copy, Debug, PartialEq, Eq, Structural, Hash)]
pub struct NaiveDateTime {
    date: NaiveDate,
    time: NaiveTime,
}

impl View for NaiveDateTime {
    /// The day number of the date, the seconds since midnight, and the nanoseconds.
    type V = (int, int, int);

    closed spec fn view(&self) -> (int, int, int) {
        (self.date@, self.time@.0, self.time@.1)
    }
}

/// The date-time `s` seconds after `v` (seconds only; the nanosecond part is kept),
/// if its date lies in the supported range.
pub open spec fn shift_secs(v: (int, int, int), s: int) -> Option<(int, int, int)> {
    let t = v.1 + s;
    if in_date_range(v.0 + t / 86400) {
        Some((v.0 + t / 86400, t % 86400, v.2))
    } else {
        None
    }
}

/// The view of an optional date-time.
pub open spec fn opt_datetime(r: Option<NaiveDateTime>) -> Option<(int, int, int)> {
    match r {
        Some(t) => Some(t@),
        None => None,
    }
}

impl NaiveDateTime {
    /// Date-times are told apart by their views.
    pub proof fn lemma_view_injective(a: NaiveDateTime, b: NaiveDateTime)
        requires
            a@ == b@,
        ensures
            a == b,
    {
        NaiveDate::lemma_view_injective(a.date, b.date);
        NaiveTime::lemma_view_injective(a.time, b.time);
    }

    /// The date-time of `date` at `time`.
    pub fn new(date: NaiveDate, time: NaiveTime) -> (r: NaiveDateTime)
        ensures
            r@ == (date@, time@.0, time@.1),
    {
        NaiveDateTime { date, time }
    }

    /// The date part.
    pub fn date(&self) -> (r: NaiveDate)
        ensures
            r@ == self@.0,
    {
        self.date
    }

    /// The time part.
    pub fn time(&self) -> (r: NaiveTime)
        ensures
            r@ == (self@.1, self@.2),
    {
        self.time
    }

    /// The date-time `secs` seconds and `nsecs` nanoseconds after 1970-01-01T00:00:00,
    /// if `nsecs` is below 2 * 10^9 and the date lies in the supported range.
    pub fn from_timestamp_opt(secs: i64, nsecs: u32) -> (r: Option<NaiveDateTime>)
        ensures
            opt_datetime(r) == (if nsecs < 2_000_000_000 && in_date_range(719163 + secs / 86400) {
                Some((719163 + secs / 86400, secs as int % 86400, nsecs as int))
            } else {
                None
            }),
    {
        // Floor division and remainder by a whole day.
        let mut days: i64 = secs / 86400;
        let mut rem: i64 = secs % 86400;
        if rem < 0 {
            days = days - 1;
            rem = rem + 86400;
        }
        assert(days == secs as int / 86400 && rem == secs as int % 86400);
        if days < MIN_DAYS_FROM_CE as i64 - 719163 || days > MAX_DAYS_FROM_CE as i64 - 719163 {
            return None;
        }
        let date = match NaiveDate::from_num_days_from_ce_opt((days + 719163) as i32) {
            Some(d) => d,
            None => {
                return None;
            },
        };
        match NaiveTime::from_num_seconds_from_midnight_opt(rem as u32, nsecs) {
            Some(time) => Some(NaiveDateTime { date, time }),
            None => None,
        }
    }

    /// The date-time that local time `self` is in UTC when the local time is
    /// `rhs` ahead of UTC, if it lies in the supported range.
    pub fn checked_sub_offset(self, rhs: FixedOffset) -> (r: Option<NaiveDateTime>)
        ensures
            opt_datetime(r) == shift_secs(self@, -rhs@),
    {
        proof {
            use_type_invariant(&self.time);
            use_type_invariant(&self.date);
            NaiveDate::lemma_well_formed(self.date);
        }
        let t: i64 = self.time.secs as i64 - rhs.local_minus_utc() as i64;
        let (carry, secs): (i64, i64) = if t < 0 {
            (-1, t + 86400)
        } else if t >= 86400 {
            (1, t - 86400)
        } else {
            (0, t)
        };
        assert(carry == t as int / 86400 && secs == t as int % 86400);
        let date = if carry < 0 {
            self.date.pred_opt()
        } else if carry > 0 {
            self.date.succ_opt()
        } else {
            Some(self.date)
        };
        assert(opt_days(date) == shifted(self@.0, carry as int));
        match date {
            Some(date) => Some(
                NaiveDateTime { date, time: NaiveTime { secs: secs as u32, frac: self.time.frac } },
            ),
            None => None,
        }
    }
}

} // verus!
