//! ISO 8601 calendar dates with a time zone.
use vstd::prelude::*;

use crate::calendar::{day_of, month_of, ordinal_of, weekday_of, year_of};
use crate::datetime::{opt_datetime_view, DateTime};
use crate::duration::{duration_of, num_days_of, Duration};
use crate::format::{
    iso_date_text, opt_text, parse_format, push_iso_date, push_items, push_str, reaches_permissive,
    render_items, strftime_items, Item,
};
use crate::naive_date::{
    iso_week_of, iso_year_of, opt_days, shifted, yo_days, ymd_days, IsoWeek, NaiveDate, Weekday,
};
use crate::naive_time::{hms_nano_time, shift_secs, NaiveDateTime, NaiveTime};
use crate::offset::{
    from_local_date, from_local_datetime, from_utc_date, offsets_fit, LocalResult, Offset, TimeZone,
    Utc,
};

verus! {

/// A calendar date in time zone `Tz`: the date and the zone's offset on it.
///
/// Two dates are equal, and ordered, by their dates alone; the offset only
/// says how the date is shown.
#[derive(Clone, Copy, Debug)]
pub struct Date<Tz: TimeZone> {
    date: NaiveDate,
    offset: Tz::Offset,
}

impl<Tz: TimeZone> View for Date<Tz> {
    /// The day number of the date and the offset.
    type V = (int, Tz::Offset);

    closed spec fn view(&self) -> (int, Tz::Offset) {
        (self.date@, self.offset)
    }
}

/// The view of an optional date.
pub open spec fn opt_date_view<Tz: TimeZone>(r: Option<Date<Tz>>) -> Option<(int, Tz::Offset)> {
    match r {
        Some(d) => Some(d@),
        None => None,
    }
}

/// The date whose view is `v`.
pub open spec fn date_of<Tz: TimeZone>(v: (int, Tz::Offset)) -> Date<Tz> {
    choose|d: Date<Tz>| d@ == v
}

/// `(m1, d1)` comes before `(m2, d2)` within a year.
pub open spec fn month_day_lt(m1: int, d1: int, m2: int, d2: int) -> bool {
    m1 < m2 || (m1 == m2 && d1 < d2)
}

/// Whole years from day `base` to day `n`; negative when `base` is later.
pub open spec fn years_between(n: int, base: int) -> int {
    year_of(n) - year_of(base) - (if month_day_lt(
        month_of(n),
        day_of(n),
        month_of(base),
        day_of(base),
    ) {
        1int
    } else {
        0int
    })
}

/// The earliest date, in UTC.
pub fn min_date() -> (r: Date<Utc>)
    ensures
        r@ == (crate::calendar::MIN_DAYS_FROM_CE as int, Utc),
{
    Date::from_utc(NaiveDate::from_num_days_from_ce_opt(crate::calendar::MIN_DAYS_FROM_CE).unwrap(), Utc)
}

/// The latest date, in UTC.
pub fn max_date() -> (r: Date<Utc>)
    ensures
        r@ == (crate::calendar::MAX_DAYS_FROM_CE as int, Utc),
{
    Date::from_utc(NaiveDate::from_num_days_from_ce_opt(crate::calendar::MAX_DAYS_FROM_CE).unwrap(), Utc)
}

/// The date `date` in the zone of `d`, looked up as a local date; the result
/// when the zone gives exactly one offset for it.
fn map_local<Tz: TimeZone>(d: &Date<Tz>, date: Option<NaiveDate>) -> (r: Option<Date<Tz>>)
    ensures
        opt_date_view(r) == d.spec_map_local(opt_days(date)),
{
    match date {
        Some(date) => match from_local_date(&d.timezone(), &date) {
            LocalResult::Single(r) => Some(r),
            _ => None,
        },
        None => None,
    }
}

impl<Tz: TimeZone> Date<Tz> {
    /// Dates are told apart by their views.
    pub proof fn lemma_view_injective(a: Date<Tz>, b: Date<Tz>)
        requires
            a@ == b@,
        ensures
            a == b,
    {
        NaiveDate::lemma_view_injective(a.date, b.date);
    }

    /// The time zone of this date's offset.
    pub open spec fn spec_timezone(&self) -> Tz {
        Tz::spec_from_offset(self@.1)
    }

    /// The local date-time of this date at time `time` (seconds, nanoseconds).
    pub open spec fn local_at(&self, time: (int, int)) -> (int, int, int) {
        (self@.0, time.0, time.1)
    }

    /// The zone gives exactly one offset for this date at `time` (the local
    /// date-time is neither skipped nor repeated), and that offset keeps the
    /// UTC date-time in the supported range.
    pub open spec fn and_time_fits(&self, time: (int, int)) -> bool {
        &&& self.spec_timezone().spec_offset_from_local_datetime(self.local_at(time)) is Single
        &&& offsets_fit(
            self.spec_timezone().spec_offset_from_local_datetime(self.local_at(time)),
            self.local_at(time),
        )
    }

    /// The date-time of this date at `time`, when the zone gives exactly one offset for it.
    pub open spec fn spec_and_time(&self, time: (int, int)) -> Option<((int, int, int), Tz::Offset)> {
        match self.spec_timezone().spec_offset_from_local_datetime(self.local_at(time)) {
            LocalResult::Single(o) => Some((shift_secs(self.local_at(time), -o.spec_fix())->0, o)),
            _ => None,
        }
    }

    /// Like `spec_and_time`, for an optional time.
    pub open spec fn spec_and_opt_time(&self, time: Option<(int, int)>) -> Option<
        ((int, int, int), Tz::Offset),
    > {
        match time {
            Some(t) => self.spec_and_time(t),
            None => None,
        }
    }

    /// `spec_and_time` is defined, and safe, for an optional time.
    pub open spec fn and_opt_time_fits(&self, time: Option<(int, int)>) -> bool {
        match time {
            Some(t) => self.and_time_fits(t),
            None => true,
        }
    }

    /// Local date `local`, if any, in this date's zone, when the zone gives exactly one offset.
    pub open spec fn spec_map_local(&self, local: Option<int>) -> Option<(int, Tz::Offset)> {
        match local {
            Some(n) => match self.spec_timezone().spec_offset_from_local_date(n) {
                LocalResult::Single(o) => Some((n, o)),
                _ => None,
            },
            None => None,
        }
    }

    /// Day `n`, if any, with this date's offset.
    pub open spec fn with_same_offset(&self, n: Option<int>) -> Option<(int, Tz::Offset)> {
        match n {
            Some(n) => Some((n, self@.1)),
            None => None,
        }
    }

    /// Makes a date from a UTC date and an offset.
    pub fn from_utc(date: NaiveDate, offset: Tz::Offset) -> (r: Date<Tz>)
        ensures
            r@ == (date@, offset),
    {
        Date { date, offset }
    }

    /// The date-time of this date at `time`, under the one offset that the zone
    /// gives for that local time; the local date-time must be valid in the zone.
    pub fn and_time(&self, time: NaiveTime) -> (r: Option<DateTime<Tz>>)
        requires
            self.and_time_fits(time@),
        ensures
            r is Some,
            opt_datetime_view(r) == self.spec_and_time(time@),
    {
        let localdt = NaiveDateTime::new(self.naive_local(), time);
        from_local_datetime(&self.timezone(), &localdt).single()
    }

    /// The date-time of this date at `hour:min:sec`, which must be a time of day
    /// for which the zone gives exactly one offset.
    pub fn and_hms(&self, hour: u32, min: u32, sec: u32) -> (r: DateTime<Tz>)
        requires
            self.and_opt_time_fits(hms_nano_time(hour as int, min as int, sec as int, 0)),
            self.spec_and_opt_time(hms_nano_time(hour as int, min as int, sec as int, 0)) is Some,
        ensures
            Some(r@) == self.spec_and_opt_time(hms_nano_time(hour as int, min as int, sec as int, 0)),
    {
        self.and_hms_opt(hour, min, sec).unwrap()
    }

    /// The date-time of this date at `hour:min:sec`, if that is a time of day; the
    /// zone must give exactly one offset for it.
    pub fn and_hms_opt(&self, hour: u32, min: u32, sec: u32) -> (r: Option<DateTime<Tz>>)
        requires
            self.and_opt_time_fits(hms_nano_time(hour as int, min as int, sec as int, 0)),
        ensures
            opt_datetime_view(r) == self.spec_and_opt_time(
                hms_nano_time(hour as int, min as int, sec as int, 0),
            ),
    {
        match NaiveTime::from_hms_opt(hour, min, sec) {
            Some(time) => self.and_time(time),
            None => None,
        }
    }

    /// The date-time of this date at `hour:min:sec` and `milli` milliseconds, which
    /// must be a time of day for which the zone gives exactly one offset.
    pub fn and_hms_milli(&self, hour: u32, min: u32, sec: u32, milli: u32) -> (r: DateTime<Tz>)
        requires
            self.and_opt_time_fits(
                hms_nano_time(hour as int, min as int, sec as int, milli * 1_000_000),
            ),
            self.spec_and_opt_time(
                hms_nano_time(hour as int, min as int, sec as int, milli * 1_000_000),
            ) is Some,
        ensures
            Some(r@) == self.spec_and_opt_time(
                hms_nano_time(hour as int, min as int, sec as int, milli * 1_000_000),
            ),
    {
        self.and_hms_milli_opt(hour, min, sec, milli).unwrap()
    }

    /// The date-time of this date at `hour:min:sec` and `milli` milliseconds, if
    /// that is a time of day; the zone must give exactly one offset for it.
    pub fn and_hms_milli_opt(&self, hour: u32, min: u32, sec: u32, milli: u32) -> (r: Option<
        DateTime<Tz>,
    >)
        requires
            self.and_opt_time_fits(
                hms_nano_time(hour as int, min as int, sec as int, milli * 1_000_000),
            ),
        ensures
            opt_datetime_view(r) == self.spec_and_opt_time(
                hms_nano_time(hour as int, min as int, sec as int, milli * 1_000_000),
            ),
    {
        match NaiveTime::from_hms_milli_opt(hour, min, sec, milli) {
            Some(time) => self.and_time(time),
            None => None,
        }
    }

    /// The date-time of this date at `hour:min:sec` and `micro` microseconds, which
    /// must be a time of day for which the zone gives exactly one offset.
    pub fn and_hms_micro(&self, hour: u32, min: u32, sec: u32, micro: u32) -> (r: DateTime<Tz>)
        requires
            self.and_opt_time_fits(hms_nano_time(hour as int, min as int, sec as int, micro * 1_000)),
            self.spec_and_opt_time(
                hms_nano_time(hour as int, min as int, sec as int, micro * 1_000),
            ) is Some,
        ensures
            Some(r@) == self.spec_and_opt_time(
                hms_nano_time(hour as int, min as int, sec as int, micro * 1_000),
            ),
    {
        self.and_hms_micro_opt(hour, min, sec, micro).unwrap()
    }

    /// The date-time of this date at `hour:min:sec` and `micro` microseconds, if
    /// that is a time of day; the zone must give exactly one offset for it.
    pub fn and_hms_micro_opt(&self, hour: u32, min: u32, sec: u32, micro: u32) -> (r: Option<
        DateTime<Tz>,
    >)
        requires
            self.and_opt_time_fits(hms_nano_time(hour as int, min as int, sec as int, micro * 1_000)),
        ensures
            opt_datetime_view(r) == self.spec_and_opt_time(
                hms_nano_time(hour as int, min as int, sec as int, micro * 1_000),
            ),
    {
        match NaiveTime::from_hms_micro_opt(hour, min, sec, micro) {
            Some(time) => self.and_time(time),
            None => None,
        }
    }

    /// The date-time of this date at `hour:min:sec` and `nano` nanoseconds, which
    /// must be a time of day for which the zone gives exactly one offset.
    pub fn and_hms_nano(&self, hour: u32, min: u32, sec: u32, nano: u32) -> (r: DateTime<Tz>)
        requires
            self.and_opt_time_fits(hms_nano_time(hour as int, min as int, sec as int, nano as int)),
            self.spec_and_opt_time(
                hms_nano_time(hour as int, min as int, sec as int, nano as int),
            ) is Some,
        ensures
            Some(r@) == self.spec_and_opt_time(
                hms_nano_time(hour as int, min as int, sec as int, nano as int),
            ),
    {
        self.and_hms_nano_opt(hour, min, sec, nano).unwrap()
    }

    /// The date-time of this date at `hour:min:sec` and `nano` nanoseconds, if
    /// that is a time of day; the zone must give exactly one offset for it.
    pub fn and_hms_nano_opt(&self, hour: u32, min: u32, sec: u32, nano: u32) -> (r: Option<
        DateTime<Tz>,
    >)
        requires
            self.and_opt_time_fits(hms_nano_time(hour as int, min as int, sec as int, nano as int)),
        ensures
            opt_datetime_view(r) == self.spec_and_opt_time(
                hms_nano_time(hour as int, min as int, sec as int, nano as int),
            ),
    {
        match NaiveTime::from_hms_nano_opt(hour, min, sec, nano) {
            Some(time) => self.and_time(time),
            None => None,
        }
    }

    /// The next date, which must exist.
    pub fn succ(&self) -> (r: Date<Tz>)
        requires
            shifted(self@.0, 1) is Some,
        ensures
            r@ == (self@.0 + 1, self@.1),
    {
        self.succ_opt().unwrap()
    }

    /// The next date, if it lies in the supported range.
    pub fn succ_opt(&self) -> (r: Option<Date<Tz>>)
        ensures
            opt_date_view(r) == self.with_same_offset(shifted(self@.0, 1)),
    {
        match self.date.succ_opt() {
            Some(date) => Some(Date::from_utc(date, self.offset)),
            None => None,
        }
    }

    /// The previous date, which must exist.
    pub fn pred(&self) -> (r: Date<Tz>)
        requires
            shifted(self@.0, -1) is Some,
        ensures
            r@ == (self@.0 - 1, self@.1),
    {
        self.pred_opt().unwrap()
    }

    /// The previous date, if it lies in the supported range.
    pub fn pred_opt(&self) -> (r: Option<Date<Tz>>)
        ensures
            opt_date_view(r) == self.with_same_offset(shifted(self@.0, -1)),
    {
        match self.date.pred_opt() {
            Some(date) => Some(Date::from_utc(date, self.offset)),
            None => None,
        }
    }

    /// The offset from UTC.
    pub fn offset(&self) -> (r: &Tz::Offset)
        ensures
            *r == self@.1,
    {
        &self.offset
    }

    /// The time zone of the offset.
    pub fn timezone(&self) -> (r: Tz)
        ensures
            r == self.spec_timezone(),
    {
        Tz::from_offset(&self.offset)
    }

    /// The same UTC date in time zone `tz`.
    pub fn with_timezone<Tz2: TimeZone>(&self, tz: &Tz2) -> (r: Date<Tz2>)
        ensures
            r@ == (self@.0, tz.spec_offset_from_utc_date(self@.0)),
    {
        from_utc_date(tz, &self.date)
    }

    /// Moves the date by the whole days of `rhs` (rounded toward zero), if the
    /// result lies in the supported range.
    pub fn checked_add_signed(self, rhs: Duration) -> (r: Option<Date<Tz>>)
        ensures
            opt_date_view(r) == self.with_same_offset(shifted(self@.0, num_days_of(rhs@))),
    {
        match self.date.checked_add_signed(rhs) {
            Some(date) => Some(Date { date, offset: self.offset }),
            None => None,
        }
    }

    /// Moves the date back by the whole days of `rhs` (rounded toward zero), if
    /// the result lies in the supported range.
    pub fn checked_sub_signed(self, rhs: Duration) -> (r: Option<Date<Tz>>)
        ensures
            opt_date_view(r) == self.with_same_offset(shifted(self@.0, -num_days_of(rhs@))),
    {
        match self.date.checked_sub_signed(rhs) {
            Some(date) => Some(Date { date, offset: self.offset }),
            None => None,
        }
    }

    /// The whole days from `rhs` to this date, as a duration.
    pub fn signed_duration_since<Tz2: TimeZone>(self, rhs: Date<Tz2>) -> (r: Duration)
        ensures
            r@ == (self@.0 - rhs@.0) * 86400 * 1_000_000_000,
    {
        self.date.signed_duration_since(rhs.date)
    }

    /// The date in UTC.
    pub fn naive_utc(&self) -> (r: NaiveDate)
        ensures
            r@ == self@.0,
    {
        self.date
    }

    /// The local date; the same as the UTC date, as offsets stay below a day.
    pub fn naive_local(&self) -> (r: NaiveDate)
        ensures
            r@ == self@.0,
    {
        self.date
    }

    /// The number of whole years from `base` until this date; `None` when
    /// `base` is later than this date.
    pub fn years_since(&self, base: Self) -> (r: Option<u32>)
        ensures
            r == (if years_between(self@.0, base@.0) >= 0 {
                Some(years_between(self@.0, base@.0) as u32)
            } else {
                None
            }),
    {
        let mut years: i32 = self.year() - base.year();
        let (m1, d1) = (self.month(), self.day());
        let (m2, d2) = (base.month(), base.day());
        if m1 < m2 || (m1 == m2 && d1 < d2) {
            years = years - 1;
        }
        if years >= 0 {
            Some(years as u32)
        } else {
            None
        }
    }

    /// The year.
    pub fn year(&self) -> (r: i32)
        ensures
            r == year_of(self@.0),
            crate::calendar::MIN_YEAR <= r <= crate::calendar::MAX_YEAR,
    {
        self.naive_local().year()
    }

    /// The month, from 1 to 12.
    pub fn month(&self) -> (r: u32)
        ensures
            r == month_of(self@.0),
            1 <= r <= 12,
    {
        self.naive_local().month()
    }

    /// The month, from 0 to 11.
    pub fn month0(&self) -> (r: u32)
        ensures
            r == month_of(self@.0) - 1,
    {
        self.naive_local().month0()
    }

    /// The day of the month, from 1.
    pub fn day(&self) -> (r: u32)
        ensures
            r == day_of(self@.0),
            1 <= r <= 31,
    {
        self.naive_local().day()
    }

    /// The day of the month, from 0.
    pub fn day0(&self) -> (r: u32)
        ensures
            r == day_of(self@.0) - 1,
    {
        self.naive_local().day0()
    }

    /// The day of the year, from 1.
    pub fn ordinal(&self) -> (r: u32)
        ensures
            r == ordinal_of(self@.0),
    {
        self.naive_local().ordinal()
    }

    /// The day of the year, from 0.
    pub fn ordinal0(&self) -> (r: u32)
        ensures
            r == ordinal_of(self@.0) - 1,
    {
        self.naive_local().ordinal0()
    }

    /// The day of the week.
    pub fn weekday(&self) -> (r: Weekday)
        ensures
            r.index() == weekday_of(self@.0),
    {
        self.naive_local().weekday()
    }

    /// The ISO 8601 week.
    pub fn iso_week(&self) -> (r: IsoWeek)
        ensures
            r.spec_year() == iso_year_of(self@.0),
            r.spec_week() == iso_week_of(self@.0),
    {
        self.naive_local().iso_week()
    }

    /// The same month and day in year `year`, if that date exists and the zone
    /// gives exactly one offset for it.
    pub fn with_year(&self, year: i32) -> (r: Option<Date<Tz>>)
        ensures
            opt_date_view(r) == self.spec_map_local(
                ymd_days(year as int, month_of(self@.0), day_of(self@.0)),
            ),
    {
        map_local(self, self.naive_local().with_year(year))
    }

    /// The same year and day in month `month`, if that date exists and the zone
    /// gives exactly one offset for it.
    pub fn with_month(&self, month: u32) -> (r: Option<Date<Tz>>)
        ensures
            opt_date_view(r) == self.spec_map_local(
                ymd_days(year_of(self@.0), month as int, day_of(self@.0)),
            ),
    {
        map_local(self, self.naive_local().with_month(month))
    }

    /// The same year and day in month `month0 + 1`, if that date exists and the
    /// zone gives exactly one offset for it.
    pub fn with_month0(&self, month0: u32) -> (r: Option<Date<Tz>>)
        ensures
            opt_date_view(r) == self.spec_map_local(
                ymd_days(year_of(self@.0), month0 + 1, day_of(self@.0)),
            ),
    {
        map_local(self, self.naive_local().with_month0(month0))
    }

    /// The same year and month on day `day`, if that date exists and the zone
    /// gives exactly one offset for it.
    pub fn with_day(&self, day: u32) -> (r: Option<Date<Tz>>)
        ensures
            opt_date_view(r) == self.spec_map_local(
                ymd_days(year_of(self@.0), month_of(self@.0), day as int),
            ),
    {
        map_local(self, self.naive_local().with_day(day))
    }

    /// The same year and month on day `day0 + 1`, if that date exists and the
    /// zone gives exactly one offset for it.
    pub fn with_day0(&self, day0: u32) -> (r: Option<Date<Tz>>)
        ensures
            opt_date_view(r) == self.spec_map_local(
                ymd_days(year_of(self@.0), month_of(self@.0), day0 + 1),
            ),
    {
        map_local(self, self.naive_local().with_day0(day0))
    }

    /// Day `ordinal` of the same year, if it exists and the zone gives exactly
    /// one offset for it.
    pub fn with_ordinal(&self, ordinal: u32) -> (r: Option<Date<Tz>>)
        ensures
            opt_date_view(r) == self.spec_map_local(yo_days(year_of(self@.0), ordinal as int)),
    {
        map_local(self, self.naive_local().with_ordinal(ordinal))
    }

    /// Day `ordinal0 + 1` of the same year, if it exists and the zone gives
    /// exactly one offset for it.
    pub fn with_ordinal0(&self, ordinal0: u32) -> (r: Option<Date<Tz>>)
        ensures
            opt_date_view(r) == self.spec_map_local(yo_days(year_of(self@.0), ordinal0 + 1)),
    {
        map_local(self, self.naive_local().with_ordinal0(ordinal0))
    }

    /// Writes the date with formatting items `items`; `None` when an item needs
    /// a time of day or is malformed. The items must not reach the permissive
    /// offset form, which has no written form, before anything fails.
    pub fn format_with_items(&self, items: &[Item]) -> (r: Option<String>)
        requires
            !reaches_permissive(items@, self@.0, self@.1.spec_fix(), self@.1.spec_name()),
        ensures
            opt_text(r) == render_items(items@, self@.0, self@.1.spec_fix(), self@.1.spec_name()),
    {
        let name = self.offset.name();
        let off = self.offset.fix().local_minus_utc();
        let mut out = String::new();
        if push_items(&mut out, items, &self.date, off, &name) {
            Some(out)
        } else {
            None
        }
    }

    /// Writes the date with strftime-style format string `fmt`; `None` when a
    /// specifier needs a time of day or is malformed. The format must not reach
    /// `%#z`, which has no written form, before anything fails.
    pub fn format(&self, fmt: &str) -> (r: Option<String>)
        requires
            !reaches_permissive(parse_format(fmt@), self@.0, self@.1.spec_fix(), self@.1.spec_name()),
        ensures
            opt_text(r) == render_items(
                parse_format(fmt@),
                self@.0,
                self@.1.spec_fix(),
                self@.1.spec_name(),
            ),
    {
        let items = strftime_items(fmt);
        self.format_with_items(items.as_slice())
    }

    /// The date as `YYYY-MM-DD` followed by how its offset writes itself.
    pub fn to_string(&self) -> (r: String)
        ensures
            r@ == iso_date_text(self@.0) + self@.1.spec_name(),
    {
        let mut out = String::new();
        push_iso_date(&mut out, &self.date);
        let name = self.offset.name();
        push_str(&mut out, name.as_str());
        out
    }

    /// The date as `YYYY-MM-DD` followed by how its offset writes itself for
    /// debugging (`Z` for UTC).
    pub fn to_debug_string(&self) -> (r: String)
        ensures
            r@ == iso_date_text(self@.0) + self@.1.spec_debug_name(),
    {
        let mut out = String::new();
        push_iso_date(&mut out, &self.date);
        let name = self.offset.debug_name();
        push_str(&mut out, name.as_str());
        out
    }

    /// Moves this date forward by the whole days of `rhs`; the result must lie
    /// in the supported range.
    pub fn add_assign(&mut self, rhs: Duration)
        requires
            shifted(old(self)@.0, num_days_of(rhs@)) is Some,
        ensures
            final(self)@ == (old(self)@.0 + num_days_of(rhs@), old(self)@.1),
    {
        self.date = self.date.checked_add_signed(rhs).unwrap();
    }

    /// Moves this date back by the whole days of `rhs`; the result must lie in
    /// the supported range.
    pub fn sub_assign(&mut self, rhs: Duration)
        requires
            shifted(old(self)@.0, -num_days_of(rhs@)) is Some,
        ensures
            final(self)@ == (old(self)@.0 - num_days_of(rhs@), old(self)@.1),
    {
        self.date = self.date.checked_sub_signed(rhs).unwrap();
    }
}

impl<Tz: TimeZone> Date<Tz> {
    /// The date whose view is that of `d` is `d` itself.
    pub proof fn lemma_date_of(d: Date<Tz>)
        ensures
            date_of::<Tz>(d@) == d,
    {
        let e = date_of::<Tz>(d@);
        assert(e@ == d@);
        Date::lemma_view_injective(e, d);
    }
}

impl<Tz: TimeZone> core::ops::Add<Duration> for Date<Tz> {
    type Output = Date<Tz>;

    /// The date the whole days of `rhs` later; the result must lie in the supported range.
    fn add(self, rhs: Duration) -> (r: Date<Tz>) {
        let r = self.checked_add_signed(rhs).unwrap();
        proof {
            Date::lemma_date_of(r);
        }
        r
    }
}

impl<Tz: TimeZone> vstd::std_specs::ops::AddSpecImpl<Duration> for Date<Tz> {
    open spec fn obeys_add_spec() -> bool {
        true
    }

    open spec fn add_req(self, rhs: Duration) -> bool {
        shifted(self@.0, num_days_of(rhs@)) is Some
    }

    open spec fn add_spec(self, rhs: Duration) -> Date<Tz> {
        date_of::<Tz>((self@.0 + num_days_of(rhs@), self@.1))
    }
}

impl<Tz: TimeZone> core::ops::Sub<Duration> for Date<Tz> {
    type Output = Date<Tz>;

    /// The date the whole days of `rhs` earlier; the result must lie in the supported range.
    fn sub(self, rhs: Duration) -> (r: Date<Tz>) {
        let r = self.checked_sub_signed(rhs).unwrap();
        proof {
            Date::lemma_date_of(r);
        }
        r
    }
}

impl<Tz: TimeZone> vstd::std_specs::ops::SubSpecImpl<Duration> for Date<Tz> {
    open spec fn obeys_sub_spec() -> bool {
        true
    }

    open spec fn sub_req(self, rhs: Duration) -> bool {
        shifted(self@.0, -num_days_of(rhs@)) is Some
    }

    open spec fn sub_spec(self, rhs: Duration) -> Date<Tz> {
        date_of::<Tz>((self@.0 - num_days_of(rhs@), self@.1))
    }
}

impl<Tz: TimeZone> core::ops::Sub<Date<Tz>> for Date<Tz> {
    type Output = Duration;

    /// The whole days from `rhs` to this date.
    fn sub(self, rhs: Date<Tz>) -> (r: Duration) {
        let r = self.signed_duration_since(rhs);
        proof {
            use_type_invariant(&r);
            Duration::lemma_duration_of(r);
        }
        r
    }
}

impl<Tz: TimeZone> vstd::std_specs::ops::SubSpecImpl<Date<Tz>> for Date<Tz> {
    open spec fn obeys_sub_spec() -> bool {
        true
    }

    open spec fn sub_req(self, rhs: Date<Tz>) -> bool {
        true
    }

    open spec fn sub_spec(self, rhs: Date<Tz>) -> Duration {
        duration_of((self@.0 - rhs@.0) * 86400 * 1_000_000_000)
    }
}

} // verus!
