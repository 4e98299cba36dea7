//! Calendar dates without a time zone, from -262144-01-01 to 262143-12-31.
use vstd::prelude::*;

use crate::calendar::{
    civil_from_days, civil_of, day_of, days_before_month, days_before_month_exec,
    days_before_year, days_before_year_exec, days_from_civil, days_in_month, days_in_month_exec,
    days_in_year, in_date_range, is_leap_year_exec, lemma_civil_in_year, lemma_civil_of,
    lemma_civil_of_days, lemma_days_before_year_step, month_of, ordinal_of, valid_civil,
    weekday_of, year_of, MAX_DAYS_FROM_CE, MAX_YEAR, MIN_DAYS_FROM_CE, MIN_YEAR,
};
use crate::duration::{num_days_of, Duration};

verus! {

/// The day of the week.
#[derive(Clone, Copy, Debug, PartialEq, Eq, Structural, Hash)]
pub enum Weekday {
    Mon,
    Tue,
    Wed,
    Thu,
    Fri,
    Sat,
    Sun,
}

impl Weekday {
    /// Days since Monday: 0 for Monday, 6 for Sunday.
    pub open spec fn index(self) -> int {
        match self {
            Weekday::Mon => 0,
            Weekday::Tue => 1,
            Weekday::Wed => 2,
            Weekday::Thu => 3,
            Weekday::Fri => 4,
            Weekday::Sat => 5,
            Weekday::Sun => 6,
        }
    }

    /// Days since Monday: 0 for Monday, 6 for Sunday.
    pub fn num_days_from_monday(&self) -> (r: u32)
        ensures
            r == self.index(),
    {
        match self {
            Weekday::Mon => 0,
            Weekday::Tue => 1,
            Weekday::Wed => 2,
            Weekday::Thu => 3,
            Weekday::Fri => 4,
            Weekday::Sat => 5,
            Weekday::Sun => 6,
        }
    }

    /// The next day of the week.
    pub fn succ(&self) -> (r: Weekday)
        ensures
            r.index() == (self.index() + 1) % 7,
    {
        match self {
            Weekday::Mon => Weekday::Tue,
            Weekday::Tue => Weekday::Wed,
            Weekday::Wed => Weekday::Thu,
            Weekday::Thu => Weekday::Fri,
            Weekday::Fri => Weekday::Sat,
            Weekday::Sat => Weekday::Sun,
            Weekday::Sun => Weekday::Mon,
        }
    }
}

/// The ISO year of the week that holds day `n`: the year of that week's Thursday.
pub open spec fn iso_year_of(n: int) -> int {
    year_of(n - weekday_of(n) + 3)
}

/// The ISO week number (1-based) of day `n`.
pub open spec fn iso_week_of(n: int) -> int {
    (ordinal_of(n - weekday_of(n) + 3) - 1) / 7 + 1
}

/// An ISO 8601 week: a year and a week number in it.
#[derive(Clone, Copy, Debug, PartialEq, Eq, Structural, Hash)]
pub struct IsoWeek {
    year: i32,
    week: u32,
}

impl IsoWeek {
    #[verifier::type_invariant]
    pub closed spec fn well_formed(self) -> bool {
        1 <= self.week <= 53
    }

    pub closed spec fn spec_year(&self) -> int {
        self.year as int
    }

    pub closed spec fn spec_week(&self) -> int {
        self.week as int
    }

    /// The ISO year of the week.
    pub fn year(&self) -> (r: i32)
        ensures
            r == self.spec_year(),
    {
        self.year
    }

    /// The week number, from 1.
    pub fn week(&self) -> (r: u32)
        ensures
            r == self.spec_week(),
    {
        self.week
    }

    /// The week number, from 0.
    pub fn week0(&self) -> (r: u32)
        ensures
            r == self.spec_week() - 1,
    {
        proof {
            use_type_invariant(self);
        }
        self.week - 1
    }
}

/// A date of the proleptic Gregorian calendar, without a time zone.
///
/// It is kept as its day number: days since the common era, 0001-01-01 being day 1.
#[derive(Clone, Copy, Debug, PartialEq, Eq, Structural, PartialOrd, Ord, Hash)]
pub struct NaiveDate {
    days: i32,
}

impl View for NaiveDate {
    /// The day number: 0001-01-01 is 1, 0000-12-31 is 0.
    type V = int;

    closed spec fn view(&self) -> int {
        self.days as int
    }
}

/// The day number that `d` days after day `n` lands on, if it names a date.
pub open spec fn shifted(n: int, d: int) -> Option<int> {
    if in_date_range(n + d) {
        Some(n + d)
    } else {
        None
    }
}

/// The date of `y`, `m`, `d`, if it exists and lies within the supported years.
pub open spec fn ymd_days(y: int, m: int, d: int) -> Option<int> {
    if MIN_YEAR <= y <= MAX_YEAR && valid_civil(y, m, d) {
        Some(days_from_civil(y, m, d))
    } else {
        None
    }
}

/// The date of day `o` (1-based) of year `y`, if it exists and lies within the supported years.
pub open spec fn yo_days(y: int, o: int) -> Option<int> {
    if MIN_YEAR <= y <= MAX_YEAR && 1 <= o <= days_in_year(y) {
        Some(days_before_year(y) + o)
    } else {
        None
    }
}

/// The day number of an optional date.
pub open spec fn opt_days(r: Option<NaiveDate>) -> Option<int> {
    match r {
        Some(d) => Some(d@),
        None => None,
    }
}

impl NaiveDate {
    #[verifier::type_invariant]
    pub closed spec fn well_formed(self) -> bool {
        in_date_range(self.days as int)
    }

    /// A date that meets its type invariant lies in the supported range.
    pub proof fn lemma_well_formed(d: NaiveDate)
        requires
            d.well_formed(),
        ensures
            in_date_range(d@),
    {
    }

    /// Dates are told apart by their day numbers.
    pub proof fn lemma_view_injective(a: NaiveDate, b: NaiveDate)
        requires
            a@ == b@,
        ensures
            a == b,
    {
    }

    /// The date with day number `days`, if it lies in the supported range.
    pub fn from_num_days_from_ce_opt(days: i32) -> (r: Option<NaiveDate>)
        ensures
            opt_days(r) == shifted(days as int, 0),
    {
        if MIN_DAYS_FROM_CE <= days && days <= MAX_DAYS_FROM_CE {
            Some(NaiveDate { days })
        } else {
            None
        }
    }

    /// The day number: days since the common era, 0001-01-01 being day 1.
    pub fn num_days_from_ce(&self) -> (r: i32)
        ensures
            r == self@,
    {
        self.days
    }

    /// The date of year `year`, month `month` and day `day`, if it exists.
    pub fn from_ymd_opt(year: i32, month: u32, day: u32) -> (r: Option<NaiveDate>)
        ensures
            opt_days(r) == ymd_days(year as int, month as int, day as int),
    {
        if year < MIN_YEAR || year > MAX_YEAR || month < 1 || month > 12 {
            return None;
        }
        let y = year as i64;
        if day < 1 || day > days_in_month_exec(y, month) {
            return None;
        }
        let n = days_before_year_exec(y) + days_before_month_exec(y, month) as i64 + day as i64;
        proof {
            lemma_civil_in_year(year as int, month as int, day as int);
            lemma_days_before_year_step(year as int);
            crate::calendar::lemma_days_before_year_bounds(MIN_YEAR as int, year as int);
            crate::calendar::lemma_days_before_year_bounds(year as int + 1, MAX_YEAR as int + 1);
        }
        Some(NaiveDate { days: n as i32 })
    }

    /// The date of year `year`, month `month` and day `day`; the date must exist.
    pub fn from_ymd(year: i32, month: u32, day: u32) -> (r: NaiveDate)
        requires
            ymd_days(year as int, month as int, day as int) is Some,
        ensures
            Some(r@) == ymd_days(year as int, month as int, day as int),
    {
        NaiveDate::from_ymd_opt(year, month, day).unwrap()
    }

    /// The date of day `ordinal` (1-based) of year `year`, if it exists.
    pub fn from_yo_opt(year: i32, ordinal: u32) -> (r: Option<NaiveDate>)
        ensures
            opt_days(r) == yo_days(year as int, ordinal as int),
    {
        if year < MIN_YEAR || year > MAX_YEAR || ordinal < 1 {
            return None;
        }
        let y = year as i64;
        let len: u32 = if is_leap_year_exec(y) {
            366
        } else {
            365
        };
        if ordinal > len {
            return None;
        }
        let n = days_before_year_exec(y) + ordinal as i64;
        proof {
            lemma_days_before_year_step(year as int);
            crate::calendar::lemma_days_before_year_bounds(MIN_YEAR as int, year as int);
            crate::calendar::lemma_days_before_year_bounds(year as int + 1, MAX_YEAR as int + 1);
        }
        Some(NaiveDate { days: n as i32 })
    }

    /// The year.
    pub fn year(&self) -> (r: i32)
        ensures
            r == year_of(self@),
            MIN_YEAR <= r <= MAX_YEAR,
    {
        proof {
            use_type_invariant(self);
        }
        let (y, _m, _d, _o) = civil_from_days(self.days as i64);
        proof {
            lemma_civil_of(self@);
            lemma_civil_in_year(year_of(self@), month_of(self@), day_of(self@));
            if y < MIN_YEAR {
                crate::calendar::lemma_days_before_year_step(y as int);
            }
            if y > MAX_YEAR {
                crate::calendar::lemma_days_before_year_bounds(MAX_YEAR as int + 1, y as int);
            }
        }
        y as i32
    }

    /// The month, from 1 to 12.
    pub fn month(&self) -> (r: u32)
        ensures
            r == month_of(self@),
            1 <= r <= 12,
    {
        proof {
            use_type_invariant(self);
            lemma_civil_of(self@);
        }
        let (_y, m, _d, _o) = civil_from_days(self.days as i64);
        m
    }

    /// The month, from 0 to 11.
    pub fn month0(&self) -> (r: u32)
        ensures
            r == month_of(self@) - 1,
    {
        self.month() - 1
    }

    /// The day of the month, from 1.
    pub fn day(&self) -> (r: u32)
        ensures
            r == day_of(self@),
            1 <= r <= 31,
    {
        proof {
            use_type_invariant(self);
            lemma_civil_of(self@);
        }
        let (_y, _m, d, _o) = civil_from_days(self.days as i64);
        d
    }

    /// The day of the month, from 0.
    pub fn day0(&self) -> (r: u32)
        ensures
            r == day_of(self@) - 1,
    {
        self.day() - 1
    }

    /// The day of the year, from 1.
    pub fn ordinal(&self) -> (r: u32)
        ensures
            r == ordinal_of(self@),
            1 <= r <= 366,
    {
        proof {
            use_type_invariant(self);
        }
        let (_y, _m, _d, o) = civil_from_days(self.days as i64);
        o
    }

    /// The day of the year, from 0.
    pub fn ordinal0(&self) -> (r: u32)
        ensures
            r == ordinal_of(self@) - 1,
    {
        self.ordinal() - 1
    }

    /// The day of the week.
    pub fn weekday(&self) -> (r: Weekday)
        ensures
            r.index() == weekday_of(self@),
    {
        proof {
            use_type_invariant(self);
        }
        // Shift by whole weeks so that the remainder acts on a non-negative number.
        let k: u64 = (self.days as i64 - 1 + 7 * 14_000_000) as u64;
        proof {
            assert((self@ - 1 + 7 * 14_000_000) % 7 == (self@ - 1) % 7);
        }
        let i = k % 7;
        if i == 0 {
            Weekday::Mon
        } else if i == 1 {
            Weekday::Tue
        } else if i == 2 {
            Weekday::Wed
        } else if i == 3 {
            Weekday::Thu
        } else if i == 4 {
            Weekday::Fri
        } else if i == 5 {
            Weekday::Sat
        } else {
            Weekday::Sun
        }
    }

    /// The ISO 8601 week that holds this date.
    pub fn iso_week(&self) -> (r: IsoWeek)
        ensures
            r.spec_year() == iso_year_of(self@),
            r.spec_week() == iso_week_of(self@),
            1 <= r.spec_week() <= 53,
            MIN_YEAR - 1 <= r.spec_year() <= MAX_YEAR + 1,
    {
        proof {
            use_type_invariant(self);
        }
        let wd = self.weekday().num_days_from_monday();
        let thursday: i64 = self.days as i64 - wd as i64 + 3;
        let (y, _m, _d, o) = civil_from_days(thursday);
        IsoWeek { year: y as i32, week: (o - 1) / 7 + 1 }
    }

    /// The next day, if it lies in the supported range.
    pub fn succ_opt(&self) -> (r: Option<NaiveDate>)
        ensures
            opt_days(r) == shifted(self@, 1),
    {
        proof {
            use_type_invariant(self);
        }
        if self.days < MAX_DAYS_FROM_CE {
            Some(NaiveDate { days: self.days + 1 })
        } else {
            None
        }
    }

    /// The previous day, if it lies in the supported range.
    pub fn pred_opt(&self) -> (r: Option<NaiveDate>)
        ensures
            opt_days(r) == shifted(self@, -1),
    {
        proof {
            use_type_invariant(self);
        }
        if self.days > MIN_DAYS_FROM_CE {
            Some(NaiveDate { days: self.days - 1 })
        } else {
            None
        }
    }

    /// Moves the date by the whole days of `rhs` (rounded toward zero), if the
    /// result lies in the supported range.
    pub fn checked_add_signed(self, rhs: Duration) -> (r: Option<NaiveDate>)
        ensures
            opt_days(r) == shifted(self@, num_days_of(rhs@)),
    {
        proof {
            use_type_invariant(&self);
        }
        let n = self.days as i64 + rhs.num_days();
        if MIN_DAYS_FROM_CE as i64 <= n && n <= MAX_DAYS_FROM_CE as i64 {
            Some(NaiveDate { days: n as i32 })
        } else {
            None
        }
    }

    /// Moves the date back by the whole days of `rhs` (rounded toward zero), if
    /// the result lies in the supported range.
    pub fn checked_sub_signed(self, rhs: Duration) -> (r: Option<NaiveDate>)
        ensures
            opt_days(r) == shifted(self@, -num_days_of(rhs@)),
    {
        proof {
            use_type_invariant(&self);
        }
        let n = self.days as i64 - rhs.num_days();
        if MIN_DAYS_FROM_CE as i64 <= n && n <= MAX_DAYS_FROM_CE as i64 {
            Some(NaiveDate { days: n as i32 })
        } else {
            None
        }
    }

    /// The number of days from `rhs` to this date, as a duration.
    pub fn signed_duration_since(self, rhs: NaiveDate) -> (r: Duration)
        ensures
            r@ == (self@ - rhs@) * 86400 * 1_000_000_000,
    {
        proof {
            use_type_invariant(&self);
            use_type_invariant(&rhs);
        }
        Duration::days(self.days as i64 - rhs.days as i64)
    }

    /// The same month and day in year `year`, if that date exists.
    pub fn with_year(&self, year: i32) -> (r: Option<NaiveDate>)
        ensures
            opt_days(r) == ymd_days(year as int, month_of(self@), day_of(self@)),
    {
        NaiveDate::from_ymd_opt(year, self.month(), self.day())
    }

    /// The same year and day in month `month` (1 to 12), if that date exists.
    pub fn with_month(&self, month: u32) -> (r: Option<NaiveDate>)
        ensures
            opt_days(r) == ymd_days(year_of(self@), month as int, day_of(self@)),
    {
        NaiveDate::from_ymd_opt(self.year(), month, self.day())
    }

    /// The same year and day in month `month0 + 1`, if that date exists.
    pub fn with_month0(&self, month0: u32) -> (r: Option<NaiveDate>)
        ensures
            opt_days(r) == ymd_days(year_of(self@), month0 + 1, day_of(self@)),
    {
        if month0 >= 12 {
            return None;
        }
        NaiveDate::from_ymd_opt(self.year(), month0 + 1, self.day())
    }

    /// The same year and month on day `day`, if that date exists.
    pub fn with_day(&self, day: u32) -> (r: Option<NaiveDate>)
        ensures
            opt_days(r) == ymd_days(year_of(self@), month_of(self@), day as int),
    {
        NaiveDate::from_ymd_opt(self.year(), self.month(), day)
    }

    /// The same year and month on day `day0 + 1`, if that date exists.
    pub fn with_day0(&self, day0: u32) -> (r: Option<NaiveDate>)
        ensures
            opt_days(r) == ymd_days(year_of(self@), month_of(self@), day0 + 1),
    {
        if day0 >= 31 {
            return None;
        }
        NaiveDate::from_ymd_opt(self.year(), self.month(), day0 + 1)
    }

    /// Day `ordinal` (from 1) of the same year, if it exists.
    pub fn with_ordinal(&self, ordinal: u32) -> (r: Option<NaiveDate>)
        ensures
            opt_days(r) == yo_days(year_of(self@), ordinal as int),
    {
        NaiveDate::from_yo_opt(self.year(), ordinal)
    }

    /// Day `ordinal0 + 1` of the same year, if it exists.
    pub fn with_ordinal0(&self, ordinal0: u32) -> (r: Option<NaiveDate>)
        ensures
            opt_days(r) == yo_days(year_of(self@), ordinal0 + 1),
    {
        if ordinal0 >= 366 {
            return None;
        }
        NaiveDate::from_yo_opt(self.year(), ordinal0 + 1)
    }
}

} // verus!
