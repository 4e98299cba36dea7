//! The proleptic Gregorian calendar as mathematics: day numbers, civil
//! dates, weekdays, and the lemmas that tie them together.
use vstd::prelude::*;

verus! {

/// The earliest year a date of this library can have.
pub const MIN_YEAR: i32 = -262144;

/// The latest year a date of this library can have.
pub const MAX_YEAR: i32 = 262143;

/// Day number (days since the common era, 0001-01-01 being day 1) of -262144-01-01.
pub const MIN_DAYS_FROM_CE: i32 = -95746495;

/// Day number of 262143-12-31.
pub const MAX_DAYS_FROM_CE: i32 = 95745764;

pub open spec fn is_leap_year(y: int) -> bool {
    y % 4 == 0 && (y % 100 != 0 || y % 400 == 0)
}

pub open spec fn days_in_year(y: int) -> int {
    if is_leap_year(y) {
        366
    } else {
        365
    }
}

pub open spec fn days_in_month(y: int, m: int) -> int {
    if m == 2 {
        if is_leap_year(y) {
            29
        } else {
            28
        }
    } else if m == 4 || m == 6 || m == 9 || m == 11 {
        30
    } else {
        31
    }
}

/// Number of days of year `y` that come before the first day of month `m`.
pub open spec fn days_before_month(y: int, m: int) -> int {
    let leap: int = if is_leap_year(y) {
        1
    } else {
        0
    };
    if m <= 1 {
        0
    } else if m == 2 {
        31
    } else if m == 3 {
        59 + leap
    } else if m == 4 {
        90 + leap
    } else if m == 5 {
        120 + leap
    } else if m == 6 {
        151 + leap
    } else if m == 7 {
        181 + leap
    } else if m == 8 {
        212 + leap
    } else if m == 9 {
        243 + leap
    } else if m == 10 {
        273 + leap
    } else if m == 11 {
        304 + leap
    } else {
        334 + leap
    }
}

/// Number of days from 0001-01-01 (inclusive) to the first day of year `y`
/// (exclusive); negative for years before 1.
pub open spec fn days_before_year(y: int) -> int {
    let x = y - 1;
    365 * x + x / 4 - x / 100 + x / 400
}

/// A civil date (year, month, day) names a day that exists.
pub open spec fn valid_civil(y: int, m: int, d: int) -> bool {
    1 <= m <= 12 && 1 <= d <= days_in_month(y, m)
}

/// The day number of a civil date: 0001-01-01 is day 1.
pub open spec fn days_from_civil(y: int, m: int, d: int) -> int {
    days_before_year(y) + days_before_month(y, m) + d
}

/// The civil date of day number `n`.
pub open spec fn civil_of(n: int) -> (int, int, int) {
    choose|y: int, m: int, d: int| valid_civil(y, m, d) && days_from_civil(y, m, d) == n
}

pub open spec fn year_of(n: int) -> int {
    civil_of(n).0
}

pub open spec fn month_of(n: int) -> int {
    civil_of(n).1
}

pub open spec fn day_of(n: int) -> int {
    civil_of(n).2
}

/// Day of the year, 1-based.
pub open spec fn ordinal_of(n: int) -> int {
    n - days_before_year(year_of(n))
}

/// Days since the Monday that starts the week of day `n`: 0 for Monday, 6 for Sunday.
pub open spec fn weekday_of(n: int) -> int {
    (n - 1) % 7
}

/// `(y1, m1, d1)` comes strictly before `(y2, m2, d2)`.
pub open spec fn civil_lt(y1: int, m1: int, d1: int, y2: int, m2: int, d2: int) -> bool {
    y1 < y2 || (y1 == y2 && (m1 < m2 || (m1 == m2 && d1 < d2)))
}

/// Day numbers that name a date of this library.
pub open spec fn in_date_range(n: int) -> bool {
    MIN_DAYS_FROM_CE <= n <= MAX_DAYS_FROM_CE
}

/// The calendar day that follows a valid civil date.
pub open spec fn civil_next(y: int, m: int, d: int) -> (int, int, int) {
    if d < days_in_month(y, m) {
        (y, m, d + 1)
    } else if m < 12 {
        (y, m + 1, 1)
    } else {
        (y + 1, 1, 1)
    }
}

/// The calendar day that precedes a valid civil date.
pub open spec fn civil_prev(y: int, m: int, d: int) -> (int, int, int) {
    if d > 1 {
        (y, m, d - 1)
    } else if m > 1 {
        (y, m - 1, days_in_month(y, m - 1))
    } else {
        (y - 1, 12, 31)
    }
}

pub proof fn lemma_days_before_year_step(y: int)
    ensures
        days_before_year(y + 1) == days_before_year(y) + days_in_year(y),
{
    let x = y - 1;
    assert((x + 1) / 4 - x / 4 == if y % 4 == 0 { 1int } else { 0int });
    assert((x + 1) / 100 - x / 100 == if y % 100 == 0 { 1int } else { 0int });
    assert((x + 1) / 400 - x / 400 == if y % 400 == 0 { 1int } else { 0int });
}

/// Between any two years, each year adds 365 or 366 days.
pub proof fn lemma_days_before_year_bounds(a: int, b: int)
    requires
        a <= b,
    ensures
        days_before_year(a) + 365 * (b - a) <= days_before_year(b),
        days_before_year(b) <= days_before_year(a) + 366 * (b - a),
    decreases b - a,
{
    if a < b {
        lemma_days_before_year_bounds(a, b - 1);
        lemma_days_before_year_step(b - 1);
    }
}

pub proof fn lemma_month_facts(y: int, m: int)
    requires
        1 <= m <= 12,
    ensures
        days_before_month(y, m) + days_in_month(y, m) <= days_in_year(y),
        m < 12 ==> days_before_month(y, m + 1) == days_before_month(y, m) + days_in_month(y, m),
        m == 12 ==> days_before_month(y, m) + days_in_month(y, m) == days_in_year(y),
        28 <= days_in_month(y, m) <= 31,
{
}

/// A valid civil date lies within its year.
pub proof fn lemma_civil_in_year(y: int, m: int, d: int)
    requires
        valid_civil(y, m, d),
    ensures
        days_before_year(y) < days_from_civil(y, m, d) <= days_before_year(y) + days_in_year(y),
        days_from_civil(y, m, d) <= days_before_year(y + 1),
{
    lemma_month_facts(y, m);
    lemma_days_before_year_step(y);
}

pub proof fn lemma_civil_next(y: int, m: int, d: int)
    requires
        valid_civil(y, m, d),
    ensures
        valid_civil(civil_next(y, m, d).0, civil_next(y, m, d).1, civil_next(y, m, d).2),
        days_from_civil(civil_next(y, m, d).0, civil_next(y, m, d).1, civil_next(y, m, d).2)
            == days_from_civil(y, m, d) + 1,
{
    lemma_month_facts(y, m);
    lemma_days_before_year_step(y);
}

pub proof fn lemma_civil_prev(y: int, m: int, d: int)
    requires
        valid_civil(y, m, d),
    ensures
        valid_civil(civil_prev(y, m, d).0, civil_prev(y, m, d).1, civil_prev(y, m, d).2),
        days_from_civil(civil_prev(y, m, d).0, civil_prev(y, m, d).1, civil_prev(y, m, d).2)
            == days_from_civil(y, m, d) - 1,
{
    if d == 1 && m > 1 {
        lemma_month_facts(y, m - 1);
    }
    if d == 1 && m == 1 {
        lemma_month_facts(y - 1, 12);
        lemma_days_before_year_step(y - 1);
    }
}

/// Every day number names exactly one valid civil date (existence half).
pub proof fn lemma_civil_exists(n: int)
    ensures
        exists|y: int, m: int, d: int| valid_civil(y, m, d) && days_from_civil(y, m, d) == n,
    decreases (if n >= 1 { n - 1 } else { 1 - n }),
{
    if n == 1 {
        assert(valid_civil(1, 1, 1) && days_from_civil(1, 1, 1) == 1);
    } else if n > 1 {
        lemma_civil_exists(n - 1);
        let (y, m, d) = choose|y: int, m: int, d: int|
            valid_civil(y, m, d) && days_from_civil(y, m, d) == n - 1;
        lemma_civil_next(y, m, d);
        let c = civil_next(y, m, d);
        assert(valid_civil(c.0, c.1, c.2) && days_from_civil(c.0, c.1, c.2) == n);
    } else {
        lemma_civil_exists(n + 1);
        let (y, m, d) = choose|y: int, m: int, d: int|
            valid_civil(y, m, d) && days_from_civil(y, m, d) == n + 1;
        lemma_civil_prev(y, m, d);
        let c = civil_prev(y, m, d);
        assert(valid_civil(c.0, c.1, c.2) && days_from_civil(c.0, c.1, c.2) == n);
    }
}

/// Chronological order of valid civil dates is the order of their day numbers.
pub proof fn lemma_civil_order(y1: int, m1: int, d1: int, y2: int, m2: int, d2: int)
    requires
        valid_civil(y1, m1, d1),
        valid_civil(y2, m2, d2),
        civil_lt(y1, m1, d1, y2, m2, d2),
    ensures
        days_from_civil(y1, m1, d1) < days_from_civil(y2, m2, d2),
{
    lemma_civil_in_year(y1, m1, d1);
    lemma_civil_in_year(y2, m2, d2);
    if y1 < y2 {
        lemma_days_before_year_bounds(y1 + 1, y2);
    } else if m1 < m2 {
        lemma_months_ordered(y1, m1, m2);
    }
}

pub proof fn lemma_months_ordered(y: int, m1: int, m2: int)
    requires
        1 <= m1 < m2 <= 12,
    ensures
        days_before_month(y, m1) + days_in_month(y, m1) <= days_before_month(y, m2),
    decreases m2 - m1,
{
    lemma_month_facts(y, m1);
    if m1 + 1 < m2 {
        lemma_months_ordered(y, m1 + 1, m2);
        lemma_month_facts(y, m1 + 1);
    }
}

/// Distinct valid civil dates have distinct day numbers.
pub proof fn lemma_civil_injective(y1: int, m1: int, d1: int, y2: int, m2: int, d2: int)
    requires
        valid_civil(y1, m1, d1),
        valid_civil(y2, m2, d2),
        days_from_civil(y1, m1, d1) == days_from_civil(y2, m2, d2),
    ensures
        y1 == y2 && m1 == m2 && d1 == d2,
{
    if civil_lt(y1, m1, d1, y2, m2, d2) {
        lemma_civil_order(y1, m1, d1, y2, m2, d2);
    } else if civil_lt(y2, m2, d2, y1, m1, d1) {
        lemma_civil_order(y2, m2, d2, y1, m1, d1);
    }
}

/// `civil_of(n)` is the valid civil date with day number `n`.
pub proof fn lemma_civil_of(n: int)
    ensures
        valid_civil(year_of(n), month_of(n), day_of(n)),
        days_from_civil(year_of(n), month_of(n), day_of(n)) == n,
{
    lemma_civil_exists(n);
}

/// A valid civil date is the civil date of its day number.
pub proof fn lemma_civil_of_days(y: int, m: int, d: int)
    requires
        valid_civil(y, m, d),
    ensures
        civil_of(days_from_civil(y, m, d)) == (y, m, d),
{
    let n = days_from_civil(y, m, d);
    lemma_civil_of(n);
    lemma_civil_injective(y, m, d, year_of(n), month_of(n), day_of(n));
}

/// Years that the executable helpers below accept.
pub open spec fn helper_year_range(y: int) -> bool {
    MIN_YEAR - 8 <= y <= MAX_YEAR + 8
}

/// Day numbers that the executable helpers below accept: the date range widened by a week.
pub open spec fn helper_day_range(n: int) -> bool {
    MIN_DAYS_FROM_CE - 7 <= n <= MAX_DAYS_FROM_CE + 7
}

pub fn is_leap_year_exec(y: i64) -> (r: bool)
    requires
        helper_year_range(y as int),
    ensures
        r == is_leap_year(y as int),
{
    let x: u64 = (y + 400000) as u64;
    proof {
        assert((y + 400000) % 4 == y % 4);
        assert((y + 400000) % 100 == y % 100);
        assert((y + 400000) % 400 == y % 400);
    }
    x % 4 == 0 && (x % 100 != 0 || x % 400 == 0)
}

pub fn days_in_month_exec(y: i64, m: u32) -> (r: u32)
    requires
        helper_year_range(y as int),
        1 <= m <= 12,
    ensures
        r == days_in_month(y as int, m as int),
{
    if m == 2 {
        if is_leap_year_exec(y) {
            29
        } else {
            28
        }
    } else if m == 4 || m == 6 || m == 9 || m == 11 {
        30
    } else {
        31
    }
}

pub fn days_before_month_exec(y: i64, m: u32) -> (r: u32)
    requires
        helper_year_range(y as int),
        1 <= m <= 12,
    ensures
        r == days_before_month(y as int, m as int),
        r <= 335,
{
    let leap: u32 = if is_leap_year_exec(y) {
        1
    } else {
        0
    };
    if m == 1 {
        0
    } else if m == 2 {
        31
    } else if m == 3 {
        59 + leap
    } else if m == 4 {
        90 + leap
    } else if m == 5 {
        120 + leap
    } else if m == 6 {
        151 + leap
    } else if m == 7 {
        181 + leap
    } else if m == 8 {
        212 + leap
    } else if m == 9 {
        243 + leap
    } else if m == 10 {
        273 + leap
    } else if m == 11 {
        304 + leap
    } else {
        334 + leap
    }
}

pub fn days_before_year_exec(y: i64) -> (r: i64)
    requires
        helper_year_range(y as int),
    ensures
        r == days_before_year(y as int),
        -95760000 <= r <= 95760000,
{
    // Shift by whole 400-year cycles so that the divisions act on a non-negative number.
    let x: u64 = (y + 399999) as u64;
    proof {
        let x0 = y - 1;
        assert((x0 + 400000) / 4 == x0 / 4 + 100000);
        assert((x0 + 400000) / 100 == x0 / 100 + 4000);
        assert((x0 + 400000) / 400 == x0 / 400 + 1000);
    }
    let q4 = (x / 4) as i64 - 100000;
    let q100 = (x / 100) as i64 - 4000;
    let q400 = (x / 400) as i64 - 1000;
    365 * (y - 1) + q4 - q100 + q400
}

/// The year that contains day number `n`, with the day number of the day before its first day.
pub fn year_containing(n: i64) -> (r: (i64, i64))
    requires
        helper_day_range(n as int),
    ensures
        r.1 == days_before_year(r.0 as int),
        days_before_year(r.0 as int) < n <= days_before_year(r.0 + 1),
        MIN_YEAR - 1 <= r.0 <= MAX_YEAR + 1,
{
    let mut lo: i64 = MIN_YEAR as i64 - 2;
    let mut hi: i64 = MAX_YEAR as i64 + 2;
    assert(days_before_year(lo as int) < n);
    assert(n <= days_before_year(hi as int));
    while hi - lo > 1
        invariant
            MIN_YEAR - 2 <= lo < hi <= MAX_YEAR + 2,
            days_before_year(lo as int) < n <= days_before_year(hi as int),
        decreases hi - lo,
    {
        let mid = lo + (hi - lo) / 2;
        if days_before_year_exec(mid) < n {
            lo = mid;
        } else {
            hi = mid;
        }
    }
    proof {
        let min_y = MIN_YEAR as int;
        let max_y = MAX_YEAR as int;
        lemma_days_before_year_bounds(min_y - 2, min_y);
        lemma_days_before_year_bounds(max_y, max_y + 2);
        if lo < min_y - 1 {
            lemma_days_before_year_bounds(lo + 1, min_y);
        }
        if lo > max_y + 1 {
            lemma_days_before_year_bounds(max_y, lo as int);
        }
    }
    (lo, days_before_year_exec(lo))
}

/// The civil date of day number `n`, with its day of the year.
pub fn civil_from_days(n: i64) -> (r: (i64, u32, u32, u32))
    requires
        helper_day_range(n as int),
    ensures
        (r.0 as int, r.1 as int, r.2 as int) == civil_of(n as int),
        r.3 == ordinal_of(n as int),
        MIN_YEAR - 1 <= r.0 <= MAX_YEAR + 1,
        1 <= r.3 <= 366,
{
    let (y, before) = year_containing(n);
    proof {
        lemma_days_before_year_step(y as int);
    }
    let ordinal: u32 = (n - before) as u32;
    let mut m: u32 = 1;
    while m < 12 && days_before_month_exec(y, m + 1) < ordinal
        invariant
            1 <= m <= 12,
            helper_year_range(y as int),
            days_before_month(y as int, m as int) < ordinal,
            ordinal <= days_in_year(y as int),
        decreases 12 - m,
    {
        m = m + 1;
    }
    proof {
        lemma_month_facts(y as int, m as int);
    }
    let d: u32 = ordinal - days_before_month_exec(y, m);
    proof {
        lemma_civil_of_days(y as int, m as int, d as int);
    }
    (y, m, d, ordinal)
}

} // verus!
