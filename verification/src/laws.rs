//! Properties that hold across the operations of this library.
use vstd::prelude::*;

use crate::calendar::{
    civil_lt, civil_next, civil_of, day_of, days_from_civil, in_date_range, lemma_civil_next,
    lemma_civil_of, lemma_civil_of_days, lemma_civil_order, month_of, valid_civil, weekday_of,
    year_of,
};
use crate::date::{month_day_lt, years_between};
use crate::date_order::compare_days;
use crate::calendar::{
    days_before_month, lemma_civil_in_year, lemma_days_before_year_bounds, lemma_months_ordered,
    ordinal_of,
};
use crate::duration::{num_days_of, num_seconds_of};
use crate::naive_time::hms_nano_time;
use crate::clock::clock_reading_days;
use crate::calendar::{MAX_DAYS_FROM_CE, MIN_DAYS_FROM_CE};
use crate::format::{
    char_item, iso_date_text, parse_format, parse_from, render_item, render_items, spec_items,
    Fixed, Item, Numeric, Pad,
};
use crate::calendar::{days_before_year, is_leap_year, lemma_days_before_year_step, lemma_month_facts};
use crate::date::Date;
use crate::naive_date::{iso_week_of, iso_year_of, shifted, ymd_days, yo_days};
use crate::duration::{max_nanos, Duration};
use vstd::std_specs::ops::SubSpec;
use crate::naive_time::shift_secs;
use crate::offset::{LocalResult, Offset, TimeZone};
use vstd::std_specs::cmp::{PartialEqSpec, PartialOrdSpec};

verus! {

/// Moving a date by some days and then back by the same days gives the date back.
pub proof fn law_shift_round_trip(n: int, k: int)
    requires
        in_date_range(n),
        shifted(n, k) is Some,
    ensures
        shifted(shifted(n, k)->0, -k) == Some(n),
{
}

/// The day after the day before is the same day, and the other way round.
pub proof fn law_succ_pred_inverse(n: int)
    requires
        in_date_range(n),
    ensures
        shifted(n, 1) is Some ==> shifted(shifted(n, 1)->0, -1) == Some(n),
        shifted(n, -1) is Some ==> shifted(shifted(n, -1)->0, 1) == Some(n),
{
}

/// A duration of `k` whole days holds `k` whole days: the days that one date
/// lies after another, taken as a duration and added back, give the later date.
pub proof fn law_days_duration_round_trip(k: int)
    ensures
        num_days_of(k * 86400 * 1_000_000_000) == k,
{
    assert(k * 86400 * 1_000_000_000 == (k * 86400) * 1_000_000_000);
    if k < 0 {
        assert((-(k * 86400 * 1_000_000_000)) / 1_000_000_000 == -(k * 86400));
        assert((-(k * 86400)) / 86400 == -k);
    }
}

/// The day after a date is the next day of the calendar: the next day of the
/// month, the first of the next month, or New Year's Day.
pub proof fn law_next_day_is_next_calendar_day(n: int)
    ensures
        civil_of(n + 1) == civil_next(year_of(n), month_of(n), day_of(n)),
{
    lemma_civil_of(n);
    lemma_civil_next(year_of(n), month_of(n), day_of(n));
    let c = civil_next(year_of(n), month_of(n), day_of(n));
    lemma_civil_of_days(c.0, c.1, c.2);
}

/// The weekday advances by one each day, Sunday being followed by Monday.
pub proof fn law_weekday_advances(n: int)
    ensures
        weekday_of(n + 1) == (weekday_of(n) + 1) % 7,
{
}

/// A date made from a year, a month and a day has that year, month and day.
pub proof fn law_ymd_round_trip(y: int, m: int, d: int)
    requires
        ymd_days(y, m, d) is Some,
    ensures
        year_of(ymd_days(y, m, d)->0) == y,
        month_of(ymd_days(y, m, d)->0) == m,
        day_of(ymd_days(y, m, d)->0) == d,
{
    lemma_civil_of_days(y, m, d);
}

/// Dates compare as their (year, month, day) triples do.
pub proof fn law_order_is_calendar_order(a: int, b: int)
    ensures
        compare_days(a, b) == core::cmp::Ordering::Less <==> civil_lt(
            year_of(a),
            month_of(a),
            day_of(a),
            year_of(b),
            month_of(b),
            day_of(b),
        ),
        compare_days(a, b) == core::cmp::Ordering::Equal <==> civil_of(a) == civil_of(b),
{
    lemma_civil_of(a);
    lemma_civil_of(b);
    let (ya, ma, da) = civil_of(a);
    let (yb, mb, db) = civil_of(b);
    if civil_lt(ya, ma, da, yb, mb, db) {
        lemma_civil_order(ya, ma, da, yb, mb, db);
    }
    if civil_lt(yb, mb, db, ya, ma, da) {
        lemma_civil_order(yb, mb, db, ya, ma, da);
    }
}

/// The whole years from `base` to `n` are never negative when `base` is not
/// later than `n`, and negative when it is: `years_since` answers `None`
/// exactly when the base date is later.
pub proof fn law_years_since_defined_iff_not_later(n: int, base: int)
    ensures
        years_between(n, base) >= 0 <==> base <= n,
{
    lemma_civil_of(n);
    lemma_civil_of(base);
    let (y1, m1, d1) = civil_of(n);
    let (y2, m2, d2) = civil_of(base);
    if civil_lt(y1, m1, d1, y2, m2, d2) {
        lemma_civil_order(y1, m1, d1, y2, m2, d2);
    }
    if civil_lt(y2, m2, d2, y1, m1, d1) {
        lemma_civil_order(y2, m2, d2, y1, m1, d1);
    }
}

/// The day of the year is the days of the months before plus the day of the month.
pub proof fn law_ordinal_is_month_and_day(n: int)
    ensures
        ordinal_of(n) == days_before_month(year_of(n), month_of(n)) + day_of(n),
{
    lemma_civil_of(n);
}

/// Writing items one run after another writes each run after the other; the
/// whole fails when either run fails.
pub proof fn law_render_concat(a: Seq<Item>, b: Seq<Item>, n: int, off: int, name: Seq<char>)
    ensures
        render_items(a + b, n, off, name) == match (
            render_items(a, n, off, name),
            render_items(b, n, off, name),
        ) {
            (Some(x), Some(y)) => Some(x + y),
            _ => None,
        },
    decreases b.len(),
{
    if b.len() == 0 {
        assert(a + b =~= a);
        match render_items(a, n, off, name) {
            Some(x) => {
                assert(x + Seq::<char>::empty() =~= x);
            },
            None => {},
        }
    } else {
        assert((a + b).drop_last() =~= a + b.drop_last());
        assert((a + b).last() == b.last());
        law_render_concat(a, b.drop_last(), n, off, name);
        match (
            render_items(a, n, off, name),
            render_items(b.drop_last(), n, off, name),
            render_item(b.last(), n, off, name),
        ) {
            (Some(x), Some(y), Some(z)) => {
                assert(x + y + z =~= x + (y + z));
            },
            _ => {},
        }
    }
}

proof fn lemma_render_plain(t: Seq<char>, n: int, off: int, name: Seq<char>)
    ensures
        render_items(t.map_values(|c: char| char_item(c)), n, off, name) == Some(t),
    decreases t.len(),
{
    let items = t.map_values(|c: char| char_item(c));
    if t.len() == 0 {
        assert(t =~= Seq::<char>::empty());
    } else {
        assert(items.drop_last() =~= t.drop_last().map_values(|c: char| char_item(c)));
        lemma_render_plain(t.drop_last(), n, off, name);
        assert(t.drop_last() + seq![t.last()] =~= t);
    }
}

proof fn lemma_parse_plain(s: Seq<char>, i: int)
    requires
        0 <= i <= s.len(),
        forall|k: int| 0 <= k < s.len() ==> s[k] != '%',
    ensures
        parse_from(s, i) == s.subrange(i, s.len() as int).map_values(|c: char| char_item(c)),
    decreases s.len() - i,
{
    if i == s.len() {
        assert(s.subrange(i, s.len() as int).map_values(|c: char| char_item(c)) =~= Seq::<
            Item,
        >::empty());
    } else {
        lemma_parse_plain(s, i + 1);
        assert(s.subrange(i, s.len() as int).map_values(|c: char| char_item(c)) =~= seq![
            char_item(s[i]),
        ] + s.subrange(i + 1, s.len() as int).map_values(|c: char| char_item(c)));
    }
}

/// A format string without `%` is written out as it is, whatever the date.
pub proof fn law_plain_text_is_verbatim(s: Seq<char>, n: int, off: int, name: Seq<char>)
    requires
        forall|k: int| 0 <= k < s.len() ==> s[k] != '%',
    ensures
        render_items(parse_format(s), n, off, name) == Some(s),
{
    lemma_parse_plain(s, 0);
    assert(s.subrange(0, s.len() as int) =~= s);
    lemma_render_plain(s, n, off, name);
}

/// Two dates compare equal exactly when they are equal: on the same day.
pub proof fn law_order_agrees_with_equality(a: int, b: int)
    ensures
        (compare_days(a, b) == core::cmp::Ordering::Equal) == (a == b),
        (compare_days(a, b) == core::cmp::Ordering::Less) == (compare_days(b, a)
            == core::cmp::Ordering::Greater),
{
}

/// A date writes itself as the format `%F%Z` writes it: `YYYY-MM-DD`
/// followed by the name of its offset.
pub proof fn law_written_form_is_iso_format(n: int, off: int, name: Seq<char>)
    ensures
        render_items(parse_format("%F%Z"@), n, off, name) == Some(iso_date_text(n) + name),
{
    reveal_strlit("%F%Z");
    let s = "%F%Z"@;
    let f = spec_items('F')->0;
    let z = seq![Item::Fixed(Fixed::TimezoneName)];
    assert(parse_from(s, 4) == Seq::<Item>::empty());
    assert(parse_from(s, 2) == z + parse_from(s, 4));
    assert(parse_from(s, 0) == f + parse_from(s, 2));
    assert(parse_format(s) =~= f + z);
    law_render_concat(f, z, n, off, name);
    assert(z.drop_last() =~= Seq::<Item>::empty());
    assert(render_items(z.drop_last(), n, off, name) == Some(Seq::<char>::empty()));
    assert(render_items(z, n, off, name) == Some(Seq::<char>::empty() + name));
    assert(Seq::<char>::empty() + name =~= name);
    let items = f;
    assert(items.drop_last() =~= seq![
        Item::Numeric(Numeric::Year, Pad::Zero),
        Item::Literal('-'),
        Item::Numeric(Numeric::Month, Pad::Zero),
        Item::Literal('-'),
    ]);
    reveal_with_fuel(render_items, 6);
    assert(render_items(f, n, off, name) =~= Some(iso_date_text(n)));
}

/// Moving back by a duration is moving forward by its negation: whole days
/// are counted toward zero, the same way in both directions.
pub proof fn law_sub_is_add_of_negation(n: int, v: int)
    ensures
        num_days_of(-v) == -num_days_of(v),
        shifted(n, -num_days_of(v)) == shifted(n, num_days_of(-v)),
{
}

/// Across years, a month and day that comes before another sits no later in
/// its year; one that does not come before it sits at most one day earlier
/// (a leap day shifts the months after February by one).
proof fn lemma_month_day_across_years(y1: int, m1: int, d1: int, y2: int, m2: int, d2: int)
    requires
        valid_civil(y1, m1, d1),
        valid_civil(y2, m2, d2),
    ensures
        month_day_lt(m1, d1, m2, d2) ==> days_before_month(y1, m1) + d1 <= days_before_month(
            y2,
            m2,
        ) + d2,
        !month_day_lt(m1, d1, m2, d2) ==> days_before_month(y1, m1) + d1 >= days_before_month(
            y2,
            m2,
        ) + d2 - 1,
{
    if m1 < m2 {
        lemma_months_ordered(y1, m1, m2);
    } else if m2 < m1 {
        lemma_months_ordered(y1, m2, m1);
    }
}

/// The whole years `t` from `base` to a day `n` not before it bound the days
/// between them: at least `365 t - 1` and at most `366 t + 366`.
pub proof fn law_years_since_bounds(n: int, base: int)
    requires
        base <= n,
    ensures
        365 * years_between(n, base) - 1 <= n - base <= 366 * years_between(n, base) + 366,
{
    lemma_civil_of(n);
    lemma_civil_of(base);
    let (y1, m1, d1) = civil_of(n);
    let (y2, m2, d2) = civil_of(base);
    if civil_lt(y1, m1, d1, y2, m2, d2) {
        lemma_civil_order(y1, m1, d1, y2, m2, d2);
    }
    lemma_civil_in_year(y1, m1, d1);
    lemma_civil_in_year(y2, m2, d2);
    lemma_days_before_year_bounds(y2, y1);
    lemma_month_day_across_years(y1, m1, d1, y2, m2, d2);
}

/// A date 79 weeks (553 days) before another is always one whole year before it.
pub proof fn law_seventy_nine_weeks_is_one_year(n: int)
    ensures
        years_between(n, n - 553) == 1,
{
    law_years_since_bounds(n, n - 553);
}

/// A date 131 weeks (917 days) before another is always two whole years before it.
pub proof fn law_one_hundred_thirty_one_weeks_is_two_years(n: int)
    ensures
        years_between(n, n - 917) == 2,
{
    law_years_since_bounds(n, n - 917);
}

/// A format of one specifier character `c` (not a modifier) writes that
/// specifier's single item.
proof fn lemma_one_specifier(c: char, n: int, off: int, name: Seq<char>)
    requires
        spec_items(c) is Some,
        spec_items(c)->0.len() == 1,
        c != ':' && c != '.' && c != '3' && c != '6' && c != '9',
        c != '-' && c != '0' && c != '_' && c != '#',
    ensures
        render_items(parse_format(seq!['%', c]), n, off, name) == render_item(
            spec_items(c)->0[0],
            n,
            off,
            name,
        ),
{
    let s = seq!['%', c];
    let items = spec_items(c)->0;
    assert(parse_from(s, 2) == Seq::<Item>::empty());
    assert(parse_from(s, 0) == items + parse_from(s, 2));
    assert(parse_format(s) =~= items);
    assert(items.drop_last() =~= Seq::<Item>::empty());
    assert(render_items(items.drop_last(), n, off, name) == Some(Seq::<char>::empty()));
    match render_item(items[0], n, off, name) {
        Some(t) => {
            assert(Seq::<char>::empty() + t =~= t);
        },
        None => {},
    }
}

/// `%B` writes the full English name of the month.
pub proof fn law_long_month_names(n: int, off: int, name: Seq<char>)
    ensures
        month_of(n) == 1 ==> render_items(parse_format("%B"@), n, off, name) == Some("January"@),
        month_of(n) == 2 ==> render_items(parse_format("%B"@), n, off, name) == Some("February"@),
        month_of(n) == 3 ==> render_items(parse_format("%B"@), n, off, name) == Some("March"@),
        month_of(n) == 4 ==> render_items(parse_format("%B"@), n, off, name) == Some("April"@),
        month_of(n) == 5 ==> render_items(parse_format("%B"@), n, off, name) == Some("May"@),
        month_of(n) == 6 ==> render_items(parse_format("%B"@), n, off, name) == Some("June"@),
        month_of(n) == 7 ==> render_items(parse_format("%B"@), n, off, name) == Some("July"@),
        month_of(n) == 8 ==> render_items(parse_format("%B"@), n, off, name) == Some("August"@),
        month_of(n) == 9 ==> render_items(parse_format("%B"@), n, off, name) == Some("September"@),
        month_of(n) == 10 ==> render_items(parse_format("%B"@), n, off, name) == Some("October"@),
        month_of(n) == 11 ==> render_items(parse_format("%B"@), n, off, name) == Some("November"@),
        month_of(n) == 12 ==> render_items(parse_format("%B"@), n, off, name) == Some("December"@),
{
    reveal_strlit("%B");
    assert("%B"@ =~= seq!['%', 'B']);
    lemma_one_specifier('B', n, off, name);
}

/// `%b` writes the three-letter English name of the month.
pub proof fn law_short_month_names(n: int, off: int, name: Seq<char>)
    ensures
        month_of(n) == 1 ==> render_items(parse_format("%b"@), n, off, name) == Some("Jan"@),
        month_of(n) == 2 ==> render_items(parse_format("%b"@), n, off, name) == Some("Feb"@),
        month_of(n) == 3 ==> render_items(parse_format("%b"@), n, off, name) == Some("Mar"@),
        month_of(n) == 4 ==> render_items(parse_format("%b"@), n, off, name) == Some("Apr"@),
        month_of(n) == 5 ==> render_items(parse_format("%b"@), n, off, name) == Some("May"@),
        month_of(n) == 6 ==> render_items(parse_format("%b"@), n, off, name) == Some("Jun"@),
        month_of(n) == 7 ==> render_items(parse_format("%b"@), n, off, name) == Some("Jul"@),
        month_of(n) == 8 ==> render_items(parse_format("%b"@), n, off, name) == Some("Aug"@),
        month_of(n) == 9 ==> render_items(parse_format("%b"@), n, off, name) == Some("Sep"@),
        month_of(n) == 10 ==> render_items(parse_format("%b"@), n, off, name) == Some("Oct"@),
        month_of(n) == 11 ==> render_items(parse_format("%b"@), n, off, name) == Some("Nov"@),
        month_of(n) == 12 ==> render_items(parse_format("%b"@), n, off, name) == Some("Dec"@),
{
    reveal_strlit("%b");
    assert("%b"@ =~= seq!['%', 'b']);
    lemma_one_specifier('b', n, off, name);
}

/// `%A` writes the full English name of the weekday (Monday is day 0 of the week).
pub proof fn law_long_weekday_names(n: int, off: int, name: Seq<char>)
    ensures
        weekday_of(n) == 0 ==> render_items(parse_format("%A"@), n, off, name) == Some("Monday"@),
        weekday_of(n) == 1 ==> render_items(parse_format("%A"@), n, off, name) == Some("Tuesday"@),
        weekday_of(n) == 2 ==> render_items(parse_format("%A"@), n, off, name) == Some("Wednesday"@),
        weekday_of(n) == 3 ==> render_items(parse_format("%A"@), n, off, name) == Some("Thursday"@),
        weekday_of(n) == 4 ==> render_items(parse_format("%A"@), n, off, name) == Some("Friday"@),
        weekday_of(n) == 5 ==> render_items(parse_format("%A"@), n, off, name) == Some("Saturday"@),
        weekday_of(n) == 6 ==> render_items(parse_format("%A"@), n, off, name) == Some("Sunday"@),
{
    reveal_strlit("%A");
    assert("%A"@ =~= seq!['%', 'A']);
    lemma_one_specifier('A', n, off, name);
}

/// `%a` writes the three-letter English name of the weekday.
pub proof fn law_short_weekday_names(n: int, off: int, name: Seq<char>)
    ensures
        weekday_of(n) == 0 ==> render_items(parse_format("%a"@), n, off, name) == Some("Mon"@),
        weekday_of(n) == 1 ==> render_items(parse_format("%a"@), n, off, name) == Some("Tue"@),
        weekday_of(n) == 2 ==> render_items(parse_format("%a"@), n, off, name) == Some("Wed"@),
        weekday_of(n) == 3 ==> render_items(parse_format("%a"@), n, off, name) == Some("Thu"@),
        weekday_of(n) == 4 ==> render_items(parse_format("%a"@), n, off, name) == Some("Fri"@),
        weekday_of(n) == 5 ==> render_items(parse_format("%a"@), n, off, name) == Some("Sat"@),
        weekday_of(n) == 6 ==> render_items(parse_format("%a"@), n, off, name) == Some("Sun"@),
{
    reveal_strlit("%a");
    assert("%a"@ =~= seq!['%', 'a']);
    lemma_one_specifier('a', n, off, name);
}

/// Whole years count anniversaries: they are the difference of the years,
/// less one exactly when the month and day come before those of the base
/// (on the anniversary itself, the years differ by exactly that many).
pub proof fn law_years_since_counts_anniversaries(n: int, base: int)
    ensures
        years_between(n, base) == year_of(n) - year_of(base) - (if month_of(n) < month_of(base) || (
        month_of(n) == month_of(base) && day_of(n) < day_of(base)) {
            1int
        } else {
            0int
        }),
        month_of(n) == month_of(base) && day_of(n) == day_of(base) ==> years_between(n, base)
            == year_of(n) - year_of(base),
{
}

/// Turning a local date-time into UTC moves it by exactly the given seconds:
/// the result has the same instant (days and seconds) shifted by `s`, a time
/// of day within the day, and the same nanoseconds; and it exists exactly when
/// its date is in range.
pub proof fn law_shift_moves_by_exactly_the_seconds(v: (int, int, int), s: int)
    ensures
        shift_secs(v, s) matches Some(w) ==> {
            &&& w.0 * 86400 + w.1 == v.0 * 86400 + v.1 + s
            &&& 0 <= w.1 < 86400
            &&& w.2 == v.2
        },
        shift_secs(v, s) is Some <==> in_date_range(v.0 + (v.1 + s) / 86400),
{
}

/// The date-time that `and_time` makes, moved by its offset, is the local date
/// and time it was given.
pub proof fn law_and_time_keeps_the_local_time<Tz: TimeZone>(d: Date<Tz>, time: (int, int))
    requires
        d.and_time_fits(time),
    ensures
        d.spec_and_time(time) is Some,
        d.spec_and_time(time) matches Some(r) ==> r.0.0 * 86400 + r.0.1 + r.1.spec_fix() == d@.0
            * 86400 + time.0 && r.0.2 == time.1,
{
    let local = d.local_at(time);
    match d.spec_timezone().spec_offset_from_local_datetime(local) {
        LocalResult::Single(o) => {
            law_shift_moves_by_exactly_the_seconds(local, -o.spec_fix());
        },
        _ => {},
    }
}

/// The day of the week of a day number: its Monday lies `weekday_of(n)` days
/// earlier, and is a Monday.
proof fn lemma_week_start(n: int)
    ensures
        weekday_of(n - weekday_of(n)) == 0,
        0 <= weekday_of(n) < 7,
        forall|i: int| 0 <= i < 7 ==> #[trigger] weekday_of(n - weekday_of(n) + i) == i,
{
    assert forall|i: int| 0 <= i < 7 implies #[trigger] weekday_of(n - weekday_of(n) + i) == i by {
        assert((n - (n - 1) % 7 + i - 1) % 7 == i);
    }
}

/// The week that holds January 4 is week 1 of its ISO year: every day from its
/// Monday to its Sunday has ISO year `y` and week 1.
pub proof fn law_iso_week_one_holds_january_fourth(y: int, n: int)
    requires
        days_from_civil(y, 1, 4) - weekday_of(days_from_civil(y, 1, 4)) <= n
            < days_from_civil(y, 1, 4) - weekday_of(days_from_civil(y, 1, 4)) + 7,
    ensures
        iso_year_of(n) == y,
        iso_week_of(n) == 1,
{
    let j4 = days_from_civil(y, 1, 4);
    let monday = j4 - weekday_of(j4);
    lemma_week_start(j4);
    let i = n - monday;
    assert(weekday_of(monday + i) == i);
    assert(n == monday + i);
    let t = n - weekday_of(n) + 3;
    assert(t == monday + 3);
    let k = t - days_before_year(y);
    assert(1 <= k <= 7);
    assert(valid_civil(y, 1, k));
    assert(days_from_civil(y, 1, k) == t);
    lemma_civil_of_days(y, 1, k);
}

/// Within an ISO year the week number rises by one every seven days.
pub proof fn law_iso_week_advances(n: int)
    ensures
        iso_year_of(n + 7) == iso_year_of(n) ==> iso_week_of(n + 7) == iso_week_of(n) + 1,
{
    assert(weekday_of(n + 7) == weekday_of(n));
}

/// Two dates are equal exactly when they fall on the same day, whatever
/// their offsets; and equality agrees with the order.
pub proof fn law_date_equality_is_same_day<Tz: TimeZone, Tz2: TimeZone>(a: Date<Tz>, b: Date<Tz2>)
    ensures
        a.eq_spec(&b) <==> a@.0 == b@.0,
{
}

/// Dates compare by their days: `partial_cmp` is `Less`, `Equal` or `Greater`
/// as the first day number is below, equal to or above the second, and it is
/// `Equal` exactly when the dates are equal.
pub proof fn law_date_order_is_day_order<Tz: TimeZone>(a: Date<Tz>, b: Date<Tz>)
    ensures
        a.partial_cmp_spec(&b) == Some(core::cmp::Ordering::Less) <==> a@.0 < b@.0,
        a.partial_cmp_spec(&b) == Some(core::cmp::Ordering::Greater) <==> a@.0 > b@.0,
        a.partial_cmp_spec(&b) == Some(core::cmp::Ordering::Equal) <==> a.eq_spec(&b),
{
}

/// Months have their Gregorian lengths: April, June, September and November
/// have 30 days; February has 29 in years divisible by 4 but not by 100
/// unless by 400, and 28 in the others; the remaining months have 31. A day
/// of a month exists exactly when it is within that length, the first of the
/// next month follows the last day, and day number 1 is January 1 of year 1.
pub proof fn law_month_lengths(y: int, m: int, d: int)
    requires
        1 <= m <= 12,
    ensures
        ({
            let len = if m == 2 {
                if y % 4 == 0 && (y % 100 != 0 || y % 400 == 0) {
                    29int
                } else {
                    28int
                }
            } else if m == 4 || m == 6 || m == 9 || m == 11 {
                30int
            } else {
                31int
            };
            &&& valid_civil(y, m, d) <==> 1 <= d <= len
            &&& days_from_civil(y, m, len) + 1 == if m < 12 {
                days_from_civil(y, m + 1, 1)
            } else {
                days_from_civil(y + 1, 1, 1)
            }
        }),
        days_from_civil(1, 1, 1) == 1,
{
    lemma_month_facts(y, m);
    lemma_days_before_year_step(y);
}

/// The day of the week of a date follows from its year, month and day alone
/// by the classic congruence: with `Y` the year, less one in January and
/// February, `(Y + Y/4 - Y/100 + Y/400 + t + d) mod 7` counts the days since
/// Sunday, where `t` is 0, 3, 2, 5, 0, 3, 5, 1, 4, 6, 2, 4 for January to
/// December.
pub proof fn law_weekday_by_congruence(y: int, m: int, d: int)
    requires
        valid_civil(y, m, d),
    ensures
        ({
            let yy = if m < 3 {
                y - 1
            } else {
                y
            };
            let t: int = if m == 1 {
                0
            } else if m == 2 {
                3
            } else if m == 3 {
                2
            } else if m == 4 {
                5
            } else if m == 5 {
                0
            } else if m == 6 {
                3
            } else if m == 7 {
                5
            } else if m == 8 {
                1
            } else if m == 9 {
                4
            } else if m == 10 {
                6
            } else if m == 11 {
                2
            } else {
                4
            };
            weekday_of(days_from_civil(y, m, d)) == ((yy + yy / 4 - yy / 100 + yy / 400 + t + d)
                % 7 + 6) % 7
        }),
{
    let x = y - 1;
    let a = x + x / 4 - x / 100 + x / 400;
    let leap: int = if is_leap_year(y) {
        1
    } else {
        0
    };
    assert((x + 1) / 4 - x / 4 == if y % 4 == 0 { 1int } else { 0int });
    assert((x + 1) / 100 - x / 100 == if y % 100 == 0 { 1int } else { 0int });
    assert((x + 1) / 400 - x / 400 == if y % 400 == 0 { 1int } else { 0int });
    assert(y + y / 4 - y / 100 + y / 400 == a + 1 + leap);
    assert(days_before_year(y) == 364 * x + a);
    assert((364 * x + a + days_before_month(y, m) + d - 1) % 7 == (a + days_before_month(y, m)
        + d - 1) % 7) by {
        vstd::arithmetic::div_mod::lemma_mod_multiples_vanish(
            52 * x,
            a + days_before_month(y, m) + d - 1,
            7,
        );
    }
}

/// Whole seconds and whole days of a span round toward zero: a span of `v`
/// nanoseconds holds `num_seconds_of(v)` whole seconds and less than one more
/// (of its own sign), and likewise `num_days_of(v)` whole days.
pub proof fn law_whole_units_round_toward_zero(v: int)
    ensures
        v >= 0 ==> num_seconds_of(v) * 1_000_000_000 <= v < (num_seconds_of(v) + 1)
            * 1_000_000_000,
        v < 0 ==> (num_seconds_of(v) - 1) * 1_000_000_000 < v <= num_seconds_of(v)
            * 1_000_000_000,
        v >= 0 ==> num_days_of(v) * 86_400_000_000_000 <= v < (num_days_of(v) + 1)
            * 86_400_000_000_000,
        v < 0 ==> (num_days_of(v) - 1) * 86_400_000_000_000 < v <= num_days_of(v)
            * 86_400_000_000_000,
{
    let s = num_seconds_of(v);
    let d = num_days_of(v);
    if v >= 0 {
        assert(s * 1_000_000_000 <= v < (s + 1) * 1_000_000_000);
        assert(d * 86400 <= s < (d + 1) * 86400);
        assert(d * 86_400_000_000_000 <= v < (d + 1) * 86_400_000_000_000) by (nonlinear_arith)
            requires
                d * 86400 <= s < (d + 1) * 86400,
                s * 1_000_000_000 <= v < (s + 1) * 1_000_000_000,
        ;
    } else {
        assert((s - 1) * 1_000_000_000 < v <= s * 1_000_000_000);
        assert((d - 1) * 86400 < s <= d * 86400);
        assert((d - 1) * 86_400_000_000_000 < v <= d * 86_400_000_000_000) by (nonlinear_arith)
            requires
                (d - 1) * 86400 < s <= d * 86400,
                (s - 1) * 1_000_000_000 < v <= s * 1_000_000_000,
        ;
    }
}

/// A time of day made from an hour, a minute, a second and nanoseconds reads
/// them back: its seconds since midnight are below a day and give the hour,
/// the minute and the second again, and its fraction is the nanoseconds. It
/// exists exactly when the hour is below 24, the minute and the second below
/// 60, and the nanoseconds below two seconds.
pub proof fn law_time_of_day_reads_back(hour: int, min: int, sec: int, nano: int)
    ensures
        hms_nano_time(hour, min, sec, nano) is Some <==> 0 <= hour < 24 && 0 <= min < 60 && 0
            <= sec < 60 && 0 <= nano < 2_000_000_000,
        hms_nano_time(hour, min, sec, nano) matches Some(t) ==> {
            &&& 0 <= t.0 < 86400
            &&& t.0 / 3600 == hour
            &&& (t.0 % 3600) / 60 == min
            &&& t.0 % 60 == sec
            &&& t.1 == nano
        },
{
}

/// The clock's date counts whole days from 1970-01-01, rounding instants
/// before it down to the previous day, and is brought into the supported
/// range.
pub proof fn law_clock_counts_days_from_1970(nanos: int, before: bool)
    ensures
        ({
            let v = if before {
                -nanos
            } else {
                nanos
            };
            let k = days_from_civil(1970, 1, 1) + v / 86_400_000_000_000;
            &&& in_date_range(k) ==> clock_reading_days(nanos, before) == k
            &&& k < MIN_DAYS_FROM_CE ==> clock_reading_days(nanos, before) == MIN_DAYS_FROM_CE
            &&& k > MAX_DAYS_FROM_CE ==> clock_reading_days(nanos, before) == MAX_DAYS_FROM_CE
        }),
{
    assert(days_before_year(1970) == 719162);
}

/// Moving a day by `k` days lands exactly `k` days later, on the weekday `k`
/// places on; it succeeds exactly when that day lies in the supported range.
pub proof fn law_shift_lands_k_days_later(n: int, k: int)
    ensures
        shifted(n, k) is Some <==> in_date_range(n + k),
        shifted(n, k) matches Some(r) ==> r - n == k && weekday_of(r) == (weekday_of(n) + k) % 7,
{
}

/// Day `o` of year `y` lies in year `y` and is its `o`-th day.
pub proof fn law_year_and_ordinal_round_trip(y: int, o: int)
    requires
        yo_days(y, o) is Some,
    ensures
        year_of(yo_days(y, o)->0) == y,
        ordinal_of(yo_days(y, o)->0) == o,
{
    let n = yo_days(y, o)->0;
    lemma_civil_of(n);
    let (yn, mn, dn) = civil_of(n);
    lemma_civil_in_year(yn, mn, dn);
    lemma_days_before_year_step(y);
    if yn < y {
        lemma_days_before_year_bounds(yn + 1, y);
    } else if yn > y {
        lemma_days_before_year_bounds(y + 1, yn);
    }
}

/// The whole days between two dates, added back to the earlier one, give the
/// later one: `b - a` is `b`'s day number less `a`'s, in whole days.
pub proof fn law_difference_added_back<Tz: TimeZone>(a: Date<Tz>, b: Date<Tz>)
    requires
        in_date_range(a@.0),
        in_date_range(b@.0),
    ensures
        b.sub_spec(a)@ == (b@.0 - a@.0) * 86_400_000_000_000,
        num_days_of(b.sub_spec(a)@) == b@.0 - a@.0,
        shifted(a@.0, num_days_of(b.sub_spec(a)@)) == Some(b@.0),
{
    let k = b@.0 - a@.0;
    assert(-200_000_000 <= k <= 200_000_000);
    assert(-max_nanos() <= k * 86400 * 1_000_000_000 <= max_nanos());
    Duration::lemma_duration_of_exists(k * 86400 * 1_000_000_000);
    law_days_duration_round_trip(k);
}

} // verus!
