use std::collections::hash_map::DefaultHasher;
use std::hash::{Hash, Hasher};

use chrono::date::{max_date, min_date, Date};
use chrono::duration::Duration;
use chrono::naive_date::{NaiveDate, Weekday};
use chrono::naive_time::{NaiveDateTime, NaiveTime};
use chrono::offset::{FixedOffset, LocalResult, TimeZone, Utc};

#[test]
fn test_years_elapsed() {
    const WEEKS_PER_YEAR: f32 = 52.1775;

    // This is always at least one year because 1 year = 52.1775 weeks.
    let one_year_ago = Utc::today() - Duration::weeks((WEEKS_PER_YEAR * 1.5).ceil() as i64);
    // A bit more than 2 years.
    let two_year_ago = Utc::today() - Duration::weeks((WEEKS_PER_YEAR * 2.5).ceil() as i64);

    assert_eq!(Utc::today().years_since(one_year_ago), Some(1));
    assert_eq!(Utc::today().years_since(two_year_ago), Some(2));

    // If the given DateTime is later than now, the function will always return 0.
    let future = Utc::today() + Duration::weeks(12);
    assert_eq!(Utc::today().years_since(future), None);
}

#[test]
fn test_date_add_assign() {
    let naivedate = NaiveDate::from_ymd(2000, 1, 1);
    let date = Date::<Utc>::from_utc(naivedate, Utc);
    let mut date_add = date;

    date_add.add_assign(Duration::days(5));
    assert_eq!(date_add, date + Duration::days(5));

    let timezone = FixedOffset::east(60 * 60);
    let date = date.with_timezone(&timezone);
    let date_add = date_add.with_timezone(&timezone);

    assert_eq!(date_add, date + Duration::days(5));

    let timezone = FixedOffset::west(2 * 60 * 60);
    let date = date.with_timezone(&timezone);
    let date_add = date_add.with_timezone(&timezone);

    assert_eq!(date_add, date + Duration::days(5));
}

#[test]
fn test_date_sub_assign() {
    let naivedate = NaiveDate::from_ymd(2000, 1, 1);
    let date = Date::<Utc>::from_utc(naivedate, Utc);
    let mut date_sub = date;

    date_sub.sub_assign(Duration::days(5));
    assert_eq!(date_sub, date - Duration::days(5));

    let timezone = FixedOffset::east(60 * 60);
    let date = date.with_timezone(&timezone);
    let date_sub = date_sub.with_timezone(&timezone);

    assert_eq!(date_sub, date - Duration::days(5));

    let timezone = FixedOffset::west(2 * 60 * 60);
    let date = date.with_timezone(&timezone);
    let date_sub = date_sub.with_timezone(&timezone);

    assert_eq!(date_sub, date - Duration::days(5));
}

fn utc_ymd(y: i32, m: u32, d: u32) -> Date<Utc> {
    Date::<Utc>::from_utc(NaiveDate::from_ymd(y, m, d), Utc)
}

#[test]
fn civil_fields_of_a_date() {
    let d = utc_ymd(2017, 4, 2);
    assert_eq!(d.year(), 2017);
    assert_eq!(d.month(), 4);
    assert_eq!(d.month0(), 3);
    assert_eq!(d.day(), 2);
    assert_eq!(d.day0(), 1);
    assert_eq!(d.ordinal(), 92);
    assert_eq!(d.ordinal0(), 91);
    assert_eq!(d.weekday(), Weekday::Sun);
    assert_eq!(d.weekday().num_days_from_monday(), 6);
}

#[test]
fn day_numbers_of_known_dates() {
    assert_eq!(NaiveDate::from_ymd(1, 1, 1).num_days_from_ce(), 1);
    assert_eq!(NaiveDate::from_ymd(1970, 1, 1).num_days_from_ce(), 719163);
    assert_eq!(NaiveDate::from_ymd(2000, 1, 1).num_days_from_ce(), 730120);
    assert_eq!(NaiveDate::from_ymd(0, 12, 31).num_days_from_ce(), 0);
    assert_eq!(NaiveDate::from_ymd(-262144, 1, 1).num_days_from_ce(), -95746495);
    assert_eq!(NaiveDate::from_ymd(262143, 12, 31).num_days_from_ce(), 95745764);
    assert_eq!(NaiveDate::from_ymd(1, 1, 1).weekday(), Weekday::Mon);
}

#[test]
fn civil_fields_of_negative_years() {
    let d = NaiveDate::from_ymd(-1, 3, 1);
    assert_eq!(d.year(), -1);
    assert_eq!(d.month(), 3);
    assert_eq!(d.day(), 1);
    let e = NaiveDate::from_ymd(-262144, 12, 31);
    assert_eq!((e.year(), e.month(), e.day(), e.ordinal()), (-262144, 12, 31, 366));
}

#[test]
fn invalid_dates_are_refused() {
    assert_eq!(NaiveDate::from_ymd_opt(2001, 2, 29), None);
    assert!(NaiveDate::from_ymd_opt(2000, 2, 29).is_some());
    assert_eq!(NaiveDate::from_ymd_opt(1900, 2, 29), None);
    assert_eq!(NaiveDate::from_ymd_opt(2000, 13, 1), None);
    assert_eq!(NaiveDate::from_ymd_opt(2000, 0, 1), None);
    assert_eq!(NaiveDate::from_ymd_opt(2000, 4, 31), None);
    assert_eq!(NaiveDate::from_ymd_opt(2000, 4, 0), None);
    assert_eq!(NaiveDate::from_ymd_opt(262144, 1, 1), None);
    assert_eq!(NaiveDate::from_ymd_opt(-262145, 12, 31), None);
    assert_eq!(NaiveDate::from_yo_opt(2021, 366), None);
    assert!(NaiveDate::from_yo_opt(2020, 366).is_some());
    assert_eq!(NaiveDate::from_num_days_from_ce_opt(95745765), None);
    assert_eq!(NaiveDate::from_num_days_from_ce_opt(-95746496), None);
}

#[test]
fn succ_and_pred_cross_boundaries() {
    let d = utc_ymd(1999, 12, 31);
    assert_eq!(d.succ(), utc_ymd(2000, 1, 1));
    assert_eq!(utc_ymd(2000, 3, 1).pred(), utc_ymd(2000, 2, 29));
    assert_eq!(utc_ymd(2001, 3, 1).pred_opt(), Some(utc_ymd(2001, 2, 28)));
    assert_eq!(max_date().succ_opt(), None);
    assert_eq!(min_date().pred_opt(), None);
    assert_eq!(max_date().pred().succ(), max_date());
}

#[test]
fn adding_durations_counts_whole_days() {
    let d = utc_ymd(2000, 1, 1);
    assert_eq!(d.checked_add_signed(Duration::seconds(-1)), Some(d));
    assert_eq!(d.checked_add_signed(Duration::seconds(-86401)), Some(utc_ymd(1999, 12, 31)));
    assert_eq!(d.checked_add_signed(Duration::seconds(86399)), Some(d));
    assert_eq!(d.checked_sub_signed(Duration::weeks(1)), Some(utc_ymd(1999, 12, 25)));
    assert_eq!(max_date().checked_add_signed(Duration::days(1)), None);
    assert_eq!(min_date().checked_sub_signed(Duration::days(1)), None);
    assert_eq!(d.checked_add_signed(Duration::days(1_000_000_000)), None);
}

#[test]
fn durations_between_dates() {
    let a = utc_ymd(2000, 3, 1);
    let b = utc_ymd(2000, 2, 1);
    assert_eq!(a.signed_duration_since(b), Duration::days(29));
    assert_eq!(b - a, Duration::days(-29));
    assert_eq!((b - a).num_days(), -29);
    assert_eq!(max_date() - min_date(), Duration::days(95745764 + 95746495));
}

#[test]
fn duration_day_counts_round_toward_zero() {
    assert_eq!(Duration::weeks(1).num_days(), 7);
    assert_eq!(Duration::seconds(-86399).num_days(), 0);
    assert_eq!(Duration::seconds(-86400).num_days(), -1);
    assert_eq!(Duration::seconds(172799).num_days(), 1);
    assert_eq!(Duration::days(-3).num_seconds(), -259200);
    assert_eq!(Duration::zero().num_days(), 0);
}

#[test]
fn years_since_counts_whole_years() {
    let base = utc_ymd(2020, 2, 29);
    assert_eq!(utc_ymd(2021, 2, 28).years_since(base), Some(0));
    assert_eq!(utc_ymd(2021, 3, 1).years_since(base), Some(1));
    assert_eq!(utc_ymd(2020, 2, 29).years_since(base), Some(0));
    assert_eq!(utc_ymd(2020, 2, 28).years_since(base), None);
    assert_eq!(utc_ymd(2120, 2, 29).years_since(base), Some(100));
}

#[test]
fn iso_weeks_at_year_ends() {
    let w = NaiveDate::from_ymd(2021, 1, 1).iso_week();
    assert_eq!((w.year(), w.week(), w.week0()), (2020, 53, 52));
    let w = NaiveDate::from_ymd(2018, 12, 31).iso_week();
    assert_eq!((w.year(), w.week()), (2019, 1));
    let w = utc_ymd(2015, 6, 15).iso_week();
    assert_eq!((w.year(), w.week()), (2015, 25));
}

#[test]
fn replacing_fields() {
    let leap = utc_ymd(2020, 2, 29);
    assert_eq!(leap.with_year(2021), None);
    assert_eq!(leap.with_year(2024), Some(utc_ymd(2024, 2, 29)));
    assert_eq!(utc_ymd(2021, 1, 31).with_month(2), None);
    assert_eq!(utc_ymd(2021, 1, 31).with_month(3), Some(utc_ymd(2021, 3, 31)));
    assert_eq!(utc_ymd(2021, 1, 31).with_month0(11), Some(utc_ymd(2021, 12, 31)));
    assert_eq!(utc_ymd(2021, 1, 31).with_month0(12), None);
    assert_eq!(utc_ymd(2021, 1, 31).with_day(15), Some(utc_ymd(2021, 1, 15)));
    assert_eq!(utc_ymd(2021, 1, 31).with_day0(31), None);
    assert_eq!(utc_ymd(2021, 1, 1).with_ordinal(365), Some(utc_ymd(2021, 12, 31)));
    assert_eq!(utc_ymd(2021, 1, 1).with_ordinal(366), None);
    assert_eq!(utc_ymd(2020, 1, 1).with_ordinal0(365), Some(utc_ymd(2020, 12, 31)));
}

#[test]
fn fixed_offsets() {
    assert_eq!(FixedOffset::east_opt(86400), None);
    assert_eq!(FixedOffset::east_opt(-86400), None);
    assert_eq!(FixedOffset::west_opt(3600).map(|o| o.local_minus_utc()), Some(-3600));
    assert_eq!(FixedOffset::east(3600).utc_minus_local(), -3600);
    let tz = FixedOffset::east(5400);
    let d = tz.offset_from_utc_date(&NaiveDate::from_ymd(2000, 1, 1));
    assert_eq!(d, tz);
    assert!(matches!(tz.offset_from_local_date(&NaiveDate::from_ymd(2000, 1, 1)), LocalResult::Single(_)));
    assert_eq!(FixedOffset::from_offset(&tz), tz);
}

#[test]
fn dates_at_times() {
    let tz = FixedOffset::east(3600);
    let d = Date::<FixedOffset>::from_utc(NaiveDate::from_ymd(2000, 1, 1), tz);
    assert_eq!(*d.offset(), tz);
    assert_eq!(d.timezone(), tz);
    let dt = d.and_hms(0, 30, 0);
    let utc = dt.naive_utc();
    assert_eq!(utc.date(), NaiveDate::from_ymd(1999, 12, 31));
    assert_eq!(utc.time().hour(), 23);
    assert_eq!(utc.time().minute(), 30);
    assert_eq!(*dt.offset(), tz);
    assert!(d.and_hms_opt(24, 0, 0).is_none());
    assert!(d.and_hms_opt(23, 60, 0).is_none());
    let leap = d.and_hms_milli(23, 59, 59, 1_999);
    assert_eq!(leap.naive_utc().time().nanosecond(), 1_999_000_000);
    assert!(d.and_hms_milli_opt(23, 59, 59, 2_000).is_none());
    assert_eq!(d.and_hms_micro(1, 2, 3, 4).naive_utc().time().nanosecond(), 4_000);
    assert!(d.and_hms_micro_opt(1, 2, 3, 2_000_000).is_none());
    assert_eq!(d.and_hms_nano(1, 2, 3, 4).naive_utc().time().second(), 3);
    assert!(d.and_hms_nano_opt(1, 2, 3, 2_000_000_000).is_none());
    let t = NaiveTime::from_hms_opt(12, 0, 0).unwrap();
    assert_eq!(d.and_time(t).unwrap().naive_utc().time().hour(), 11);
}

#[test]
fn utc_dates_at_times_keep_the_date() {
    let d = utc_ymd(2010, 5, 6);
    let dt = d.and_hms(23, 59, 59);
    assert_eq!(dt.naive_utc().date(), NaiveDate::from_ymd(2010, 5, 6));
    assert_eq!(dt.naive_utc().time().second(), 59);
}

#[test]
fn dates_compare_by_day_alone() {
    let a = utc_ymd(2000, 1, 1);
    let b = a.with_timezone(&FixedOffset::west(3600));
    assert!(a == b);
    assert!(utc_ymd(1999, 12, 31) < a);
    assert!(utc_ymd(2000, 1, 2) > a);
    assert_eq!(a.partial_cmp(&utc_ymd(2000, 1, 1)), Some(std::cmp::Ordering::Equal));
    assert_eq!(a.naive_utc(), a.naive_local());
}

#[test]
fn timestamps_and_the_epoch() {
    assert_eq!(Utc::date_at_unix_nanos(0), Some(utc_ymd(1970, 1, 1)));
    assert_eq!(Utc::date_at_unix_nanos(-1), Some(utc_ymd(1969, 12, 31)));
    assert_eq!(Utc::date_at_unix_nanos(86_400_000_000_000), Some(utc_ymd(1970, 1, 2)));
    assert_eq!(Utc::date_at_unix_nanos(i128::MAX), None);
    let dt = NaiveDateTime::from_timestamp_opt(-1, 0).unwrap();
    assert_eq!(dt.date(), NaiveDate::from_ymd(1969, 12, 31));
    assert_eq!(dt.time().hour(), 23);
    assert!(NaiveDateTime::from_timestamp_opt(0, 2_000_000_000).is_none());
    let today = Utc::today();
    assert!(today.year() >= 2020);
}

#[test]
fn weekdays_cycle() {
    assert_eq!(Weekday::Sun.succ(), Weekday::Mon);
    let mut d = NaiveDate::from_ymd(2021, 12, 27);
    let mut w = d.weekday();
    assert_eq!(w, Weekday::Mon);
    for _ in 0..10 {
        d = d.succ_opt().unwrap();
        w = w.succ();
        assert_eq!(d.weekday(), w);
    }
}

#[test]
fn round_trips_of_day_moves() {
    let d = utc_ymd(2004, 2, 28);
    let later = d.checked_add_signed(Duration::days(400)).unwrap();
    assert_eq!(later.checked_sub_signed(Duration::days(400)), Some(d));
    assert_eq!(later.signed_duration_since(d), Duration::days(400));
    assert_eq!(d.succ().pred(), d);
}

#[test]
fn hashing_ignores_the_offset() {
    let a = utc_ymd(2000, 1, 1);
    let b = a.with_timezone(&FixedOffset::east(7200));
    let mut ha = DefaultHasher::new();
    a.hash(&mut ha);
    let mut hb = DefaultHasher::new();
    b.hash(&mut hb);
    assert_eq!(ha.finish(), hb.finish());
}

#[test]
fn local_results_and_conversions() {
    let tz = FixedOffset::east(3600);
    assert!(matches!(tz.offset_from_local_datetime(
        &NaiveDateTime::new(NaiveDate::from_ymd(2000, 1, 1), NaiveTime::from_hms_opt(0, 0, 0).unwrap())
    ).single(), Some(_)));
    let ldt = NaiveDateTime::new(NaiveDate::from_ymd(2000, 1, 1), NaiveTime::from_hms_opt(0, 0, 0).unwrap());
    let utc = ldt.checked_sub_offset(tz).unwrap();
    assert_eq!(utc.date(), NaiveDate::from_ymd(1999, 12, 31));
    assert_eq!(utc.time().hour(), 23);
    let edge = NaiveDateTime::new(NaiveDate::from_ymd(-262144, 1, 1), NaiveTime::from_hms_opt(0, 0, 0).unwrap());
    assert!(edge.checked_sub_offset(tz).is_none());
    let d = chrono::offset::from_utc_date(&tz, &NaiveDate::from_ymd(2000, 1, 1));
    assert_eq!(*d.offset(), tz);
    let dt = chrono::offset::from_utc_datetime(&Utc, &ldt);
    assert_eq!(dt.naive_utc(), ldt);
    assert!(matches!(chrono::offset::from_local_date(&tz, &NaiveDate::from_ymd(2000, 1, 1)), LocalResult::Single(_)));
    assert!(matches!(chrono::offset::from_local_datetime(&tz, &ldt), LocalResult::Single(_)));
}

#[test]
fn debug_text_of_dates() {
    let d = utc_ymd(2017, 4, 2);
    assert_eq!(d.to_debug_string(), "2017-04-02Z");
    assert_eq!(d.to_string(), "2017-04-02UTC");
    let e = d.with_timezone(&FixedOffset::east(3600));
    assert_eq!(e.to_debug_string(), "2017-04-02+01:00");
    assert_eq!(e.to_string(), "2017-04-02+01:00");
}

#[test]
fn dates_of_clock_readings() {
    assert_eq!(Utc::date_at_clock_reading(0, false), utc_ymd(1970, 1, 1));
    assert_eq!(Utc::date_at_clock_reading(1, true), utc_ymd(1969, 12, 31));
    assert_eq!(Utc::date_at_clock_reading(86_400_000_000_000, true), utc_ymd(1969, 12, 31));
    assert_eq!(Utc::date_at_clock_reading(86_400_000_000_001, true), utc_ymd(1969, 12, 30));
    assert_eq!(Utc::date_at_clock_reading(u128::MAX, false), max_date());
    assert_eq!(Utc::date_at_clock_reading(u128::MAX, true), min_date());
}

#[test]
fn negated_durations() {
    let d = utc_ymd(2000, 1, 1);
    let rhs = Duration::seconds(-86401);
    assert_eq!((-rhs).num_seconds(), 86401);
    assert_eq!((-rhs).num_days(), 1);
    assert_eq!(d.checked_sub_signed(rhs), d.checked_add_signed(-rhs));
    assert_eq!(-Duration::days(3), Duration::days(-3));
    assert_eq!(-Duration::zero(), Duration::zero());
}

#[test]
fn weeks_back_give_whole_years() {
    for (y, m, dd) in [(2000, 2, 29), (2001, 1, 1), (2004, 12, 31), (1999, 3, 1)] {
        let d = utc_ymd(y, m, dd);
        assert_eq!(d.years_since(d - Duration::weeks(79)), Some(1));
        assert_eq!(d.years_since(d - Duration::weeks(131)), Some(2));
    }
}
