use chrono::date::Date;
use chrono::format::{strftime_items, Fixed, Item, Numeric, Pad};
use chrono::naive_date::NaiveDate;
use chrono::offset::{FixedOffset, Utc};

fn utc_ymd(y: i32, m: u32, d: u32) -> Date<Utc> {
    Date::<Utc>::from_utc(NaiveDate::from_ymd(y, m, d), Utc)
}

#[test]
fn format_day_month_year() {
    let date_time: Date<Utc> = utc_ymd(2017, 4, 2);
    assert_eq!(date_time.format("%d/%m/%Y"), Some("02/04/2017".to_string()));
}

#[test]
fn format_every_date_specifier() {
    let d = utc_ymd(2017, 4, 2);
    assert_eq!(
        d.format("%a|%A|%b|%B|%j|%U|%W|%V|%G|%u|%w|%e|%C|%y|%g|%D|%F|%h|%x|%v"),
        Some("Sun|Sunday|Apr|April|092|14|13|13|2017|7|0| 2|20|17|17|04/02/17|2017-04-02|Apr|04/02/17| 2-Apr-2017".to_string())
    );
    let d = utc_ymd(2021, 1, 1);
    assert_eq!(d.format("%U|%W|%V|%G|%g|%j|%a"), Some("00|00|53|2020|20|001|Fri".to_string()));
}

#[test]
fn format_padding_modifiers() {
    let d = utc_ymd(2017, 4, 2);
    assert_eq!(d.format("%-m/%-d"), Some("4/2".to_string()));
    assert_eq!(d.format("%_m/%_d"), Some(" 4/ 2".to_string()));
    assert_eq!(d.format("%0e"), Some("02".to_string()));
    assert_eq!(d.format("%-D"), None);
    assert_eq!(d.format("%-a"), None);
}

#[test]
fn format_offsets_and_names() {
    let d = utc_ymd(2017, 4, 2);
    assert_eq!(d.format("%z %:z %Z %%"), Some("+0000 +00:00 UTC %".to_string()));
    let tz = FixedOffset::west(5400);
    let d = d.with_timezone(&tz);
    assert_eq!(d.format("%z %:z %Z"), Some("-0130 -01:30 -01:30".to_string()));
    let tz = FixedOffset::east(3661);
    let d = d.with_timezone(&tz);
    assert_eq!(d.format("%z|%Z"), Some("+0101|+01:01:01".to_string()));
}

#[test]
fn format_fails_on_times_and_bad_specifiers() {
    let d = utc_ymd(2017, 4, 2);
    assert_eq!(d.format("%H:%M"), None);
    assert_eq!(d.format("%Q"), None);
    assert_eq!(d.format("abc%"), None);
    assert_eq!(d.format("%.3f"), None);
    assert_eq!(d.format("%:"), None);
    assert_eq!(d.format(""), Some(String::new()));
    assert_eq!(d.format("plain text\t"), Some("plain text\t".to_string()));
}

#[test]
fn format_years_outside_four_digits() {
    let d = Date::<Utc>::from_utc(NaiveDate::from_ymd(-1, 1, 1), Utc);
    assert_eq!(d.format("%Y"), Some("-0001".to_string()));
    assert_eq!(d.format("%C %y"), Some("-1 99".to_string()));
    let d = Date::<Utc>::from_utc(NaiveDate::from_ymd(10000, 1, 1), Utc);
    assert_eq!(d.format("%Y"), Some("+10000".to_string()));
    assert_eq!(d.format("%-Y"), Some("+10000".to_string()));
}

#[test]
fn dates_write_themselves() {
    assert_eq!(utc_ymd(2000, 1, 1).to_string(), "2000-01-01UTC");
    let tz = FixedOffset::east(5400);
    assert_eq!(utc_ymd(2000, 1, 1).with_timezone(&tz).to_string(), "2000-01-01+01:30");
    let d = Date::<Utc>::from_utc(NaiveDate::from_ymd(-262144, 1, 1), Utc);
    assert_eq!(d.to_string(), "-262144-01-01UTC");
}

#[test]
fn parsing_format_strings() {
    assert_eq!(
        strftime_items("%Y-%_m x"),
        vec![
            Item::Numeric(Numeric::Year, Pad::Zero),
            Item::Literal('-'),
            Item::Numeric(Numeric::Month, Pad::Space),
            Item::Space(' '),
            Item::Literal('x'),
        ]
    );
    assert_eq!(strftime_items("%:z%#z"), vec![
        Item::Fixed(Fixed::TimezoneOffsetColon),
        Item::Fixed(Fixed::TimezoneOffsetPermissive),
    ]);
    assert_eq!(strftime_items("%-D"), vec![
        Item::Error,
        Item::Literal('/'),
        Item::Numeric(Numeric::Day, Pad::Zero),
        Item::Literal('/'),
        Item::Numeric(Numeric::YearMod100, Pad::Zero),
    ]);
    let d = utc_ymd(2017, 4, 2);
    let items = [Item::Fixed(Fixed::LongMonthName), Item::Space(' '), Item::Numeric(Numeric::Day, Pad::Unpadded)];
    assert_eq!(d.format_with_items(&items), Some("April 2".to_string()));
    let items = [Item::Fixed(Fixed::TimezoneOffsetColonZ), Item::Fixed(Fixed::TimezoneOffsetZ)];
    assert_eq!(d.format_with_items(&items), Some("ZZ".to_string()));
}

#[test]
fn written_form_matches_iso_format() {
    let d = utc_ymd(1999, 12, 31);
    assert_eq!(d.format("%F%Z"), Some(d.to_string()));
    let d = d.with_timezone(&FixedOffset::west(19800));
    assert_eq!(d.format("%F%Z"), Some(d.to_string()));
    assert_eq!(d.to_string(), "1999-12-31-05:30");
}
