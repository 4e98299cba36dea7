//! Rendering dates as text with strftime-style format strings.
use vstd::prelude::*;

use vstd::string::StringExecFns;

use crate::calendar::{day_of, month_of, ordinal_of, weekday_of, year_of};
use crate::naive_date::{iso_week_of, iso_year_of, NaiveDate};

verus! {

/// `String::push` appends one character, as its documentation says.
pub assume_specification[ String::push ](s: &mut String, ch: char)
    ensures
        final(s)@ == old(s)@.push(ch),
;

/// The decimal digit character of `d` (`0 <= d < 10`).
pub open spec fn digit_char(d: int) -> char {
    if d == 0 {
        '0'
    } else if d == 1 {
        '1'
    } else if d == 2 {
        '2'
    } else if d == 3 {
        '3'
    } else if d == 4 {
        '4'
    } else if d == 5 {
        '5'
    } else if d == 6 {
        '6'
    } else if d == 7 {
        '7'
    } else if d == 8 {
        '8'
    } else {
        '9'
    }
}

/// The decimal digits of `v`, without leading zeros ("0" for zero).
pub open spec fn digits(v: nat) -> Seq<char>
    decreases v,
{
    if v < 10 {
        seq![digit_char(v as int)]
    } else {
        digits(v / 10).push(digit_char((v % 10) as int))
    }
}

/// `n` copies of `c`.
pub open spec fn repeat(c: char, n: int) -> Seq<char>
    decreases n,
{
    if n <= 0 {
        Seq::empty()
    } else {
        repeat(c, n - 1).push(c)
    }
}

/// How a number is padded to its width.
#[derive(Clone, Copy, Debug, PartialEq, Eq, Structural, Hash)]
pub enum Pad {
    /// No padding.
    Unpadded,
    /// Zeros between the sign and the digits.
    Zero,
    /// Spaces before the sign.
    Space,
}

/// Integer `v` in decimal, padded to `width` characters as `pad` says; a `+`
/// goes before non-negative numbers when `plus` holds.
pub open spec fn render_number(v: int, width: int, pad: Pad, plus: bool) -> Seq<char> {
    let sign: Seq<char> = if v < 0 {
        seq!['-']
    } else if plus {
        seq!['+']
    } else {
        Seq::empty()
    };
    let ds = digits((if v < 0 {
        -v
    } else {
        v
    }) as nat);
    let fill = width - sign.len() - ds.len();
    match pad {
        Pad::Unpadded => sign + ds,
        Pad::Zero => sign + repeat('0', fill) + ds,
        Pad::Space => repeat(' ', fill) + sign + ds,
    }
}

fn digit_char_exec(d: u64) -> (r: char)
    requires
        d < 10,
    ensures
        r == digit_char(d as int),
{
    if d == 0 {
        '0'
    } else if d == 1 {
        '1'
    } else if d == 2 {
        '2'
    } else if d == 3 {
        '3'
    } else if d == 4 {
        '4'
    } else if d == 5 {
        '5'
    } else if d == 6 {
        '6'
    } else if d == 7 {
        '7'
    } else if d == 8 {
        '8'
    } else {
        '9'
    }
}

/// Appends the decimal digits of `v`.
pub fn push_digits(out: &mut String, v: u64)
    ensures
        final(out)@ == old(out)@ + digits(v as nat),
    decreases v,
{
    if v >= 10 {
        push_digits(out, v / 10);
    }
    out.push(digit_char_exec(v % 10));
    proof {
        if v < 10 {
            assert(old(out)@ + digits(v as nat) =~= old(out)@.push(digit_char(v as int)));
        } else {
            assert(old(out)@ + digits(v as nat) =~= (old(out)@ + digits((v / 10) as nat)).push(
                digit_char((v % 10) as int),
            ));
        }
    }
}

/// The number of decimal digits of `v`.
pub fn count_digits(v: u64) -> (r: u64)
    ensures
        r == digits(v as nat).len(),
        1 <= r <= 1 + v / 10,
    decreases v,
{
    if v < 10 {
        1
    } else {
        count_digits(v / 10) + 1
    }
}

/// Appends `n` copies of `c`.
pub fn push_repeat(out: &mut String, c: char, n: u64)
    ensures
        final(out)@ == old(out)@ + repeat(c, n as int),
{
    let mut i: u64 = 0;
    while i < n
        invariant
            i <= n,
            out@ == old(out)@ + repeat(c, i as int),
        decreases n - i,
    {
        out.push(c);
        i = i + 1;
        proof {
            assert(old(out)@ + repeat(c, i as int) =~= (old(out)@ + repeat(c, i - 1)).push(c));
        }
    }
}

/// Appends integer `v` in decimal, padded to `width` characters as `pad` says;
/// a `+` goes before non-negative numbers when `plus` holds.
pub fn push_number(out: &mut String, v: i64, width: u64, pad: Pad, plus: bool)
    requires
        v > i64::MIN,
        width <= 100,
    ensures
        final(out)@ == old(out)@ + render_number(v as int, width as int, pad, plus),
{
    let magnitude: u64 = if v < 0 {
        (-v) as u64
    } else {
        v as u64
    };
    let sign_len: u64 = if v < 0 || plus {
        1
    } else {
        0
    };
    let n = count_digits(magnitude);
    let fill: u64 = if width > sign_len + n {
        width - sign_len - n
    } else {
        0
    };
    proof {
        assert(repeat('0', fill as int) =~= repeat('0', width - sign_len - n)) by {
            if width <= sign_len + n {
                assert(repeat('0', width - sign_len - n) =~= Seq::<char>::empty());
            }
        }
        assert(repeat(' ', fill as int) =~= repeat(' ', width - sign_len - n)) by {
            if width <= sign_len + n {
                assert(repeat(' ', width - sign_len - n) =~= Seq::<char>::empty());
            }
        }
    }
    let ghost start = out@;
    match pad {
        Pad::Space => {
            push_repeat(out, ' ', fill);
        },
        _ => {},
    }
    if v < 0 {
        out.push('-');
    } else if plus {
        out.push('+');
    }
    match pad {
        Pad::Zero => {
            push_repeat(out, '0', fill);
        },
        _ => {},
    }
    push_digits(out, magnitude);
    proof {
        let sign: Seq<char> = if v < 0 {
            seq!['-']
        } else if plus {
            seq!['+']
        } else {
            Seq::empty()
        };
        let ds = digits(magnitude as nat);
        match pad {
            Pad::Unpadded => {
                assert(out@ =~= start + (sign + ds));
            },
            Pad::Zero => {
                assert(out@ =~= start + (sign + repeat('0', fill as int) + ds));
            },
            Pad::Space => {
                assert(out@ =~= start + (repeat(' ', fill as int) + sign + ds));
            },
        }
    }
}

/// Appends the characters of `s`.
pub fn push_str(out: &mut String, s: &str)
    ensures
        final(out)@ == old(out)@ + s@,
{
    out.append(s);
}

/// A numeric field of a date or time.
#[derive(Clone, Copy, Debug, PartialEq, Eq, Structural, Hash)]
pub enum Numeric {
    /// The year, at least four digits; signed outside 0..=9999.
    Year,
    /// The year divided by 100, rounded down.
    YearDiv100,
    /// The year modulo 100, from 0 to 99.
    YearMod100,
    /// The year of the ISO 8601 week.
    IsoYear,
    /// The ISO year divided by 100, rounded down.
    IsoYearDiv100,
    /// The ISO year modulo 100.
    IsoYearMod100,
    /// The month, from 1 to 12.
    Month,
    /// The day of the month, from 1.
    Day,
    /// The week of the year, weeks starting on Sunday; days before the first Sunday are week 0.
    WeekFromSun,
    /// The week of the year, weeks starting on Monday; days before the first Monday are week 0.
    WeekFromMon,
    /// The ISO 8601 week number.
    IsoWeek,
    /// Days since Sunday, from 0 to 6.
    NumDaysFromSun,
    /// The day of the week counted from Monday, from 1 to 7.
    WeekdayFromMon,
    /// The day of the year, from 1.
    Ordinal,
    /// The hour, from 0 to 23.
    Hour,
    /// The hour on a 12-hour clock, from 1 to 12.
    Hour12,
    /// The minute.
    Minute,
    /// The second.
    Second,
    /// The nanoseconds within the second.
    Nanosecond,
    /// Seconds since 1970-01-01T00:00:00 UTC.
    Timestamp,
}

/// A field that is written as fixed text rather than as a number.
#[derive(Clone, Copy, Debug, PartialEq, Eq, Structural, Hash)]
pub enum Fixed {
    /// `Jan` to `Dec`.
    ShortMonthName,
    /// `January` to `December`.
    LongMonthName,
    /// `Mon` to `Sun`.
    ShortWeekdayName,
    /// `Monday` to `Sunday`.
    LongWeekdayName,
    /// `am` or `pm`.
    LowerAmPm,
    /// `AM` or `PM`.
    UpperAmPm,
    /// The fraction of the second, with a dot, as long as needed.
    Nanosecond,
    /// The fraction of the second in three digits.
    Nanosecond3,
    /// The fraction of the second in six digits.
    Nanosecond6,
    /// The fraction of the second in nine digits.
    Nanosecond9,
    /// The name of the offset, as the offset writes itself.
    TimezoneName,
    /// The offset as `+hh:mm`.
    TimezoneOffsetColon,
    /// The offset as `+hh:mm`, or `Z` when it is zero.
    TimezoneOffsetColonZ,
    /// The offset as `+hhmm`.
    TimezoneOffset,
    /// The offset as `+hhmm`, or `Z` when it is zero.
    TimezoneOffsetZ,
    /// The offset in any form, for reading dates; it has no written form.
    TimezoneOffsetPermissive,
    /// A date and time as RFC 2822 writes it.
    RFC2822,
    /// A date and time as RFC 3339 writes it.
    RFC3339,
}

/// One piece of a format.
#[derive(Clone, Copy, Debug, PartialEq, Eq, Structural, Hash)]
pub enum Item {
    /// A character written as it is.
    Literal(char),
    /// A whitespace character written as it is.
    Space(char),
    /// A numeric field with its padding.
    Numeric(Numeric, Pad),
    /// A field written as text.
    Fixed(Fixed),
    /// A malformed piece; formatting fails on it.
    Error,
}

/// Whitespace as Unicode defines it (the characters Rust's `char::is_whitespace` accepts).
pub open spec fn is_whitespace(c: char) -> bool {
    ||| c == ' ' || c == '\t' || c == '\n' || c == '\r' || c == '\u{0B}' || c == '\u{0C}'
    ||| c == '\u{85}' || c == '\u{A0}' || c == '\u{1680}'
    ||| ('\u{2000}' as int) <= (c as int) <= ('\u{200A}' as int)
    ||| c == '\u{2028}' || c == '\u{2029}' || c == '\u{202F}' || c == '\u{205F}' || c == '\u{3000}'
}

/// The item for a character outside a `%` specifier.
pub open spec fn char_item(c: char) -> Item {
    if is_whitespace(c) {
        Item::Space(c)
    } else {
        Item::Literal(c)
    }
}

pub open spec fn num(k: Numeric) -> Item {
    Item::Numeric(k, Pad::Zero)
}

/// The items of the one-character specifier `c` (after `%`), if it is one.
pub open spec fn spec_items(c: char) -> Option<Seq<Item>> {
    if c == 'A' {
        Some(seq![Item::Fixed(Fixed::LongWeekdayName)])
    } else if c == 'B' {
        Some(seq![Item::Fixed(Fixed::LongMonthName)])
    } else if c == 'C' {
        Some(seq![num(Numeric::YearDiv100)])
    } else if c == 'D' || c == 'x' {
        Some(
            seq![
                num(Numeric::Month),
                Item::Literal('/'),
                num(Numeric::Day),
                Item::Literal('/'),
                num(Numeric::YearMod100),
            ],
        )
    } else if c == 'F' {
        Some(
            seq![
                num(Numeric::Year),
                Item::Literal('-'),
                num(Numeric::Month),
                Item::Literal('-'),
                num(Numeric::Day),
            ],
        )
    } else if c == 'G' {
        Some(seq![num(Numeric::IsoYear)])
    } else if c == 'H' {
        Some(seq![num(Numeric::Hour)])
    } else if c == 'I' {
        Some(seq![num(Numeric::Hour12)])
    } else if c == 'M' {
        Some(seq![num(Numeric::Minute)])
    } else if c == 'P' {
        Some(seq![Item::Fixed(Fixed::LowerAmPm)])
    } else if c == 'R' {
        Some(seq![num(Numeric::Hour), Item::Literal(':'), num(Numeric::Minute)])
    } else if c == 'S' {
        Some(seq![num(Numeric::Second)])
    } else if c == 'T' || c == 'X' {
        Some(
            seq![
                num(Numeric::Hour),
                Item::Literal(':'),
                num(Numeric::Minute),
                Item::Literal(':'),
                num(Numeric::Second),
            ],
        )
    } else if c == 'U' {
        Some(seq![num(Numeric::WeekFromSun)])
    } else if c == 'V' {
        Some(seq![num(Numeric::IsoWeek)])
    } else if c == 'W' {
        Some(seq![num(Numeric::WeekFromMon)])
    } else if c == 'Y' {
        Some(seq![num(Numeric::Year)])
    } else if c == 'Z' {
        Some(seq![Item::Fixed(Fixed::TimezoneName)])
    } else if c == 'a' {
        Some(seq![Item::Fixed(Fixed::ShortWeekdayName)])
    } else if c == 'b' || c == 'h' {
        Some(seq![Item::Fixed(Fixed::ShortMonthName)])
    } else if c == 'c' {
        Some(
            seq![
                Item::Fixed(Fixed::ShortWeekdayName),
                Item::Space(' '),
                Item::Fixed(Fixed::ShortMonthName),
                Item::Space(' '),
                Item::Numeric(Numeric::Day, Pad::Space),
                Item::Space(' '),
                num(Numeric::Hour),
                Item::Literal(':'),
                num(Numeric::Minute),
                Item::Literal(':'),
                num(Numeric::Second),
                Item::Space(' '),
                num(Numeric::Year),
            ],
        )
    } else if c == 'd' {
        Some(seq![num(Numeric::Day)])
    } else if c == 'e' {
        Some(seq![Item::Numeric(Numeric::Day, Pad::Space)])
    } else if c == 'f' {
        Some(seq![num(Numeric::Nanosecond)])
    } else if c == 'g' {
        Some(seq![num(Numeric::IsoYearMod100)])
    } else if c == 'j' {
        Some(seq![num(Numeric::Ordinal)])
    } else if c == 'k' {
        Some(seq![Item::Numeric(Numeric::Hour, Pad::Space)])
    } else if c == 'l' {
        Some(seq![Item::Numeric(Numeric::Hour12, Pad::Space)])
    } else if c == 'm' {
        Some(seq![num(Numeric::Month)])
    } else if c == 'n' {
        Some(seq![Item::Space('\n')])
    } else if c == 'p' {
        Some(seq![Item::Fixed(Fixed::UpperAmPm)])
    } else if c == 'r' {
        Some(
            seq![
                num(Numeric::Hour12),
                Item::Literal(':'),
                num(Numeric::Minute),
                Item::Literal(':'),
                num(Numeric::Second),
                Item::Space(' '),
                Item::Fixed(Fixed::UpperAmPm),
            ],
        )
    } else if c == 's' {
        Some(seq![Item::Numeric(Numeric::Timestamp, Pad::Unpadded)])
    } else if c == 't' {
        Some(seq![Item::Space('\t')])
    } else if c == 'u' {
        Some(seq![num(Numeric::WeekdayFromMon)])
    } else if c == 'v' {
        Some(
            seq![
                Item::Numeric(Numeric::Day, Pad::Space),
                Item::Literal('-'),
                Item::Fixed(Fixed::ShortMonthName),
                Item::Literal('-'),
                num(Numeric::Year),
            ],
        )
    } else if c == 'w' {
        Some(seq![num(Numeric::NumDaysFromSun)])
    } else if c == 'y' {
        Some(seq![num(Numeric::YearMod100)])
    } else if c == 'z' {
        Some(seq![Item::Fixed(Fixed::TimezoneOffset)])
    } else if c == '+' {
        Some(seq![Item::Fixed(Fixed::RFC3339)])
    } else if c == '%' {
        Some(seq![Item::Literal('%')])
    } else {
        None
    }
}

/// The padding that modifier `c` asks for, if it is one (`-`, `0` or `_`).
pub open spec fn pad_modifier(c: char) -> Option<Pad> {
    if c == '-' {
        Some(Pad::Unpadded)
    } else if c == '0' {
        Some(Pad::Zero)
    } else if c == '_' {
        Some(Pad::Space)
    } else {
        None
    }
}

/// Applies a padding modifier to the items of a specifier: only a single
/// numeric item takes one; otherwise the first item becomes an error.
pub open spec fn apply_pad(pad: Option<Pad>, items: Seq<Item>) -> Seq<Item> {
    match pad {
        None => items,
        Some(p) => if items.len() == 1 && items[0] is Numeric {
            seq![Item::Numeric(items[0]->Numeric_0, p)]
        } else if items.len() == 0 {
            seq![Item::Error]
        } else {
            seq![Item::Error] + items.drop_first()
        },
    }
}

/// The items of the specifier whose character is at `j` (after `%` and any
/// modifier), and the position after it. `alt` holds after a `#` modifier.
pub open spec fn specifier_at(s: Seq<char>, j: int, alt: bool) -> (Seq<Item>, int) {
    let c = s[j];
    if alt && c != 'z' {
        (seq![Item::Error], j + 1)
    } else if alt {
        (seq![Item::Fixed(Fixed::TimezoneOffsetPermissive)], j + 1)
    } else if c == ':' {
        if j + 1 < s.len() && s[j + 1] == 'z' {
            (seq![Item::Fixed(Fixed::TimezoneOffsetColon)], j + 2)
        } else {
            (seq![Item::Error], j + 1)
        }
    } else if c == '.' {
        if j + 1 >= s.len() {
            (seq![Item::Error], s.len() as int)
        } else if s[j + 1] == 'f' {
            (seq![Item::Fixed(Fixed::Nanosecond)], j + 2)
        } else if s[j + 1] == '3' || s[j + 1] == '6' || s[j + 1] == '9' {
            if j + 2 >= s.len() {
                (seq![Item::Error], s.len() as int)
            } else if s[j + 2] == 'f' {
                (seq![Item::Fixed(nanosecond_digits(s[j + 1]))], j + 3)
            } else {
                (seq![Item::Error], j + 3)
            }
        } else {
            (seq![Item::Error], j + 2)
        }
    } else if c == '3' || c == '6' || c == '9' {
        if j + 1 >= s.len() {
            (seq![Item::Error], s.len() as int)
        } else if s[j + 1] == 'f' {
            (seq![Item::Fixed(nanosecond_digits(c))], j + 2)
        } else {
            (seq![Item::Error], j + 2)
        }
    } else {
        match spec_items(c) {
            Some(items) => (items, j + 1),
            None => (seq![Item::Error], j + 1),
        }
    }
}

pub open spec fn nanosecond_digits(c: char) -> Fixed {
    if c == '3' {
        Fixed::Nanosecond3
    } else if c == '6' {
        Fixed::Nanosecond6
    } else {
        Fixed::Nanosecond9
    }
}

/// The items that start at position `i` of format string `s`, and the position after them.
pub open spec fn step_at(s: Seq<char>, i: int) -> (Seq<Item>, int) {
    if s[i] != '%' {
        (seq![char_item(s[i])], i + 1)
    } else if i + 1 >= s.len() {
        (seq![Item::Error], s.len() as int)
    } else {
        let c = s[i + 1];
        let pad = pad_modifier(c);
        let alt = c == '#';
        if pad is Some || alt {
            if i + 2 >= s.len() {
                (seq![Item::Error], s.len() as int)
            } else {
                let (items, next) = specifier_at(s, i + 2, alt);
                (apply_pad(pad, items), next)
            }
        } else {
            specifier_at(s, i + 1, false)
        }
    }
}

/// The items of format string `s` from position `i` on.
pub open spec fn parse_from(s: Seq<char>, i: int) -> Seq<Item>
    decreases s.len() - i,
{
    if i < 0 || i >= s.len() {
        Seq::empty()
    } else {
        let (items, next) = step_at(s, i);
        if next <= i {
            items
        } else {
            items + parse_from(s, next)
        }
    }
}

/// The items of strftime-style format string `s`.
pub open spec fn parse_format(s: Seq<char>) -> Seq<Item> {
    parse_from(s, 0)
}

fn char_item_exec(c: char) -> (r: Item)
    ensures
        r == char_item(c),
{
    let w = c == ' ' || c == '\t' || c == '\n' || c == '\r' || c == '\u{0B}' || c == '\u{0C}'
        || c == '\u{85}' || c == '\u{A0}' || c == '\u{1680}' || ('\u{2000}' <= c && c
        <= '\u{200A}') || c == '\u{2028}' || c == '\u{2029}' || c == '\u{202F}' || c == '\u{205F}'
        || c == '\u{3000}';
    if w {
        Item::Space(c)
    } else {
        Item::Literal(c)
    }
}

/// The items of a one-character specifier, as a vector.
fn spec_items_exec(c: char) -> (r: Option<Vec<Item>>)
    ensures
        match (r, spec_items(c)) {
            (Some(v), Some(s)) => v@ == s,
            (None, None) => true,
            _ => false,
        },
{
    let z = Pad::Zero;
    let r = if c == 'A' {
        vec![Item::Fixed(Fixed::LongWeekdayName)]
    } else if c == 'B' {
        vec![Item::Fixed(Fixed::LongMonthName)]
    } else if c == 'C' {
        vec![Item::Numeric(Numeric::YearDiv100, z)]
    } else if c == 'D' || c == 'x' {
        vec![
            Item::Numeric(Numeric::Month, z),
            Item::Literal('/'),
            Item::Numeric(Numeric::Day, z),
            Item::Literal('/'),
            Item::Numeric(Numeric::YearMod100, z),
        ]
    } else if c == 'F' {
        vec![
            Item::Numeric(Numeric::Year, z),
            Item::Literal('-'),
            Item::Numeric(Numeric::Month, z),
            Item::Literal('-'),
            Item::Numeric(Numeric::Day, z),
        ]
    } else if c == 'G' {
        vec![Item::Numeric(Numeric::IsoYear, z)]
    } else if c == 'H' {
        vec![Item::Numeric(Numeric::Hour, z)]
    } else if c == 'I' {
        vec![Item::Numeric(Numeric::Hour12, z)]
    } else if c == 'M' {
        vec![Item::Numeric(Numeric::Minute, z)]
    } else if c == 'P' {
        vec![Item::Fixed(Fixed::LowerAmPm)]
    } else if c == 'R' {
        vec![Item::Numeric(Numeric::Hour, z), Item::Literal(':'), Item::Numeric(Numeric::Minute, z)]
    } else if c == 'S' {
        vec![Item::Numeric(Numeric::Second, z)]
    } else if c == 'T' || c == 'X' {
        vec![
            Item::Numeric(Numeric::Hour, z),
            Item::Literal(':'),
            Item::Numeric(Numeric::Minute, z),
            Item::Literal(':'),
            Item::Numeric(Numeric::Second, z),
        ]
    } else if c == 'U' {
        vec![Item::Numeric(Numeric::WeekFromSun, z)]
    } else if c == 'V' {
        vec![Item::Numeric(Numeric::IsoWeek, z)]
    } else if c == 'W' {
        vec![Item::Numeric(Numeric::WeekFromMon, z)]
    } else if c == 'Y' {
        vec![Item::Numeric(Numeric::Year, z)]
    } else if c == 'Z' {
        vec![Item::Fixed(Fixed::TimezoneName)]
    } else if c == 'a' {
        vec![Item::Fixed(Fixed::ShortWeekdayName)]
    } else if c == 'b' || c == 'h' {
        vec![Item::Fixed(Fixed::ShortMonthName)]
    } else if c == 'c' {
        vec![
            Item::Fixed(Fixed::ShortWeekdayName),
            Item::Space(' '),
            Item::Fixed(Fixed::ShortMonthName),
            Item::Space(' '),
            Item::Numeric(Numeric::Day, Pad::Space),
            Item::Space(' '),
            Item::Numeric(Numeric::Hour, z),
            Item::Literal(':'),
            Item::Numeric(Numeric::Minute, z),
            Item::Literal(':'),
            Item::Numeric(Numeric::Second, z),
            Item::Space(' '),
            Item::Numeric(Numeric::Year, z),
        ]
    } else if c == 'd' {
        vec![Item::Numeric(Numeric::Day, z)]
    } else if c == 'e' {
        vec![Item::Numeric(Numeric::Day, Pad::Space)]
    } else if c == 'f' {
        vec![Item::Numeric(Numeric::Nanosecond, z)]
    } else if c == 'g' {
        vec![Item::Numeric(Numeric::IsoYearMod100, z)]
    } else if c == 'j' {
        vec![Item::Numeric(Numeric::Ordinal, z)]
    } else if c == 'k' {
        vec![Item::Numeric(Numeric::Hour, Pad::Space)]
    } else if c == 'l' {
        vec![Item::Numeric(Numeric::Hour12, Pad::Space)]
    } else if c == 'm' {
        vec![Item::Numeric(Numeric::Month, z)]
    } else if c == 'n' {
        vec![Item::Space('\n')]
    } else if c == 'p' {
        vec![Item::Fixed(Fixed::UpperAmPm)]
    } else if c == 'r' {
        vec![
            Item::Numeric(Numeric::Hour12, z),
            Item::Literal(':'),
            Item::Numeric(Numeric::Minute, z),
            Item::Literal(':'),
            Item::Numeric(Numeric::Second, z),
            Item::Space(' '),
            Item::Fixed(Fixed::UpperAmPm),
        ]
    } else if c == 's' {
        vec![Item::Numeric(Numeric::Timestamp, Pad::Unpadded)]
    } else if c == 't' {
        vec![Item::Space('\t')]
    } else if c == 'u' {
        vec![Item::Numeric(Numeric::WeekdayFromMon, z)]
    } else if c == 'v' {
        vec![
            Item::Numeric(Numeric::Day, Pad::Space),
            Item::Literal('-'),
            Item::Fixed(Fixed::ShortMonthName),
            Item::Literal('-'),
            Item::Numeric(Numeric::Year, z),
        ]
    } else if c == 'w' {
        vec![Item::Numeric(Numeric::NumDaysFromSun, z)]
    } else if c == 'y' {
        vec![Item::Numeric(Numeric::YearMod100, z)]
    } else if c == 'z' {
        vec![Item::Fixed(Fixed::TimezoneOffset)]
    } else if c == '+' {
        vec![Item::Fixed(Fixed::RFC3339)]
    } else if c == '%' {
        vec![Item::Literal('%')]
    } else {
        return None;
    };
    proof {
        let t = spec_items(c)->0;
        assert(r@ =~= t);
    }
    Some(r)
}

fn nanosecond_digits_exec(c: char) -> (r: Fixed)
    ensures
        r == nanosecond_digits(c),
{
    if c == '3' {
        Fixed::Nanosecond3
    } else if c == '6' {
        Fixed::Nanosecond6
    } else {
        Fixed::Nanosecond9
    }
}

fn one(item: Item) -> (r: Vec<Item>)
    ensures
        r@ == seq![item],
{
    let mut v = Vec::new();
    v.push(item);
    proof {
        assert(v@ =~= seq![item]);
    }
    v
}

/// The items of the specifier at position `j`, and the position after it.
fn specifier_at_exec(s: &str, len: usize, j: usize, alt: bool) -> (r: (Vec<Item>, usize))
    requires
        len == s@.len(),
        j < len,
    ensures
        r.0@ == specifier_at(s@, j as int, alt).0,
        r.1 == specifier_at(s@, j as int, alt).1,
        j < r.1 <= len,
{
    let c = s.get_char(j);
    if alt {
        if c != 'z' {
            return (one(Item::Error), j + 1);
        }
        return (one(Item::Fixed(Fixed::TimezoneOffsetPermissive)), j + 1);
    }
    if c == ':' {
        if j + 1 < len && s.get_char(j + 1) == 'z' {
            (one(Item::Fixed(Fixed::TimezoneOffsetColon)), j + 2)
        } else {
            (one(Item::Error), j + 1)
        }
    } else if c == '.' {
        if j + 1 >= len {
            (one(Item::Error), len)
        } else {
            let c1 = s.get_char(j + 1);
            if c1 == 'f' {
                (one(Item::Fixed(Fixed::Nanosecond)), j + 2)
            } else if c1 == '3' || c1 == '6' || c1 == '9' {
                if j + 2 >= len {
                    (one(Item::Error), len)
                } else if s.get_char(j + 2) == 'f' {
                    (one(Item::Fixed(nanosecond_digits_exec(c1))), j + 3)
                } else {
                    (one(Item::Error), j + 3)
                }
            } else {
                (one(Item::Error), j + 2)
            }
        }
    } else if c == '3' || c == '6' || c == '9' {
        if j + 1 >= len {
            (one(Item::Error), len)
        } else if s.get_char(j + 1) == 'f' {
            (one(Item::Fixed(nanosecond_digits_exec(c))), j + 2)
        } else {
            (one(Item::Error), j + 2)
        }
    } else {
        match spec_items_exec(c) {
            Some(items) => (items, j + 1),
            None => (one(Item::Error), j + 1),
        }
    }
}

fn apply_pad_exec(pad: Option<Pad>, items: Vec<Item>) -> (r: Vec<Item>)
    ensures
        r@ == apply_pad(pad, items@),
{
    match pad {
        None => items,
        Some(p) => {
            if items.len() == 1 {
                if let Item::Numeric(k, _) = items[0] {
                    let r = one(Item::Numeric(k, p));
                    return r;
                }
            }
            let mut r = one(Item::Error);
            let mut i: usize = 1;
            while i < items.len()
                invariant
                    1 <= i <= items@.len() || items@.len() == 0,
                    items@.len() > 0 ==> r@ == seq![Item::Error] + items@.subrange(1, i as int),
                    items@.len() == 0 ==> r@ == seq![Item::Error],
                decreases items@.len() - i,
            {
                r.push(items[i]);
                i = i + 1;
                proof {
                    assert(seq![Item::Error] + items@.subrange(1, i as int) =~= (seq![Item::Error]
                        + items@.subrange(1, i - 1)).push(items@[i - 1]));
                }
            }
            proof {
                if items@.len() > 0 {
                    assert(items@.subrange(1, items@.len() as int) =~= items@.drop_first());
                }
            }
            r
        },
    }
}

/// The items that start at position `i`, and the position after them.
fn step_at_exec(s: &str, len: usize, i: usize) -> (r: (Vec<Item>, usize))
    requires
        len == s@.len(),
        i < len,
    ensures
        r.0@ == step_at(s@, i as int).0,
        r.1 == step_at(s@, i as int).1,
        i < r.1 <= len,
{
    let c = s.get_char(i);
    if c != '%' {
        return (one(char_item_exec(c)), i + 1);
    }
    if i + 1 >= len {
        return (one(Item::Error), len);
    }
    let c1 = s.get_char(i + 1);
    let pad: Option<Pad> = if c1 == '-' {
        Some(Pad::Unpadded)
    } else if c1 == '0' {
        Some(Pad::Zero)
    } else if c1 == '_' {
        Some(Pad::Space)
    } else {
        None
    };
    let alt = c1 == '#';
    if pad.is_some() || alt {
        if i + 2 >= len {
            return (one(Item::Error), len);
        }
        let (items, next) = specifier_at_exec(s, len, i + 2, alt);
        (apply_pad_exec(pad, items), next)
    } else {
        specifier_at_exec(s, len, i + 1, false)
    }
}

/// The items of strftime-style format string `fmt`.
pub fn strftime_items(fmt: &str) -> (r: Vec<Item>)
    ensures
        r@ == parse_format(fmt@),
{
    let len = fmt.unicode_len();
    let mut items: Vec<Item> = Vec::new();
    let mut i: usize = 0;
    while i < len
        invariant
            len == fmt@.len(),
            i <= len,
            items@ + parse_from(fmt@, i as int) == parse_format(fmt@),
        decreases len - i,
    {
        let (mut step, next) = step_at_exec(fmt, len, i);
        proof {
            assert(parse_from(fmt@, i as int) == step@ + parse_from(fmt@, next as int));
            assert(items@ + step@ + parse_from(fmt@, next as int) == items@ + (step@ + parse_from(
                fmt@,
                next as int,
            )));
        }
        items.append(&mut step);
        i = next;
    }
    proof {
        assert(parse_from(fmt@, i as int) =~= Seq::<Item>::empty());
        assert(items@ + parse_from(fmt@, i as int) =~= items@);
    }
    items
}

/// The value of numeric field `k` on day `n`, if a date has it.
pub open spec fn numeric_value(k: Numeric, n: int) -> Option<int> {
    let ordinal = ordinal_of(n);
    let weekday = weekday_of(n);
    match k {
        Numeric::Year => Some(year_of(n)),
        Numeric::YearDiv100 => Some(year_of(n) / 100),
        Numeric::YearMod100 => Some(year_of(n) % 100),
        Numeric::IsoYear => Some(iso_year_of(n)),
        Numeric::IsoYearDiv100 => Some(iso_year_of(n) / 100),
        Numeric::IsoYearMod100 => Some(iso_year_of(n) % 100),
        Numeric::Month => Some(month_of(n)),
        Numeric::Day => Some(day_of(n)),
        Numeric::WeekFromSun => Some((ordinal - (weekday + 1) % 7 + 6) / 7),
        Numeric::WeekFromMon => Some((ordinal - weekday + 6) / 7),
        Numeric::IsoWeek => Some(iso_week_of(n)),
        Numeric::NumDaysFromSun => Some((weekday + 1) % 7),
        Numeric::WeekdayFromMon => Some(weekday + 1),
        Numeric::Ordinal => Some(ordinal),
        _ => None,
    }
}

/// The width numeric field `k` is padded to.
pub open spec fn numeric_width(k: Numeric) -> int {
    match k {
        Numeric::Year | Numeric::IsoYear => 4,
        Numeric::NumDaysFromSun | Numeric::WeekdayFromMon => 1,
        Numeric::Ordinal => 3,
        Numeric::Nanosecond => 9,
        Numeric::Timestamp => 1,
        _ => 2,
    }
}

/// Numeric field `k` of day `n` written with padding `pad`; a year outside
/// 0..=9999 gets an explicit sign and one more place.
pub open spec fn render_numeric(k: Numeric, pad: Pad, n: int) -> Option<Seq<char>> {
    match numeric_value(k, n) {
        Some(v) => {
            let plus = (k == Numeric::Year || k == Numeric::IsoYear) && !(0 <= v < 10000);
            let width = if plus {
                numeric_width(k) + 1
            } else {
                numeric_width(k)
            };
            Some(render_number(v, width, pad, plus))
        },
        None => None,
    }
}

pub open spec fn short_month_name(m: int) -> Seq<char> {
    if m == 1 {
        "Jan"@
    } else if m == 2 {
        "Feb"@
    } else if m == 3 {
        "Mar"@
    } else if m == 4 {
        "Apr"@
    } else if m == 5 {
        "May"@
    } else if m == 6 {
        "Jun"@
    } else if m == 7 {
        "Jul"@
    } else if m == 8 {
        "Aug"@
    } else if m == 9 {
        "Sep"@
    } else if m == 10 {
        "Oct"@
    } else if m == 11 {
        "Nov"@
    } else {
        "Dec"@
    }
}

pub open spec fn long_month_name(m: int) -> Seq<char> {
    if m == 1 {
        "January"@
    } else if m == 2 {
        "February"@
    } else if m == 3 {
        "March"@
    } else if m == 4 {
        "April"@
    } else if m == 5 {
        "May"@
    } else if m == 6 {
        "June"@
    } else if m == 7 {
        "July"@
    } else if m == 8 {
        "August"@
    } else if m == 9 {
        "September"@
    } else if m == 10 {
        "October"@
    } else if m == 11 {
        "November"@
    } else {
        "December"@
    }
}

pub open spec fn short_weekday_name(w: int) -> Seq<char> {
    if w == 0 {
        "Mon"@
    } else if w == 1 {
        "Tue"@
    } else if w == 2 {
        "Wed"@
    } else if w == 3 {
        "Thu"@
    } else if w == 4 {
        "Fri"@
    } else if w == 5 {
        "Sat"@
    } else {
        "Sun"@
    }
}

pub open spec fn long_weekday_name(w: int) -> Seq<char> {
    if w == 0 {
        "Monday"@
    } else if w == 1 {
        "Tuesday"@
    } else if w == 2 {
        "Wednesday"@
    } else if w == 3 {
        "Thursday"@
    } else if w == 4 {
        "Friday"@
    } else if w == 5 {
        "Saturday"@
    } else {
        "Sunday"@
    }
}

/// Offset `off` (seconds ahead of UTC) as `+hhmm`, or `+hh:mm` when `colon`
/// holds; seconds are dropped. `Z` stands for a zero offset when `zulu` holds.
pub open spec fn offset_text(off: int, colon: bool, zulu: bool) -> Seq<char> {
    if zulu && off == 0 {
        seq!['Z']
    } else {
        let a = if off < 0 {
            -off
        } else {
            off
        };
        let sign = if off < 0 {
            '-'
        } else {
            '+'
        };
        let sep: Seq<char> = if colon {
            seq![':']
        } else {
            Seq::empty()
        };
        seq![sign] + render_number(a / 3600, 2, Pad::Zero, false) + sep + render_number(
            a / 60 % 60,
            2,
            Pad::Zero,
            false,
        )
    }
}

/// Fixed field `f` of day `n` under an offset of `off` seconds named `name`,
/// if a date has it.
pub open spec fn render_fixed(f: Fixed, n: int, off: int, name: Seq<char>) -> Option<Seq<char>> {
    match f {
        Fixed::ShortMonthName => Some(short_month_name(month_of(n))),
        Fixed::LongMonthName => Some(long_month_name(month_of(n))),
        Fixed::ShortWeekdayName => Some(short_weekday_name(weekday_of(n))),
        Fixed::LongWeekdayName => Some(long_weekday_name(weekday_of(n))),
        Fixed::TimezoneName => Some(name),
        Fixed::TimezoneOffsetColon => Some(offset_text(off, true, false)),
        Fixed::TimezoneOffsetColonZ => Some(offset_text(off, true, true)),
        Fixed::TimezoneOffset => Some(offset_text(off, false, false)),
        Fixed::TimezoneOffsetZ => Some(offset_text(off, false, true)),
        _ => None,
    }
}

/// Item `item` for day `n` under an offset of `off` seconds named `name`;
/// `None` where the item needs what a date does not have, or is an error.
pub open spec fn render_item(item: Item, n: int, off: int, name: Seq<char>) -> Option<Seq<char>> {
    match item {
        Item::Literal(c) => Some(seq![c]),
        Item::Space(c) => Some(seq![c]),
        Item::Numeric(k, pad) => render_numeric(k, pad, n),
        Item::Fixed(f) => render_fixed(f, n, off, name),
        Item::Error => None,
    }
}

/// Items `items` written out one after the other; `None` as soon as one fails.
pub open spec fn render_items(items: Seq<Item>, n: int, off: int, name: Seq<char>) -> Option<
    Seq<char>,
>
    decreases items.len(),
{
    if items.len() == 0 {
        Some(Seq::empty())
    } else {
        match (
            render_items(items.drop_last(), n, off, name),
            render_item(items.last(), n, off, name),
        ) {
            (Some(a), Some(b)) => Some(a + b),
            _ => None,
        }
    }
}

/// Writing `items` reaches the permissive offset form, which has no written
/// form, before anything fails.
pub open spec fn reaches_permissive(items: Seq<Item>, n: int, off: int, name: Seq<char>) -> bool {
    exists|i: int|
        0 <= i < items.len() && #[trigger] items[i] == Item::Fixed(Fixed::TimezoneOffsetPermissive)
            && render_items(items.subrange(0, i), n, off, name) is Some
}

/// The view of an optional string.
pub open spec fn opt_text(r: Option<String>) -> Option<Seq<char>> {
    match r {
        Some(s) => Some(s@),
        None => None,
    }
}

fn push_short_month_name(out: &mut String, m: u32)
    ensures
        final(out)@ == old(out)@ + short_month_name(m as int),
{
    let s = if m == 1 {
        "Jan"
    } else if m == 2 {
        "Feb"
    } else if m == 3 {
        "Mar"
    } else if m == 4 {
        "Apr"
    } else if m == 5 {
        "May"
    } else if m == 6 {
        "Jun"
    } else if m == 7 {
        "Jul"
    } else if m == 8 {
        "Aug"
    } else if m == 9 {
        "Sep"
    } else if m == 10 {
        "Oct"
    } else if m == 11 {
        "Nov"
    } else {
        "Dec"
    };
    push_str(out, s);
}

fn push_long_month_name(out: &mut String, m: u32)
    ensures
        final(out)@ == old(out)@ + long_month_name(m as int),
{
    let s = if m == 1 {
        "January"
    } else if m == 2 {
        "February"
    } else if m == 3 {
        "March"
    } else if m == 4 {
        "April"
    } else if m == 5 {
        "May"
    } else if m == 6 {
        "June"
    } else if m == 7 {
        "July"
    } else if m == 8 {
        "August"
    } else if m == 9 {
        "September"
    } else if m == 10 {
        "October"
    } else if m == 11 {
        "November"
    } else {
        "December"
    };
    push_str(out, s);
}

fn push_short_weekday_name(out: &mut String, w: u32)
    ensures
        final(out)@ == old(out)@ + short_weekday_name(w as int),
{
    let s = if w == 0 {
        "Mon"
    } else if w == 1 {
        "Tue"
    } else if w == 2 {
        "Wed"
    } else if w == 3 {
        "Thu"
    } else if w == 4 {
        "Fri"
    } else if w == 5 {
        "Sat"
    } else {
        "Sun"
    };
    push_str(out, s);
}

fn push_long_weekday_name(out: &mut String, w: u32)
    ensures
        final(out)@ == old(out)@ + long_weekday_name(w as int),
{
    let s = if w == 0 {
        "Monday"
    } else if w == 1 {
        "Tuesday"
    } else if w == 2 {
        "Wednesday"
    } else if w == 3 {
        "Thursday"
    } else if w == 4 {
        "Friday"
    } else if w == 5 {
        "Saturday"
    } else {
        "Sunday"
    };
    push_str(out, s);
}

/// Appends offset `off` as `offset_text` writes it.
pub fn push_offset(out: &mut String, off: i32, colon: bool, zulu: bool)
    requires
        -86400 < off < 86400,
    ensures
        final(out)@ == old(out)@ + offset_text(off as int, colon, zulu),
{
    let ghost start = out@;
    if zulu && off == 0 {
        out.push('Z');
        proof {
            assert(out@ =~= start + seq!['Z']);
        }
        return;
    }
    let a: i64 = if off < 0 {
        -(off as i64)
    } else {
        off as i64
    };
    out.push(if off < 0 {
        '-'
    } else {
        '+'
    });
    let ghost after_sign = out@;
    push_number(out, a / 3600, 2, Pad::Zero, false);
    let ghost after_hours = out@;
    if colon {
        out.push(':');
    }
    let ghost after_sep = out@;
    push_number(out, a / 60 % 60, 2, Pad::Zero, false);
    proof {
        let sign = if off < 0 {
            '-'
        } else {
            '+'
        };
        let sep: Seq<char> = if colon {
            seq![':']
        } else {
            Seq::empty()
        };
        assert(after_sep =~= after_hours + sep);
        assert(out@ =~= start + (seq![sign] + render_number(a / 3600, 2, Pad::Zero, false) + sep
            + render_number(a / 60 % 60, 2, Pad::Zero, false)));
    }
}

/// How a fixed offset of `off` seconds writes itself: `+hh:mm`, with `:ss`
/// added when the offset is not a whole number of minutes.
pub open spec fn fixed_offset_name(off: int) -> Seq<char> {
    let a = if off < 0 {
        -off
    } else {
        off
    };
    let sign = if off < 0 {
        '-'
    } else {
        '+'
    };
    let secs: Seq<char> = if a % 60 != 0 {
        seq![':'] + render_number(a % 60, 2, Pad::Zero, false)
    } else {
        Seq::empty()
    };
    seq![sign] + render_number(a / 60 / 60, 2, Pad::Zero, false) + seq![':'] + render_number(
        a / 60 % 60,
        2,
        Pad::Zero,
        false,
    ) + secs
}

/// Appends how a fixed offset of `off` seconds writes itself.
pub fn push_fixed_offset_name(out: &mut String, off: i32)
    requires
        -86400 < off < 86400,
    ensures
        final(out)@ == old(out)@ + fixed_offset_name(off as int),
{
    let ghost start = out@;
    let a: i64 = if off < 0 {
        -(off as i64)
    } else {
        off as i64
    };
    out.push(if off < 0 {
        '-'
    } else {
        '+'
    });
    push_number(out, a / 60 / 60, 2, Pad::Zero, false);
    out.push(':');
    push_number(out, a / 60 % 60, 2, Pad::Zero, false);
    let ghost before_secs = out@;
    if a % 60 != 0 {
        out.push(':');
        push_number(out, a % 60, 2, Pad::Zero, false);
    }
    proof {
        let sign = if off < 0 {
            '-'
        } else {
            '+'
        };
        let secs: Seq<char> = if a % 60 != 0 {
            seq![':'] + render_number((a % 60) as int, 2, Pad::Zero, false)
        } else {
            Seq::empty()
        };
        assert(out@ =~= before_secs + secs);
        assert(out@ =~= start + (seq![sign] + render_number(a / 60 / 60, 2, Pad::Zero, false)
            + seq![':'] + render_number(a / 60 % 60, 2, Pad::Zero, false) + secs));
    }
}

/// The value of numeric field `k` of `date`, when a date has that field.
fn numeric_value_exec(k: Numeric, date: &NaiveDate) -> (r: Option<i64>)
    ensures
        match (r, numeric_value(k, date@)) {
            (Some(v), Some(w)) => v == w,
            (None, None) => true,
            _ => false,
        },
        r matches Some(v) ==> -300000 <= v <= 300000,
{
    match k {
        Numeric::Year => Some(date.year() as i64),
        Numeric::YearDiv100 => {
            let y = date.year() as i64;
            assert((y + 300000) / 100 == y / 100 + 3000);
            Some((y + 300000) / 100 - 3000)
        },
        Numeric::YearMod100 => {
            let y = date.year() as i64;
            assert((y + 300000) % 100 == y % 100);
            Some((y + 300000) % 100)
        },
        Numeric::IsoYear => Some(date.iso_week().year() as i64),
        Numeric::IsoYearDiv100 => {
            let y = date.iso_week().year() as i64;
            assert((y + 300000) / 100 == y / 100 + 3000);
            Some((y + 300000) / 100 - 3000)
        },
        Numeric::IsoYearMod100 => {
            let y = date.iso_week().year() as i64;
            assert((y + 300000) % 100 == y % 100);
            Some((y + 300000) % 100)
        },
        Numeric::Month => Some(date.month() as i64),
        Numeric::Day => Some(date.day() as i64),
        Numeric::WeekFromSun => {
            let o = date.ordinal() as i64;
            let w = date.weekday().num_days_from_monday() as i64;
            Some((o - (w + 1) % 7 + 6) / 7)
        },
        Numeric::WeekFromMon => {
            let o = date.ordinal() as i64;
            let w = date.weekday().num_days_from_monday() as i64;
            Some((o - w + 6) / 7)
        },
        Numeric::IsoWeek => Some(date.iso_week().week() as i64),
        Numeric::NumDaysFromSun => Some((date.weekday().num_days_from_monday() as i64 + 1) % 7),
        Numeric::WeekdayFromMon => Some(date.weekday().num_days_from_monday() as i64 + 1),
        Numeric::Ordinal => Some(date.ordinal() as i64),
        _ => None,
    }
}

fn numeric_width_exec(k: Numeric) -> (r: u64)
    ensures
        r == numeric_width(k),
{
    match k {
        Numeric::Year | Numeric::IsoYear => 4,
        Numeric::NumDaysFromSun | Numeric::WeekdayFromMon => 1,
        Numeric::Ordinal => 3,
        Numeric::Nanosecond => 9,
        Numeric::Timestamp => 1,
        _ => 2,
    }
}

/// Appends item `item` for `date` under an offset of `off` seconds named
/// `name`; `false`, with `out` in an unspecified state, where the item
/// cannot be written for a date.
fn push_item(out: &mut String, item: Item, date: &NaiveDate, off: i32, name: &String) -> (ok: bool)
    requires
        -86400 < off < 86400,
        item != Item::Fixed(Fixed::TimezoneOffsetPermissive),
    ensures
        match render_item(item, date@, off as int, name@) {
            Some(t) => ok && final(out)@ == old(out)@ + t,
            None => !ok,
        },
{
    let ghost start = out@;
    match item {
        Item::Literal(c) => {
            out.push(c);
            assert(out@ =~= start + seq![c]);
            true
        },
        Item::Space(c) => {
            out.push(c);
            assert(out@ =~= start + seq![c]);
            true
        },
        Item::Numeric(k, pad) => match numeric_value_exec(k, date) {
            Some(v) => {
                let plus = (k == Numeric::Year || k == Numeric::IsoYear) && !(0 <= v && v < 10000);
                let width = if plus {
                    numeric_width_exec(k) + 1
                } else {
                    numeric_width_exec(k)
                };
                push_number(out, v, width, pad, plus);
                true
            },
            None => false,
        },
        Item::Fixed(f) => match f {
            Fixed::ShortMonthName => {
                push_short_month_name(out, date.month());
                true
            },
            Fixed::LongMonthName => {
                push_long_month_name(out, date.month());
                true
            },
            Fixed::ShortWeekdayName => {
                push_short_weekday_name(out, date.weekday().num_days_from_monday());
                true
            },
            Fixed::LongWeekdayName => {
                push_long_weekday_name(out, date.weekday().num_days_from_monday());
                true
            },
            Fixed::TimezoneName => {
                push_str(out, name.as_str());
                true
            },
            Fixed::TimezoneOffsetColon => {
                push_offset(out, off, true, false);
                true
            },
            Fixed::TimezoneOffsetColonZ => {
                push_offset(out, off, true, true);
                true
            },
            Fixed::TimezoneOffset => {
                push_offset(out, off, false, false);
                true
            },
            Fixed::TimezoneOffsetZ => {
                push_offset(out, off, false, true);
                true
            },
            _ => false,
        },
        Item::Error => false,
    }
}

/// Once a prefix of the items fails to be written, all of them fail.
proof fn lemma_render_prefix_fails(items: Seq<Item>, k: int, n: int, off: int, name: Seq<char>)
    requires
        0 <= k <= items.len(),
        render_items(items.subrange(0, k), n, off, name) is None,
    ensures
        render_items(items, n, off, name) is None,
    decreases items.len() - k,
{
    if k < items.len() {
        let p = items.subrange(0, k + 1);
        assert(p.drop_last() =~= items.subrange(0, k));
        lemma_render_prefix_fails(items, k + 1, n, off, name);
    } else {
        assert(items.subrange(0, k) =~= items);
    }
}

/// Appends items `items` for `date` under an offset of `off` seconds named
/// `name`; `false`, with `out` in an unspecified state, where one of them
/// cannot be written for a date.
pub fn push_items(out: &mut String, items: &[Item], date: &NaiveDate, off: i32, name: &String) -> (ok: bool)
    requires
        -86400 < off < 86400,
        !reaches_permissive(items@, date@, off as int, name@),
    ensures
        match render_items(items@, date@, off as int, name@) {
            Some(t) => ok && final(out)@ == old(out)@ + t,
            None => !ok,
        },
{
    let ghost start = out@;
    let mut i: usize = 0;
    proof {
        assert(items@.subrange(0, 0) =~= Seq::<Item>::empty());
        assert(out@ =~= start + Seq::<char>::empty());
    }
    while i < items.len()
        invariant
            -86400 < off < 86400,
            !reaches_permissive(items@, date@, off as int, name@),
            i <= items@.len(),
            render_items(items@.subrange(0, i as int), date@, off as int, name@) is Some,
            out@ == start + render_items(items@.subrange(0, i as int), date@, off as int, name@)->0,
        decreases items@.len() - i,
    {
        let item = items[i];
        if item == Item::Fixed(Fixed::TimezoneOffsetPermissive) {
            proof {
                assert(items@[i as int] == Item::Fixed(Fixed::TimezoneOffsetPermissive));
                assert(false);
            }
        }
        let ghost before = out@;
        let ok = push_item(out, item, date, off, name);
        proof {
            let p = items@.subrange(0, i + 1);
            assert(p.drop_last() =~= items@.subrange(0, i as int));
            assert(p.last() == item);
        }
        if !ok {
            proof {
                lemma_render_prefix_fails(items@, i + 1, date@, off as int, name@);
            }
            return false;
        }
        i = i + 1;
    }
    proof {
        assert(items@.subrange(0, i as int) =~= items@);
    }
    true
}

/// The year, month and day of day `n` as `YYYY-MM-DD`; the year is signed
/// and written with at least five places outside 0..=9999.
pub open spec fn iso_date_text(n: int) -> Seq<char> {
    render_numeric(Numeric::Year, Pad::Zero, n)->0 + seq!['-'] + render_number(
        month_of(n),
        2,
        Pad::Zero,
        false,
    ) + seq!['-'] + render_number(day_of(n), 2, Pad::Zero, false)
}

/// Appends `date` as `YYYY-MM-DD`.
pub fn push_iso_date(out: &mut String, date: &NaiveDate)
    ensures
        final(out)@ == old(out)@ + iso_date_text(date@),
{
    let ghost start = out@;
    let y = date.year() as i64;
    let plus = !(0 <= y && y < 10000);
    push_number(
        out,
        y,
        if plus {
            5
        } else {
            4
        },
        Pad::Zero,
        plus,
    );
    let ghost after_year = out@;
    out.push('-');
    push_number(out, date.month() as i64, 2, Pad::Zero, false);
    out.push('-');
    push_number(out, date.day() as i64, 2, Pad::Zero, false);
    proof {
        assert(out@ =~= start + iso_date_text(date@));
    }
}

} // verus!
