//! Properties of how numbers, offsets and names are written.
use vstd::prelude::*;

use crate::calendar::{day_of, month_of, ordinal_of, weekday_of, year_of};
use crate::calendar::{civil_prev, lemma_civil_of, lemma_civil_of_days, lemma_civil_prev};
use crate::format::{
    apply_pad, digit_char, digits, numeric_value, offset_text, pad_modifier, parse_format,
    parse_from, render_item, render_items, render_number, repeat, spec_items, specifier_at,
    step_at, Item, Numeric, Pad,
};
use crate::naive_date::{iso_week_of, iso_year_of};
use crate::offset::{Offset, Utc};

verus! {

/// The number that a string of decimal digit characters spells.
pub open spec fn decimal_value(s: Seq<char>) -> int
    decreases s.len(),
{
    if s.len() == 0 {
        0
    } else {
        decimal_value(s.drop_last()) * 10 + (s.last() as int - 48)
    }
}

/// Every character of `s` is one of `0` to `9`.
pub open spec fn all_decimal(s: Seq<char>) -> bool {
    forall|i: int| 0 <= i < s.len() ==> 48 <= #[trigger] s[i] as int <= 57
}

/// The digit characters are `0` to `9` in order.
pub proof fn law_digit_chars(d: int)
    requires
        0 <= d < 10,
    ensures
        digit_char(d) as int == 48 + d,
{
}

/// The digits of a number spell that number in decimal, without leading zeros.
pub proof fn law_digits_spell_the_number(v: nat)
    ensures
        all_decimal(digits(v)),
        decimal_value(digits(v)) == v,
        digits(v).len() >= 1,
        v > 0 ==> digits(v)[0] != '0',
        v < 10 ==> digits(v).len() == 1,
        10 <= v < 100 ==> digits(v).len() == 2,
    decreases v,
{
    law_digit_chars((v % 10) as int);
    if v >= 10 {
        law_digits_spell_the_number(v / 10);
        let d = digits(v);
        assert(d.drop_last() =~= digits(v / 10));
        assert forall|i: int| 0 <= i < d.len() implies 48 <= #[trigger] d[i] as int <= 57 by {
            if i < d.len() - 1 {
                assert(d[i] == digits(v / 10)[i]);
            }
        }
        assert(d[0] == digits(v / 10)[0]);
        assert(d.last() == digit_char((v % 10) as int));
        assert(decimal_value(d) == decimal_value(digits(v / 10)) * 10 + (v % 10));
        assert((v / 10) * 10 + v % 10 == v);
    } else {
        assert(digits(v).drop_last() =~= Seq::<char>::empty());
        assert(decimal_value(Seq::<char>::empty()) == 0);
        assert(digits(v).last() == digit_char(v as int));
    }
}

proof fn lemma_repeat(c: char, k: int)
    ensures
        repeat(c, k).len() == (if k < 0 {
            0
        } else {
            k
        }),
        forall|i: int| 0 <= i < repeat(c, k).len() ==> #[trigger] repeat(c, k)[i] == c,
    decreases k,
{
    if k > 0 {
        lemma_repeat(c, k - 1);
        assert forall|i: int| 0 <= i < repeat(c, k).len() implies #[trigger] repeat(c, k)[i]
            == c by {
            if i < k - 1 {
                assert(repeat(c, k)[i] == repeat(c, k - 1)[i]);
            }
        }
    }
}

/// Leading zeros do not change the number a digit string spells.
proof fn lemma_leading_zeros(k: int, b: Seq<char>)
    ensures
        decimal_value(repeat('0', k) + b) == decimal_value(b),
    decreases b.len(), k,
{
    if b.len() == 0 {
        assert(repeat('0', k) + b =~= repeat('0', k));
        if k > 0 {
            assert(repeat('0', k).drop_last() =~= repeat('0', k - 1));
            lemma_leading_zeros(k - 1, b);
            assert(repeat('0', k - 1) + b =~= repeat('0', k - 1));
        }
    } else {
        assert((repeat('0', k) + b).drop_last() =~= repeat('0', k) + b.drop_last());
        lemma_leading_zeros(k, b.drop_last());
    }
}

/// A number written with zero padding spells the number (after its sign) and
/// takes at least the width, no more than the number needs beyond it; space
/// padding puts spaces before the sign and the digits.
pub proof fn law_zero_padding(v: int, w: int, plus: bool)
    ensures
        ({
            let r = render_number(v, w, Pad::Zero, plus);
            let body = if v < 0 || plus {
                r.drop_first()
            } else {
                r
            };
            let sign_len: int = if v < 0 || plus {
                1
            } else {
                0
            };
            let a = if v < 0 {
                -v
            } else {
                v
            };
            &&& v < 0 ==> r[0] == '-'
            &&& v >= 0 && plus ==> r[0] == '+'
            &&& all_decimal(body)
            &&& decimal_value(body) == a
            &&& r.len() == (if w > sign_len + digits(a as nat).len() {
                w
            } else {
                sign_len + digits(a as nat).len()
            })
        }),
        render_number(v, w, Pad::Space, plus) == repeat(
            ' ',
            w - render_number(v, 0, Pad::Unpadded, plus).len(),
        ) + render_number(v, 0, Pad::Unpadded, plus),
{
    let a = if v < 0 {
        -v
    } else {
        v
    };
    let ds = digits(a as nat);
    law_digits_spell_the_number(a as nat);
    let sign_len: int = if v < 0 || plus {
        1
    } else {
        0
    };
    let fill = w - sign_len - ds.len();
    lemma_repeat('0', fill);
    lemma_leading_zeros(fill, ds);
    let z = repeat('0', fill) + ds;
    assert forall|i: int| 0 <= i < z.len() implies 48 <= #[trigger] z[i] as int <= 57 by {
        if i < repeat('0', fill).len() {
            assert(z[i] == '0');
        } else {
            assert(z[i] == ds[i - repeat('0', fill).len()]);
        }
    }
    let r = render_number(v, w, Pad::Zero, plus);
    if v < 0 {
        assert(r =~= seq!['-'] + z);
        assert(r.drop_first() =~= z);
    } else if plus {
        assert(r =~= seq!['+'] + z);
        assert(r.drop_first() =~= z);
    } else {
        assert(r =~= z);
    }
    let u = render_number(v, 0, Pad::Unpadded, plus);
    assert(u.len() == sign_len + ds.len());
    assert(render_number(v, w, Pad::Space, plus) =~= repeat(' ', w - u.len()) + u);
}

/// A format of one specifier character `c` (not a modifier) writes that
/// specifier's single item.
proof fn lemma_one_specifier(c: char, n: int, off: int, name: Seq<char>)
    requires
        spec_items(c) is Some,
        spec_items(c)->0.len() == 1,
        c != ':' && c != '.' && c != '3' && c != '6' && c != '9',
        c != '-' && c != '0' && c != '_' && c != '#',
    ensures
        render_items(parse_format(seq!['%', c]), n, off, name) == render_item(
            spec_items(c)->0[0],
            n,
            off,
            name,
        ),
{
    let s = seq!['%', c];
    let items = spec_items(c)->0;
    assert(parse_from(s, 2) == Seq::<Item>::empty());
    assert(parse_from(s, 0) == items + parse_from(s, 2));
    assert(parse_format(s) =~= items);
    assert(items.drop_last() =~= Seq::<Item>::empty());
    assert(render_items(items.drop_last(), n, off, name) == Some(Seq::<char>::empty()));
    match render_item(items[0], n, off, name) {
        Some(t) => {
            assert(Seq::<char>::empty() + t =~= t);
        },
        None => {},
    }
}

/// The numeric date specifiers write the field they name: `%Y` the year (in
/// four places, signed outside 0..=9999), `%m` the month and `%d` the day in
/// two places, `%e` the day padded with a space, `%j` the day of the year in
/// three places, `%u` the weekday from Monday as 1 to 7, `%w` the weekday
/// from Sunday as 0 to 6, `%G` the ISO year and `%V` the ISO week.
pub proof fn law_numeric_specifiers(n: int, off: int, name: Seq<char>)
    ensures
        render_items(parse_format("%Y"@), n, off, name) == Some(
            if 0 <= year_of(n) < 10000 {
                render_number(year_of(n), 4, Pad::Zero, false)
            } else {
                render_number(year_of(n), 5, Pad::Zero, true)
            },
        ),
        render_items(parse_format("%m"@), n, off, name) == Some(
            render_number(month_of(n), 2, Pad::Zero, false),
        ),
        render_items(parse_format("%d"@), n, off, name) == Some(
            render_number(day_of(n), 2, Pad::Zero, false),
        ),
        render_items(parse_format("%e"@), n, off, name) == Some(
            render_number(day_of(n), 2, Pad::Space, false),
        ),
        render_items(parse_format("%j"@), n, off, name) == Some(
            render_number(ordinal_of(n), 3, Pad::Zero, false),
        ),
        render_items(parse_format("%u"@), n, off, name) == Some(
            render_number(weekday_of(n) + 1, 1, Pad::Zero, false),
        ),
        render_items(parse_format("%w"@), n, off, name) == Some(
            render_number((weekday_of(n) + 1) % 7, 1, Pad::Zero, false),
        ),
        render_items(parse_format("%G"@), n, off, name) == Some(
            if 0 <= iso_year_of(n) < 10000 {
                render_number(iso_year_of(n), 4, Pad::Zero, false)
            } else {
                render_number(iso_year_of(n), 5, Pad::Zero, true)
            },
        ),
        render_items(parse_format("%V"@), n, off, name) == Some(
            render_number(iso_week_of(n), 2, Pad::Zero, false),
        ),
{
    reveal_strlit("%Y");
    reveal_strlit("%m");
    reveal_strlit("%d");
    reveal_strlit("%e");
    reveal_strlit("%j");
    reveal_strlit("%u");
    reveal_strlit("%w");
    reveal_strlit("%G");
    reveal_strlit("%V");
    assert("%Y"@ =~= seq!['%', 'Y']);
    assert("%m"@ =~= seq!['%', 'm']);
    assert("%d"@ =~= seq!['%', 'd']);
    assert("%e"@ =~= seq!['%', 'e']);
    assert("%j"@ =~= seq!['%', 'j']);
    assert("%u"@ =~= seq!['%', 'u']);
    assert("%w"@ =~= seq!['%', 'w']);
    assert("%G"@ =~= seq!['%', 'G']);
    assert("%V"@ =~= seq!['%', 'V']);
    lemma_one_specifier('Y', n, off, name);
    lemma_one_specifier('m', n, off, name);
    lemma_one_specifier('d', n, off, name);
    lemma_one_specifier('e', n, off, name);
    lemma_one_specifier('j', n, off, name);
    lemma_one_specifier('u', n, off, name);
    lemma_one_specifier('w', n, off, name);
    lemma_one_specifier('G', n, off, name);
    lemma_one_specifier('V', n, off, name);
}

/// `%z` writes the offset as a sign (`-` when local time is behind UTC) and
/// four digits spelling its whole hours and the minutes past them; `%:z`
/// puts a colon between the hours and the minutes.
pub proof fn law_offset_text(off: int)
    requires
        -86400 < off < 86400,
    ensures
        ({
            let a = if off < 0 {
                -off
            } else {
                off
            };
            let t = offset_text(off, false, false);
            let c = offset_text(off, true, false);
            &&& t.len() == 5
            &&& t[0] == (if off < 0 {
                '-'
            } else {
                '+'
            })
            &&& decimal_value(t.subrange(1, 3)) == a / 3600
            &&& decimal_value(t.subrange(3, 5)) == a / 60 % 60
            &&& c == t.subrange(0, 3) + seq![':'] + t.subrange(3, 5)
        }),
{
    let a = if off < 0 {
        -off
    } else {
        off
    };
    law_zero_padding(a / 3600, 2, false);
    law_zero_padding(a / 60 % 60, 2, false);
    law_digits_spell_the_number((a / 3600) as nat);
    law_digits_spell_the_number((a / 60 % 60) as nat);
    let h = render_number(a / 3600, 2, Pad::Zero, false);
    let m = render_number(a / 60 % 60, 2, Pad::Zero, false);
    let sign = if off < 0 {
        '-'
    } else {
        '+'
    };
    let t = offset_text(off, false, false);
    assert(t =~= seq![sign] + h + Seq::<char>::empty() + m);
    assert(t.subrange(1, 3) =~= h);
    assert(t.subrange(3, 5) =~= m);
    assert(offset_text(off, true, false) =~= t.subrange(0, 3) + seq![':'] + t.subrange(3, 5));
}

/// UTC writes itself as `UTC`, and as `Z` for debugging; it is no offset at all.
pub proof fn law_utc_names()
    ensures
        Utc.spec_name() == "UTC"@,
        Utc.spec_debug_name() == "Z"@,
        Utc.spec_fix() == 0,
{
}

/// `%W` numbers the weeks of the year from Monday: days before the year's
/// first Monday are week 0, the k-th Monday of the year starts week k, and the
/// other days keep the number of the day before. `%U` does the same from
/// Sunday. Both are written in two places.
pub proof fn law_week_numbers(n: int, off: int, name: Seq<char>)
    ensures
        numeric_value(Numeric::WeekFromMon, n) is Some,
        numeric_value(Numeric::WeekFromSun, n) is Some,
        render_items(parse_format("%W"@), n, off, name) == Some(
            render_number(numeric_value(Numeric::WeekFromMon, n)->0, 2, Pad::Zero, false),
        ),
        render_items(parse_format("%U"@), n, off, name) == Some(
            render_number(numeric_value(Numeric::WeekFromSun, n)->0, 2, Pad::Zero, false),
        ),
        weekday_of(n) == 0 ==> numeric_value(Numeric::WeekFromMon, n) == Some(
            (ordinal_of(n) + 6) / 7,
        ),
        weekday_of(n) != 0 && ordinal_of(n) == 1 ==> numeric_value(Numeric::WeekFromMon, n)
            == Some(0int),
        weekday_of(n) != 0 && ordinal_of(n) > 1 ==> numeric_value(Numeric::WeekFromMon, n)
            == numeric_value(Numeric::WeekFromMon, n - 1),
        weekday_of(n) == 6 ==> numeric_value(Numeric::WeekFromSun, n) == Some(
            (ordinal_of(n) + 6) / 7,
        ),
        weekday_of(n) != 6 && ordinal_of(n) == 1 ==> numeric_value(Numeric::WeekFromSun, n)
            == Some(0int),
        weekday_of(n) != 6 && ordinal_of(n) > 1 ==> numeric_value(Numeric::WeekFromSun, n)
            == numeric_value(Numeric::WeekFromSun, n - 1),
{
    reveal_strlit("%W");
    reveal_strlit("%U");
    assert("%W"@ =~= seq!['%', 'W']);
    assert("%U"@ =~= seq!['%', 'U']);
    lemma_one_specifier('W', n, off, name);
    lemma_one_specifier('U', n, off, name);
    if ordinal_of(n) > 1 {
        lemma_previous_day_same_year(n);
    }
}

/// The day before a day that is not January 1 lies in the same year, one
/// place earlier in it and one weekday earlier.
proof fn lemma_previous_day_same_year(n: int)
    requires
        ordinal_of(n) > 1,
    ensures
        ordinal_of(n - 1) == ordinal_of(n) - 1,
        weekday_of(n - 1) == (weekday_of(n) + 6) % 7,
{
    lemma_civil_of(n);
    let (y, m, d) = (year_of(n), month_of(n), day_of(n));
    assert(!(m == 1 && d == 1)) by {
        if m == 1 && d == 1 {
            assert(ordinal_of(n) == 1);
        }
    }
    lemma_civil_prev(y, m, d);
    let p = civil_prev(y, m, d);
    lemma_civil_of_days(p.0, p.1, p.2);
    assert(year_of(n - 1) == y);
}

/// `%C` writes the century and `%y` the year within it, so that the year is
/// 100 times the one plus the other, the latter from 0 to 99; `%g` does the
/// same for the ISO year. Each is written in two places.
pub proof fn law_century_specifiers(n: int, off: int, name: Seq<char>)
    ensures
        ({
            let c = numeric_value(Numeric::YearDiv100, n);
            let r = numeric_value(Numeric::YearMod100, n);
            &&& c is Some && r is Some
            &&& year_of(n) == 100 * c->0 + r->0
            &&& 0 <= r->0 < 100
            &&& render_items(parse_format("%C"@), n, off, name) == Some(
                render_number(c->0, 2, Pad::Zero, false),
            )
            &&& render_items(parse_format("%y"@), n, off, name) == Some(
                render_number(r->0, 2, Pad::Zero, false),
            )
        }),
        ({
            let g = numeric_value(Numeric::IsoYearMod100, n);
            &&& g is Some
            &&& 0 <= g->0 < 100
            &&& (iso_year_of(n) - g->0) % 100 == 0
            &&& render_items(parse_format("%g"@), n, off, name) == Some(
                render_number(g->0, 2, Pad::Zero, false),
            )
        }),
{
    reveal_strlit("%C");
    reveal_strlit("%y");
    reveal_strlit("%g");
    assert("%C"@ =~= seq!['%', 'C']);
    assert("%y"@ =~= seq!['%', 'y']);
    assert("%g"@ =~= seq!['%', 'g']);
    lemma_one_specifier('C', n, off, name);
    lemma_one_specifier('y', n, off, name);
    lemma_one_specifier('g', n, off, name);
}

/// A format of `%`, a padding modifier `p` and a one-item numeric specifier
/// `c` writes that specifier's field with the modifier's padding.
proof fn lemma_padded_specifier(p: char, c: char, n: int, off: int, name: Seq<char>)
    requires
        pad_modifier(p) is Some,
        spec_items(c) is Some,
        spec_items(c)->0.len() == 1,
        spec_items(c)->0[0] is Numeric,
        c != ':' && c != '.' && c != '3' && c != '6' && c != '9',
    ensures
        render_items(parse_format(seq!['%', p, c]), n, off, name) == render_item(
            Item::Numeric(spec_items(c)->0[0]->Numeric_0, pad_modifier(p)->0),
            n,
            off,
            name,
        ),
{
    let s = seq!['%', p, c];
    let item = Item::Numeric(spec_items(c)->0[0]->Numeric_0, pad_modifier(p)->0);
    assert(specifier_at(s, 2, false) == (spec_items(c)->0, 3int));
    assert(apply_pad(pad_modifier(p), spec_items(c)->0) =~= seq![item]);
    assert(step_at(s, 0) == (seq![item], 3int));
    assert(parse_from(s, 3) == Seq::<Item>::empty());
    assert(parse_format(s) =~= seq![item]);
    assert(seq![item].drop_last() =~= Seq::<Item>::empty());
    assert(seq![item].last() == item);
    assert(render_items(seq![item].drop_last(), n, off, name) == Some(Seq::<char>::empty()));
    match render_item(item, n, off, name) {
        Some(t) => {
            assert(Seq::<char>::empty() + t =~= t);
        },
        None => {},
    }
}

/// The padding modifiers change only the padding of a numeric field: `%-d`
/// writes the day with no padding, `%_d` pads it with spaces and `%0e` with
/// zeros; no padding is the zero padding of width 0. `%%` writes a `%`.
pub proof fn law_padding_modifiers(n: int, off: int, name: Seq<char>, v: int, w: int, plus: bool)
    ensures
        render_items(parse_format("%-d"@), n, off, name) == Some(
            render_number(day_of(n), 2, Pad::Unpadded, false),
        ),
        render_items(parse_format("%_d"@), n, off, name) == Some(
            render_number(day_of(n), 2, Pad::Space, false),
        ),
        render_items(parse_format("%0e"@), n, off, name) == Some(
            render_number(day_of(n), 2, Pad::Zero, false),
        ),
        render_items(parse_format("%%"@), n, off, name) == Some(seq!['%']),
        render_number(v, w, Pad::Unpadded, plus) == render_number(v, 0, Pad::Zero, plus),
{
    reveal_strlit("%-d");
    reveal_strlit("%_d");
    reveal_strlit("%0e");
    reveal_strlit("%%");
    assert("%-d"@ =~= seq!['%', '-', 'd']);
    assert("%_d"@ =~= seq!['%', '_', 'd']);
    assert("%0e"@ =~= seq!['%', '0', 'e']);
    assert("%%"@ =~= seq!['%', '%']);
    lemma_padded_specifier('-', 'd', n, off, name);
    lemma_padded_specifier('_', 'd', n, off, name);
    lemma_padded_specifier('0', 'e', n, off, name);
    lemma_one_specifier('%', n, off, name);
    let a = if v < 0 {
        -v
    } else {
        v
    };
    let sign_len: int = if v < 0 || plus {
        1
    } else {
        0
    };
    let fill = 0 - sign_len - digits(a as nat).len();
    assert(repeat('0', fill) =~= Seq::<char>::empty());
}

} // verus!
