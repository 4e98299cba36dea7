//! Equality and order of dates: by the calendar date alone, whatever the offsets.
use vstd::prelude::*;

use core::cmp::Ordering;
use vstd::std_specs::cmp::{PartialEqSpecImpl, PartialOrdSpecImpl};

use crate::date::Date;
use crate::offset::TimeZone;

verus! {

/// How day `a` compares with day `b`.
pub open spec fn compare_days(a: int, b: int) -> Ordering {
    if a < b {
        Ordering::Less
    } else if a == b {
        Ordering::Equal
    } else {
        Ordering::Greater
    }
}

impl<Tz: TimeZone, Tz2: TimeZone> PartialEq<Date<Tz2>> for Date<Tz> {
    fn eq(&self, other: &Date<Tz2>) -> (r: bool) {
        let a = self.naive_utc();
        let b = other.naive_utc();
        proof {
            if a@ == b@ {
                crate::naive_date::NaiveDate::lemma_view_injective(a, b);
            }
        }
        a == b
    }
}

impl<Tz: TimeZone, Tz2: TimeZone> PartialEqSpecImpl<Date<Tz2>> for Date<Tz> {
    open spec fn obeys_eq_spec() -> bool {
        true
    }

    open spec fn eq_spec(&self, other: &Date<Tz2>) -> bool {
        self@.0 == other@.0
    }
}

impl<Tz: TimeZone> Eq for Date<Tz> {

}

impl<Tz: TimeZone> PartialOrd for Date<Tz> {
    fn partial_cmp(&self, other: &Date<Tz>) -> (r: Option<Ordering>) {
        let a = self.naive_utc().num_days_from_ce();
        let b = other.naive_utc().num_days_from_ce();
        if a < b {
            Some(Ordering::Less)
        } else if a == b {
            Some(Ordering::Equal)
        } else {
            Some(Ordering::Greater)
        }
    }
}

impl<Tz: TimeZone> PartialOrdSpecImpl for Date<Tz> {
    open spec fn obeys_partial_cmp_spec() -> bool {
        true
    }

    open spec fn partial_cmp_spec(&self, other: &Date<Tz>) -> Option<Ordering> {
        Some(compare_days(self@.0, other@.0))
    }
}

} // verus!
