//! Hashing of dates: by the calendar date alone, as equality goes.
use vstd::prelude::*;

use crate::date::Date;
use crate::offset::TimeZone;

verus! {

/// `Hash::hash` for `i32` feeds the integer to the hasher. Nothing is stated
/// of the hasher's state afterwards: hashers are opaque here.
pub assume_specification<H: core::hash::Hasher>[ <i32 as core::hash::Hash>::hash::<H> ](
    v: &i32,
    state: &mut H,
);

impl<Tz: TimeZone> core::hash::Hash for Date<Tz> {
    fn hash<H: core::hash::Hasher>(&self, state: &mut H) {
        self.naive_utc().num_days_from_ce().hash(state);
    }
}

} // verus!
