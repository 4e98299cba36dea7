//! An instant, kept in UTC, together with the offset of its time zone.
use vstd::prelude::*;

use crate::naive_time::NaiveDateTime;
use crate::offset::TimeZone;

verus! {

/// An instant in time zone `Tz`: the UTC date-time and the zone's offset at it.
#[derive(Clone, Copy, Debug)]
pub struct DateTime<Tz: TimeZone> {
    datetime: NaiveDateTime,
    offset: Tz::Offset,
}

impl<Tz: TimeZone> View for DateTime<Tz> {
    /// The UTC date-time (day number, seconds since midnight, nanoseconds) and the offset.
    type V = ((int, int, int), Tz::Offset);

    closed spec fn view(&self) -> ((int, int, int), Tz::Offset) {
        (self.datetime@, self.offset)
    }
}

/// The view of an optional date-time.
pub open spec fn opt_datetime_view<Tz: TimeZone>(r: Option<DateTime<Tz>>) -> Option<
    ((int, int, int), Tz::Offset),
> {
    match r {
        Some(d) => Some(d@),
        None => None,
    }
}

impl<Tz: TimeZone> DateTime<Tz> {
    /// Date-times are told apart by their views.
    pub proof fn lemma_view_injective(a: DateTime<Tz>, b: DateTime<Tz>)
        requires
            a@ == b@,
        ensures
            a == b,
    {
        NaiveDateTime::lemma_view_injective(a.datetime, b.datetime);
    }

    /// The instant of UTC date-time `datetime` in the zone of `offset`.
    pub fn from_utc(datetime: NaiveDateTime, offset: Tz::Offset) -> (r: DateTime<Tz>)
        ensures
            r@ == (datetime@, offset),
    {
        DateTime { datetime, offset }
    }

    /// The UTC date-time.
    pub fn naive_utc(&self) -> (r: NaiveDateTime)
        ensures
            r@ == self@.0,
    {
        self.datetime
    }

    /// The offset from UTC.
    pub fn offset(&self) -> (r: &Tz::Offset)
        ensures
            *r == self@.1,
    {
        &self.offset
    }
}

} // verus!
