//! Time zones and their offsets from UTC.
use vstd::prelude::*;

use crate::date::Date;
use crate::datetime::DateTime;
use crate::format::{fixed_offset_name, push_fixed_offset_name, push_str};
use crate::naive_date::NaiveDate;
use crate::naive_time::{shift_secs, NaiveDateTime};

verus! {

/// What a local date or date-time maps to in a time zone: nothing (a gap),
/// one value, or two (an overlap).
#[derive(Clone, Copy, Debug)]
pub enum LocalResult<T> {
    Nothing,
    Single(T),
    Ambiguous(T, T),
}

impl<T> LocalResult<T> {
    pub open spec fn spec_single(self) -> Option<T> {
        match self {
            LocalResult::Single(t) => Some(t),
            _ => None,
        }
    }

    /// The value, when there is exactly one.
    pub fn single(self) -> (r: Option<T>)
        ensures
            r == self.spec_single(),
    {
        match self {
            LocalResult::Single(t) => Some(t),
            _ => None,
        }
    }
}

/// The offset of a time zone from UTC at some moment.
pub trait Offset: Sized + Copy {
    /// Seconds that local time is ahead of UTC.
    spec fn spec_fix(&self) -> int;

    /// The offset as a fixed number of seconds.
    fn fix(&self) -> (r: FixedOffset)
        ensures
            r@ == self.spec_fix(),
    ;

    /// How the offset writes itself.
    spec fn spec_name(&self) -> Seq<char>;

    /// How the offset writes itself.
    fn name(&self) -> (r: String)
        ensures
            r@ == self.spec_name(),
    ;

    /// How the offset writes itself for debugging.
    spec fn spec_debug_name(&self) -> Seq<char>;

    /// How the offset writes itself for debugging.
    fn debug_name(&self) -> (r: String)
        ensures
            r@ == self.spec_debug_name(),
    ;
}

/// Every offset in `r` moves local date-time `local` to a UTC date-time in the supported range.
pub open spec fn offsets_fit<O: Offset>(r: LocalResult<O>, local: (int, int, int)) -> bool {
    match r {
        LocalResult::Nothing => true,
        LocalResult::Single(o) => shift_secs(local, -o.spec_fix()) is Some,
        LocalResult::Ambiguous(a, b) => shift_secs(local, -a.spec_fix()) is Some && shift_secs(
            local,
            -b.spec_fix(),
        ) is Some,
    }
}

/// `r` holds the dates `local` under each offset of `offsets`, in the same shape.
pub open spec fn local_dates<Tz: TimeZone>(
    r: LocalResult<Date<Tz>>,
    local: int,
    offsets: LocalResult<Tz::Offset>,
) -> bool {
    match (r, offsets) {
        (LocalResult::Nothing, LocalResult::Nothing) => true,
        (LocalResult::Single(d), LocalResult::Single(o)) => d@ == (local, o),
        (LocalResult::Ambiguous(d1, d2), LocalResult::Ambiguous(o1, o2)) => d1@ == (local, o1)
            && d2@ == (local, o2),
        _ => false,
    }
}

/// `r` holds, for each offset `o` of `offsets`, the UTC date-time of local
/// date-time `local` paired with `o`, in the same shape.
pub open spec fn local_datetimes<Tz: TimeZone>(
    r: LocalResult<DateTime<Tz>>,
    local: (int, int, int),
    offsets: LocalResult<Tz::Offset>,
) -> bool {
    match (r, offsets) {
        (LocalResult::Nothing, LocalResult::Nothing) => true,
        (LocalResult::Single(d), LocalResult::Single(o)) => d@ == (
            shift_secs(local, -o.spec_fix())->0,
            o,
        ),
        (LocalResult::Ambiguous(d1, d2), LocalResult::Ambiguous(o1, o2)) => d1@ == (
            shift_secs(local, -o1.spec_fix())->0,
            o1,
        ) && d2@ == (shift_secs(local, -o2.spec_fix())->0, o2),
        _ => false,
    }
}

/// A time zone: a rule that gives the offset from UTC for each local or UTC moment.
pub trait TimeZone: Sized {
    /// The offset type this zone hands out.
    type Offset: Offset;

    spec fn spec_from_offset(offset: Self::Offset) -> Self;

    spec fn spec_offset_from_local_date(&self, local: int) -> LocalResult<Self::Offset>;

    spec fn spec_offset_from_local_datetime(&self, local: (int, int, int)) -> LocalResult<
        Self::Offset,
    >;

    spec fn spec_offset_from_utc_date(&self, utc: int) -> Self::Offset;

    spec fn spec_offset_from_utc_datetime(&self, utc: (int, int, int)) -> Self::Offset;

    /// The time zone that an offset of it belongs to.
    fn from_offset(offset: &Self::Offset) -> (r: Self)
        ensures
            r == Self::spec_from_offset(*offset),
    ;

    /// The offsets the zone may have on local date `local`.
    fn offset_from_local_date(&self, local: &NaiveDate) -> (r: LocalResult<Self::Offset>)
        ensures
            r == self.spec_offset_from_local_date(local@),
    ;

    /// The offsets the zone may have at local date-time `local`.
    fn offset_from_local_datetime(&self, local: &NaiveDateTime) -> (r: LocalResult<Self::Offset>)
        ensures
            r == self.spec_offset_from_local_datetime(local@),
    ;

    /// The offset the zone has on UTC date `utc`.
    fn offset_from_utc_date(&self, utc: &NaiveDate) -> (r: Self::Offset)
        ensures
            r == self.spec_offset_from_utc_date(utc@),
    ;

    /// The offset the zone has at UTC date-time `utc`.
    fn offset_from_utc_datetime(&self, utc: &NaiveDateTime) -> (r: Self::Offset)
        ensures
            r == self.spec_offset_from_utc_datetime(utc@),
    ;
}

/// The date in zone `tz` of UTC date `utc`.
pub fn from_utc_date<Tz: TimeZone>(tz: &Tz, utc: &NaiveDate) -> (r: Date<Tz>)
    ensures
        r@ == (utc@, tz.spec_offset_from_utc_date(utc@)),
{
    Date::from_utc(*utc, tz.offset_from_utc_date(utc))
}

/// The date-time in zone `tz` of UTC date-time `utc`.
pub fn from_utc_datetime<Tz: TimeZone>(tz: &Tz, utc: &NaiveDateTime) -> (r: DateTime<Tz>)
    ensures
        r@ == (utc@, tz.spec_offset_from_utc_datetime(utc@)),
{
    DateTime::from_utc(*utc, tz.offset_from_utc_datetime(utc))
}

/// The dates in zone `tz` of local date `local`.
pub fn from_local_date<Tz: TimeZone>(tz: &Tz, local: &NaiveDate) -> (r: LocalResult<Date<Tz>>)
    ensures
        local_dates(r, local@, tz.spec_offset_from_local_date(local@)),
{
    match tz.offset_from_local_date(local) {
        LocalResult::Nothing => LocalResult::Nothing,
        LocalResult::Single(o) => LocalResult::Single(Date::from_utc(*local, o)),
        LocalResult::Ambiguous(a, b) => LocalResult::Ambiguous(
            Date::from_utc(*local, a),
            Date::from_utc(*local, b),
        ),
    }
}

/// The date-times in zone `tz` of local date-time `local`; each offset must
/// keep the UTC date-time in the supported range.
pub fn from_local_datetime<Tz: TimeZone>(tz: &Tz, local: &NaiveDateTime) -> (r: LocalResult<DateTime<Tz>>)
    requires
        offsets_fit(tz.spec_offset_from_local_datetime(local@), local@),
    ensures
        local_datetimes(r, local@, tz.spec_offset_from_local_datetime(local@)),
{
    match tz.offset_from_local_datetime(local) {
        LocalResult::Nothing => LocalResult::Nothing,
        LocalResult::Single(o) => LocalResult::Single(
            DateTime::from_utc(utc_of_local(local, o.fix()), o),
        ),
        LocalResult::Ambiguous(a, b) => LocalResult::Ambiguous(
            DateTime::from_utc(utc_of_local(local, a.fix()), a),
            DateTime::from_utc(utc_of_local(local, b.fix()), b),
        ),
    }
}

/// The UTC date-time of local date-time `local` under offset `fix`, which must
/// keep it in the supported range.
fn utc_of_local(local: &NaiveDateTime, fix: FixedOffset) -> (r: NaiveDateTime)
    requires
        shift_secs(local@, -fix@) is Some,
    ensures
        r@ == shift_secs(local@, -fix@)->0,
{
    local.checked_sub_offset(fix).unwrap()
}

/// An offset from UTC that never changes, of less than a day either way.
#[derive(Clone, Copy, Debug, PartialEq, Eq, Structural, Hash)]
pub struct FixedOffset {
    local_minus_utc: i32,
}

impl View for FixedOffset {
    /// Seconds that local time is ahead of UTC.
    type V = int;

    closed spec fn view(&self) -> int {
        self.local_minus_utc as int
    }
}

/// The view of an optional fixed offset.
pub open spec fn opt_offset(r: Option<FixedOffset>) -> Option<int> {
    match r {
        Some(o) => Some(o@),
        None => None,
    }
}

impl FixedOffset {
    #[verifier::type_invariant]
    pub closed spec fn well_formed(self) -> bool {
        -86400 < self.local_minus_utc < 86400
    }

    /// A fixed offset meets its type invariant only within a day either way.
    pub proof fn lemma_well_formed(o: FixedOffset)
        requires
            o.well_formed(),
        ensures
            -86400 < o@ < 86400,
    {
    }

    /// The offset `secs` seconds east of UTC (ahead of it), if less than a day.
    pub fn east_opt(secs: i32) -> (r: Option<FixedOffset>)
        ensures
            opt_offset(r) == (if -86400 < secs < 86400 {
                Some(secs as int)
            } else {
                None
            }),
    {
        if -86400 < secs && secs < 86400 {
            Some(FixedOffset { local_minus_utc: secs })
        } else {
            None
        }
    }

    /// The offset `secs` seconds east of UTC; `secs` must be less than a day either way.
    pub fn east(secs: i32) -> (r: FixedOffset)
        requires
            -86400 < secs < 86400,
        ensures
            r@ == secs,
    {
        FixedOffset { local_minus_utc: secs }
    }

    /// The offset `secs` seconds west of UTC (behind it), if less than a day.
    pub fn west_opt(secs: i32) -> (r: Option<FixedOffset>)
        ensures
            opt_offset(r) == (if -86400 < secs < 86400 {
                Some(-secs)
            } else {
                None
            }),
    {
        if -86400 < secs && secs < 86400 {
            Some(FixedOffset { local_minus_utc: -secs })
        } else {
            None
        }
    }

    /// The offset `secs` seconds west of UTC; `secs` must be less than a day either way.
    pub fn west(secs: i32) -> (r: FixedOffset)
        requires
            -86400 < secs < 86400,
        ensures
            r@ == -secs,
    {
        FixedOffset { local_minus_utc: -secs }
    }

    /// Seconds that local time is ahead of UTC.
    pub fn local_minus_utc(&self) -> (r: i32)
        ensures
            r == self@,
            -86400 < r < 86400,
    {
        proof {
            use_type_invariant(self);
        }
        self.local_minus_utc
    }

    /// Seconds that local time is behind UTC.
    pub fn utc_minus_local(&self) -> (r: i32)
        ensures
            r == -self@,
    {
        proof {
            use_type_invariant(self);
        }
        -self.local_minus_utc
    }
}

impl Offset for FixedOffset {
    open spec fn spec_fix(&self) -> int {
        self@
    }

    fn fix(&self) -> (r: FixedOffset) {
        *self
    }

    open spec fn spec_name(&self) -> Seq<char> {
        fixed_offset_name(self@)
    }

    fn name(&self) -> (r: String) {
        let mut s = String::new();
        push_fixed_offset_name(&mut s, self.local_minus_utc());
        s
    }

    open spec fn spec_debug_name(&self) -> Seq<char> {
        fixed_offset_name(self@)
    }

    fn debug_name(&self) -> (r: String) {
        self.name()
    }
}

impl TimeZone for FixedOffset {
    type Offset = FixedOffset;

    open spec fn spec_from_offset(offset: FixedOffset) -> FixedOffset {
        offset
    }

    open spec fn spec_offset_from_local_date(&self, local: int) -> LocalResult<FixedOffset> {
        LocalResult::Single(*self)
    }

    open spec fn spec_offset_from_local_datetime(&self, local: (int, int, int)) -> LocalResult<
        FixedOffset,
    > {
        LocalResult::Single(*self)
    }

    open spec fn spec_offset_from_utc_date(&self, utc: int) -> FixedOffset {
        *self
    }

    open spec fn spec_offset_from_utc_datetime(&self, utc: (int, int, int)) -> FixedOffset {
        *self
    }

    fn from_offset(offset: &FixedOffset) -> (r: FixedOffset) {
        *offset
    }

    fn offset_from_local_date(&self, local: &NaiveDate) -> (r: LocalResult<FixedOffset>) {
        LocalResult::Single(*self)
    }

    fn offset_from_local_datetime(&self, local: &NaiveDateTime) -> (r: LocalResult<FixedOffset>) {
        LocalResult::Single(*self)
    }

    fn offset_from_utc_date(&self, utc: &NaiveDate) -> (r: FixedOffset) {
        *self
    }

    fn offset_from_utc_datetime(&self, utc: &NaiveDateTime) -> (r: FixedOffset) {
        *self
    }
}

/// The UTC time zone; it is also its own offset.
#[derive(Clone, Copy, Debug, PartialEq, Eq, Structural, Hash)]
pub struct Utc;

impl Offset for Utc {
    open spec fn spec_fix(&self) -> int {
        0
    }

    fn fix(&self) -> (r: FixedOffset) {
        FixedOffset { local_minus_utc: 0 }
    }

    open spec fn spec_name(&self) -> Seq<char> {
        "UTC"@
    }

    fn name(&self) -> (r: String) {
        let mut s = String::new();
        push_str(&mut s, "UTC");
        s
    }

    open spec fn spec_debug_name(&self) -> Seq<char> {
        "Z"@
    }

    fn debug_name(&self) -> (r: String) {
        let mut s = String::new();
        push_str(&mut s, "Z");
        s
    }
}

impl TimeZone for Utc {
    type Offset = Utc;

    open spec fn spec_from_offset(offset: Utc) -> Utc {
        Utc
    }

    open spec fn spec_offset_from_local_date(&self, local: int) -> LocalResult<Utc> {
        LocalResult::Single(Utc)
    }

    open spec fn spec_offset_from_local_datetime(&self, local: (int, int, int)) -> LocalResult<Utc> {
        LocalResult::Single(Utc)
    }

    open spec fn spec_offset_from_utc_date(&self, utc: int) -> Utc {
        Utc
    }

    open spec fn spec_offset_from_utc_datetime(&self, utc: (int, int, int)) -> Utc {
        Utc
    }

    fn from_offset(offset: &Utc) -> (r: Utc) {
        Utc
    }

    fn offset_from_local_date(&self, local: &NaiveDate) -> (r: LocalResult<Utc>) {
        LocalResult::Single(Utc)
    }

    fn offset_from_local_datetime(&self, local: &NaiveDateTime) -> (r: LocalResult<Utc>) {
        LocalResult::Single(Utc)
    }

    fn offset_from_utc_date(&self, utc: &NaiveDate) -> (r: Utc) {
        Utc
    }

    fn offset_from_utc_datetime(&self, utc: &NaiveDateTime) -> (r: Utc) {
        Utc
    }
}

} // verus!
