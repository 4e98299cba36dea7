//! A signed span of time with nanosecond precision, bounded by ±`i64::MAX` milliseconds.
use vstd::prelude::*;

verus! {

pub const NANOS_PER_SEC: i64 = 1_000_000_000;

pub const SECS_PER_DAY: i64 = 86400;

pub const SECS_PER_WEEK: i64 = 604800;

/// The largest number of whole seconds a duration built from seconds can hold
/// (`i64::MAX` milliseconds, rounded down to seconds).
pub const MAX_SECONDS: i64 = 9_223_372_036_854_775;

/// The largest duration, in nanoseconds: `i64::MAX` milliseconds.
pub open spec fn max_nanos() -> int {
    9_223_372_036_854_775_807_000_000int
}

/// Division that rounds toward zero, as Rust's `/` does on signed integers.
pub open spec fn trunc_div(a: int, b: int) -> int
    recommends
        b > 0,
{
    if a >= 0 {
        a / b
    } else {
        -((-a) / b)
    }
}

/// A span of time: `secs` whole seconds plus `nanos` nanoseconds (`0 <= nanos < 10^9`).
#[derive(Clone, Copy, Debug, PartialEq, Eq, Structural)]
pub struct Duration {
    secs: i64,
    nanos: i32,
}

impl View for Duration {
    /// The length in nanoseconds.
    type V = int;

    closed spec fn view(&self) -> int {
        self.secs * 1_000_000_000 + self.nanos
    }
}

/// Whole seconds of a span of `v` nanoseconds, rounded toward zero.
pub open spec fn num_seconds_of(v: int) -> int {
    trunc_div(v, 1_000_000_000)
}

/// Whole days of a span of `v` nanoseconds, rounded toward zero.
pub open spec fn num_days_of(v: int) -> int {
    trunc_div(num_seconds_of(v), 86400)
}

/// The duration of `v` nanoseconds.
pub open spec fn duration_of(v: int) -> Duration {
    choose|d: Duration| d@ == v && d.well_formed()
}

impl Duration {
    #[verifier::type_invariant]
    pub closed spec fn well_formed(self) -> bool {
        &&& 0 <= self.nanos < 1_000_000_000
        &&& -max_nanos() <= self.secs * 1_000_000_000 + self.nanos <= max_nanos()
    }

    /// A duration that meets its type invariant is the duration of its length.
    pub proof fn lemma_duration_of(d: Duration)
        requires
            d.well_formed(),
        ensures
            duration_of(d@) == d,
    {
        let e = duration_of(d@);
        assert(e@ == d@ && e.well_formed());
    }

    /// Every length within the bounds is the length of a duration.
    pub proof fn lemma_duration_of_exists(v: int)
        requires
            -max_nanos() <= v <= max_nanos(),
        ensures
            duration_of(v)@ == v,
            duration_of(v).well_formed(),
    {
        let d = Duration { secs: (v / 1_000_000_000) as i64, nanos: (v % 1_000_000_000) as i32 };
        assert(d@ == v && d.well_formed());
    }

    /// The empty duration.
    pub fn zero() -> (r: Duration)
        ensures
            r@ == 0,
    {
        Duration { secs: 0, nanos: 0 }
    }

    /// A duration of `secs` seconds.
    pub fn seconds(secs: i64) -> (r: Duration)
        requires
            -MAX_SECONDS <= secs <= MAX_SECONDS,
        ensures
            r@ == secs * 1_000_000_000,
    {
        Duration { secs, nanos: 0 }
    }

    /// A duration of `days` days of 86400 seconds.
    pub fn days(days: i64) -> (r: Duration)
        requires
            -MAX_SECONDS <= days * SECS_PER_DAY <= MAX_SECONDS,
        ensures
            r@ == days * 86400 * 1_000_000_000,
    {
        Duration::seconds(days * SECS_PER_DAY)
    }

    /// A duration of `weeks` weeks of 604800 seconds.
    pub fn weeks(weeks: i64) -> (r: Duration)
        requires
            -MAX_SECONDS <= weeks * SECS_PER_WEEK <= MAX_SECONDS,
        ensures
            r@ == weeks * 604800 * 1_000_000_000,
    {
        Duration::seconds(weeks * SECS_PER_WEEK)
    }

    /// Whole seconds, rounded toward zero.
    pub fn num_seconds(&self) -> (r: i64)
        ensures
            r == num_seconds_of(self@),
            -MAX_SECONDS <= r <= MAX_SECONDS,
    {
        proof {
            use_type_invariant(self);
        }
        if self.secs < 0 && self.nanos > 0 {
            self.secs + 1
        } else {
            self.secs
        }
    }

    /// Whole days, rounded toward zero.
    pub fn num_days(&self) -> (r: i64)
        ensures
            r == num_days_of(self@),
            -(MAX_SECONDS / 86400) <= r <= MAX_SECONDS / 86400,
    {
        let s = self.num_seconds();
        if s >= 0 {
            ((s as u64) / 86400) as i64
        } else {
            -(((-s) as u64 / 86400) as i64)
        }
    }
}

impl core::ops::Neg for Duration {
    type Output = Duration;

    /// The same span of time in the other direction.
    fn neg(self) -> (r: Duration)
        ensures
            r@ == -self@,
    {
        proof {
            use_type_invariant(&self);
        }
        let r = if self.nanos == 0 {
            Duration { secs: -self.secs, nanos: 0 }
        } else {
            Duration { secs: -self.secs - 1, nanos: 1_000_000_000 - self.nanos }
        };
        proof {
            use_type_invariant(&r);
            Duration::lemma_duration_of(r);
        }
        r
    }
}

impl vstd::std_specs::ops::NegSpecImpl for Duration {
    open spec fn obeys_neg_spec() -> bool {
        true
    }

    open spec fn neg_req(self) -> bool {
        true
    }

    open spec fn neg_spec(self) -> Duration {
        duration_of(-self@)
    }
}

} // verus!
