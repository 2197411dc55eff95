//! Spans of time and points in time.
//!
//! `Duration` has the range and the arithmetic of `std::time::Duration`
//! (whole seconds in a `u64` plus nanoseconds below one second); its view is
//! the span in nanoseconds. `Instant` is a point on a monotonic clock, held as
//! the span since an origin that the caller chose; its view is that span in
//! nanoseconds. Reading the clock is the caller's business: the library
//! takes the current instant as an argument wherever it needs one.

use vstd::prelude::*;

verus! {

pub const NANOS_PER_SEC: u128 = 1_000_000_000;

pub const NANOS_PER_MILLI: u128 = 1_000_000;

/// The longest span a `Duration` holds: `u64::MAX` seconds and 999_999_999
/// nanoseconds, as for `std::time::Duration::MAX`.
pub const MAX_DURATION_NANOS: u128 = 18_446_744_073_709_551_615_999_999_999;

/// A span of time, to the nanosecond.
#[derive(Clone, Copy, Debug, PartialEq, Eq, Structural, Hash, PartialOrd, Ord)]
pub struct Duration {
    nanos: u128,
}

impl View for Duration {
    type V = nat;

    closed spec fn view(&self) -> nat {
        self.nanos as nat
    }
}

impl Duration {
    #[verifier::type_invariant]
    closed spec fn within_range(self) -> bool {
        self.nanos <= MAX_DURATION_NANOS
    }

    /// The empty span.
    pub fn zero() -> (d: Duration)
        ensures
            d@ == 0,
    {
        Duration { nanos: 0 }
    }

    /// `Duration::from_secs`.
    pub fn from_secs(secs: u64) -> (d: Duration)
        ensures
            d@ == secs * NANOS_PER_SEC,
    {
        assert(secs * NANOS_PER_SEC <= MAX_DURATION_NANOS) by (nonlinear_arith)
            requires
                secs <= u64::MAX,
        ;
        Duration { nanos: secs as u128 * NANOS_PER_SEC }
    }

    /// `Duration::from_millis`.
    pub fn from_millis(millis: u64) -> (d: Duration)
        ensures
            d@ == millis * NANOS_PER_MILLI,
    {
        assert(millis * NANOS_PER_MILLI <= MAX_DURATION_NANOS) by (nonlinear_arith)
            requires
                millis <= u64::MAX,
        ;
        Duration { nanos: millis as u128 * NANOS_PER_MILLI }
    }

    /// `Duration::new`: whole seconds plus nanoseconds. It panics where the
    /// nanoseconds carry the seconds past `u64::MAX`.
    pub fn new(secs: u64, nanos: u32) -> (d: Duration)
        requires
            secs + (nanos as int) / (NANOS_PER_SEC as int) <= u64::MAX,
        ensures
            d@ == secs * NANOS_PER_SEC + nanos,
    {
        let total = secs as u128 * NANOS_PER_SEC + nanos as u128;
        assert(total <= MAX_DURATION_NANOS) by (nonlinear_arith)
            requires
                total == secs * NANOS_PER_SEC + nanos,
                secs + (nanos as int) / (NANOS_PER_SEC as int) <= u64::MAX,
                nanos <= u32::MAX,
        ;
        Duration { nanos: total }
    }

    /// A span of `nanos` nanoseconds, where that fits.
    pub fn from_nanos(nanos: u128) -> (d: Option<Duration>)
        ensures
            d is Some <==> nanos <= MAX_DURATION_NANOS,
            d is Some ==> d->0@ == nanos,
    {
        if nanos <= MAX_DURATION_NANOS {
            Some(Duration { nanos })
        } else {
            None
        }
    }

    /// `Duration::as_secs`: the whole seconds.
    pub fn as_secs(&self) -> (s: u64)
        ensures
            s == self@ / (NANOS_PER_SEC as nat),
    {
        proof {
            use_type_invariant(self);
        }
        (self.nanos / NANOS_PER_SEC) as u64
    }

    /// `Duration::subsec_nanos`: the nanoseconds past the whole seconds.
    pub fn subsec_nanos(&self) -> (n: u32)
        ensures
            n == self@ % (NANOS_PER_SEC as nat),
    {
        (self.nanos % NANOS_PER_SEC) as u32
    }

    /// `Duration::as_millis`: the whole milliseconds.
    pub fn as_millis(&self) -> (m: u128)
        ensures
            m == self@ / (NANOS_PER_MILLI as nat),
    {
        self.nanos / NANOS_PER_MILLI
    }

    /// `Duration::as_nanos`.
    pub fn as_nanos(&self) -> (n: u128)
        ensures
            n == self@,
    {
        self.nanos
    }

    /// `Duration::is_zero`.
    pub fn is_zero(&self) -> (b: bool)
        ensures
            b == (self@ == 0),
    {
        self.nanos == 0
    }

    /// `Duration + Duration`; std panics where the sum overflows.
    pub fn plus(&self, other: Duration) -> (d: Duration)
        requires
            self@ + other@ <= MAX_DURATION_NANOS,
        ensures
            d@ == self@ + other@,
    {
        Duration { nanos: self.nanos + other.nanos }
    }

    /// `self >= other`, by length.
    pub fn at_least(&self, other: &Duration) -> (b: bool)
        ensures
            b == (self@ >= other@),
    {
        self.nanos >= other.nanos
    }
}

/// A point in time: the span since an origin that the caller chose.
#[derive(Clone, Copy, Debug, PartialEq, Eq, Structural, Hash, PartialOrd, Ord)]
pub struct Instant {
    nanos: u128,
}

impl View for Instant {
    type V = nat;

    closed spec fn view(&self) -> nat {
        self.nanos as nat
    }
}

/// The span from `earlier` to `later`, or zero where `earlier` is later.
pub open spec fn elapsed_between(later: nat, earlier: nat) -> nat {
    if later >= earlier {
        (later - earlier) as nat
    } else {
        0
    }
}

impl Instant {
    #[verifier::type_invariant]
    closed spec fn within_range(self) -> bool {
        self.nanos <= MAX_DURATION_NANOS
    }

    /// The instant `since` after the origin.
    pub fn after_origin(since: Duration) -> (i: Instant)
        ensures
            i@ == since@,
    {
        proof {
            use_type_invariant(&since);
        }
        Instant { nanos: since.as_nanos() }
    }

    /// The span from the origin to this instant.
    pub fn since_origin(&self) -> (d: Duration)
        ensures
            d@ == self@,
    {
        proof {
            use_type_invariant(self);
        }
        Duration { nanos: self.nanos }
    }

    /// `Instant + Duration`; the sum must stay within the range of a
    /// `Duration` from the origin (std panics where the sum overflows).
    pub fn plus(&self, d: Duration) -> (i: Instant)
        requires
            self@ + d@ <= MAX_DURATION_NANOS,
        ensures
            i@ == self@ + d@,
    {
        Instant { nanos: self.nanos + d.as_nanos() }
    }

    /// `Instant::duration_since`: the span from `earlier` to `self`, or zero
    /// where `earlier` is later, as std does since Rust 1.60.
    pub fn duration_since(&self, earlier: Instant) -> (d: Duration)
        ensures
            d@ == elapsed_between(self@, earlier@),
    {
        proof {
            use_type_invariant(self);
        }
        if self.nanos >= earlier.nanos {
            Duration { nanos: self.nanos - earlier.nanos }
        } else {
            Duration { nanos: 0 }
        }
    }

    /// Whether at least `span` has passed from `start` to `self`.
    pub fn elapsed_reached(&self, start: Instant, span: Duration) -> (b: bool)
        ensures
            b == (elapsed_between(self@, start@) >= span@),
    {
        self.duration_since(start).at_least(&span)
    }

    /// `self >= other`.
    pub fn not_before(&self, other: &Instant) -> (b: bool)
        ensures
            b == (self@ >= other@),
    {
        self.nanos >= other.nanos
    }
}

} // verus!
