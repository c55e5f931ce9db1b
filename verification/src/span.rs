//! Spans of time, counted in whole nanoseconds.

use vstd::prelude::*;

verus! {

/// Nanoseconds in one second.
pub const NANOS_PER_SEC: u128 = 1_000_000_000;

/// The longest span that can be represented: `u64::MAX` whole seconds and
/// one nanosecond short of a further second.
pub const MAX_NANOS: u128 = 18_446_744_073_709_551_615_999_999_999;

/// A non-negative span of time with nanosecond resolution.
///
/// The range is that of a seconds counter of 64 bits with a sub-second part,
/// so every span converts to and from a `(seconds, nanoseconds)` pair. The
/// view of a span is its length in nanoseconds.
#[derive(Clone, Copy, Debug, PartialEq, Eq, Structural)]
pub struct Span {
    nanos: u128,
}

impl View for Span {
    type V = nat;

    closed spec fn view(&self) -> nat {
        self.nanos as nat
    }
}

impl Span {
    /// Every span stays within `MAX_NANOS`.
    #[verifier::type_invariant]
    closed spec fn in_range(self) -> bool {
        self.nanos <= MAX_NANOS
    }

    /// The empty span.
    pub fn zero() -> (r: Span)
        ensures
            r@ == 0,
    {
        Span { nanos: 0 }
    }

    /// A span of `secs` whole seconds.
    pub fn from_secs(secs: u64) -> (r: Span)
        ensures
            r@ == secs as nat * NANOS_PER_SEC as nat,
    {
        let wide: u128 = secs as u128;
        Span { nanos: wide * NANOS_PER_SEC }
    }

    /// A span of `millis` thousandths of a second.
    pub fn from_millis(millis: u64) -> (r: Span)
        ensures
            r@ == millis as nat * 1_000_000,
    {
        let wide: u128 = millis as u128;
        Span { nanos: wide * 1_000_000 }
    }

    /// A span of `nanos` nanoseconds, or `None` when that is longer than
    /// `MAX_NANOS`.
    pub fn from_nanos(nanos: u128) -> (r: Option<Span>)
        ensures
            match r {
                Some(span) => span@ == nanos && nanos <= MAX_NANOS,
                None => nanos > MAX_NANOS,
            },
    {
        if nanos <= MAX_NANOS {
            Some(Span { nanos })
        } else {
            None
        }
    }

    /// The length in nanoseconds.
    pub fn as_nanos(self) -> (n: u128)
        ensures
            n == self@,
            n <= MAX_NANOS,
    {
        proof {
            use_type_invariant(self);
        }
        self.nanos
    }

    /// The whole seconds of the span.
    pub fn as_secs(self) -> (secs: u64)
        ensures
            secs as nat == self@ / (NANOS_PER_SEC as nat),
    {
        proof {
            use_type_invariant(self);
        }
        let whole: u128 = self.nanos / NANOS_PER_SEC;
        whole as u64
    }

    /// What is left of the span beyond its whole seconds, in nanoseconds.
    pub fn subsec_nanos(self) -> (nanos: u32)
        ensures
            nanos as nat == self@ % (NANOS_PER_SEC as nat),
    {
        let rest: u128 = self.nanos % NANOS_PER_SEC;
        rest as u32
    }

    /// Whether the span is no longer than `other`.
    pub fn le(self, other: Span) -> (r: bool)
        ensures
            r == (self@ <= other@),
    {
        self.nanos <= other.nanos
    }

    /// The shorter of the two spans.
    pub fn min(self, other: Span) -> (r: Span)
        ensures
            r@ == if self@ <= other@ { self@ } else { other@ },
    {
        if self.nanos <= other.nanos {
            self
        } else {
            other
        }
    }

    /// The two spans one after the other, or `None` when that is longer than
    /// `MAX_NANOS`.
    pub fn checked_add(self, other: Span) -> (r: Option<Span>)
        ensures
            match r {
                Some(sum) => sum@ == self@ + other@,
                None => self@ + other@ > MAX_NANOS,
            },
    {
        proof {
            use_type_invariant(self);
            use_type_invariant(other);
        }
        let sum: u128 = self.nanos + other.nanos;
        if sum <= MAX_NANOS {
            Some(Span { nanos: sum })
        } else {
            None
        }
    }

    /// The span shortened by `other`; empty when `other` is the longer one.
    pub fn saturating_sub(self, other: Span) -> (r: Span)
        ensures
            r@ == if self@ >= other@ { self@ - other@ } else { 0 },
    {
        proof {
            use_type_invariant(self);
        }
        if self.nanos >= other.nanos {
            Span { nanos: self.nanos - other.nanos }
        } else {
            Span { nanos: 0 }
        }
    }
}

} // verus!
