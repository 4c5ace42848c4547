//! A span of time in whole nanoseconds, with saturating arithmetic.

use vstd::prelude::*;

verus! {

/// Nanoseconds in one second.
pub const NANOS_PER_SEC: u32 = 1_000_000_000;

/// The longest span that can be held, in nanoseconds.
pub open spec fn max_nanos() -> nat {
    (u64::MAX as nat * 1_000_000_000 + 999_999_999) as nat
}

/// The length of so many seconds and nanoseconds, in nanoseconds.
pub open spec fn span_of(secs: nat, nanos: nat) -> nat {
    secs * 1_000_000_000 + nanos
}

/// The whole seconds in a span.
pub open spec fn secs_in(span: nat) -> nat {
    span / 1_000_000_000
}

/// The nanoseconds in a span beyond its whole seconds.
pub open spec fn nanos_beyond(span: nat) -> nat {
    span % 1_000_000_000
}

/// Twice a span, or the longest one where that is more.
pub open spec fn doubled(span: nat) -> nat {
    if 2 * span <= max_nanos() {
        2 * span
    } else {
        max_nanos()
    }
}

/// A span less another, or the empty one where the other is longer.
pub open spec fn less(span: nat, other: nat) -> nat {
    if other <= span {
        (span - other) as nat
    } else {
        0
    }
}

/// A span of time: whole seconds and the nanoseconds of a further second.
///
/// Its view is the number of nanoseconds.
#[derive(Debug, Clone, Copy, PartialEq, Eq, Structural)]
pub struct Duration {
    secs: u64,
    nanos: u32,
}

impl View for Duration {
    type V = nat;

    closed spec fn view(&self) -> nat {
        (self.secs * 1_000_000_000 + self.nanos) as nat
    }
}

impl Duration {
    /// Whether the nanoseconds are less than a second, as in every span that is made.
    #[verifier::type_invariant]
    pub closed spec fn valid(&self) -> bool {
        self.nanos < 1_000_000_000
    }

    /// The span of `secs` seconds and `nanos` nanoseconds, or `None` when the
    /// nanoseconds amount to a second or more.
    pub fn new(secs: u64, nanos: u32) -> (d: Option<Self>)
        ensures
            d is Some <==> nanos < 1_000_000_000,
            d matches Some(d) ==> d@ == span_of(secs as nat, nanos as nat),
    {
        if nanos < NANOS_PER_SEC {
            Some(Duration { secs, nanos })
        } else {
            None
        }
    }

    /// The empty span.
    pub fn zero() -> (d: Self)
        ensures
            d@ == 0,
    {
        Duration { secs: 0, nanos: 0 }
    }

    /// The longest span.
    pub fn max() -> (d: Self)
        ensures
            d@ == max_nanos(),
    {
        Duration { secs: u64::MAX, nanos: 999_999_999 }
    }

    /// A span of whole seconds.
    pub fn from_secs(secs: u64) -> (d: Self)
        ensures
            d@ == span_of(secs as nat, 0),
    {
        Duration { secs, nanos: 0 }
    }

    /// A span of whole milliseconds.
    pub fn from_millis(millis: u64) -> (d: Self)
        ensures
            d@ == millis * 1_000_000,
    {
        Duration { secs: millis / 1000, nanos: ((millis % 1000) * 1_000_000) as u32 }
    }

    /// The whole seconds in the span.
    pub fn as_secs(&self) -> (secs: u64)
        ensures
            secs == secs_in(self@),
    {
        proof {
            use_type_invariant(self);
        }
        self.secs
    }

    /// The nanoseconds beyond the whole seconds.
    pub fn subsec_nanos(&self) -> (nanos: u32)
        ensures
            nanos == nanos_beyond(self@),
            nanos < 1_000_000_000,
    {
        proof {
            use_type_invariant(self);
        }
        self.nanos
    }

    /// Whether the span is shorter than another.
    pub fn is_shorter(&self, other: &Self) -> (shorter: bool)
        ensures
            shorter == (self@ < other@),
            self@ <= max_nanos(),
            other@ <= max_nanos(),
    {
        proof {
            use_type_invariant(self);
            use_type_invariant(other);
        }
        self.secs < other.secs || (self.secs == other.secs && self.nanos < other.nanos)
    }

    /// Twice the span, or the longest one where that is more.
    pub fn saturating_double(&self) -> (d: Self)
        ensures
            d@ == doubled(self@),
    {
        proof {
            use_type_invariant(self);
        }
        let carry: u64 = if self.nanos >= 500_000_000 { 1 } else { 0 };
        let nanos: u32 = if self.nanos >= 500_000_000 {
            self.nanos - 500_000_000 + self.nanos - 500_000_000
        } else {
            self.nanos + self.nanos
        };
        if self.secs > (u64::MAX - carry) / 2 {
            Self::max()
        } else {
            Duration { secs: self.secs + self.secs + carry, nanos }
        }
    }

    /// The span less another, or the empty one where the other is longer.
    pub fn saturating_sub(&self, other: Self) -> (d: Self)
        ensures
            d@ == less(self@, other@),
    {
        proof {
            use_type_invariant(self);
            use_type_invariant(&other);
        }
        if self.is_shorter(&other) {
            Self::zero()
        } else if other.nanos <= self.nanos {
            Duration { secs: self.secs - other.secs, nanos: self.nanos - other.nanos }
        } else {
            Duration {
                secs: self.secs - other.secs - 1,
                nanos: NANOS_PER_SEC - other.nanos + self.nanos,
            }
        }
    }

    /// The longest span of which five fit in this one.
    pub fn fifth(&self) -> (d: Self)
        ensures
            d@ == self@ / 5,
    {
        proof {
            use_type_invariant(self);
        }
        let rest: u64 = (self.secs % 5) * 1_000_000_000 + self.nanos as u64;
        Duration { secs: self.secs / 5, nanos: (rest / 5) as u32 }
    }
}

/// A span is its number of nanoseconds: two of the same length are the same.
pub proof fn law_spans_of_one_length_are_the_same(a: Duration, b: Duration)
    requires
        a.valid(),
        b.valid(),
        a@ == b@,
    ensures
        a == b,
{
}

/// A span is its whole seconds and the nanoseconds beyond them: each way of taking it
/// apart and putting it together undoes the other.
pub proof fn law_spans_are_taken_apart_and_put_together(span: nat, secs: nat, nanos: nat)
    requires
        nanos < 1_000_000_000,
    ensures
        span_of(secs_in(span), nanos_beyond(span)) == span,
        nanos_beyond(span) < 1_000_000_000,
        secs_in(span_of(secs, nanos)) == secs,
        nanos_beyond(span_of(secs, nanos)) == nanos,
        span_of(0, nanos) == nanos,
        span_of(secs + 1, nanos) == span_of(secs, nanos) + 1_000_000_000,
{
}

/// Arithmetic on spans is exact as long as the result can be held, and then stops at the
/// longest and the empty one.
pub proof fn law_spans_saturate(span: nat, other: nat)
    requires
        span <= max_nanos(),
    ensures
        max_nanos() == span_of(u64::MAX as nat, 999_999_999),
        doubled(span) <= max_nanos(),
        doubled(span) < max_nanos() ==> doubled(span) == span + span,
        span + span >= max_nanos() ==> doubled(span) == max_nanos(),
        less(span + other, other) == span,
        less(other, span + other) == 0,
{
}

} // verus!
