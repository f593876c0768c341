//! Spans of time with nanosecond resolution.

use vstd::prelude::*;

verus! {

/// A span of time: whole seconds and the nanoseconds of the last, begun second.
#[derive(Clone, Copy, PartialEq, Eq, Structural, Debug)]
pub struct Duration {
    secs: u64,
    nanos: u32,
}

impl View for Duration {
    type V = nat;

    /// The span in nanoseconds.
    closed spec fn view(&self) -> nat {
        (self.secs * 1_000_000_000 + self.nanos) as nat
    }
}

/// `n` seconds in nanoseconds.
pub open spec fn seconds(n: nat) -> nat {
    n * 1_000_000_000
}

/// `n` hours in nanoseconds.
pub open spec fn hours(n: nat) -> nat {
    seconds(n * 3600)
}

impl Duration {
    #[verifier::type_invariant]
    spec fn inv(self) -> bool {
        self.nanos < 1_000_000_000
    }

    pub fn from_secs(secs: u64) -> (r: Duration)
        ensures
            r@ == seconds(secs as nat),
    {
        Duration { secs, nanos: 0 }
    }

    pub fn from_millis(millis: u64) -> (r: Duration)
        ensures
            r@ == millis * 1_000_000,
    {
        Duration { secs: millis / 1000, nanos: ((millis % 1000) * 1_000_000) as u32 }
    }

    pub fn from_hours(hours: u64) -> (r: Duration)
        requires
            hours * 3600 <= u64::MAX,
        ensures
            r@ == self::hours(hours as nat),
    {
        Duration { secs: hours * 3600, nanos: 0 }
    }

    /// The whole seconds of the span.
    pub fn as_secs(&self) -> (r: u64)
        ensures
            r == self@ / 1_000_000_000,
    {
        proof {
            use_type_invariant(self);
        }
        self.secs
    }

    /// The nanoseconds of the span beyond its whole seconds.
    pub fn subsec_nanos(&self) -> (r: u32)
        ensures
            r == self@ % 1_000_000_000,
    {
        proof {
            use_type_invariant(self);
        }
        self.nanos
    }

    pub fn is_zero(&self) -> (r: bool)
        ensures
            r == (self@ == 0),
    {
        proof {
            use_type_invariant(self);
        }
        self.secs == 0 && self.nanos == 0
    }

    /// Whether the span is shorter than `other`.
    pub fn is_below(&self, other: &Duration) -> (r: bool)
        ensures
            r == (self@ < other@),
    {
        proof {
            use_type_invariant(self);
            use_type_invariant(other);
        }
        self.secs < other.secs || (self.secs == other.secs && self.nanos < other.nanos)
    }

    /// The shorter of the two spans.
    pub fn min(self, other: Duration) -> (r: Duration)
        ensures
            r@ == if self@ <= other@ {
                self@
            } else {
                other@
            },
    {
        if other.is_below(&self) {
            other
        } else {
            self
        }
    }

    /// `self - other`, or nothing where `other` is longer.
    pub fn saturating_sub(self, other: Duration) -> (r: Duration)
        ensures
            r@ == if self@ >= other@ {
                (self@ - other@) as nat
            } else {
                0
            },
    {
        proof {
            use_type_invariant(&self);
            use_type_invariant(&other);
        }
        if self.is_below(&other) {
            Duration { secs: 0, nanos: 0 }
        } else if self.nanos >= other.nanos {
            Duration { secs: self.secs - other.secs, nanos: self.nanos - other.nanos }
        } else {
            Duration {
                secs: self.secs - other.secs - 1,
                nanos: 1_000_000_000 - other.nanos + self.nanos,
            }
        }
    }

    /// Twice the span, or `None` where that is not representable.
    pub fn checked_double(self) -> (r: Option<Duration>)
        ensures
            match r {
                Some(d) => d@ == 2 * self@,
                None => forall|other: Duration| #[trigger] other.fits() ==> other@ < 2 * self@,
            },
    {
        proof {
            use_type_invariant(&self);
        }
        let nanos: u32 = self.nanos * 2;
        let carry: u64 = if nanos >= 1_000_000_000 {
            1
        } else {
            0
        };
        if self.secs > (u64::MAX - carry) / 2 {
            return None;
        }
        Some(
            Duration {
                secs: self.secs * 2 + carry,
                nanos: if carry == 1 {
                    nanos - 1_000_000_000
                } else {
                    nanos
                },
            },
        )
    }

    /// Whether the parts of the span are in range, as they are of every value.
    pub closed spec fn fits(self) -> bool {
        self.nanos < 1_000_000_000
    }

    /// Twice the span, but at most `max`.
    pub fn double_up_to(self, max: Duration) -> (r: Duration)
        ensures
            r@ == if 2 * self@ <= max@ {
                2 * self@
            } else {
                max@
            },
    {
        proof {
            use_type_invariant(&max);
        }
        match self.checked_double() {
            Some(d) => d.min(max),
            None => {
                assert(max.fits());
                max
            },
        }
    }
}

/// A second has a thousand million nanoseconds, an hour sixty minutes of sixty
/// seconds.
pub proof fn law_units(n: nat)
    ensures
        seconds(n) == n * 1_000_000_000,
        hours(n) == n * 60 * 60 * 1_000_000_000,
{
}

} // verus!
