//! Spans of time and points in time, to the nanosecond.

use vstd::prelude::*;

verus! {

pub const NANOS_PER_MILLI: u128 = 1_000_000;

pub const NANOS_PER_SEC: u128 = 1_000_000_000;

/// The longest span: `u64::MAX` seconds and the largest fraction of a second.
pub const MAX_DURATION_NANOS: u128 = 18_446_744_073_709_551_615_999_999_999;

/// A span of time.
#[derive(Debug, Clone, Copy, PartialEq, Eq, Structural)]
pub struct Duration {
    nanos: u128,
}

impl Duration {
    #[verifier::type_invariant]
    spec fn bounded(self) -> bool {
        self.nanos <= MAX_DURATION_NANOS
    }

    /// The length of the span in nanoseconds.
    pub closed spec fn nanos(self) -> nat {
        self.nanos as nat
    }

    pub fn from_secs(secs: u64) -> (d: Self)
        ensures
            d.nanos() == secs * NANOS_PER_SEC,
    {
        Duration { nanos: secs as u128 * NANOS_PER_SEC }
    }

    pub fn from_millis(millis: u64) -> (d: Self)
        ensures
            d.nanos() == millis * NANOS_PER_MILLI,
    {
        Duration { nanos: millis as u128 * NANOS_PER_MILLI }
    }

    pub fn from_nanos(nanos: u64) -> (d: Self)
        ensures
            d.nanos() == nanos,
    {
        Duration { nanos: nanos as u128 }
    }

    /// The span of `secs` seconds and `subsec` nanoseconds, if it is within
    /// bounds.
    pub fn new(secs: u64, subsec: u32) -> (d: Option<Self>)
        ensures
            match d {
                Some(span) => span.nanos() == secs * NANOS_PER_SEC + subsec,
                None => secs * NANOS_PER_SEC + subsec > MAX_DURATION_NANOS,
            },
    {
        let nanos: u128 = secs as u128 * NANOS_PER_SEC + subsec as u128;
        if nanos <= MAX_DURATION_NANOS {
            Some(Duration { nanos })
        } else {
            None
        }
    }

    /// The nanoseconds of the span.
    pub fn as_nanos(&self) -> (n: u128)
        ensures
            n == self.nanos(),
            n <= MAX_DURATION_NANOS,
    {
        proof {
            use_type_invariant(self);
        }
        self.nanos
    }

    /// The whole milliseconds of the span.
    pub fn as_millis(&self) -> (n: u128)
        ensures
            n == self.nanos() / NANOS_PER_MILLI as nat,
    {
        self.nanos / NANOS_PER_MILLI
    }

    /// The whole seconds of the span.
    pub fn as_secs(&self) -> (n: u64)
        ensures
            n == self.nanos() / NANOS_PER_SEC as nat,
    {
        proof {
            use_type_invariant(self);
        }
        (self.nanos / NANOS_PER_SEC) as u64
    }

    /// The nanoseconds of the span beyond its whole seconds.
    pub fn subsec_nanos(&self) -> (n: u32)
        ensures
            n == self.nanos() % NANOS_PER_SEC as nat,
            n < NANOS_PER_SEC,
    {
        (self.nanos % NANOS_PER_SEC) as u32
    }

    /// The text shown for the span.
    pub open spec fn shown(self) -> Seq<char> {
        crate::outside::duration_text(
            (self.nanos() / NANOS_PER_SEC as nat) as u64,
            (self.nanos() % NANOS_PER_SEC as nat) as u32,
        )
    }

    /// The text shown for the span, such as `1.5s`.
    pub fn show(&self) -> (s: String)
        ensures
            s@ == self.shown(),
    {
        crate::outside::debug_duration(self.as_secs(), self.subsec_nanos())
    }

    /// Half of the span, rounded down to the nanosecond.
    pub fn half(&self) -> (d: Self)
        ensures
            d.nanos() == self.nanos() / 2,
    {
        proof {
            use_type_invariant(self);
        }
        Duration { nanos: self.nanos / 2 }
    }

    /// Twice the span, or the longest span if that is shorter.
    pub fn double(&self) -> (d: Self)
        ensures
            d.nanos() == if 2 * self.nanos() <= MAX_DURATION_NANOS {
                2 * self.nanos()
            } else {
                MAX_DURATION_NANOS as nat
            },
    {
        proof {
            use_type_invariant(self);
        }
        if self.nanos <= MAX_DURATION_NANOS / 2 {
            Duration { nanos: 2 * self.nanos }
        } else {
            Duration { nanos: MAX_DURATION_NANOS }
        }
    }

    /// The shorter of two spans.
    pub fn min(&self, other: &Duration) -> (d: Self)
        ensures
            d.nanos() == if self.nanos() <= other.nanos() {
                self.nanos()
            } else {
                other.nanos()
            },
    {
        if self.nanos <= other.nanos {
            *self
        } else {
            *other
        }
    }

    /// What is left of the span after `other`, or nothing.
    pub fn saturating_sub(&self, other: &Duration) -> (d: Self)
        ensures
            d.nanos() == if self.nanos() >= other.nanos() {
                (self.nanos() - other.nanos()) as nat
            } else {
                0
            },
    {
        proof {
            use_type_invariant(self);
        }
        if self.nanos >= other.nanos {
            Duration { nanos: self.nanos - other.nanos }
        } else {
            Duration { nanos: 0 }
        }
    }

    /// Whether the span is longer than `other`.
    pub fn exceeds(&self, other: &Duration) -> (longer: bool)
        ensures
            longer == (self.nanos() > other.nanos()),
    {
        self.nanos > other.nanos
    }

    pub fn is_zero(&self) -> (zero: bool)
        ensures
            zero == (self.nanos() == 0),
    {
        self.nanos == 0
    }
}

/// A point in time, counted in nanoseconds from the Unix epoch.
#[derive(Debug, Clone, Copy, PartialEq, Eq, Structural)]
pub struct SystemTime {
    pub nanos: i128,
}

impl SystemTime {
    /// The point `millis` milliseconds after the epoch.
    pub open spec fn at_millis(millis: nat) -> SystemTime {
        SystemTime { nanos: (millis * NANOS_PER_MILLI) as i128 }
    }

    /// The whole milliseconds between the epoch and the point: 0 before the
    /// epoch, and at most what 64 bits can hold.
    pub open spec fn millis(self) -> nat {
        if self.nanos < 0 {
            0
        } else if self.nanos / 1_000_000 > u64::MAX {
            u64::MAX as nat
        } else {
            (self.nanos / 1_000_000) as nat
        }
    }

    pub fn from_unix_millis(millis: u64) -> (t: Self)
        ensures
            t == SystemTime::at_millis(millis as nat),
    {
        SystemTime { nanos: millis as i128 * 1_000_000 }
    }

    pub fn unix_millis(&self) -> (ms: u64)
        ensures
            ms == self.millis(),
    {
        if self.nanos < 0 {
            return 0;
        }
        let ms: i128 = self.nanos / 1_000_000;
        if ms > u64::MAX as i128 {
            u64::MAX
        } else {
            ms as u64
        }
    }

    /// Whether the point lies before `other`.
    pub fn before(&self, other: &SystemTime) -> (earlier: bool)
        ensures
            earlier == (self.nanos < other.nanos),
    {
        self.nanos < other.nanos
    }
}

/// Milliseconds are counted from the epoch and rounded down; a point before it
/// counts as the epoch, and one too far behind it as the last that there is.
pub proof fn law_millis(t: SystemTime, millis: u64)
    ensures
        SystemTime::at_millis(millis as nat).nanos == millis * 1_000_000,
        t.nanos < 0 ==> t.millis() == 0,
        0 <= t.nanos < 18_446_744_073_709_551_616_000_000 ==> t.millis() * 1_000_000 <= t.nanos < (
        t.millis() + 1) * 1_000_000,
        t.nanos >= 18_446_744_073_709_551_616_000_000 ==> t.millis() == u64::MAX,
{
}

/// A point given in whole milliseconds is read back unchanged.
pub proof fn law_millis_round_trip(millis: u64)
    ensures
        SystemTime::at_millis(millis as nat).millis() == millis,
{
}

} // verus!
