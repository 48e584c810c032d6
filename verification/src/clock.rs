//! Times in whole nanoseconds.

use vstd::prelude::*;

verus! {

/// A length of time.
#[derive(Clone, Copy, Debug, PartialEq, Eq, Structural)]
pub struct Duration {
    pub nanos: u64,
}

/// A point on a clock that never goes back, counted from an arbitrary start.
#[derive(Clone, Copy, Debug, PartialEq, Eq, Structural)]
pub struct Instant {
    pub nanos: u64,
}

/// `num`/`den` of a length of time, to the nearest nanosecond and up from the middle.
pub open spec fn share(nanos: int, num: int, den: int) -> int {
    (2 * nanos * num + den) / (2 * den)
}

/// The time from `from` to `to`, nothing where `to` comes first.
pub open spec fn since(to: int, from: int) -> int {
    if to >= from {
        to - from
    } else {
        0
    }
}

impl Duration {
    pub fn from_nanos(n: u64) -> (d: Self)
        ensures
            d.nanos == n,
    {
        Duration { nanos: n }
    }

    pub fn from_micros(n: u64) -> (d: Self)
        requires
            n * 1_000 <= u64::MAX,
        ensures
            d.nanos == n * 1_000,
    {
        Duration { nanos: n * 1_000 }
    }

    pub fn from_millis(n: u64) -> (d: Self)
        requires
            n * 1_000_000 <= u64::MAX,
        ensures
            d.nanos == n * 1_000_000,
    {
        Duration { nanos: n * 1_000_000 }
    }

    pub fn from_secs(n: u64) -> (d: Self)
        requires
            n * 1_000_000_000 <= u64::MAX,
        ensures
            d.nanos == n * 1_000_000_000,
    {
        Duration { nanos: n * 1_000_000_000 }
    }

    /// `num`/`den` of this time. At most doubling it keeps the arithmetic within 128 bits.
    pub fn fraction(self, num: u64, den: u64) -> (n: u128)
        requires
            0 < den <= 1_000,
            num <= 2 * den,
        ensures
            n == share(self.nanos as int, num as int, den as int),
            n <= 2 * self.nanos + 1,
    {
        let n: u128 = self.nanos as u128;
        proof {
            let (x, a, d) = (self.nanos as int, num as int, den as int);
            assert(2 * x * a <= 2 * x * (2 * d)) by (nonlinear_arith)
                requires
                    x >= 0,
                    0 <= a <= 2 * d,
            ;
            assert(2 * x * (2 * d) + d <= (2 * d) * (2 * x + 1)) by (nonlinear_arith)
                requires
                    d > 0,
                    x >= 0,
            ;
            assert(2 * x * a <= 0x1_0000_0000_0000_0000 * 4_000) by (nonlinear_arith)
                requires
                    0 <= x < 0x1_0000_0000_0000_0000,
                    0 <= a <= 2_000,
            ;
            assert(share(x, a, d) <= 2 * x + 1) by (nonlinear_arith)
                requires
                    d > 0,
                    2 * x * a + d <= (2 * d) * (2 * x + 1),
                    share(x, a, d) == (2 * x * a + d) / (2 * d),
            ;
        }
        (2 * n * num as u128 + den as u128) / (2 * den as u128)
    }
}

impl Instant {
    /// The time since an earlier instant, nothing where that one comes later.
    pub fn saturating_duration_since(self, earlier: Instant) -> (d: Duration)
        ensures
            d.nanos == since(self.nanos as int, earlier.nanos as int),
    {
        Duration { nanos: self.nanos.saturating_sub(earlier.nanos) }
    }

    /// This instant moved on by a time.
    pub fn plus(self, d: Duration) -> (i: Instant)
        requires
            self.nanos + d.nanos <= u64::MAX,
        ensures
            i.nanos == self.nanos + d.nanos,
    {
        Instant { nanos: self.nanos + d.nanos }
    }
}

} // verus!
