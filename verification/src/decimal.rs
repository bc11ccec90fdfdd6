//! Exact base-10 fixed-point numbers for prices and volumes.
//!
//! Every value carries nine fractional digits: a `Decimal` with `units == u`
//! denotes the rational number `u / 10^9`. Comparisons and sums over this
//! representation are exact, so OHLC updates and volume accumulation never
//! round.

use vstd::prelude::*;

verus! {

/// Number of base-10 fractional digits carried by every `Decimal`.
pub const DECIMAL_SCALE: u32 = 9;

/// `10^DECIMAL_SCALE`: the number of fixed-point units in one whole unit.
pub const UNITS_PER_WHOLE: i128 = 1_000_000_000;

/// `10^n`.
pub open spec fn pow10(n: nat) -> int
    decreases n,
{
    if n == 0 {
        1
    } else {
        10 * pow10((n - 1) as nat)
    }
}

/// The larger of two fixed-point values (the left one on ties).
pub open spec fn spec_max(a: Decimal, b: Decimal) -> Decimal {
    if a.units >= b.units {
        a
    } else {
        b
    }
}

/// The smaller of two fixed-point values (the left one on ties).
pub open spec fn spec_min(a: Decimal, b: Decimal) -> Decimal {
    if a.units <= b.units {
        a
    } else {
        b
    }
}

/// An exact base-10 fixed-point number denoting `units / 10^9`.
#[derive(Clone, Copy, Debug, PartialEq, Eq, Structural)]
pub struct Decimal {
    pub units: i128,
}

impl Decimal {
    /// The value `num * 10^-scale`, exactly as written: `new(100, 0)` is 100,
    /// `new(1205, 2)` is 12.05. The representation carries nine fractional
    /// digits, so `scale` may not exceed nine.
    pub fn new(num: i64, scale: u32) -> (r: Decimal)
        requires
            scale <= DECIMAL_SCALE,
        ensures
            r.units == num * pow10((DECIMAL_SCALE - scale) as nat),
    {
        let factor: i128 = rescale_factor(scale);
        proof {
            lemma_pow10_positive((DECIMAL_SCALE - scale) as nat);
            lemma_pow10_le_9((DECIMAL_SCALE - scale) as nat);
            assert((num as i128) * factor <= i128::MAX && (num as i128) * factor >= i128::MIN)
                by (nonlinear_arith)
                requires
                    0 < factor <= 1_000_000_000,
                    i64::MIN <= num <= i64::MAX,
            ;
        }
        Decimal { units: (num as i128) * factor }
    }

    /// Zero, the starting volume of a freshly seeded bucket.
    pub fn zero() -> (r: Decimal)
        ensures
            r.units == 0,
    {
        Decimal { units: 0 }
    }

    /// The larger of the two values (either one when they are equal).
    pub fn max(self, other: Decimal) -> (r: Decimal)
        ensures
            r == spec_max(self, other),
    {
        if self.units >= other.units {
            self
        } else {
            other
        }
    }

    /// The smaller of the two values (either one when they are equal).
    pub fn min(self, other: Decimal) -> (r: Decimal)
        ensures
            r == spec_min(self, other),
    {
        if self.units <= other.units {
            self
        } else {
            other
        }
    }

    /// Exact sum, or `None` when the sum leaves the representable range.
    pub fn checked_add(self, other: Decimal) -> (r: Option<Decimal>)
        ensures
            r == (if self.units + other.units > i128::MAX || self.units + other.units
                < i128::MIN {
                Option::<Decimal>::None
            } else {
                Option::<Decimal>::Some(Decimal { units: (self.units + other.units) as i128 })
            }),
    {
        match self.units.checked_add(other.units) {
            Some(u) => Some(Decimal { units: u }),
            None => None,
        }
    }
}

/// `10^(DECIMAL_SCALE - scale)`: what one `10^-scale` step is worth in
/// fixed-point units.
pub fn rescale_factor(scale: u32) -> (r: i128)
    requires
        scale <= DECIMAL_SCALE,
    ensures
        r == pow10((DECIMAL_SCALE - scale) as nat),
{
    proof {
        reveal_with_fuel(pow10, 10);
    }
    match scale {
        0 => 1_000_000_000,
        1 => 100_000_000,
        2 => 10_000_000,
        3 => 1_000_000,
        4 => 100_000,
        5 => 10_000,
        6 => 1_000,
        7 => 100,
        8 => 10,
        _ => 1,
    }
}

/// `10^n` is positive.
pub proof fn lemma_pow10_positive(n: nat)
    ensures
        pow10(n) > 0,
    decreases n,
{
    if n > 0 {
        lemma_pow10_positive((n - 1) as nat);
    }
}

/// For exponents up to nine, `10^n` is at most `10^9`.
pub proof fn lemma_pow10_le_9(n: nat)
    requires
        n <= 9,
    ensures
        pow10(n) <= 1_000_000_000,
{
    reveal_with_fuel(pow10, 10);
    if n == 0 {
        assert(pow10(n) == 1);
    } else if n == 1 {
        assert(pow10(n) == 10);
    } else if n == 2 {
        assert(pow10(n) == 100);
    } else if n == 3 {
        assert(pow10(n) == 1_000);
    } else if n == 4 {
        assert(pow10(n) == 10_000);
    } else if n == 5 {
        assert(pow10(n) == 100_000);
    } else if n == 6 {
        assert(pow10(n) == 1_000_000);
    } else if n == 7 {
        assert(pow10(n) == 10_000_000);
    } else if n == 8 {
        assert(pow10(n) == 100_000_000);
    } else {
        assert(pow10(n) == 1_000_000_000);
    }
}

} // verus!
