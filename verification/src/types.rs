//! Fixed-point decimal quantities: an integer holding the value multiplied
//! by a power of ten (its scale).
use vstd::prelude::*;

verus! {

/// `10^12`, the denominator of a [`Percentage`].
pub const PERCENTAGE_DENOMINATOR: u64 = 1_000_000_000_000;

/// `10^6`, the denominator of a [`Liquidity`].
pub const LIQUIDITY_DENOMINATOR: u128 = 1_000_000;

/// A fraction with 12 decimal places: `Percentage(10^12)` is 100%.
#[derive(Debug, Clone, Copy, PartialEq, Eq, Structural, Default)]
pub struct Percentage(pub u64);

/// A liquidity amount with 6 decimal places.
#[derive(Debug, Clone, Copy, PartialEq, Eq, Structural, Default)]
pub struct Liquidity(pub u128);

/// A square root of a price, with 24 decimal places.
#[derive(Debug, Clone, Copy, PartialEq, Eq, Structural, Default)]
pub struct SqrtPrice(pub u128);

/// A fixed-point number with 12 decimal places.
#[derive(Debug, Clone, Copy, PartialEq, Eq, Structural, Default)]
pub struct FixedPoint(pub u128);

impl Percentage {
    /// The percentage whose raw value (scaled by `10^12`) is `value`.
    pub fn new(value: u64) -> (p: Self)
        ensures
            p.0 == value,
    {
        Percentage(value)
    }

    /// `integer` whole units, that is `integer * 10^12` as raw value.
    pub fn from_integer(integer: u64) -> (p: Self)
        requires
            integer * PERCENTAGE_DENOMINATOR <= u64::MAX,
        ensures
            p.0 == integer * PERCENTAGE_DENOMINATOR,
    {
        Percentage(integer * PERCENTAGE_DENOMINATOR)
    }

    /// `value / 10^scale` as a percentage: raw value `value * 10^(12 - scale)`.
    pub fn from_scale(value: u64, scale: u8) -> (p: Self)
        requires
            scale <= 12,
            value * pow10((12 - scale) as nat) <= u64::MAX,
        ensures
            p.0 == value * pow10((12 - scale) as nat),
    {
        let mut factor: u64 = 1;
        let mut i: u8 = scale;
        while i < 12
            invariant
                scale <= i <= 12,
                factor == pow10((i - scale) as nat),
                value * pow10((12 - scale) as nat) <= u64::MAX,
            decreases 12 - i,
        {
            proof {
                lemma_pow10_monotone((i - scale + 1) as nat, (12 - scale) as nat);
                assert(pow10((i - scale + 1) as nat) == 10 * pow10((i - scale) as nat));
                lemma_pow10_monotone((12 - scale) as nat, 12);
                reveal_with_fuel(pow10, 13);
            }
            factor = factor * 10;
            i = i + 1;
        }
        proof {
            assert(factor == pow10((12 - scale) as nat));
        }
        Percentage(value * factor)
    }

}

impl Liquidity {
    /// The liquidity whose raw value (scaled by `10^6`) is `value`.
    pub fn new(value: u128) -> (l: Self)
        ensures
            l.0 == value,
    {
        Liquidity(value)
    }

    /// `integer` whole units, that is `integer * 10^6` as raw value.
    pub fn from_integer(integer: u128) -> (l: Self)
        requires
            integer * LIQUIDITY_DENOMINATOR <= u128::MAX,
        ensures
            l.0 == integer * LIQUIDITY_DENOMINATOR,
    {
        Liquidity(integer * LIQUIDITY_DENOMINATOR)
    }

    pub fn is_zero(&self) -> (b: bool)
        ensures
            b == (self.0 == 0),
    {
        self.0 == 0
    }

    /// Sum, or `Err(())` where it does not fit.
    pub fn checked_add(self, other: Liquidity) -> (r: Result<Liquidity, ()>)
        ensures
            self.0 + other.0 <= u128::MAX ==> r == Ok::<Liquidity, ()>(Liquidity((self.0 + other.0) as u128)),
            self.0 + other.0 > u128::MAX ==> r is Err,
    {
        match self.0.checked_add(other.0) {
            Some(v) => Ok(Liquidity(v)),
            None => Err(()),
        }
    }

    /// Difference, or `Err(())` where it would be negative.
    pub fn checked_sub(self, other: Liquidity) -> (r: Result<Liquidity, ()>)
        ensures
            other.0 <= self.0 ==> r == Ok::<Liquidity, ()>(Liquidity((self.0 - other.0) as u128)),
            other.0 > self.0 ==> r is Err,
    {
        match self.0.checked_sub(other.0) {
            Some(v) => Ok(Liquidity(v)),
            None => Err(()),
        }
    }
}

/// `10^n`.
pub open spec fn pow10(n: nat) -> nat
    decreases n,
{
    if n == 0 {
        1
    } else {
        10 * pow10((n - 1) as nat)
    }
}

pub proof fn lemma_pow10_monotone(a: nat, b: nat)
    requires
        a <= b,
    ensures
        1 <= pow10(a) <= pow10(b),
    decreases b,
{
    if b > a {
        lemma_pow10_monotone(a, (b - 1) as nat);
    } else if a > 0 {
        lemma_pow10_monotone((a - 1) as nat, (a - 1) as nat);
    }
}

} // verus!
