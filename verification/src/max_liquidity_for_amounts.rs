//! Largest liquidity that given token amounts can back over a price range,
//! prices being square roots in Q64.96.
use crate::big_num::{big_div, big_lt, big_mul, big_shl, big_shr, big_sub, u256_to_big_nat, BigNat};
use crate::uint256::{u256_lt, Uint256};
use vstd::arithmetic::power2::pow2;
use vstd::prelude::*;

verus! {

pub open spec fn min_nat(a: nat, b: nat) -> nat {
    if a <= b {
        a
    } else {
        b
    }
}

pub open spec fn max_nat(a: nat, b: nat) -> nat {
    if a >= b {
        a
    } else {
        b
    }
}

/// Liquidity for an amount of token 0 with the rounding of the v3 router:
/// `amount0 * ((lo * hi) >> 96) / (hi - lo)`.
pub open spec fn liquidity0_imprecise(a: nat, b: nat, amount0: nat) -> nat {
    let lo = min_nat(a, b);
    let hi = max_nat(a, b);
    (amount0 * ((lo * hi) / pow2(96))) / ((hi - lo) as nat)
}

/// Liquidity for an amount of token 0 at full precision:
/// `amount0 * lo * hi / ((hi - lo) << 96)`.
pub open spec fn liquidity0_precise(a: nat, b: nat, amount0: nat) -> nat {
    let lo = min_nat(a, b);
    let hi = max_nat(a, b);
    (amount0 * lo * hi) / (((hi - lo) as nat) * pow2(96))
}

/// Liquidity for an amount of token 1: `(amount1 << 96) / (hi - lo)`.
pub open spec fn liquidity1(a: nat, b: nat, amount1: nat) -> nat {
    let lo = min_nat(a, b);
    let hi = max_nat(a, b);
    (amount1 * pow2(96)) / ((hi - lo) as nat)
}

pub open spec fn liquidity0(a: nat, b: nat, amount0: nat, use_full_precision: bool) -> nat {
    if use_full_precision {
        liquidity0_precise(a, b, amount0)
    } else {
        liquidity0_imprecise(a, b, amount0)
    }
}

/// The liquidity `max_liquidity_for_amounts` returns.
pub open spec fn max_liquidity(
    current: nat,
    a: nat,
    b: nat,
    amount0: nat,
    amount1: nat,
    use_full_precision: bool,
) -> nat {
    let lo = min_nat(a, b);
    let hi = max_nat(a, b);
    if current <= lo {
        liquidity0(lo, hi, amount0, use_full_precision)
    } else if current < hi {
        min_nat(
            liquidity0(current, hi, amount0, use_full_precision),
            liquidity1(lo, current, amount1),
        )
    } else {
        liquidity1(lo, hi, amount1)
    }
}

/// The two bounds in increasing order.
fn sorted(a: Uint256, b: Uint256) -> (lo_hi: (Uint256, Uint256))
    ensures
        lo_hi.0@ == min_nat(a@, b@),
        lo_hi.1@ == max_nat(a@, b@),
{
    if u256_lt(b, a) {
        (b, a)
    } else {
        (a, b)
    }
}

/// Returns an imprecise maximum amount of liquidity received for a given
/// amount of token 0, as the v3 periphery computes it: it divides by Q96 in
/// the intermediate step.
pub fn max_liquidity_for_amount0_imprecise(
    sqrt_ratio_a_x96: Uint256,
    sqrt_ratio_b_x96: Uint256,
    amount0: Uint256,
) -> (liquidity: BigNat)
    requires
        sqrt_ratio_a_x96@ != sqrt_ratio_b_x96@,
    ensures
        liquidity@ == liquidity0_imprecise(sqrt_ratio_a_x96@, sqrt_ratio_b_x96@, amount0@),
{
    let (lo, hi) = sorted(sqrt_ratio_a_x96, sqrt_ratio_b_x96);
    let sqrt_ratio_a_x96 = u256_to_big_nat(lo);
    let sqrt_ratio_b_x96 = u256_to_big_nat(hi);

    let intermediate = big_shr(&big_mul(&sqrt_ratio_a_x96, &sqrt_ratio_b_x96), 96);
    let numerator = big_mul(&u256_to_big_nat(amount0), &intermediate);
    let denominator = big_sub(&sqrt_ratio_b_x96, &sqrt_ratio_a_x96);
    big_div(&numerator, &denominator)
}

/// Returns a precise maximum amount of liquidity received for a given
/// amount of token 0, dividing by Q64 instead of Q96 in the intermediate
/// step.
pub fn max_liquidity_for_amount0_precise(
    sqrt_ratio_a_x96: Uint256,
    sqrt_ratio_b_x96: Uint256,
    amount0: Uint256,
) -> (liquidity: BigNat)
    requires
        sqrt_ratio_a_x96@ != sqrt_ratio_b_x96@,
    ensures
        liquidity@ == liquidity0_precise(sqrt_ratio_a_x96@, sqrt_ratio_b_x96@, amount0@),
{
    let (lo, hi) = sorted(sqrt_ratio_a_x96, sqrt_ratio_b_x96);
    let sqrt_ratio_a_x96 = u256_to_big_nat(lo);
    let sqrt_ratio_b_x96 = u256_to_big_nat(hi);

    let numerator = big_mul(
        &big_mul(&u256_to_big_nat(amount0), &sqrt_ratio_a_x96),
        &sqrt_ratio_b_x96,
    );
    let denominator = big_shl(&big_sub(&sqrt_ratio_b_x96, &sqrt_ratio_a_x96), 96);
    proof {
        vstd::arithmetic::power2::lemma_pow2_pos(96);
        vstd::arithmetic::mul::lemma_mul_strictly_positive(
            (hi@ - lo@) as int,
            pow2(96) as int,
        );
    }
    big_div(&numerator, &denominator)
}

/// Computes the maximum amount of liquidity received for a given amount of
/// token 1.
pub fn max_liquidity_for_amount1(
    sqrt_ratio_a_x96: Uint256,
    sqrt_ratio_b_x96: Uint256,
    amount1: Uint256,
) -> (liquidity: BigNat)
    requires
        sqrt_ratio_a_x96@ != sqrt_ratio_b_x96@,
    ensures
        liquidity@ == liquidity1(sqrt_ratio_a_x96@, sqrt_ratio_b_x96@, amount1@),
{
    let (lo, hi) = sorted(sqrt_ratio_a_x96, sqrt_ratio_b_x96);
    let sqrt_ratio_a_x96 = u256_to_big_nat(lo);
    let sqrt_ratio_b_x96 = u256_to_big_nat(hi);

    let numerator = big_shl(&u256_to_big_nat(amount1), 96);
    let denominator = big_sub(&sqrt_ratio_b_x96, &sqrt_ratio_a_x96);
    big_div(&numerator, &denominator)
}

/// Computes the maximum amount of liquidity received for given amounts of
/// token 0 and token 1 at the current price and the prices bounding the
/// range. Without full precision the liquidity is what the router can
/// compute, not what the core could support.
pub fn max_liquidity_for_amounts(
    sqrt_ratio_current_x96: Uint256,
    sqrt_ratio_a_x96: Uint256,
    sqrt_ratio_b_x96: Uint256,
    amount0: Uint256,
    amount1: Uint256,
    use_full_precision: bool,
) -> (liquidity: BigNat)
    requires
        sqrt_ratio_a_x96@ != sqrt_ratio_b_x96@,
    ensures
        liquidity@ == max_liquidity(
            sqrt_ratio_current_x96@,
            sqrt_ratio_a_x96@,
            sqrt_ratio_b_x96@,
            amount0@,
            amount1@,
            use_full_precision,
        ),
{
    let (sqrt_ratio_a_x96, sqrt_ratio_b_x96) = sorted(sqrt_ratio_a_x96, sqrt_ratio_b_x96);

    if !u256_lt(sqrt_ratio_a_x96, sqrt_ratio_current_x96) {
        if use_full_precision {
            max_liquidity_for_amount0_precise(sqrt_ratio_a_x96, sqrt_ratio_b_x96, amount0)
        } else {
            max_liquidity_for_amount0_imprecise(sqrt_ratio_a_x96, sqrt_ratio_b_x96, amount0)
        }
    } else if u256_lt(sqrt_ratio_current_x96, sqrt_ratio_b_x96) {
        let liquidity0 = if use_full_precision {
            max_liquidity_for_amount0_precise(sqrt_ratio_current_x96, sqrt_ratio_b_x96, amount0)
        } else {
            max_liquidity_for_amount0_imprecise(sqrt_ratio_current_x96, sqrt_ratio_b_x96, amount0)
        };
        let liquidity1 = max_liquidity_for_amount1(
            sqrt_ratio_a_x96,
            sqrt_ratio_current_x96,
            amount1,
        );

        if big_lt(&liquidity0, &liquidity1) {
            liquidity0
        } else {
            liquidity1
        }
    } else {
        max_liquidity_for_amount1(sqrt_ratio_a_x96, sqrt_ratio_b_x96, amount1)
    }
}

/// The bounds of the range may be given in either order.
pub proof fn max_liquidity_bounds_unordered(
    current: nat,
    a: nat,
    b: nat,
    amount0: nat,
    amount1: nat,
    use_full_precision: bool,
)
    ensures
        max_liquidity(current, a, b, amount0, amount1, use_full_precision) == max_liquidity(
            current,
            b,
            a,
            amount0,
            amount1,
            use_full_precision,
        ),
{
}

/// Where the current price lies strictly inside the range, the liquidity is
/// no more than either token amount alone could back.
pub proof fn max_liquidity_inside_range_is_smaller(
    current: nat,
    a: nat,
    b: nat,
    amount0: nat,
    amount1: nat,
    use_full_precision: bool,
)
    requires
        min_nat(a, b) < current < max_nat(a, b),
    ensures
        max_liquidity(current, a, b, amount0, amount1, use_full_precision) <= liquidity0(
            current,
            max_nat(a, b),
            amount0,
            use_full_precision,
        ),
        max_liquidity(current, a, b, amount0, amount1, use_full_precision) <= liquidity1(
            min_nat(a, b),
            current,
            amount1,
        ),
{
}

/// Dividing by Q96 before the other divisions never yields more: the
/// imprecise token-0 liquidity is at most the precise one. Both take the
/// bounds in either order.
pub proof fn imprecise_liquidity0_at_most_precise(a: nat, b: nat, amount0: nat)
    requires
        a != b,
    ensures
        liquidity0_imprecise(a, b, amount0) <= liquidity0_precise(a, b, amount0),
        liquidity0_imprecise(a, b, amount0) == liquidity0_imprecise(b, a, amount0),
        liquidity0_precise(a, b, amount0) == liquidity0_precise(b, a, amount0),
{
    let lo = min_nat(a, b);
    let hi = max_nat(a, b);
    let d = (hi - lo) as int;
    let q = pow2(96) as int;
    let p = (lo * hi) as int;
    let x = amount0 as int;
    vstd::arithmetic::power2::lemma_pow2_pos(96);
    vstd::arithmetic::mul::lemma_mul_nonnegative(lo as int, hi as int);
    vstd::arithmetic::mul::lemma_mul_nonnegative(x, p);
    // amount0 * (p / q) <= (amount0 * p) / q
    vstd::arithmetic::div_mod::lemma_mul_hoist_inequality(x, p, q);
    vstd::arithmetic::div_mod::lemma_div_is_ordered(x * (p / q), (x * p) / q, d);
    // ((amount0 * p) / q) / d == (amount0 * p) / (q * d)
    vstd::arithmetic::div_mod::lemma_div_denominator(x * p, q, d);
    vstd::arithmetic::mul::lemma_mul_is_commutative(q, d);
    vstd::arithmetic::mul::lemma_mul_is_associative(x, lo as int, hi as int);
}

} // verus!
