//! Square root of a price ratio as a Q64.96 number.
use crate::big_num::{big_div, big_nat_to_u256, big_shl, floor_sqrt, is_floor_sqrt, BigInt};
use crate::uint256::Uint256;
use vstd::arithmetic::power2::pow2;
use vstd::prelude::*;

verus! {

pub open spec fn abs(x: int) -> int {
    if x < 0 {
        -x
    } else {
        x
    }
}

/// `n / d` rounded toward zero, as `num_bigint::BigInt` divides.
pub open spec fn trunc_quotient(n: int, d: int) -> int {
    let q = abs(n) / abs(d);
    if (n < 0) == (d < 0) {
        q
    } else {
        -q
    }
}

/// The ratio `amount1 * 2^192 / amount0` whose square root is encoded.
pub open spec fn ratio_x192(amount1: int, amount0: int) -> int {
    trunc_quotient(amount1 * pow2(192), amount0)
}

/// Returns the sqrt ratio as a Q64.96 corresponding to a given ratio of
/// `amount1` and `amount0`: the floor of `sqrt(amount1 * 2^192 / amount0)`.
/// A negative ratio has no square root and is refused.
pub fn encode_sqrt_ratio_x96(amount1: &BigInt, amount0: &BigInt) -> (sqrt_ratio: Uint256)
    requires
        amount0@ != 0,
        0 <= ratio_x192(amount1@, amount0@) < pow2(511),
    ensures
        is_floor_sqrt(sqrt_ratio@, ratio_x192(amount1@, amount0@) as nat),
{
    let numerator = big_shl(&amount1.magnitude, 192);
    let quotient = big_div(&numerator, &amount0.magnitude);
    proof {
        let n = amount1@ * pow2(192);
        vstd::arithmetic::power2::lemma_pow2_pos(192);
        if amount1.negative {
            vstd::arithmetic::mul::lemma_mul_unary_negation(amount1.magnitude@ as int, pow2(192) as int);
        }
        vstd::arithmetic::mul::lemma_mul_nonnegative(amount1.magnitude@ as int, pow2(192) as int);
        assert(abs(n) == numerator@);
        assert(abs(amount0@) == amount0.magnitude@);
        assert(quotient@ == ratio_x192(amount1@, amount0@));
    }
    let root = floor_sqrt(&quotient);
    proof {
        let r = root@;
        if r >= pow2(256) {
            vstd::arithmetic::mul::lemma_mul_inequality(pow2(256) as int, r as int, r as int);
            vstd::arithmetic::mul::lemma_mul_inequality(pow2(256) as int, r as int, pow2(256) as int);
            vstd::arithmetic::mul::lemma_mul_is_commutative(r as int, pow2(256) as int);
            vstd::arithmetic::power2::lemma_pow2_adds(256, 256);
            vstd::arithmetic::power2::lemma_pow2_strictly_increases(511, 512);
        }
    }
    big_nat_to_u256(&root)
}

} // verus!
