//! Position of the highest and of the lowest set bit of a 256-bit integer.
use crate::uint256::{u256_leading_zeros, u256_trailing_zeros, Uint256};
use vstd::arithmetic::power2::pow2;
use vstd::prelude::*;

verus! {

/// Index of the most significant set bit of `x`: the `r` with
/// `2^r <= x < 2^(r+1)`. Zero has none and is refused.
pub fn most_significant_bit(x: Uint256) -> (r: u8)
    requires
        x@ != 0,
    ensures
        pow2(r as nat) <= x@ < pow2(r as nat + 1),
{
    let zeros = u256_leading_zeros(x);
    (255 - zeros) as u8
}

/// Index of the least significant set bit of `x`: the `r` such that `2^r`
/// divides `x` and `2^(r+1)` does not. Zero has none and is refused.
pub fn least_significant_bit(x: Uint256) -> (r: u8)
    requires
        x@ != 0,
    ensures
        x@ % pow2(r as nat) == 0,
        (x@ / pow2(r as nat)) % 2 == 1,
{
    let zeros = u256_trailing_zeros(x);
    zeros as u8
}

} // verus!
