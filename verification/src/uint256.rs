//! 256-bit unsigned integers held as four little-endian 64-bit limbs, with
//! the arithmetic of `alloy_primitives::U256` (wrapping, as its operators are).
use vstd::arithmetic::power2::pow2;
use vstd::prelude::*;

verus! {

/// A 256-bit unsigned integer as four 64-bit limbs; `limb0` holds the
/// lowest 64 bits.
#[derive(Debug, Clone, Copy, PartialEq, Eq, Structural, Default)]
pub struct Uint256 {
    pub limb0: u64,
    pub limb1: u64,
    pub limb2: u64,
    pub limb3: u64,
}

/// `2^256`, one more than the largest [`Uint256`].
pub open spec fn modulus256() -> int {
    pow2(256) as int
}

/// The number four little-endian 64-bit limbs stand for.
pub open spec fn limbs_value(l0: u64, l1: u64, l2: u64, l3: u64) -> nat {
    (l0 as nat + pow2(64) * l1 as nat + pow2(128) * l2 as nat + pow2(192) * l3 as nat) as nat
}

/// `a - b` modulo `2^256`, the result of `U256`'s `-`.
pub open spec fn wrapping_sub_spec(a: int, b: int) -> int {
    (a - b) % modulus256()
}

impl View for Uint256 {
    type V = nat;

    open spec fn view(&self) -> nat {
        limbs_value(self.limb0, self.limb1, self.limb2, self.limb3)
    }
}

/// `U256`'s `-` (`wrapping_sub`): the difference modulo `2^256`.
#[verifier::external_body]
pub(crate) fn u256_wrapping_sub(a: Uint256, b: Uint256) -> (d: Uint256)
    ensures
        d@ == wrapping_sub_spec(a@ as int, b@ as int),
{
    let d = (alloy_primitives::U256::from_limbs([a.limb0, a.limb1, a.limb2, a.limb3]) - alloy_primitives::U256::from_limbs([b.limb0, b.limb1, b.limb2, b.limb3])).into_limbs();
    Uint256 { limb0: d[0], limb1: d[1], limb2: d[2], limb3: d[3] }
}

/// `U256`'s `<`.
#[verifier::external_body]
pub(crate) fn u256_lt(a: Uint256, b: Uint256) -> (lt: bool)
    ensures
        lt == (a@ < b@),
{
    alloy_primitives::U256::from_limbs([a.limb0, a.limb1, a.limb2, a.limb3]) < alloy_primitives::U256::from_limbs([b.limb0, b.limb1, b.limb2, b.limb3])
}

/// `U256::leading_zeros`: the number of zero bits above the highest set
/// bit, 256 for zero.
#[verifier::external_body]
pub(crate) fn u256_leading_zeros(x: Uint256) -> (zeros: usize)
    ensures
        zeros <= 256,
        x@ == 0 <==> zeros == 256,
        x@ != 0 ==> pow2((255 - zeros) as nat) <= x@ < pow2((256 - zeros) as nat),
{
    alloy_primitives::U256::from_limbs([x.limb0, x.limb1, x.limb2, x.limb3]).leading_zeros()
}

/// `U256::trailing_zeros`: the number of zero bits below the lowest set
/// bit, 256 for zero.
#[verifier::external_body]
pub(crate) fn u256_trailing_zeros(x: Uint256) -> (zeros: usize)
    ensures
        zeros <= 256,
        x@ == 0 <==> zeros == 256,
        x@ != 0 ==> x@ % pow2(zeros as nat) == 0 && (x@ / pow2(zeros as nat)) % 2 == 1,
{
    alloy_primitives::U256::from_limbs([x.limb0, x.limb1, x.limb2, x.limb3]).trailing_zeros()
}

} // verus!
