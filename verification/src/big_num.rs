//! Arbitrary-precision integers, held as little-endian base-`2^32` digits,
//! with the arithmetic of `num_bigint`.
use crate::uint256::Uint256;
use vstd::arithmetic::power2::{lemma2_to64, pow2};
use vstd::prelude::*;

verus! {

/// A natural number of any size; `digits[0]` is the least significant digit.
#[derive(Debug, Clone)]
pub struct BigNat {
    pub digits: Vec<u32>,
}

/// The number that little-endian base-`2^32` digits stand for.
pub open spec fn digits_value(digits: Seq<u32>) -> nat
    decreases digits.len(),
{
    if digits.len() == 0 {
        0
    } else {
        (digits[0] as nat + pow2(32) * digits_value(digits.drop_first())) as nat
    }
}

impl View for BigNat {
    type V = nat;

    open spec fn view(&self) -> nat {
        digits_value(self.digits@)
    }
}

/// An integer of any size and sign: `magnitude` negated where `negative` holds.
#[derive(Debug, Clone)]
pub struct BigInt {
    pub negative: bool,
    pub magnitude: BigNat,
}

impl View for BigInt {
    type V = int;

    open spec fn view(&self) -> int {
        if self.negative {
            -(self.magnitude@ as int)
        } else {
            self.magnitude@ as int
        }
    }
}

/// The base-`2^32` digits of a `u128`, least significant first.
pub fn big_nat_from_u128(x: u128) -> (b: BigNat)
    ensures
        b@ == x as nat,
{
    let d0 = (x % 0x1_0000_0000) as u32;
    let x1 = x / 0x1_0000_0000;
    let d1 = (x1 % 0x1_0000_0000) as u32;
    let x2 = x1 / 0x1_0000_0000;
    let d2 = (x2 % 0x1_0000_0000) as u32;
    let d3 = (x2 / 0x1_0000_0000) as u32;
    let digits = vec![d0, d1, d2, d3];
    proof {
        lemma2_to64();
        let s = digits@;
        assert(s.drop_first() =~= seq![d1, d2, d3]);
        assert(s.drop_first().drop_first() =~= seq![d2, d3]);
        assert(s.drop_first().drop_first().drop_first() =~= seq![d3]);
        assert(s.drop_first().drop_first().drop_first().drop_first() =~= Seq::<u32>::empty());
        assert(digits_value(seq![d3]) == d3) by {
            assert(seq![d3].drop_first() =~= Seq::<u32>::empty());
            reveal_with_fuel(digits_value, 2);
        }
        assert(digits_value(seq![d2, d3]) == d2 + pow2(32) * d3) by {
            assert(seq![d2, d3].drop_first() =~= seq![d3]);
        }
        assert(digits_value(seq![d1, d2, d3]) == d1 + pow2(32) * (d2 + pow2(32) * d3)) by {
            assert(seq![d1, d2, d3].drop_first() =~= seq![d2, d3]);
        }
    }
    BigNat { digits }
}

/// `u128::try_from(&BigUint)`: the value where it is below `2^128`,
/// `None` where it is not.
#[verifier::external_body]
pub(crate) fn big_nat_to_u128(b: &BigNat) -> (r: Option<u128>)
    ensures
        b@ <= u128::MAX ==> r == Some(b@ as u128),
        b@ > u128::MAX ==> r is None,
{
    u128::try_from(&num_bigint::BigUint::new(b.digits.clone())).ok()
}

/// Floor of the square root: the `r` with `r * r <= v < (r + 1) * (r + 1)`.
pub open spec fn is_floor_sqrt(r: nat, v: nat) -> bool {
    r * r <= v < (r + 1) * (r + 1)
}

/// `num_bigint::BigUint` multiplication.
#[verifier::external_body]
pub(crate) fn big_mul(a: &BigNat, b: &BigNat) -> (p: BigNat)
    ensures
        p@ == a@ * b@,
{
    let p = num_bigint::BigUint::new(a.digits.clone()) * num_bigint::BigUint::new(b.digits.clone());
    BigNat { digits: p.to_u32_digits() }
}

/// `num_bigint::BigUint` division, rounding down. It panics on a zero
/// divisor, which `requires` leaves out.
#[verifier::external_body]
pub(crate) fn big_div(a: &BigNat, b: &BigNat) -> (q: BigNat)
    requires
        b@ != 0,
    ensures
        q@ == a@ / b@,
{
    let q = num_bigint::BigUint::new(a.digits.clone()) / num_bigint::BigUint::new(b.digits.clone());
    BigNat { digits: q.to_u32_digits() }
}

/// `num_bigint::BigUint` subtraction. It panics where the result would be
/// negative, which `requires` leaves out.
#[verifier::external_body]
pub(crate) fn big_sub(a: &BigNat, b: &BigNat) -> (d: BigNat)
    requires
        b@ <= a@,
    ensures
        d@ == a@ - b@,
{
    let d = num_bigint::BigUint::new(a.digits.clone()) - num_bigint::BigUint::new(b.digits.clone());
    BigNat { digits: d.to_u32_digits() }
}

/// `num_bigint::BigUint` `<<`: multiplication by `2^bits`.
#[verifier::external_body]
pub(crate) fn big_shl(a: &BigNat, bits: usize) -> (s: BigNat)
    ensures
        s@ == a@ * pow2(bits as nat),
{
    let s = num_bigint::BigUint::new(a.digits.clone()) << bits;
    BigNat { digits: s.to_u32_digits() }
}

/// `num_bigint::BigUint` `>>`: division by `2^bits`, rounding down.
#[verifier::external_body]
pub(crate) fn big_shr(a: &BigNat, bits: usize) -> (s: BigNat)
    ensures
        s@ == a@ / pow2(bits as nat),
{
    let s = num_bigint::BigUint::new(a.digits.clone()) >> bits;
    BigNat { digits: s.to_u32_digits() }
}

/// `num_bigint::BigUint` `<`.
#[verifier::external_body]
pub(crate) fn big_lt(a: &BigNat, b: &BigNat) -> (lt: bool)
    ensures
        lt == (a@ < b@),
{
    num_bigint::BigUint::new(a.digits.clone()) < num_bigint::BigUint::new(b.digits.clone())
}

/// A 256-bit integer as a `BigUint`, through its little-endian bytes.
#[verifier::external_body]
pub(crate) fn u256_to_big_nat(x: Uint256) -> (b: BigNat)
    ensures
        b@ == x@,
{
    let u = alloy_primitives::U256::from_limbs([x.limb0, x.limb1, x.limb2, x.limb3]);
    let b = num_bigint::BigUint::from_bytes_le(&u.to_le_bytes::<32>());
    BigNat { digits: b.to_u32_digits() }
}

/// A `BigUint` below `2^256` as a 256-bit integer, through
/// `U256::from_limbs_slice`, which panics on a larger value; `requires`
/// leaves that out.
#[verifier::external_body]
pub(crate) fn big_nat_to_u256(b: &BigNat) -> (x: Uint256)
    requires
        b@ < pow2(256),
    ensures
        x@ == b@,
{
    let digits = num_bigint::BigUint::new(b.digits.clone()).to_u64_digits();
    let l = alloy_primitives::U256::from_limbs_slice(&digits).into_limbs();
    Uint256 { limb0: l[0], limb1: l[1], limb2: l[2], limb3: l[3] }
}

/// `uniswap_sdk_core::utils::sqrt::sqrt`, the floor of the square root, on
/// the sdk's 512-bit signed integer. The value is handed over in decimal;
/// `requires` keeps it below `2^511`, the positive range of that integer.
#[verifier::external_body]
pub(crate) fn floor_sqrt(v: &BigNat) -> (r: BigNat)
    requires
        v@ < pow2(511),
    ensures
        is_floor_sqrt(r@, v@),
{
    let decimal = num_bigint::BigUint::new(v.digits.clone()).to_str_radix(10);
    let value = uniswap_sdk_core::prelude::BigInt::from_str_radix(&decimal, 10).unwrap();
    let root = uniswap_sdk_core::utils::sqrt::sqrt(value).unwrap().to_str_radix(10);
    let r = num_bigint::BigUint::parse_bytes(root.as_bytes(), 10).unwrap();
    BigNat { digits: r.to_u32_digits() }
}

} // verus!
