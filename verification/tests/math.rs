use oraiswap_v3::big_num::{BigInt, BigNat};
use oraiswap_v3::bit_math::{least_significant_bit, most_significant_bit};
use oraiswap_v3::encode_sqrt_ratio_x96::encode_sqrt_ratio_x96;
use oraiswap_v3::fee_growth_inside::{get_fee_growth_inside, FeeGrowthOutside};
use oraiswap_v3::max_liquidity_for_amounts::{
    max_liquidity_for_amount0_imprecise, max_liquidity_for_amount0_precise,
    max_liquidity_for_amount1, max_liquidity_for_amounts,
};
use oraiswap_v3::nearest_usable_tick::{nearest_usable_tick, MAX_TICK, MIN_TICK};
use oraiswap_v3::uint256::Uint256;

fn u(limb0: u64, limb1: u64, limb2: u64, limb3: u64) -> Uint256 {
    Uint256 { limb0, limb1, limb2, limb3 }
}

fn small(x: u64) -> Uint256 {
    u(x, 0, 0, 0)
}

fn max_u256() -> Uint256 {
    u(u64::MAX, u64::MAX, u64::MAX, u64::MAX)
}

fn big_nat(x: u32) -> BigNat {
    BigNat { digits: vec![x] }
}

fn big_int(x: u32) -> BigInt {
    BigInt { negative: false, magnitude: big_nat(x) }
}

fn encode(amount1: u32, amount0: u32) -> Uint256 {
    encode_sqrt_ratio_x96(&big_int(amount1), &big_int(amount0))
}

#[test]
fn nearest_usable_tick_rounds_to_spacing() {
    assert_eq!(nearest_usable_tick(1, 1), 1);
    assert_eq!(nearest_usable_tick(2, 1), 2);
    assert_eq!(nearest_usable_tick(-5, 10), 0);
    assert_eq!(nearest_usable_tick(5, 10), 10);
    assert_eq!(nearest_usable_tick(4, 10), 0);
    assert_eq!(nearest_usable_tick(-4, 10), 0);
    assert_eq!(nearest_usable_tick(-6, 10), -10);
    assert_eq!(nearest_usable_tick(6, 10), 10);
    assert_eq!(nearest_usable_tick(15, 10), 20);
    assert_eq!(nearest_usable_tick(-15, 10), -10);
}

#[test]
fn nearest_usable_tick_stays_in_range() {
    assert_eq!(nearest_usable_tick(MIN_TICK, 1), MIN_TICK);
    assert_eq!(nearest_usable_tick(MAX_TICK, 1), MAX_TICK);
    assert_eq!(nearest_usable_tick(MAX_TICK, 10), 887270);
    assert_eq!(nearest_usable_tick(MIN_TICK, 10), -887270);
    // rounding past the range is pulled back by one spacing
    assert_eq!(nearest_usable_tick(MAX_TICK, 16), 887264);
    assert_eq!(nearest_usable_tick(MIN_TICK, 16), -887264);
    assert_eq!(nearest_usable_tick(0, 1_000_000_000), 0);
}

#[test]
fn most_significant_bit_of_powers() {
    assert_eq!(most_significant_bit(small(1)), 0);
    assert_eq!(most_significant_bit(small(2)), 1);
    assert_eq!(most_significant_bit(small(3)), 1);
    assert_eq!(most_significant_bit(u(0, 1, 0, 0)), 64);
    assert_eq!(most_significant_bit(u(0, 0, 0, 1 << 63)), 255);
    assert_eq!(most_significant_bit(max_u256()), 255);
}

#[test]
fn least_significant_bit_of_powers() {
    assert_eq!(least_significant_bit(small(1)), 0);
    assert_eq!(least_significant_bit(small(2)), 1);
    assert_eq!(least_significant_bit(small(12)), 2);
    assert_eq!(least_significant_bit(u(0, 1, 0, 0)), 64);
    assert_eq!(least_significant_bit(u(0, 0, 0, 1 << 63)), 255);
    assert_eq!(least_significant_bit(max_u256()), 0);
}

#[test]
fn fee_growth_inside_three_cases() {
    let lower = FeeGrowthOutside { fee_growth_outside0_x128: small(20), fee_growth_outside1_x128: small(30) };
    let upper = FeeGrowthOutside { fee_growth_outside0_x128: small(15), fee_growth_outside1_x128: small(5) };
    let global0 = small(100);
    let global1 = small(200);
    // current tick below the range
    let (a, b) = get_fee_growth_inside(lower, upper, -20, -10, -30, global0, global1);
    assert_eq!(a, small(5));
    assert_eq!(b, small(25));
    // current tick above the range
    let (a, b) = get_fee_growth_inside(lower, upper, -20, -10, 0, global0, global1);
    assert_eq!(a, u(u64::MAX - 4, u64::MAX, u64::MAX, u64::MAX));
    assert_eq!(b, u(u64::MAX - 24, u64::MAX, u64::MAX, u64::MAX));
    // current tick inside the range
    let (a, b) = get_fee_growth_inside(lower, upper, -20, -10, -15, global0, global1);
    assert_eq!(a, small(65));
    assert_eq!(b, small(165));
}

#[test]
fn fee_growth_inside_is_global_minus_outside_on_values() {
    // below = lower outside (current >= lower), above = global - upper outside (current >= upper)
    let lower = FeeGrowthOutside { fee_growth_outside0_x128: small(7), fee_growth_outside1_x128: small(7) };
    let upper = FeeGrowthOutside { fee_growth_outside0_x128: small(40), fee_growth_outside1_x128: small(40) };
    let (a, _) = get_fee_growth_inside(lower, upper, 0, 10, 10, small(50), small(50));
    // 50 - 7 - (50 - 40) = 33
    assert_eq!(a, small(33));
}

#[test]
fn encode_sqrt_ratio_x96_known_values() {
    assert_eq!(encode(1, 1), u(0, 0x100000000, 0, 0));
    assert_eq!(encode(100, 1), u(0, 0xa00000000, 0, 0));
    assert_eq!(encode(1, 100), u(0x9999999999999999, 0x19999999, 0, 0));
    assert_eq!(encode(111, 333), u(0x8198e2690c7c0f25, 0x93cd3a2c, 0, 0));
    assert_eq!(encode(333, 111), u(0x84caa73b25742d70, 0x1bb67ae85, 0, 0));
}

#[test]
fn encode_sqrt_ratio_x96_of_equal_negative_amounts() {
    let minus_one = BigInt { negative: true, magnitude: big_nat(1) };
    assert_eq!(encode_sqrt_ratio_x96(&minus_one, &minus_one), u(0, 0x100000000, 0, 0));
}

fn liquidity(b: BigNat) -> Vec<u32> {
    b.digits
}

#[test]
fn max_liquidity_imprecise_cases() {
    let a = encode(100, 110);
    let b = encode(110, 100);
    // price inside
    assert_eq!(liquidity(max_liquidity_for_amounts(encode(1, 1), a, b, small(100), small(200), false)), vec![2148]);
    assert_eq!(liquidity(max_liquidity_for_amounts(encode(1, 1), a, b, small(100), max_u256(), false)), vec![2148]);
    assert_eq!(liquidity(max_liquidity_for_amounts(encode(1, 1), a, b, max_u256(), small(200), false)), vec![4297]);
    // price below
    assert_eq!(liquidity(max_liquidity_for_amounts(encode(99, 110), a, b, small(100), small(200), false)), vec![1048]);
    // price above
    assert_eq!(liquidity(max_liquidity_for_amounts(encode(111, 100), a, b, small(100), small(200), false)), vec![2097]);
}

#[test]
fn max_liquidity_precise_cases() {
    let a = encode(100, 110);
    let b = encode(110, 100);
    assert_eq!(liquidity(max_liquidity_for_amounts(encode(1, 1), a, b, small(100), small(200), true)), vec![2148]);
    assert_eq!(liquidity(max_liquidity_for_amounts(encode(1, 1), a, b, max_u256(), small(200), true)), vec![4297]);
    assert_eq!(liquidity(max_liquidity_for_amounts(encode(99, 110), a, b, small(100), small(200), true)), vec![1048]);
    assert_eq!(liquidity(max_liquidity_for_amounts(encode(111, 100), a, b, small(100), small(200), true)), vec![2097]);
}

#[test]
fn max_liquidity_bounds_in_either_order() {
    let a = encode(100, 110);
    let b = encode(110, 100);
    for full in [false, true] {
        let one = max_liquidity_for_amounts(encode(1, 1), a, b, small(100), small(200), full);
        let other = max_liquidity_for_amounts(encode(1, 1), b, a, small(100), small(200), full);
        assert_eq!(one.digits, other.digits);
    }
    assert_eq!(
        max_liquidity_for_amount1(a, b, small(200)).digits,
        max_liquidity_for_amount1(b, a, small(200)).digits
    );
}

#[test]
fn single_token_liquidity_formulas() {
    // 2^96 and 2^97 as bounds: 100 * ((2^96 * 2^97) >> 96) / 2^96 = 200
    let lo = u(0, 1 << 32, 0, 0);
    let hi = u(0, 1 << 33, 0, 0);
    assert_eq!(max_liquidity_for_amount0_imprecise(lo, hi, small(100)).digits, vec![200]);
    assert_eq!(max_liquidity_for_amount0_precise(lo, hi, small(100)).digits, vec![200]);
    // (100 << 96) / 2^96 = 100
    assert_eq!(max_liquidity_for_amount1(lo, hi, small(100)).digits, vec![100]);
}

#[test]
fn max_liquidity_inside_range_is_the_smaller_one() {
    let a = encode(100, 110);
    let b = encode(110, 100);
    let current = encode(1, 1);
    let both = max_liquidity_for_amounts(current, a, b, small(100), small(200), false);
    let from_x = max_liquidity_for_amount0_imprecise(current, b, small(100));
    let from_y = max_liquidity_for_amount1(a, current, small(200));
    assert_eq!(from_x.digits, vec![2148]);
    assert_eq!(from_y.digits, vec![4297]);
    assert_eq!(both.digits, from_x.digits);
}

#[test]
fn imprecise_liquidity_never_exceeds_precise() {
    let pairs = [(encode(100, 110), encode(110, 100)), (encode(1, 1), encode(4, 1)), (encode(1, 1000), encode(1000, 1))];
    for &(a, b) in &pairs {
        for amount in [small(1), small(100), small(123_456_789), max_u256()] {
            let imprecise = BigNatValue(max_liquidity_for_amount0_imprecise(a, b, amount));
            let precise = BigNatValue(max_liquidity_for_amount0_precise(a, b, amount));
            assert!(imprecise <= precise);
            assert_eq!(BigNatValue(max_liquidity_for_amount0_imprecise(b, a, amount)), imprecise);
            assert_eq!(BigNatValue(max_liquidity_for_amount0_precise(b, a, amount)), precise);
        }
    }
}

/// A big number compared by value.
#[derive(Debug)]
struct BigNatValue(BigNat);

impl PartialEq for BigNatValue {
    fn eq(&self, other: &Self) -> bool {
        self.partial_cmp(other) == Some(std::cmp::Ordering::Equal)
    }
}

impl PartialOrd for BigNatValue {
    fn partial_cmp(&self, other: &Self) -> Option<std::cmp::Ordering> {
        let trim = |d: &Vec<u32>| {
            let mut d = d.clone();
            while d.last() == Some(&0) {
                d.pop();
            }
            d
        };
        let (a, b) = (trim(&self.0.digits), trim(&other.0.digits));
        Some(a.len().cmp(&b.len()).then_with(|| a.iter().rev().cmp(b.iter().rev())))
    }
}

#[test]
fn nearest_usable_tick_ties_go_up() {
    // 5 is as near to 0 as to 10; the higher wins
    assert_eq!(nearest_usable_tick(5, 10), 10);
    assert_eq!(nearest_usable_tick(-5, 10), 0);
    // near the ends of the range the nearest usable tick lies inside it
    assert_eq!(nearest_usable_tick(MAX_TICK, 10), 887270);
    assert_eq!(nearest_usable_tick(MIN_TICK, 10), -887270);
    assert_eq!(nearest_usable_tick(MAX_TICK, 1_000_000), 0);
    assert_eq!(nearest_usable_tick(887_272, 500_000), 500_000);
}
