//! Fee growth inside a tick range, from the fee growth recorded outside its
//! two bounding ticks and the global fee growth.
use crate::uint256::{modulus256, u256_wrapping_sub, wrapping_sub_spec, Uint256};
use vstd::arithmetic::div_mod::{lemma_sub_mod_noop, lemma_mod_twice, lemma_mod_bound};
use vstd::prelude::*;

verus! {

/// Fee growth per unit of liquidity on the far side of a tick, for both tokens.
#[derive(Debug, Clone, Copy, PartialEq, Eq, Structural, Default)]
pub struct FeeGrowthOutside {
    pub fee_growth_outside0_x128: Uint256,
    pub fee_growth_outside1_x128: Uint256,
}

/// Fee growth inside `[tick_lower, tick_upper)` for one token, by the three
/// cases of where the current tick lies, each subtraction modulo `2^256`.
pub open spec fn fee_growth_inside_spec(
    lower_outside: int,
    upper_outside: int,
    tick_lower: int,
    tick_upper: int,
    tick_current: int,
    global: int,
) -> int {
    if tick_current < tick_lower {
        wrapping_sub_spec(lower_outside, upper_outside)
    } else if tick_current >= tick_upper {
        wrapping_sub_spec(upper_outside, lower_outside)
    } else {
        wrapping_sub_spec(wrapping_sub_spec(global, lower_outside), upper_outside)
    }
}

/// Fee growth below a tick, seen from the current tick.
pub open spec fn fee_growth_below(outside: int, tick: int, tick_current: int, global: int) -> int {
    if tick_current >= tick {
        outside
    } else {
        global - outside
    }
}

/// Fee growth above a tick, seen from the current tick.
pub open spec fn fee_growth_above(outside: int, tick: int, tick_current: int, global: int) -> int {
    if tick_current < tick {
        outside
    } else {
        global - outside
    }
}

/// Returns the fee growth inside the range for token 0 and token 1.
pub fn get_fee_growth_inside(
    lower: FeeGrowthOutside,
    upper: FeeGrowthOutside,
    tick_lower: i32,
    tick_upper: i32,
    tick_current: i32,
    fee_growth_global0_x128: Uint256,
    fee_growth_global1_x128: Uint256,
) -> (inside: (Uint256, Uint256))
    ensures
        inside.0@ == fee_growth_inside_spec(
            lower.fee_growth_outside0_x128@ as int,
            upper.fee_growth_outside0_x128@ as int,
            tick_lower as int,
            tick_upper as int,
            tick_current as int,
            fee_growth_global0_x128@ as int,
        ),
        inside.1@ == fee_growth_inside_spec(
            lower.fee_growth_outside1_x128@ as int,
            upper.fee_growth_outside1_x128@ as int,
            tick_lower as int,
            tick_upper as int,
            tick_current as int,
            fee_growth_global1_x128@ as int,
        ),
{
    let fee_growth_inside0_x128: Uint256;
    let fee_growth_inside1_x128: Uint256;
    if tick_current < tick_lower {
        fee_growth_inside0_x128 = u256_wrapping_sub(
            lower.fee_growth_outside0_x128,
            upper.fee_growth_outside0_x128,
        );
        fee_growth_inside1_x128 = u256_wrapping_sub(
            lower.fee_growth_outside1_x128,
            upper.fee_growth_outside1_x128,
        );
    } else if tick_current >= tick_upper {
        fee_growth_inside0_x128 = u256_wrapping_sub(
            upper.fee_growth_outside0_x128,
            lower.fee_growth_outside0_x128,
        );
        fee_growth_inside1_x128 = u256_wrapping_sub(
            upper.fee_growth_outside1_x128,
            lower.fee_growth_outside1_x128,
        );
    } else {
        fee_growth_inside0_x128 = u256_wrapping_sub(
            u256_wrapping_sub(fee_growth_global0_x128, lower.fee_growth_outside0_x128),
            upper.fee_growth_outside0_x128,
        );
        fee_growth_inside1_x128 = u256_wrapping_sub(
            u256_wrapping_sub(fee_growth_global1_x128, lower.fee_growth_outside1_x128),
            upper.fee_growth_outside1_x128,
        );
    }
    (fee_growth_inside0_x128, fee_growth_inside1_x128)
}

/// Whatever side of the range the current tick is on, the fee growth inside
/// is the global fee growth less the growth below the lower tick and above
/// the upper tick, modulo `2^256`, for a range whose lower tick does not
/// lie above its upper tick.
pub proof fn fee_growth_inside_is_global_minus_outside(
    lower_outside: int,
    upper_outside: int,
    tick_lower: int,
    tick_upper: int,
    tick_current: int,
    global: int,
)
    requires
        tick_lower <= tick_upper,
    ensures
        fee_growth_inside_spec(
            lower_outside,
            upper_outside,
            tick_lower,
            tick_upper,
            tick_current,
            global,
        ) == (global - fee_growth_below(lower_outside, tick_lower, tick_current, global)
            - fee_growth_above(upper_outside, tick_upper, tick_current, global)) % modulus256(),
{
    let m = modulus256();
    vstd::arithmetic::power2::lemma_pow2_pos(256);
    if tick_current < tick_lower {
        // below = global - lower_outside, above = upper_outside
        assert(global - (global - lower_outside) - upper_outside == lower_outside - upper_outside);
    } else if tick_current >= tick_upper {
        // below = lower_outside, above = global - upper_outside
        assert(global - lower_outside - (global - upper_outside) == upper_outside - lower_outside);
    } else {
        lemma_sub_mod_noop(global - lower_outside, upper_outside, m);
        lemma_mod_twice(global - lower_outside, m);
        lemma_mod_bound(upper_outside, m);
        lemma_sub_mod_noop((global - lower_outside) % m, upper_outside, m);
    }
}

} // verus!
