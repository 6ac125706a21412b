//! Rounding a tick to the closest tick that a pool's spacing allows.
use vstd::arithmetic::div_mod::*;
use vstd::arithmetic::mul::*;
use vstd::prelude::*;

verus! {

/// Smallest tick of the full price range.
pub const MIN_TICK: i32 = -887272;

/// Largest tick of the full price range.
pub const MAX_TICK: i32 = -MIN_TICK;

/// A tick usable with the spacing: a multiple of it within the tick range.
pub open spec fn usable_tick(tick: int, tick_spacing: int) -> bool {
    MIN_TICK as int <= tick <= MAX_TICK as int && tick % tick_spacing == 0
}

pub open spec fn distance(a: int, b: int) -> int {
    if a >= b {
        a - b
    } else {
        b - a
    }
}

/// `usable` is the usable tick nearest to `tick`; of two equally near, the
/// higher.
pub open spec fn is_nearest_usable(usable: int, tick: int, tick_spacing: int) -> bool {
    &&& usable_tick(usable, tick_spacing)
    &&& forall|other: int|
        #![trigger usable_tick(other, tick_spacing)]
        usable_tick(other, tick_spacing) ==> distance(usable, tick) <= distance(other, tick) && (
        distance(other, tick) == distance(usable, tick) ==> other <= usable)
}

/// `tick` rounded half up to a multiple of `tick_spacing`, then pulled back
/// into the tick range.
spec fn clamped_rounding(tick: int, tick_spacing: int) -> int {
    let rounded = (tick / tick_spacing + (tick % tick_spacing + tick_spacing / 2) / tick_spacing)
        * tick_spacing;
    if rounded < MIN_TICK as int {
        rounded + tick_spacing
    } else if rounded > MAX_TICK as int {
        rounded - tick_spacing
    } else {
        rounded
    }
}

/// `num_integer::Integer::div_mod_floor` on `i32`: the quotient rounded
/// toward negative infinity and the remainder of that division, which for a
/// positive divisor is the quotient and remainder of Euclidean division.
#[verifier::external_body]
fn div_mod_floor(x: i32, y: i32) -> (quotient_remainder: (i32, i32))
    requires
        y > 0,
    ensures
        quotient_remainder.0 as int == x as int / y as int,
        quotient_remainder.1 as int == x as int % y as int,
{
    num_integer::Integer::div_mod_floor(&x, &y)
}

/// Returns the closest tick that is nearest a given tick and usable for the
/// given tick spacing. Halfway cases round up.
pub fn nearest_usable_tick(tick: i32, tick_spacing: i32) -> (usable: i32)
    requires
        tick_spacing > 0,
        MIN_TICK <= tick <= MAX_TICK,
        (tick as int) % (tick_spacing as int) + tick_spacing / 2 <= i32::MAX,
    ensures
        is_nearest_usable(usable as int, tick as int, tick_spacing as int),
{
    let (quotient, remainder) = div_mod_floor(tick, tick_spacing);
    let ghost s = tick_spacing as int;
    let ghost t = tick as int;
    proof {
        lemma_fundamental_div_mod(t, s);
        lemma_mod_bound(t, s);
        lemma_mul_is_commutative(s, t / s);
    }
    let half_up = (remainder + tick_spacing / 2) / tick_spacing;
    proof {
        let c = half_up as int;
        lemma_div_pos_is_pos(remainder + tick_spacing / 2, s);
        if c >= 2 {
            lemma_mul_inequality(2, c, s);
            lemma_fundamental_div_mod(remainder + tick_spacing / 2, s);
            lemma_mod_bound(remainder + tick_spacing / 2, s);
            lemma_mul_is_commutative(s, c);
        }
        assert(0 <= c <= 1);
        lemma_mul_is_distributive_add_other_way(s, t / s, c);
        if c == 1 {
            lemma_fundamental_div_mod(remainder + tick_spacing / 2, s);
            assert(remainder + tick_spacing / 2 >= s) by {
                lemma_mod_bound(remainder + tick_spacing / 2, s);
                lemma_mul_is_commutative(s, c);
            }
        } else {
            assert(remainder + tick_spacing / 2 < s) by {
                if remainder + tick_spacing / 2 >= s {
                    lemma_div_is_ordered(s, remainder + tick_spacing / 2, s);
                    lemma_div_by_multiple(1, s);
                }
            }
        }
        // bounds of (quotient + half_up) * tick_spacing == tick - remainder + half_up * tick_spacing
        assert((t / s) * s == t - remainder);
        if t < 0 {
            if t / s >= 0 {
                lemma_mul_nonnegative(t / s, s);
            }
            if s > MAX_TICK as int {
                lemma_fundamental_div_mod_converse(t, s, -1, t + s);
            }
            lemma_mul_inequality(t / s + c, 0, s);
        } else {
            lemma_div_pos_is_pos(t, s);
            lemma_mul_nonnegative(t / s + c, s);
        }
        lemma_mul_basics(s);
        let p = (t / s + c) * s;
        assert(p == t - remainder + c * s);
        if c == 1 {
            assert(c * s == s);
            assert(t >= 0 ==> s <= 2 * remainder + 1);
        } else {
            assert(c * s == 0);
        }
        assert(i32::MIN <= p <= i32::MAX);
    }
    let rounded = (quotient + half_up) * tick_spacing;
    proof {
        lemma_rounding_is_nearest(tick as int, tick_spacing as int);
    }
    if rounded < MIN_TICK {
        rounded + tick_spacing
    } else if rounded > MAX_TICK {
        rounded - tick_spacing
    } else {
        rounded
    }
}

/// Rounding half up to the spacing and pulling the result back into the
/// tick range gives the nearest usable tick, ties going up.
proof fn lemma_rounding_is_nearest(tick: int, tick_spacing: int)
    requires
        tick_spacing > 0,
        MIN_TICK <= tick <= MAX_TICK,
    ensures
        is_nearest_usable(clamped_rounding(tick, tick_spacing), tick, tick_spacing),
{
    let s = tick_spacing;
    let q = tick / s;
    let r = tick % s;
    lemma_fundamental_div_mod(tick, s);
    lemma_mod_bound(tick, s);
    lemma_mul_is_commutative(s, q);
    let c = (r + s / 2) / s;
    lemma_div_pos_is_pos(r + s / 2, s);
    lemma_fundamental_div_mod(r + s / 2, s);
    lemma_mod_bound(r + s / 2, s);
    lemma_mul_is_commutative(s, c);
    if c >= 2 {
        lemma_mul_inequality(2, c, s);
    }
    assert(0 <= c <= 1);
    lemma_mul_basics(s);
    if c == 1 {
        assert(s * c == s);
        assert(r + s / 2 >= s);
    } else {
        assert(s * c == 0);
        assert(r + s / 2 < s);
    }
    let res = clamped_rounding(tick, s);
    lemma_mul_is_commutative(s, q + c);
    lemma_mul_is_distributive_add_other_way(s, q, c);
    // res is the multiple (q + j) * s for j in -1..=2
    lemma_mul_is_distributive_add_other_way(s, q, 1);
    lemma_mul_is_distributive_add_other_way(s, q, 2);
    lemma_mul_is_distributive_sub_other_way(s, q, 1);
    lemma_mul_is_commutative(s, q + 1);
    lemma_mul_is_commutative(s, q + 2);
    lemma_mul_is_commutative(s, q - 1);
    let j: int = if c == 0 {
        if q * s < MIN_TICK as int {
            1
        } else {
            0
        }
    } else if (q + 1) * s > MAX_TICK as int {
        0
    } else {
        1
    };
    assert(res == (q + j) * s);
    lemma_mod_multiples_basic(q + j, s);
    // res lies in the range
    if j == 1 && c == 0 {
        // q * s < MIN_TICK <= tick, so q < 0
        if q >= 0 {
            lemma_mul_nonnegative(q, s);
        }
        lemma_mul_inequality(q + 1, 0, s);
    }
    if j == 0 && c == 1 {
        // (q + 1) * s > MAX_TICK >= 0, so q >= 0
        if q < 0 {
            lemma_mul_inequality(q + 1, 0, s);
        }
        lemma_mul_nonnegative(q, s);
    }
    assert(usable_tick(res, s));
    assert forall|other: int| #![trigger usable_tick(other, s)] usable_tick(other, s) implies distance(
        res,
        tick,
    ) <= distance(other, tick) && (distance(other, tick) == distance(res, tick) ==> other <= res) by {
        lemma_fundamental_div_mod(other, s);
        let k = other / s;
        lemma_mul_is_commutative(s, k);
        assert(other == k * s);
        if k <= q - 1 {
            lemma_mul_inequality(k, q - 1, s);
        } else if k >= q + 2 {
            lemma_mul_inequality(q + 2, k, s);
        } else if k == q + 1 {
            if j == 0 && c == 0 && (q + 1) * s > MAX_TICK as int {
                assert(false);
            }
        } else {
            assert(k == q);
        }
        if j == 1 && c == 0 && k <= q {
            // other is below the range
            lemma_mul_inequality(k, q, s);
        }
        if j == 0 && c == 1 && k >= q + 1 {
            lemma_mul_inequality(q + 1, k, s);
        }
    }
}

} // verus!
