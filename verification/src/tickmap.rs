//! Addressing of the tick bitmap: every usable tick of a pool owns one bit,
//! grouped in chunks of 64 bits.
use vstd::arithmetic::div_mod::*;
use vstd::arithmetic::mul::*;
use vstd::prelude::*;

verus! {

/// Largest tick index a pool can reach.
pub const MAX_TICK: i32 = 221_818;

/// Number of bits held by one chunk of the tick bitmap.
pub const CHUNK_SIZE: i32 = 64;

/// How many tick-spacing steps a single search for the next initialized
/// tick may cover.
pub const TICK_SEARCH_RANGE: i32 = 256;

/// Upper bound, in bytes, of a query result.
pub const MAX_RESULT_SIZE: usize = 16 * 1024 * 8;

/// Largest number of chunks that one tickmap query hands back.
pub const MAX_TICKMAP_QUERY_SIZE: usize = MAX_RESULT_SIZE / (16 + 64);

/// Largest usable tick for a spacing: `MAX_TICK` rounded down to a multiple of it.
pub open spec fn max_tick_for(tick_spacing: int) -> int {
    (MAX_TICK as int / tick_spacing) * tick_spacing
}

/// Position of a tick in the bitmap, counted from the lowest usable tick.
pub open spec fn bitmap_index(tick: int, tick_spacing: int) -> int {
    (tick + MAX_TICK as int) / tick_spacing
}

/// Division that rounds toward zero, as Rust's `/` on signed integers does.
pub open spec fn trunc_div(a: int, b: int) -> int {
    if a >= 0 {
        a / b
    } else {
        -((-a) / b)
    }
}

pub open spec fn spec_min(a: int, b: int) -> int {
    if a <= b {
        a
    } else {
        b
    }
}

pub open spec fn spec_max(a: int, b: int) -> int {
    if a >= b {
        a
    } else {
        b
    }
}

/// The bound `get_search_limit` returns.
pub open spec fn search_limit(tick: int, tick_spacing: int, up: bool) -> int {
    let index = trunc_div(tick, tick_spacing);
    let limit = if up {
        spec_min(index + TICK_SEARCH_RANGE as int, trunc_div(MAX_TICK as int, tick_spacing))
    } else {
        spec_max(index - TICK_SEARCH_RANGE as int, trunc_div(-(MAX_TICK as int), tick_spacing))
    };
    limit * tick_spacing
}

/// A tick a pool with this spacing can hold in its bitmap.
pub open spec fn valid_tick(tick: int, tick_spacing: int) -> bool {
    &&& -(MAX_TICK as int) <= tick <= MAX_TICK as int
    &&& tick % tick_spacing == 0
}

proof fn lemma_floor_mul(x: int, d: int)
    requires
        0 <= x,
        0 < d,
    ensures
        0 <= x / d <= x,
        0 <= (x / d) * d <= x,
        x - (x / d) * d == x % d,
        0 <= x % d < d,
{
    lemma_fundamental_div_mod(x, d);
    lemma_div_pos_is_pos(x, d);
    lemma_div_is_ordered_by_denominator(x, 1, d);
    lemma_mod_bound(x, d);
    lemma_mul_is_commutative(d, x / d);
}

proof fn lemma_trunc_div_bounds(a: int, b: int)
    requires
        0 < b,
    ensures
        a >= 0 ==> trunc_div(a, b) == a / b && 0 <= trunc_div(a, b) * b <= a,
        a < 0 ==> a <= trunc_div(a, b) * b <= 0,
{
    if a >= 0 {
        lemma_floor_mul(a, b);
    } else {
        lemma_floor_mul(-a, b);
        lemma_mul_unary_negation((-a) / b, b);
    }
}

/// Largest usable tick for the spacing.
pub fn get_max_tick(tick_spacing: u16) -> (tick: i32)
    requires
        tick_spacing > 0,
    ensures
        tick as int == max_tick_for(tick_spacing as int),
        0 <= tick <= MAX_TICK,
        (tick as int) % (tick_spacing as int) == 0,
{
    let ts = tick_spacing as i32;
    proof {
        lemma_floor_mul(MAX_TICK as int, ts as int);
        lemma_mod_multiples_basic(MAX_TICK as int / ts as int, ts as int);
    }
    MAX_TICK / ts * ts
}

/// Smallest usable tick for the spacing, the mirror image of [`get_max_tick`].
pub fn get_min_tick(tick_spacing: u16) -> (tick: i32)
    requires
        tick_spacing > 0,
    ensures
        tick as int == -max_tick_for(tick_spacing as int),
        -MAX_TICK <= tick <= 0,
        (tick as int) % (tick_spacing as int) == 0,
{
    let max = get_max_tick(tick_spacing);
    proof {
        let ts = tick_spacing as int;
        lemma_mod_multiples_basic(-(MAX_TICK as int / ts), ts);
        lemma_mul_unary_negation(-(MAX_TICK as int / ts), ts);
    }
    -max
}

/// Index of the chunk that holds the largest usable tick.
pub fn get_max_chunk(tick_spacing: u16) -> (chunk: u16)
    requires
        tick_spacing > 0,
    ensures
        chunk as int == bitmap_index(max_tick_for(tick_spacing as int), tick_spacing as int)
            / CHUNK_SIZE as int,
{
    let max_tick = get_max_tick(tick_spacing);
    let ts = tick_spacing as i32;
    proof {
        let sum = max_tick + MAX_TICK;
        lemma_floor_mul(sum as int, ts as int);
        lemma_floor_mul(sum as int / ts as int, 64);
    }
    let max_bitmap_index = (max_tick + MAX_TICK) / ts;
    let max_chunk_index = max_bitmap_index / CHUNK_SIZE;
    max_chunk_index as u16
}

/// Index of the chunk that holds the smallest usable tick. That tick always
/// lies in the first chunk, so the result is 0.
pub fn get_min_chunk(tick_spacing: u16) -> (chunk: u16)
    requires
        tick_spacing > 0,
    ensures
        chunk as int == bitmap_index(-max_tick_for(tick_spacing as int), tick_spacing as int)
            / CHUNK_SIZE as int,
        chunk == 0,
{
    let min_tick = get_max_tick(tick_spacing);
    let ts = tick_spacing as i32;
    proof {
        let t = ts as int;
        lemma_floor_mul(MAX_TICK as int, t);
        let diff = MAX_TICK - min_tick;
        assert(diff as int == MAX_TICK as int % t);
        assert(diff as int / t == 0) by {
            lemma_basic_div(diff as int, t);
        }
    }
    let min_bitmap_index = (MAX_TICK - min_tick) / ts;
    let min_chunk_index = min_bitmap_index / CHUNK_SIZE;
    min_chunk_index as u16
}

/// Chunk and bit that hold a tick.
pub fn tick_to_position(tick: i32, tick_spacing: u16) -> (position: (u16, u8))
    requires
        tick_spacing > 0,
        valid_tick(tick as int, tick_spacing as int),
    ensures
        position.0 as int == bitmap_index(tick as int, tick_spacing as int) / CHUNK_SIZE as int,
        position.1 as int == bitmap_index(tick as int, tick_spacing as int) % CHUNK_SIZE as int,
        position.1 < 64,
{
    let ts = tick_spacing as i32;
    let shifted = tick + MAX_TICK;
    proof {
        lemma_floor_mul(shifted as int, ts as int);
        lemma_floor_mul(shifted as int / ts as int, 64);
    }
    let bitmap_index = shifted / ts;

    let chunk: u16 = (bitmap_index / CHUNK_SIZE) as u16;
    let bit: u8 = (bitmap_index % CHUNK_SIZE) as u8;

    (chunk, bit)
}

/// Tick held by a chunk and bit; the inverse of [`tick_to_position`].
pub fn position_to_tick(chunk: u16, bit: u8, tick_spacing: u16) -> (tick: i32)
    requires
        tick_spacing > 0,
        (chunk as int * CHUNK_SIZE as int + bit as int) * tick_spacing as int <= i32::MAX,
    ensures
        tick as int == (chunk as int * CHUNK_SIZE as int + bit as int) * tick_spacing as int
            - max_tick_for(tick_spacing as int),
{
    let ts = tick_spacing as i32;
    proof {
        let t = ts as int;
        lemma_floor_mul(MAX_TICK as int, t);
        lemma_mul_is_distributive_add_other_way(t, chunk as int * 64, bit as int);
        lemma_mul_nonnegative(chunk as int * 64, t);
        lemma_mul_nonnegative(bit as int, t);
    }
    let tick_range_limit = MAX_TICK - MAX_TICK % ts;
    (chunk as i32 * CHUNK_SIZE * ts + bit as i32 * ts) - tick_range_limit
}

/// Value (0 or 1) of one bit of a chunk.
pub fn get_bit_at_position(value: u64, position: u8) -> (bit: u64)
    requires
        position < 64,
    ensures
        bit == (value >> position) & 1,
        bit <= 1,
{
    proof {
        assert((value >> position) & 1 <= 1) by (bit_vector);
    }
    (value >> position) & 1
}

/// Chunk with one bit flipped.
pub fn flip_bit_at_position(value: u64, position: u8) -> (flipped: u64)
    requires
        position < 64,
    ensures
        flipped == value ^ (1u64 << position),
{
    value ^ (1u64 << position)
}

/// Tick at which a search for the next initialized tick stops: at most
/// `TICK_SEARCH_RANGE` spacings away, and never past the range of ticks.
pub fn get_search_limit(tick: i32, tick_spacing: u16, up: bool) -> (limit: i32)
    requires
        tick_spacing > 0,
        up ==> trunc_div(tick as int, tick_spacing as int) + TICK_SEARCH_RANGE <= i32::MAX,
        !up ==> trunc_div(tick as int, tick_spacing as int) - TICK_SEARCH_RANGE >= i32::MIN,
    ensures
        limit as int == search_limit(tick as int, tick_spacing as int, up),
        up ==> limit <= MAX_TICK,
        !up ==> limit >= -MAX_TICK,
        -MAX_TICK <= tick <= MAX_TICK ==> -MAX_TICK <= limit <= MAX_TICK,
{
    let ts = tick_spacing as i32;
    let index = tick / ts;
    proof {
        assert(index as int == trunc_div(tick as int, ts as int));
    }

    // limit unscaled
    let limit = if up {
        // the search covers at most TICK_SEARCH_RANGE spacings ...
        let range_limit = index + TICK_SEARCH_RANGE;
        // ... and never reaches past the largest tick
        let sqrt_price_limit = MAX_TICK / ts;

        if range_limit < sqrt_price_limit {
            range_limit
        } else {
            sqrt_price_limit
        }
    } else {
        let range_limit = index - TICK_SEARCH_RANGE;
        let sqrt_price_limit = -MAX_TICK / ts;

        if range_limit > sqrt_price_limit {
            range_limit
        } else {
            sqrt_price_limit
        }
    };

    proof {
        let t = ts as int;
        let m = MAX_TICK as int;
        lemma_floor_mul(m, t);
        lemma_trunc_div_bounds(tick as int, t);
        lemma_trunc_div_bounds(m, t);
        lemma_trunc_div_bounds(-m, t);
        assert(trunc_div(-m, t) == -(m / t));
        lemma_mul_is_distributive_add_other_way(t, index as int, 256);
        lemma_mul_is_distributive_sub_other_way(t, index as int, 256);
        if up {
            lemma_mul_inequality(limit as int, m / t, t);
            if limit as int == m / t {
                lemma_mul_nonnegative(m / t, t);
            }
        } else {
            lemma_mul_inequality(-(m / t), limit as int, t);
            lemma_mul_unary_negation(m / t, t);
            if limit as int == -(m / t) {
                lemma_mul_nonnegative(m / t, t);
            }
        }
        if -MAX_TICK <= tick <= MAX_TICK {
            lemma_trunc_div_bounds(tick as int, t);
            if up {
                if limit as int != m / t {
                    assert(limit as int == index + 256);
                }
            }
        }
    }
    // scaled by tick_spacing
    limit * ts
}

/// Every usable tick sits at a bit from which `position_to_tick` gives it
/// back: `position_to_tick(tick_to_position(tick))` is `tick`, and that call
/// stays within `i32`.
pub proof fn tick_position_roundtrip(tick: int, tick_spacing: int)
    requires
        0 < tick_spacing <= u16::MAX,
        valid_tick(tick, tick_spacing),
    ensures
        ({
            let index = bitmap_index(tick, tick_spacing);
            let chunk = index / CHUNK_SIZE as int;
            let bit = index % CHUNK_SIZE as int;
            &&& (chunk * CHUNK_SIZE as int + bit) * tick_spacing <= i32::MAX
            &&& (chunk * CHUNK_SIZE as int + bit) * tick_spacing - max_tick_for(tick_spacing) == tick
        }),
{
    let t = tick_spacing;
    let m = MAX_TICK as int;
    let index = bitmap_index(tick, t);
    lemma_fundamental_div_mod(index, 64);
    lemma_mul_is_commutative(64, index / 64);
    assert((index / 64) * 64 + index % 64 == index);
    // tick is a multiple of the spacing
    lemma_fundamental_div_mod(tick, t);
    let k = tick / t;
    assert(tick == t * k);
    lemma_fundamental_div_mod(m, t);
    // (t * k + m) / t == k + m / t
    assert(tick + m == t * (k + m / t) + m % t) by {
        lemma_mul_is_distributive_add(t, k, m / t);
    }
    lemma_mod_bound(m, t);
    lemma_div_multiples_vanish_fancy(k + m / t, m % t, t);
    assert(index == k + m / t);
    assert(index * t == t * k + t * (m / t)) by {
        lemma_mul_is_commutative(index, t);
        lemma_mul_is_distributive_add(t, k, m / t);
    }
    lemma_mul_is_commutative(m / t, t);
    // the product stays below 2 * MAX_TICK
    lemma_floor_mul(m, t);
}

/// The chunk of every usable tick lies between the chunk of the smallest
/// and the chunk of the largest usable tick.
pub proof fn tick_chunk_in_bounds(tick: int, tick_spacing: int)
    requires
        0 < tick_spacing <= u16::MAX,
        valid_tick(tick, tick_spacing),
    ensures
        bitmap_index(-max_tick_for(tick_spacing), tick_spacing) / CHUNK_SIZE as int
            <= bitmap_index(tick, tick_spacing) / CHUNK_SIZE as int
            <= bitmap_index(max_tick_for(tick_spacing), tick_spacing) / CHUNK_SIZE as int,
        -max_tick_for(tick_spacing) <= tick <= max_tick_for(tick_spacing),
{
    let t = tick_spacing;
    let m = MAX_TICK as int;
    lemma_fundamental_div_mod(tick, t);
    let k = tick / t;
    assert(tick == t * k);
    lemma_floor_mul(m, t);
    lemma_fundamental_div_mod(m, t);
    // k <= m / t, since t * k <= m
    if k > m / t {
        lemma_mul_inequality(m / t + 1, k, t);
        lemma_mul_is_distributive_add_other_way(t, m / t, 1);
        lemma_mul_is_commutative(k, t);
        assert(false);
    }
    if k < -(m / t) {
        lemma_mul_inequality(k, -(m / t) - 1, t);
        lemma_mul_is_distributive_sub_other_way(t, -(m / t), 1);
        lemma_mul_unary_negation(m / t, t);
        lemma_mul_is_commutative(k, t);
        assert(false);
    }
    lemma_mul_inequality(k, m / t, t);
    lemma_mul_inequality(-(m / t), k, t);
    lemma_mul_unary_negation(m / t, t);
    lemma_mul_is_commutative(k, t);
    let lo = -((m / t) * t);
    let hi = (m / t) * t;
    lemma_div_is_ordered(lo + m, tick + m, t);
    lemma_div_is_ordered(tick + m, hi + m, t);
    lemma_div_pos_is_pos(lo + m, t);
    lemma_div_is_ordered((lo + m) / t, (tick + m) / t, 64);
    lemma_div_is_ordered((tick + m) / t, (hi + m) / t, 64);
}

/// Flipping a bit twice gives the chunk back; a flip changes the value of
/// the flipped bit and of no other.
pub proof fn flip_bit_laws(value: u64, position: u64, other: u64)
    requires
        position < 64,
        other < 64,
    ensures
        (value ^ (1u64 << position)) ^ (1u64 << position) == value,
        ((value ^ (1u64 << position)) >> position) & 1 == 1 - ((value >> position) & 1),
        other != position ==> ((value ^ (1u64 << position)) >> other) & 1 == (value >> other)
            & 1,
{
    assert((value ^ (1u64 << position)) ^ (1u64 << position) == value) by (bit_vector)
        requires
            position < 64,
    ;
    assert(((value ^ (1u64 << position)) >> position) & 1 == 1 - ((value >> position) & 1))
        by (bit_vector)
        requires
            position < 64,
    ;
    assert(other != position ==> ((value ^ (1u64 << position)) >> other) & 1 == (value >> other)
        & 1) by (bit_vector)
        requires
            position < 64,
            other < 64,
    ;
}

/// Searching from a usable tick: upward the limit is not below the tick,
/// downward not above it, and it is itself a multiple of the spacing.
pub proof fn search_limit_brackets_tick(tick: int, tick_spacing: int, up: bool)
    requires
        0 < tick_spacing,
        valid_tick(tick, tick_spacing),
    ensures
        up ==> tick <= search_limit(tick, tick_spacing, up),
        !up ==> search_limit(tick, tick_spacing, up) <= tick,
        search_limit(tick, tick_spacing, up) % tick_spacing == 0,
{
    let t = tick_spacing;
    let m = MAX_TICK as int;
    lemma_fundamental_div_mod(tick, t);
    let k = tick / t;
    assert(tick == t * k);
    lemma_mul_is_commutative(t, k);
    // truncating division of an exact multiple is exact
    if tick >= 0 {
        assert(trunc_div(tick, t) == k);
    } else {
        lemma_mul_unary_negation(k, t);
        lemma_div_multiples_vanish(-k, t);
        lemma_mul_is_commutative(t, -k);
        assert(trunc_div(tick, t) == k);
    }
    lemma_floor_mul(m, t);
    assert(trunc_div(m, t) == m / t);
    assert(trunc_div(-m, t) == -(m / t));
    tick_chunk_in_bounds_helper(k, m, t);
    let limit = if up {
        spec_min(k + 256, m / t)
    } else {
        spec_max(k - 256, -(m / t))
    };
    assert(search_limit(tick, t, up) == limit * t);
    if up {
        lemma_mul_inequality(k, limit, t);
    } else {
        lemma_mul_inequality(limit, k, t);
    }
    lemma_mod_multiples_basic(limit, t);
}

proof fn tick_chunk_in_bounds_helper(k: int, m: int, t: int)
    requires
        0 < t,
        0 <= m,
        -m <= t * k <= m,
    ensures
        -(m / t) <= k <= m / t,
{
    lemma_fundamental_div_mod(m, t);
    lemma_mod_bound(m, t);
    if k > m / t {
        lemma_mul_inequality(m / t + 1, k, t);
        lemma_mul_is_distributive_add_other_way(t, m / t, 1);
        lemma_mul_is_commutative(k, t);
        lemma_mul_is_commutative(m / t, t);
    }
    if k < -(m / t) {
        lemma_mul_inequality(k, -(m / t) - 1, t);
        lemma_mul_is_distributive_sub_other_way(t, -(m / t), 1);
        lemma_mul_unary_negation(m / t, t);
        lemma_mul_is_commutative(k, t);
        lemma_mul_is_commutative(m / t, t);
    }
}

} // verus!
