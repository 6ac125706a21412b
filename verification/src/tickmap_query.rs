//! Queries over the tick bitmap: which chunks a range of ticks spans, the
//! chunks handed back to a client, and how many ticks in a range are
//! initialized.
use crate::error::ContractError;
use crate::tickmap::{
    bitmap_index, get_max_chunk, get_max_tick, get_min_chunk, get_min_tick, max_tick_for,
    tick_to_position, valid_tick, CHUNK_SIZE, MAX_TICK, MAX_TICKMAP_QUERY_SIZE,
};
use vstd::prelude::*;

verus! {

/// Number of set bits of `x`.
pub open spec fn popcount(x: u64) -> nat
    decreases x,
{
    if x == 0 {
        0
    } else {
        (x % 2) as nat + popcount(x / 2)
    }
}

/// `u64::count_ones`: the number of set bits.
#[verifier::external_body]
fn count_ones(x: u64) -> (ones: u32)
    ensures
        ones == popcount(x),
{
    x.count_ones()
}

/// Bits `min_bit..=max_bit` of a chunk, shifted down to bit 0.
pub open spec fn bits_in_range(chunk: u64, min_bit: u8, max_bit: u8) -> u64 {
    if max_bit - min_bit + 1 >= 64 {
        chunk >> min_bit
    } else {
        (chunk >> min_bit) & (((1u64 << ((max_bit - min_bit + 1) as u64)) - 1) as u64)
    }
}

proof fn lemma_popcount_bound(x: u64)
    ensures
        popcount(x) <= 64,
{
    vstd::arithmetic::power2::lemma2_to64_rest();
    lemma_popcount_le_bits(x, 64);
}

proof fn lemma_popcount_le_bits(x: u64, n: nat)
    requires
        x < vstd::arithmetic::power2::pow2(n),
    ensures
        popcount(x) <= n,
    decreases n,
{
    if x != 0 {
        if n == 0 {
            vstd::arithmetic::power2::lemma2_to64();
        } else {
            vstd::arithmetic::power2::lemma_pow2_unfold(n);
            lemma_popcount_le_bits(x / 2, (n - 1) as nat);
        }
    }
}

/// Number of initialized ticks among bits `min_bit..=max_bit` of a chunk,
/// both included; a window of all 64 bits counts the whole chunk.
pub fn active_bits_in_range(chunk: u64, min_bit: u8, max_bit: u8) -> (count: u32)
    requires
        min_bit <= max_bit < 64,
    ensures
        count == popcount(bits_in_range(chunk, min_bit, max_bit)),
        count <= 64,
{
    let width: u8 = max_bit - min_bit + 1;
    let mask: u64 = if width == 64 {
        u64::MAX
    } else {
        proof {
            assert((1u64 << width) >= 1) by (bit_vector)
                requires
                    width < 64,
            ;
        }
        (1u64 << width) - 1
    };
    proof {
        if width == 64 {
            let shifted = chunk >> min_bit;
            assert(shifted & mask == shifted) by (bit_vector)
                requires
                    mask == 0xffff_ffff_ffff_ffffu64,
            ;
        }
    }
    let range: u64 = (chunk >> min_bit) & mask;
    proof {
        lemma_popcount_bound(range);
    }
    count_ones(range)
}

/// Initialized ticks counted the way `get_liquidity_ticks_amount` counts
/// them over consecutive chunks: a window of the first chunk from
/// `min_bit` and of the last up to `max_bit`, and every chunk in between.
pub open spec fn ticks_in_chunks(chunks: Seq<u64>, min_bit: u8, max_bit: u8) -> nat {
    if chunks.len() == 1 {
        popcount(bits_in_range(chunks[0], min_bit, max_bit))
    } else {
        popcount(bits_in_range(chunks[0], min_bit, 63)) + popcount(
            bits_in_range(chunks.last(), 0, max_bit),
        ) + popcount_sum(chunks.subrange(1, chunks.len() - 1))
    }
}

/// Total set bits of a sequence of chunks.
pub open spec fn popcount_sum(chunks: Seq<u64>) -> nat
    decreases chunks.len(),
{
    if chunks.len() == 0 {
        0
    } else {
        popcount_sum(chunks.drop_last()) + popcount(chunks.last())
    }
}

proof fn lemma_popcount_sum_bound(chunks: Seq<u64>)
    ensures
        popcount_sum(chunks) <= 64 * chunks.len(),
    decreases chunks.len(),
{
    if chunks.len() > 0 {
        lemma_popcount_sum_bound(chunks.drop_last());
        lemma_popcount_bound(chunks.last());
    }
}

/// Counts the initialized ticks over the chunks `chunks[0]` (the chunk of
/// the lower tick, from `min_bit`) to `chunks.last()` (the chunk of the
/// upper tick, up to `max_bit`); chunks that were never written count as 0.
pub fn count_liquidity_ticks(chunks: &Vec<u64>, min_bit: u8, max_bit: u8) -> (amount: u32)
    requires
        1 <= chunks@.len() <= 0x1000000,
        min_bit < 64,
        max_bit < 64,
        chunks@.len() == 1 ==> min_bit <= max_bit,
    ensures
        amount == ticks_in_chunks(chunks@, min_bit, max_bit),
        amount == bitmap_count(chunks@, min_bit as int, 64 * (chunks@.len() - 1) + max_bit),
{
    let n = chunks.len();
    if n == 1 {
        proof {
            liquidity_ticks_count_is_window(chunks@, min_bit, max_bit);
        }
        return active_bits_in_range(chunks[0], min_bit, max_bit);
    }
    let mut amount: u32 = 0;
    amount += active_bits_in_range(chunks[0], min_bit, (CHUNK_SIZE - 1) as u8);
    amount += active_bits_in_range(chunks[n - 1], 0, max_bit);
    let ghost edges = amount;

    let mut i: usize = 1;
    while i < n - 1
        invariant
            n == chunks@.len(),
            n > 1,
            n <= 0x1000000,
            1 <= i <= n - 1,
            edges <= 128,
            amount == edges + popcount_sum(chunks@.subrange(1, i as int)),
        decreases n - 1 - i,
    {
        proof {
            assert(chunks@.subrange(1, i + 1).drop_last() =~= chunks@.subrange(1, i as int));
            lemma_popcount_sum_bound(chunks@.subrange(1, i + 1));
        }
        amount += count_ones(chunks[i]);
        i = i + 1;
    }
    proof {
        liquidity_ticks_count_is_window(chunks@, min_bit, max_bit);
    }
    amount
}

/// Validates a range of ticks for counting and locates its ends: the
/// spacing is positive, both ticks are multiples of it, and they lie
/// between the smallest and the largest usable tick. Gives the chunk and
/// bit of the lower and of the upper tick.
pub fn liquidity_ticks_range(
    tick_spacing: u16,
    lower_tick: i32,
    upper_tick: i32,
) -> (result: Result<((u16, u8), (u16, u8)), ContractError>)
    requires
        tick_spacing > 0 && (lower_tick as int) % (tick_spacing as int) == 0 && (upper_tick as int)
            % (tick_spacing as int) == 0 && lower_tick >= -max_tick_for(tick_spacing as int)
            && upper_tick <= max_tick_for(tick_spacing as int) ==> lower_tick <= MAX_TICK
            && upper_tick >= -MAX_TICK,
    ensures
        tick_spacing == 0 ==> result == Err::<((u16, u8), (u16, u8)), ContractError>(
            ContractError::InvalidTickSpacing,
        ),
        tick_spacing > 0 ==> {
            let ts = tick_spacing as int;
            if (lower_tick as int) % ts != 0 || (upper_tick as int) % ts != 0 {
                result == Err::<((u16, u8), (u16, u8)), ContractError>(
                    ContractError::InvalidTickIndex,
                )
            } else if lower_tick < -max_tick_for(ts) || upper_tick > max_tick_for(ts) {
                result == Err::<((u16, u8), (u16, u8)), ContractError>(
                    ContractError::InvalidTickIndex,
                )
            } else {
                result matches Ok(positions) && positions.0.0 as int == bitmap_index(
                    lower_tick as int,
                    ts,
                ) / 64 && positions.0.1 as int == bitmap_index(lower_tick as int, ts) % 64
                    && positions.1.0 as int == bitmap_index(upper_tick as int, ts) / 64
                    && positions.1.1 as int == bitmap_index(upper_tick as int, ts) % 64
            }
        },
{
    if tick_spacing == 0 {
        return Err(ContractError::InvalidTickSpacing);
    }
    let ts = tick_spacing as i32;
    let lower_rem = lower_tick % ts;
    let upper_rem = upper_tick % ts;
    proof {
        let d = ts as int;
        assert(lower_rem as int == if lower_tick >= 0 { (lower_tick as int) % d } else { -((-(lower_tick as int)) % d) });
        assert(upper_rem as int == if upper_tick >= 0 { (upper_tick as int) % d } else { -((-(upper_tick as int)) % d) });
        crate::config::lemma_mod_zero_neg(lower_tick as int, d);
        crate::config::lemma_mod_zero_neg(upper_tick as int, d);
    }
    if lower_rem != 0 || upper_rem != 0 {
        return Err(ContractError::InvalidTickIndex);
    }
    let max_tick = get_max_tick(tick_spacing);
    let min_tick = get_min_tick(tick_spacing);
    if lower_tick < min_tick || upper_tick > max_tick {
        return Err(ContractError::InvalidTickIndex);
    }
    let lower = tick_to_position(lower_tick, tick_spacing);
    let upper = tick_to_position(upper_tick, tick_spacing);
    Ok((lower, upper))
}

/// Chunks a tickmap query covers: from the chunk of the lower tick, but not
/// below the first chunk, to the chunk of the upper tick, but not beyond
/// the last chunk of the spacing.
pub fn tickmap_chunk_range(
    tick_spacing: u16,
    lower_tick_index: i32,
    upper_tick_index: i32,
) -> (range: (u16, u16))
    requires
        tick_spacing > 0,
        valid_tick(lower_tick_index as int, tick_spacing as int),
        valid_tick(upper_tick_index as int, tick_spacing as int),
    ensures
        range.0 as int == crate::tickmap::spec_max(
            0,
            bitmap_index(lower_tick_index as int, tick_spacing as int) / 64,
        ),
        range.1 as int == crate::tickmap::spec_min(
            bitmap_index(max_tick_for(tick_spacing as int), tick_spacing as int) / 64,
            bitmap_index(upper_tick_index as int, tick_spacing as int) / 64,
        ),
{
    let (start_chunk, _) = tick_to_position(lower_tick_index, tick_spacing);
    let (end_chunk, _) = tick_to_position(upper_tick_index, tick_spacing);

    let min_chunk = get_min_chunk(tick_spacing);
    let max_chunk = get_max_chunk(tick_spacing);
    let min_chunk_index = if min_chunk > start_chunk {
        min_chunk
    } else {
        start_chunk
    };
    let max_chunk_index = if max_chunk < end_chunk {
        max_chunk
    } else {
        end_chunk
    };
    (min_chunk_index, max_chunk_index)
}

/// The chunk indices `min..=max`, ascending, or descending where `x_to_y`.
pub open spec fn chunk_sequence(min: u16, max: u16, x_to_y: bool) -> Seq<u16> {
    if min > max {
        Seq::empty()
    } else {
        Seq::new(
            (max - min + 1) as nat,
            |i: int|
                if x_to_y {
                    (max - i) as u16
                } else {
                    (min + i) as u16
                },
        )
    }
}

/// The chunk indices `min..=max`, ascending, or descending for a query in
/// the `x_to_y` direction.
pub fn chunk_indices(min: u16, max: u16, x_to_y: bool) -> (indices: Vec<u16>)
    ensures
        indices@ == chunk_sequence(min, max, x_to_y),
        min > max ==> indices@.len() == 0,
        min <= max ==> indices@.len() == max - min + 1 && forall|i: int|
            0 <= i < indices@.len() ==> #[trigger] indices@[i] == if x_to_y {
                max - i
            } else {
                min + i
            },
{
    let mut indices: Vec<u16> = Vec::new();
    if min > max {
        proof {
            assert(indices@ =~= chunk_sequence(min, max, x_to_y));
        }
        return indices;
    }
    let mut k: u32 = 0;
    let count: u32 = (max - min) as u32 + 1;
    while k < count
        invariant
            min <= max,
            count == max - min + 1,
            k <= count,
            indices@.len() == k,
            forall|i: int|
                0 <= i < k ==> #[trigger] indices@[i] == if x_to_y {
                    max - i
                } else {
                    min + i
                },
        decreases count - k,
    {
        let index = if x_to_y {
            max - k as u16
        } else {
            min + k as u16
        };
        indices.push(index);
        k = k + 1;
    }
    proof {
        assert(indices@ =~= chunk_sequence(min, max, x_to_y));
    }
    indices
}

/// The chunks that hold a value, in the order visited.
pub open spec fn present_chunks(visited: Seq<(u16, Option<u64>)>) -> Seq<(u16, u64)>
    decreases visited.len(),
{
    if visited.len() == 0 {
        Seq::empty()
    } else {
        let rest = present_chunks(visited.drop_last());
        match visited.last().1 {
            Some(chunk) => rest.push((visited.last().0, chunk)),
            None => rest,
        }
    }
}

proof fn lemma_present_prefix(visited: Seq<(u16, Option<u64>)>, k: int)
    requires
        0 <= k <= visited.len(),
    ensures
        present_chunks(visited.subrange(0, k)).len() <= present_chunks(visited).len(),
        present_chunks(visited).subrange(0, present_chunks(visited.subrange(0, k)).len() as int)
            == present_chunks(visited.subrange(0, k)),
    decreases visited.len(),
{
    if k == visited.len() {
        assert(visited.subrange(0, k) =~= visited);
        assert(present_chunks(visited).subrange(0, present_chunks(visited).len() as int)
            =~= present_chunks(visited));
    } else {
        let init = visited.drop_last();
        assert(init.subrange(0, k) =~= visited.subrange(0, k));
        lemma_present_prefix(init, k);
        let p = present_chunks(init);
        let q = present_chunks(visited.subrange(0, k));
        match visited.last().1 {
            Some(chunk) => {
                assert(p.push((visited.last().0, chunk)).subrange(0, q.len() as int) =~= p.subrange(
                    0,
                    q.len() as int,
                ));
            },
            None => {},
        }
    }
}

/// The chunks a tickmap query returns: those visited that hold a value, in
/// the order visited, at most `MAX_TICKMAP_QUERY_SIZE` of them.
pub fn tickmap_slice(visited: &Vec<(u16, Option<u64>)>) -> (slice: Vec<(u16, u64)>)
    ensures
        present_chunks(visited@).len() <= MAX_TICKMAP_QUERY_SIZE ==> slice@ == present_chunks(
            visited@,
        ),
        present_chunks(visited@).len() > MAX_TICKMAP_QUERY_SIZE ==> slice@ == present_chunks(
            visited@,
        ).subrange(0, MAX_TICKMAP_QUERY_SIZE as int),
{
    let mut slice: Vec<(u16, u64)> = Vec::new();
    let mut i: usize = 0;
    proof {
        assert(crate::tickmap::MAX_RESULT_SIZE == 131072);
        assert(131072usize / 80usize == 1638usize) by (nonlinear_arith);
        assert(MAX_TICKMAP_QUERY_SIZE == 1638);
        assert(visited@.subrange(0, 0) =~= Seq::<(u16, Option<u64>)>::empty());
    }
    while i < visited.len()
        invariant
            i <= visited@.len(),
            slice@ == present_chunks(visited@.subrange(0, i as int)),
            slice@.len() < MAX_TICKMAP_QUERY_SIZE,
        decreases visited@.len() - i,
    {
        proof {
            assert(visited@.subrange(0, i + 1).drop_last() =~= visited@.subrange(0, i as int));
        }
        let (chunk_index, value) = visited[i];
        if let Some(chunk) = value {
            slice.push((chunk_index, chunk));
            if slice.len() == MAX_TICKMAP_QUERY_SIZE {
                proof {
                    lemma_present_prefix(visited@, i + 1);
                }
                return slice;
            }
        }
        i = i + 1;
    }
    proof {
        assert(visited@.subrange(0, visited@.len() as int) =~= visited@);
    }
    slice
}

/// Bit `i` of a chunk, 0 or 1.
pub open spec fn bit_of(chunk: u64, i: u64) -> nat {
    ((chunk >> i) & 1u64) as nat
}

/// Number of set bits of a chunk among bits `lo..=hi`.
pub open spec fn bits_set(chunk: u64, lo: int, hi: int) -> nat
    decreases hi - lo + 1,
{
    if hi < lo || lo < 0 {
        0
    } else {
        bit_of(chunk, lo as u64) + bits_set(chunk, lo + 1, hi)
    }
}

/// Bit `p` of a bitmap laid out as consecutive chunks.
pub open spec fn bitmap_bit(chunks: Seq<u64>, p: int) -> nat {
    bit_of(chunks[p / 64], (p % 64) as u64)
}

/// Number of set bits of a bitmap among bits `from..=to`.
pub open spec fn bitmap_count(chunks: Seq<u64>, from: int, to: int) -> nat
    decreases to - from + 1,
{
    if to < from {
        0
    } else {
        bitmap_bit(chunks, from) + bitmap_count(chunks, from + 1, to)
    }
}

/// `lo..lo + width` bits of a chunk, shifted down to bit 0.
pub open spec fn window(chunk: u64, lo: u64, width: u64) -> u64 {
    (chunk >> lo) & (((1u64 << width) - 1) as u64)
}

proof fn lemma_popcount_step(y: u64)
    ensures
        popcount(y) == (y % 2) as nat + popcount(y / 2),
{
    if y == 0 {
        assert(popcount(0) == 0);
    }
}

proof fn lemma_popcount_window(chunk: u64, lo: u64, width: u64)
    requires
        width < 64,
        lo + width <= 64,
    ensures
        popcount(window(chunk, lo, width)) == bits_set(chunk, lo as int, lo + width - 1),
    decreases width,
{
    let y = window(chunk, lo, width);
    if width == 0 {
        assert(y == 0) by (bit_vector)
            requires
                y == (chunk >> lo) & (((1u64 << width) - 1) as u64),
                width == 0,
        ;
        assert(popcount(0) == 0);
    } else {
        assert(y % 2 == (chunk >> lo) & 1u64 && y / 2 == (chunk >> ((lo + 1) as u64)) & (((1u64
            << ((width - 1) as u64)) - 1) as u64)) by (bit_vector)
            requires
                y == (chunk >> lo) & (((1u64 << width) - 1) as u64),
                1 <= width < 64,
                lo + width <= 64,
        ;
        lemma_popcount_step(y);
        lemma_popcount_window(chunk, (lo + 1) as u64, (width - 1) as u64);
    }
}

proof fn lemma_popcount_shift(chunk: u64, lo: u64)
    requires
        lo <= 63,
    ensures
        popcount(chunk >> lo) == bits_set(chunk, lo as int, 63),
    decreases 63 - lo,
{
    let y = chunk >> lo;
    lemma_popcount_step(y);
    assert(y % 2 == (chunk >> lo) & 1u64) by (bit_vector)
        requires
            y == chunk >> lo,
    ;
    if lo == 63 {
        assert(y / 2 == 0) by (bit_vector)
            requires
                y == chunk >> lo,
                lo == 63,
        ;
        assert(popcount(0) == 0);
        assert(bits_set(chunk, 64, 63) == 0);
    } else {
        assert(y / 2 == chunk >> ((lo + 1) as u64)) by (bit_vector)
            requires
                y == chunk >> lo,
                lo < 63,
        ;
        lemma_popcount_shift(chunk, (lo + 1) as u64);
    }
}

proof fn lemma_bitmap_count_split(chunks: Seq<u64>, a: int, b: int, c: int)
    requires
        a <= b <= c + 1,
    ensures
        bitmap_count(chunks, a, c) == bitmap_count(chunks, a, b - 1) + bitmap_count(chunks, b, c),
    decreases b - a,
{
    if a < b {
        lemma_bitmap_count_split(chunks, a + 1, b, c);
    }
}

proof fn lemma_bitmap_count_chunk(chunks: Seq<u64>, k: int, lo: int, hi: int)
    requires
        0 <= k,
        0 <= lo,
        hi <= 63,
    ensures
        bitmap_count(chunks, 64 * k + lo, 64 * k + hi) == bits_set(chunks[k], lo, hi),
    decreases hi - lo + 1,
{
    if lo <= hi {
        vstd::arithmetic::div_mod::lemma_fundamental_div_mod_converse(64 * k + lo, 64, k, lo);
        lemma_bitmap_count_chunk(chunks, k, lo + 1, hi);
    }
}

proof fn lemma_popcount_sum_middle(chunks: Seq<u64>, m: int)
    requires
        1 <= m <= chunks.len(),
    ensures
        popcount_sum(chunks.subrange(1, m)) == bitmap_count(chunks, 64, 64 * m - 1),
    decreases m,
{
    if m == 1 {
        assert(chunks.subrange(1, 1).len() == 0);
    } else {
        lemma_popcount_sum_middle(chunks, m - 1);
        assert(chunks.subrange(1, m).drop_last() =~= chunks.subrange(1, m - 1));
        lemma_bitmap_count_split(chunks, 64, 64 * (m - 1), 64 * m - 1);
        lemma_bitmap_count_chunk(chunks, m - 1, 0, 63);
        lemma_popcount_shift(chunks[m - 1], 0);
        let c = chunks[m - 1];
        assert(c >> 0u64 == c) by (bit_vector);
    }
}

/// What `count_liquidity_ticks` counts is exactly the number of set bits
/// of the bitmap from bit `min_bit` of the first chunk to bit `max_bit` of
/// the last, both included.
pub proof fn liquidity_ticks_count_is_window(chunks: Seq<u64>, min_bit: u8, max_bit: u8)
    requires
        1 <= chunks.len(),
        min_bit < 64,
        max_bit < 64,
        chunks.len() == 1 ==> min_bit <= max_bit,
    ensures
        ticks_in_chunks(chunks, min_bit, max_bit) == bitmap_count(
            chunks,
            min_bit as int,
            64 * (chunks.len() - 1) + max_bit,
        ),
{
    let n = chunks.len() as int;
    if n == 1 {
        lemma_popcount_bits_in_range(chunks[0], min_bit, max_bit);
        lemma_bitmap_count_chunk(chunks, 0, min_bit as int, max_bit as int);
    } else {
        lemma_popcount_bits_in_range(chunks[0], min_bit, 63);
        lemma_popcount_bits_in_range(chunks.last(), 0, max_bit);
        lemma_bitmap_count_chunk(chunks, 0, min_bit as int, 63);
        lemma_bitmap_count_chunk(chunks, n - 1, 0, max_bit as int);
        lemma_popcount_sum_middle(chunks, n - 1);
        lemma_bitmap_count_split(chunks, min_bit as int, 64, 64 * (n - 1) + max_bit);
        lemma_bitmap_count_split(chunks, 64, 64 * (n - 1), 64 * (n - 1) + max_bit);
    }
}

proof fn lemma_popcount_bits_in_range(c: u64, min_bit: u8, max_bit: u8)
    requires
        min_bit <= max_bit < 64,
    ensures
        popcount(bits_in_range(c, min_bit, max_bit)) == bits_set(c, min_bit as int, max_bit as int),
{
    if max_bit == 63 {
        let w = (64 - min_bit) as u64;
        if min_bit > 0 {
            assert((c >> min_bit) & (((1u64 << w) - 1) as u64) == c >> min_bit) by (bit_vector)
                requires
                    w == (64 - min_bit) as u64,
                    1 <= min_bit < 64,
            ;
        }
        assert(bits_in_range(c, min_bit, max_bit) == c >> min_bit);
        lemma_popcount_shift(c, min_bit as u64);
    } else {
        let w = (max_bit - min_bit + 1) as u64;
        assert(bits_in_range(c, min_bit, max_bit) == window(c, min_bit as u64, w)) by (bit_vector)
            requires
                w == (max_bit - min_bit + 1) as u64,
                min_bit <= max_bit < 63,
        ;
        lemma_popcount_window(c, min_bit as u64, w);
    }
}

/// Whether a tick's bit is set in a tickmap laid out from chunk 0.
pub open spec fn tick_initialized(tickmap: Seq<u64>, tick: int, tick_spacing: int) -> bool {
    bitmap_bit(tickmap, bitmap_index(tick, tick_spacing)) == 1
}

/// Number of initialized ticks among `from`, `from + tick_spacing`, ... up
/// to `to`, both ends included.
pub open spec fn initialized_ticks(tickmap: Seq<u64>, from: int, to: int, tick_spacing: int) -> nat
    decreases (if from <= to {
        to - from + 1
    } else {
        0
    }),
{
    if tick_spacing <= 0 || from > to {
        0
    } else {
        (if tick_initialized(tickmap, from, tick_spacing) {
            1nat
        } else {
            0nat
        }) + initialized_ticks(tickmap, from + tick_spacing, to, tick_spacing)
    }
}

/// Counting the set bits over the chunks from the chunk of `lower` (from
/// its bit) to the chunk of `upper` (up to its bit), as
/// `count_liquidity_ticks` does on the chunks `liquidity_ticks_range`
/// locates, gives the number of initialized usable ticks from `lower` to
/// `upper`, both included.
pub proof fn liquidity_ticks_amount_counts_ticks(
    tickmap: Seq<u64>,
    tick_spacing: int,
    lower: int,
    upper: int,
)
    requires
        0 < tick_spacing <= u16::MAX,
        valid_tick(lower, tick_spacing),
        valid_tick(upper, tick_spacing),
        lower <= upper,
        bitmap_index(upper, tick_spacing) / 64 < tickmap.len(),
    ensures
        ({
            let lo = bitmap_index(lower, tick_spacing);
            let hi = bitmap_index(upper, tick_spacing);
            ticks_in_chunks(
                tickmap.subrange(lo / 64, hi / 64 + 1),
                (lo % 64) as u8,
                (hi % 64) as u8,
            ) == initialized_ticks(tickmap, lower, upper, tick_spacing)
        }),
{
    let ts = tick_spacing;
    let m = MAX_TICK as int;
    let lo = bitmap_index(lower, ts);
    let hi = bitmap_index(upper, ts);
    vstd::arithmetic::div_mod::lemma_div_is_ordered(lower + m, upper + m, ts);
    vstd::arithmetic::div_mod::lemma_div_pos_is_pos(lower + m, ts);
    vstd::arithmetic::div_mod::lemma_div_is_ordered(lo, hi, 64);
    vstd::arithmetic::div_mod::lemma_fundamental_div_mod(lo, 64);
    vstd::arithmetic::div_mod::lemma_fundamental_div_mod(hi, 64);
    let c0 = lo / 64;
    let c1 = hi / 64;
    let sub = tickmap.subrange(c0, c1 + 1);
    liquidity_ticks_count_is_window(sub, (lo % 64) as u8, (hi % 64) as u8);
    lemma_bitmap_count_offset(tickmap, c0, c1, lo % 64, 64 * (c1 - c0) + hi % 64);
    lemma_ticks_to_bits(tickmap, lower, upper, ts);
}

proof fn lemma_bit_of_le_one(c: u64, i: u64)
    ensures
        bit_of(c, i) <= 1,
{
    assert((c >> i) & 1u64 <= 1) by (bit_vector);
}

proof fn lemma_bitmap_count_offset(tickmap: Seq<u64>, c0: int, c1: int, a: int, b: int)
    requires
        0 <= c0 <= c1 < tickmap.len(),
        0 <= a,
        b < 64 * (c1 - c0 + 1),
    ensures
        bitmap_count(tickmap.subrange(c0, c1 + 1), a, b) == bitmap_count(
            tickmap,
            64 * c0 + a,
            64 * c0 + b,
        ),
    decreases b - a + 1,
{
    if a <= b {
        let sub = tickmap.subrange(c0, c1 + 1);
        vstd::arithmetic::div_mod::lemma_fundamental_div_mod(a, 64);
        vstd::arithmetic::div_mod::lemma_fundamental_div_mod_converse(
            64 * c0 + a,
            64,
            c0 + a / 64,
            a % 64,
        );
        assert(sub[a / 64] == tickmap[c0 + a / 64]);
        assert(bitmap_bit(sub, a) == bitmap_bit(tickmap, 64 * c0 + a));
        lemma_bitmap_count_offset(tickmap, c0, c1, a + 1, b);
    }
}

proof fn lemma_ticks_to_bits(tickmap: Seq<u64>, t: int, upper: int, ts: int)
    requires
        0 < ts,
        t % ts == 0,
        upper % ts == 0,
        -(MAX_TICK as int) <= t,
    ensures
        initialized_ticks(tickmap, t, upper, ts) == bitmap_count(
            tickmap,
            bitmap_index(t, ts),
            bitmap_index(upper, ts),
        ),
    decreases (if t <= upper {
        upper - t + 1
    } else {
        0
    }),
{
    let m = MAX_TICK as int;
    vstd::arithmetic::div_mod::lemma_fundamental_div_mod(t, ts);
    vstd::arithmetic::div_mod::lemma_fundamental_div_mod(upper, ts);
    vstd::arithmetic::div_mod::lemma_fundamental_div_mod(t + m, ts);
    let q = (t + m) / ts;
    let r = (t + m) % ts;
    vstd::arithmetic::mul::lemma_mul_is_commutative(ts, q);
    assert((q + 1) * ts == q * ts + ts) by (nonlinear_arith);
    // the next tick sits at the next bit
    vstd::arithmetic::div_mod::lemma_fundamental_div_mod_converse(t + ts + m, ts, q + 1, r);
    assert(bitmap_index(t + ts, ts) == bitmap_index(t, ts) + 1);
    if t > upper {
        // both are multiples of the spacing, so `t` is a whole spacing above
        let k1 = t / ts;
        let k2 = upper / ts;
        if k1 <= k2 {
            vstd::arithmetic::mul::lemma_mul_inequality(k1, k2, ts);
            vstd::arithmetic::mul::lemma_mul_is_commutative(k1, ts);
            vstd::arithmetic::mul::lemma_mul_is_commutative(k2, ts);
        }
        vstd::arithmetic::mul::lemma_mul_inequality(k2 + 1, k1, ts);
        vstd::arithmetic::mul::lemma_mul_is_distributive_add_other_way(ts, k2, 1);
        vstd::arithmetic::mul::lemma_mul_is_commutative(k1, ts);
        vstd::arithmetic::mul::lemma_mul_is_commutative(k2, ts);
        vstd::arithmetic::mul::lemma_mul_is_commutative(k2 + 1, ts);
        assert(upper + ts <= t);
        vstd::arithmetic::div_mod::lemma_div_is_ordered(upper + ts + m, t + m, ts);
        vstd::arithmetic::div_mod::lemma_fundamental_div_mod(upper + m, ts);
        let qu = (upper + m) / ts;
        vstd::arithmetic::mul::lemma_mul_is_commutative(ts, qu);
        assert((qu + 1) * ts == qu * ts + ts) by (nonlinear_arith);
        vstd::arithmetic::div_mod::lemma_fundamental_div_mod_converse(
            upper + ts + m,
            ts,
            (upper + m) / ts + 1,
            (upper + m) % ts,
        );
    } else {
        vstd::arithmetic::div_mod::lemma_div_is_ordered(t + m, upper + m, ts);
        let k = t / ts;
        vstd::arithmetic::div_mod::lemma_mod_multiples_basic(k + 1, ts);
        vstd::arithmetic::mul::lemma_mul_is_commutative(ts, k);
        assert((k + 1) * ts == k * ts + ts) by (nonlinear_arith);
        assert((t + ts) % ts == 0);
        lemma_ticks_to_bits(tickmap, t + ts, upper, ts);
        let p = bitmap_index(t, ts);
        lemma_bit_of_le_one(tickmap[p / 64], (p % 64) as u64);
    }
}

/// The chunks met when visiting `indices` in order, each with what is
/// stored under it.
pub open spec fn visit(indices: Seq<u16>, stored: spec_fn(u16) -> Option<u64>) -> Seq<
    (u16, Option<u64>),
> {
    indices.map_values(|i: u16| (i, stored(i)))
}

proof fn lemma_present_concat(a: Seq<(u16, Option<u64>)>, b: Seq<(u16, Option<u64>)>)
    ensures
        present_chunks(a + b) == present_chunks(a) + present_chunks(b),
    decreases b.len(),
{
    if b.len() == 0 {
        assert(a + b =~= a);
        assert(present_chunks(a) + present_chunks(b) =~= present_chunks(a));
    } else {
        lemma_present_concat(a, b.drop_last());
        assert((a + b).drop_last() =~= a + b.drop_last());
        assert((a + b).last() == b.last());
        match b.last().1 {
            Some(c) => {
                assert(present_chunks(a) + present_chunks(b.drop_last()).push((b.last().0, c))
                    =~= (present_chunks(a) + present_chunks(b.drop_last())).push((b.last().0, c)));
            },
            None => {},
        }
    }
}

proof fn lemma_present_reverse(s: Seq<(u16, Option<u64>)>)
    ensures
        present_chunks(s.reverse()) == present_chunks(s).reverse(),
    decreases s.len(),
{
    if s.len() == 0 {
        assert(s.reverse() =~= s);
        assert(present_chunks(s).reverse() =~= present_chunks(s));
    } else {
        let init = s.drop_last();
        let last = seq![s.last()];
        lemma_present_reverse(init);
        assert(s.reverse() =~= last + init.reverse());
        lemma_present_concat(last, init.reverse());
        assert(last.drop_last() =~= Seq::<(u16, Option<u64>)>::empty());
        assert(present_chunks(last.drop_last()) =~= Seq::<(u16, u64)>::empty());
        assert(last.last() == s.last());
        match s.last().1 {
            Some(c) => {
                assert(present_chunks(last) =~= seq![(s.last().0, c)]);
                assert(present_chunks(s) == present_chunks(init).push((s.last().0, c)));
                assert(present_chunks(last) + present_chunks(init).reverse()
                    =~= present_chunks(init).push((s.last().0, c)).reverse());
            },
            None => {
                assert(present_chunks(last) =~= Seq::<(u16, u64)>::empty());
                assert(present_chunks(last) + present_chunks(init).reverse()
                    =~= present_chunks(init).reverse());
            },
        }
    }
}

proof fn lemma_present_below(s: Seq<(u16, Option<u64>)>, bound: int)
    requires
        forall|k: int| 0 <= k < s.len() ==> (#[trigger] s[k]).0 < bound,
    ensures
        forall|i: int|
            0 <= i < present_chunks(s).len() ==> (#[trigger] present_chunks(s)[i]).0 < bound,
    decreases s.len(),
{
    if s.len() > 0 {
        let init = s.drop_last();
        assert forall|k: int| 0 <= k < init.len() implies (#[trigger] init[k]).0 < bound by {
            assert(init[k] == s[k]);
        }
        lemma_present_below(init, bound);
        let p = present_chunks(init);
        match s.last().1 {
            Some(c) => {
                assert(present_chunks(s) == p.push((s.last().0, c)));
                assert forall|i: int| 0 <= i < present_chunks(s).len() implies (
                #[trigger] present_chunks(s)[i]).0 < bound by {
                    if i < p.len() {
                        assert(present_chunks(s)[i] == p[i]);
                    }
                }
            },
            None => {
                assert(present_chunks(s) == p);
            },
        }
    }
}

proof fn lemma_present_increasing(s: Seq<(u16, Option<u64>)>)
    requires
        forall|k: int, l: int| 0 <= k < l < s.len() ==> (#[trigger] s[k]).0 < (#[trigger] s[l]).0,
    ensures
        forall|i: int, j: int|
            0 <= i < j < present_chunks(s).len() ==> (#[trigger] present_chunks(s)[i]).0
                < (#[trigger] present_chunks(s)[j]).0,
    decreases s.len(),
{
    if s.len() > 0 {
        let init = s.drop_last();
        assert forall|k: int, l: int| 0 <= k < l < init.len() implies (#[trigger] init[k]).0 < (
        #[trigger] init[l]).0 by {
            assert(init[k] == s[k] && init[l] == s[l]);
        }
        lemma_present_increasing(init);
        assert forall|k: int| 0 <= k < init.len() implies (#[trigger] init[k]).0 < s.last().0 by {
            assert(init[k] == s[k]);
        }
        lemma_present_below(init, s.last().0 as int);
        let p = present_chunks(init);
        match s.last().1 {
            Some(c) => {
                let q = p.push((s.last().0, c));
                assert(present_chunks(s) == q);
                assert forall|i: int, j: int| 0 <= i < j < q.len() implies (#[trigger] q[i]).0 < (
                #[trigger] q[j]).0 by {
                    assert(q[i] == p[i]);
                    if j < p.len() {
                        assert(q[j] == p[j]);
                    }
                }
            },
            None => {
                assert(present_chunks(s) == p);
            },
        }
    }
}

/// A tickmap query in the `x_to_y` direction lists the same stored chunks as
/// the other direction, in reverse; the other direction lists them by
/// strictly increasing chunk index.
pub proof fn tickmap_directions_mirror(min: u16, max: u16, stored: spec_fn(u16) -> Option<u64>)
    ensures
        present_chunks(visit(chunk_sequence(min, max, true), stored)) == present_chunks(
            visit(chunk_sequence(min, max, false), stored),
        ).reverse(),
        forall|i: int, j: int|
            0 <= i < j < present_chunks(visit(chunk_sequence(min, max, false), stored)).len()
                ==> (#[trigger] present_chunks(visit(chunk_sequence(min, max, false), stored))[i]).0
                < (#[trigger] present_chunks(visit(chunk_sequence(min, max, false), stored))[j]).0,
{
    let up = visit(chunk_sequence(min, max, false), stored);
    let down = visit(chunk_sequence(min, max, true), stored);
    assert(down =~= up.reverse());
    lemma_present_reverse(up);
    lemma_present_increasing(up);
}

} // verus!
