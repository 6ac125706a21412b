//! The ticks bounding a user's positions, as a query lists them.
use crate::error::ContractError;
use crate::msg::PositionTick;
use crate::tickmap::MAX_RESULT_SIZE;
use vstd::prelude::*;

verus! {

/// Most ticks one query lists: what fits in a result of `MAX_RESULT_SIZE`
/// bits, a tick taking an index, two fee growths and a time.
pub const POSITION_TICK_LIMIT: usize = MAX_RESULT_SIZE / (32 + 128 + 128 + 64);

/// One position's lookups: its lower tick and its upper tick, each where it
/// was found.
pub type TickLookup = (Option<PositionTick>, Option<PositionTick>);

/// The ticks of one lookup that were found, lower first.
pub open spec fn ticks_found(lookup: TickLookup) -> Seq<PositionTick> {
    let lower = match lookup.0 {
        Some(t) => seq![t],
        None => Seq::empty(),
    };
    let upper = match lookup.1 {
        Some(t) => seq![t],
        None => Seq::empty(),
    };
    lower + upper
}

/// The ticks found for a run of positions, in order.
pub open spec fn ticks_listed(lookups: Seq<TickLookup>) -> Seq<PositionTick>
    decreases lookups.len(),
{
    if lookups.len() == 0 {
        Seq::empty()
    } else {
        ticks_listed(lookups.drop_last()) + ticks_found(lookups.last())
    }
}

/// Lists the ticks of the positions from `offset` on, where `lookups[i]` is
/// what was found for position `i`. Positions are taken in order until the
/// list holds at least `POSITION_TICK_LIMIT` ticks; an offset past the last
/// position is refused.
pub fn get_position_ticks(lookups: &Vec<TickLookup>, offset: u32) -> (result: Result<
    Vec<PositionTick>,
    ContractError,
>)
    ensures
        offset > lookups.len() ==> result == Err::<Vec<PositionTick>, ContractError>(
            ContractError::InvalidOffset,
        ),
        offset <= lookups.len() ==> (result matches Ok(ticks) && exists|k: int|
            #![trigger lookups@.subrange(offset as int, k)]
            offset <= k <= lookups.len() && ticks@ == ticks_listed(
                lookups@.subrange(offset as int, k),
            ) && (k == lookups.len() || ticks@.len() >= POSITION_TICK_LIMIT) && forall|j: int|
                offset <= j < k ==> (#[trigger] ticks_listed(
                    lookups@.subrange(offset as int, j),
                )).len() < POSITION_TICK_LIMIT),
{
    let n = lookups.len();
    if offset as usize > n {
        return Err(ContractError::InvalidOffset);
    }
    let start = offset as usize;
    let mut ticks: Vec<PositionTick> = Vec::new();
    let mut i: usize = start;
    proof {
        assert(MAX_RESULT_SIZE == 131072);
        assert(131072usize / 352usize == 372usize) by (nonlinear_arith);
        assert(lookups@.subrange(start as int, start as int) =~= Seq::<TickLookup>::empty());
    }
    while i < n
        invariant
            n == lookups.len(),
            start == offset,
            start <= i <= n,
            ticks@ == ticks_listed(lookups@.subrange(start as int, i as int)),
            forall|j: int|
                start <= j <= i ==> (#[trigger] ticks_listed(
                    lookups@.subrange(start as int, j),
                )).len() < POSITION_TICK_LIMIT,
        decreases n - i,
    {
        let lookup = lookups[i];
        if let Some(t) = lookup.0 {
            ticks.push(t);
        }
        if let Some(t) = lookup.1 {
            ticks.push(t);
        }
        i = i + 1;
        proof {
            let run = lookups@.subrange(start as int, i as int);
            assert(run.drop_last() =~= lookups@.subrange(start as int, i - 1));
            assert(run.last() == lookup);
            assert(ticks@ =~= ticks_listed(run));
        }
        if ticks.len() >= POSITION_TICK_LIMIT {
            proof {
                let k = i as int;
                assert(ticks@ == ticks_listed(lookups@.subrange(start as int, k)));
            }
            return Ok(ticks);
        }
    }
    proof {
        assert(ticks@ == ticks_listed(lookups@.subrange(start as int, n as int)));
    }
    Ok(ticks)
}

} // verus!
