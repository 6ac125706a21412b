//! The bookkeeping and the stopping rules of a swap, which walks the price
//! step by step until the requested amount is used up.
use crate::asset::{
    denom_view, transfer_from_result, transferred, transferred_from, Asset, AssetInfo, Coin,
    TransferMsg,
};
use crate::error::ContractError;
use crate::pool_key::PoolKey;
use crate::position::TokenAmount;
use crate::tickmap::{get_max_tick, get_min_tick, max_tick_for};
use crate::types::SqrtPrice;
use vstd::prelude::*;

verus! {

/// Square root of the price at the highest tick, with 24 decimal places.
pub const MAX_SQRT_PRICE: u128 = 65535383934512647000000000000;

/// Square root of the price at the lowest tick, with 24 decimal places.
pub const MIN_SQRT_PRICE: u128 = 15258932000000000000;

/// What one step of a swap moved: the price it reached, what went in and
/// out, and the fee taken.
#[derive(Debug, Clone, Copy, PartialEq, Eq, Structural)]
pub struct SwapResult {
    pub next_sqrt_price: SqrtPrice,
    pub amount_in: TokenAmount,
    pub amount_out: TokenAmount,
    pub fee_amount: TokenAmount,
}

/// A swap under way: the amount still to be swapped and the running totals.
#[derive(Debug, Clone, Copy, PartialEq, Eq, Structural)]
pub struct SwapProgress {
    pub remaining_amount: TokenAmount,
    pub total_amount_in: TokenAmount,
    pub total_amount_out: TokenAmount,
    pub fee_amount: TokenAmount,
}

/// Why a swap request is refused before any step, if it is.
pub open spec fn swap_request_error(
    amount: u128,
    x_to_y: bool,
    pool_sqrt_price: u128,
    sqrt_price_limit: u128,
) -> Option<ContractError> {
    if amount == 0 {
        Some(ContractError::AmountIsZero)
    } else if x_to_y && (pool_sqrt_price <= sqrt_price_limit || sqrt_price_limit
        > MAX_SQRT_PRICE) {
        Some(ContractError::WrongLimit)
    } else if !x_to_y && (pool_sqrt_price >= sqrt_price_limit || sqrt_price_limit
        < MIN_SQRT_PRICE) {
        Some(ContractError::WrongLimit)
    } else {
        None
    }
}

/// The checks a swap request passes before any step: a non-zero amount,
/// and a price limit on the side the price moves to (down when swapping x
/// for y) within the bounds of the price.
pub fn check_swap_request(
    amount: TokenAmount,
    x_to_y: bool,
    pool_sqrt_price: SqrtPrice,
    sqrt_price_limit: SqrtPrice,
) -> (result: Result<(), ContractError>)
    ensures
        match swap_request_error(amount.0, x_to_y, pool_sqrt_price.0, sqrt_price_limit.0) {
            Some(e) => result == Err::<(), ContractError>(e),
            None => result is Ok,
        },
{
    if amount.is_zero() {
        return Err(ContractError::AmountIsZero);
    }
    if x_to_y {
        if pool_sqrt_price.0 <= sqrt_price_limit.0 || sqrt_price_limit.0 > MAX_SQRT_PRICE {
            return Err(ContractError::WrongLimit);
        }
    } else if pool_sqrt_price.0 >= sqrt_price_limit.0 || sqrt_price_limit.0 < MIN_SQRT_PRICE {
        return Err(ContractError::WrongLimit);
    }
    Ok(())
}

/// The tick a swap may not reach: the lowest usable tick when the price
/// moves down (x for y), the highest otherwise.
pub fn swap_tick_limit(x_to_y: bool, tick_spacing: u16) -> (limit: i32)
    requires
        tick_spacing > 0,
    ensures
        limit == (if x_to_y {
            -max_tick_for(tick_spacing as int)
        } else {
            max_tick_for(tick_spacing as int)
        }),
{
    if x_to_y {
        get_min_tick(tick_spacing)
    } else {
        get_max_tick(tick_spacing)
    }
}

/// The price limit of each hop of a route: none beyond the price's own
/// bounds, on the side the price moves to.
pub fn hop_sqrt_price_limit(x_to_y: bool) -> (limit: SqrtPrice)
    ensures
        limit.0 == (if x_to_y {
            MIN_SQRT_PRICE
        } else {
            MAX_SQRT_PRICE
        }),
{
    if x_to_y {
        SqrtPrice(MIN_SQRT_PRICE)
    } else {
        SqrtPrice(MAX_SQRT_PRICE)
    }
}

/// A swap before its first step: the whole amount remains, nothing moved.
pub fn start_swap(amount: TokenAmount) -> (progress: SwapProgress)
    ensures
        progress == (SwapProgress {
            remaining_amount: amount,
            total_amount_in: TokenAmount(0),
            total_amount_out: TokenAmount(0),
            fee_amount: TokenAmount(0),
        }),
{
    SwapProgress {
        remaining_amount: amount,
        total_amount_in: TokenAmount::new(0),
        total_amount_out: TokenAmount::new(0),
        fee_amount: TokenAmount::new(0),
    }
}

/// What a step uses of the remaining amount: what went in with its fee
/// when the amount is an input, what came out when it is an output.
pub open spec fn step_consumes(step: SwapResult, by_amount_in: bool) -> int {
    if by_amount_in {
        step.amount_in.0 + step.fee_amount.0
    } else {
        step.amount_out.0 as int
    }
}

/// The running totals fit in 128 bits after the step.
pub open spec fn step_fits(progress: SwapProgress, step: SwapResult) -> bool {
    &&& step.amount_in.0 + step.fee_amount.0 <= u128::MAX
    &&& progress.total_amount_in.0 + step.amount_in.0 + step.fee_amount.0 <= u128::MAX
    &&& progress.total_amount_out.0 + step.amount_out.0 <= u128::MAX
    &&& progress.fee_amount.0 + step.fee_amount.0 <= u128::MAX
}

/// The progress after a step that fits in what remains.
pub open spec fn progress_after_step(
    progress: SwapProgress,
    step: SwapResult,
    by_amount_in: bool,
) -> SwapProgress {
    SwapProgress {
        remaining_amount: TokenAmount(
            (progress.remaining_amount.0 - step_consumes(step, by_amount_in)) as u128,
        ),
        total_amount_in: TokenAmount(
            (progress.total_amount_in.0 + step.amount_in.0 + step.fee_amount.0) as u128,
        ),
        total_amount_out: TokenAmount((progress.total_amount_out.0 + step.amount_out.0) as u128),
        fee_amount: TokenAmount((progress.fee_amount.0 + step.fee_amount.0) as u128),
    }
}

/// Books one step of the swap. A step that uses more than remains is
/// refused with `Sub`, leaving the progress as it was. A step that stops at
/// the price limit with an amount still to swap is refused with
/// `PriceLimitReached`, after its booking.
pub fn apply_swap_step(
    progress: &mut SwapProgress,
    step: SwapResult,
    by_amount_in: bool,
    sqrt_price_limit: SqrtPrice,
) -> (result: Result<(), ContractError>)
    requires
        step_fits(*old(progress), step),
    ensures
        step_consumes(step, by_amount_in) > old(progress).remaining_amount.0 ==> result == Err::<
            (),
            ContractError,
        >(ContractError::Sub) && *final(progress) == *old(progress),
        step_consumes(step, by_amount_in) <= old(progress).remaining_amount.0 ==> {
            &&& *final(progress) == progress_after_step(*old(progress), step, by_amount_in)
            &&& final(progress).total_amount_out.0 == old(progress).total_amount_out.0
                + step.amount_out.0
            &&& final(progress).total_amount_in.0 == old(progress).total_amount_in.0
                + step.amount_in.0 + step.fee_amount.0
            &&& final(progress).fee_amount.0 == old(progress).fee_amount.0 + step.fee_amount.0
            &&& (step.next_sqrt_price == sqrt_price_limit && final(progress).remaining_amount.0
                != 0) ==> result == Err::<(), ContractError>(ContractError::PriceLimitReached)
            &&& !(step.next_sqrt_price == sqrt_price_limit && final(progress).remaining_amount.0
                != 0) ==> result is Ok
        },
{
    // make remaining amount smaller
    let consumed = if by_amount_in {
        step.amount_in.0 + step.fee_amount.0
    } else {
        step.amount_out.0
    };
    let remaining = match progress.remaining_amount.0.checked_sub(consumed) {
        Some(r) => r,
        None => return Err(ContractError::Sub),
    };
    progress.remaining_amount = TokenAmount(remaining);
    progress.fee_amount = TokenAmount(progress.fee_amount.0 + step.fee_amount.0);
    progress.total_amount_in = TokenAmount(
        progress.total_amount_in.0 + (step.amount_in.0 + step.fee_amount.0),
    );
    progress.total_amount_out = TokenAmount(progress.total_amount_out.0 + step.amount_out.0);
    // Fail if price would go over swap limit
    if step.next_sqrt_price.0 == sqrt_price_limit.0 && remaining != 0 {
        return Err(ContractError::PriceLimitReached);
    }
    Ok(())
}

/// Books what crossing or reaching a tick changed: the amount left to swap
/// becomes `amount_after_tick_update` and `amount_to_add` is taken in. A
/// swap whose price reached the tick limit on its side is refused with
/// `TickLimitReached`, after the booking.
pub fn apply_tick_update(
    progress: &mut SwapProgress,
    amount_to_add: TokenAmount,
    amount_after_tick_update: TokenAmount,
    x_to_y: bool,
    current_tick_index: i32,
    tick_limit: i32,
) -> (result: Result<(), ContractError>)
    requires
        old(progress).total_amount_in.0 + amount_to_add.0 <= u128::MAX,
    ensures
        *final(progress) == (SwapProgress {
            remaining_amount: amount_after_tick_update,
            total_amount_in: TokenAmount(
                (old(progress).total_amount_in.0 + amount_to_add.0) as u128,
            ),
            ..*old(progress)
        }),
        (if x_to_y {
            current_tick_index <= tick_limit
        } else {
            current_tick_index >= tick_limit
        }) ==> result == Err::<(), ContractError>(ContractError::TickLimitReached),
        !(if x_to_y {
            current_tick_index <= tick_limit
        } else {
            current_tick_index >= tick_limit
        }) ==> result is Ok,
{
    progress.remaining_amount = amount_after_tick_update;
    progress.total_amount_in = TokenAmount(progress.total_amount_in.0 + amount_to_add.0);
    let reached_tick_limit = match x_to_y {
        true => current_tick_index <= tick_limit,
        false => current_tick_index >= tick_limit,
    };
    if reached_tick_limit {
        return Err(ContractError::TickLimitReached);
    }
    Ok(())
}

/// The outcome of a swap whose remaining amount is used up: what went in,
/// what came out and the fee, unless nothing came out (`NoGainSwap`).
pub fn finish_swap(progress: SwapProgress) -> (result: Result<
    (TokenAmount, TokenAmount, TokenAmount),
    ContractError,
>)
    ensures
        progress.total_amount_out.0 == 0 ==> result == Err::<
            (TokenAmount, TokenAmount, TokenAmount),
            ContractError,
        >(ContractError::NoGainSwap),
        progress.total_amount_out.0 != 0 ==> result == Ok::<
            (TokenAmount, TokenAmount, TokenAmount),
            ContractError,
        >((progress.total_amount_in, progress.total_amount_out, progress.fee_amount)),
{
    if progress.total_amount_out.is_zero() {
        return Err(ContractError::NoGainSwap);
    }
    Ok((progress.total_amount_in, progress.total_amount_out, progress.fee_amount))
}

/// When the amount asked is an input, a booked step moves tokens from what
/// remains to what went in: their sum is unchanged.
pub proof fn swap_step_keeps_input_sum(progress: SwapProgress, step: SwapResult)
    requires
        step_fits(progress, step),
        step_consumes(step, true) <= progress.remaining_amount.0,
    ensures
        progress_after_step(progress, step, true).total_amount_in.0 + progress_after_step(
            progress,
            step,
            true,
        ).remaining_amount.0 == progress.total_amount_in.0 + progress.remaining_amount.0,
{
}

/// The assets a swap takes in and pays out, each as `from_denom` names its
/// token: x in and y out where `x_to_y`, the reverse otherwise.
pub open spec fn swap_sides(
    pool_key: PoolKey,
    x_to_y: bool,
    validated_x: Option<String>,
    validated_y: Option<String>,
) -> ((bool, Seq<char>), (bool, Seq<char>)) {
    let x = denom_view(pool_key.token_x@, validated_x);
    let y = denom_view(pool_key.token_y@, validated_y);
    if x_to_y {
        (x, y)
    } else {
        (y, x)
    }
}

/// The transfers that settle a swap: what went in is collected from the
/// sender for the exchange, then what came out is paid to the sender.
/// `validated_x` and `validated_y` are what the chain's address check made
/// of the two tokens. Collecting native coins that do not cover the amount
/// fails with `InvalidFunds`, adding no message.
pub fn settle_swap(
    msgs: &mut Vec<TransferMsg>,
    pool_key: &PoolKey,
    x_to_y: bool,
    amount_in: TokenAmount,
    amount_out: TokenAmount,
    validated_x: Option<String>,
    validated_y: Option<String>,
    sender: &String,
    funds: &Vec<Coin>,
    exchange: &String,
) -> (result: Result<(), ContractError>)
    ensures
        ({
            let (side_in, side_out) = swap_sides(*pool_key, x_to_y, validated_x, validated_y);
            &&& result == transfer_from_result(side_in, amount_in.0, funds@)
            &&& result is Err ==> final(msgs)@ == old(msgs)@
            &&& result is Ok ==> exists|mid: Seq<TransferMsg>|
                transferred_from(
                    side_in,
                    amount_in.0,
                    old(msgs)@,
                    mid,
                    sender@,
                    funds@,
                    exchange@,
                ) && transferred(side_out, amount_out.0, mid, final(msgs)@, sender@)
        }),
{
    let (token_0, valid_0, token_1, valid_1) = if x_to_y {
        (&pool_key.token_x, validated_x, &pool_key.token_y, validated_y)
    } else {
        (&pool_key.token_y, validated_y, &pool_key.token_x, validated_x)
    };
    let asset_0 = Asset { info: AssetInfo::from_denom(token_0.as_str(), valid_0), amount: amount_in.0 };
    let asset_1 = Asset {
        info: AssetInfo::from_denom(token_1.as_str(), valid_1),
        amount: amount_out.0,
    };
    match asset_0.transfer_from(msgs, sender, funds, exchange.clone()) {
        Ok(()) => {},
        Err(e) => {
            return Err(e);
        },
    }
    let ghost mid = msgs@;
    let _ = asset_1.transfer(msgs, sender);
    proof {
        let (side_in, side_out) = swap_sides(*pool_key, x_to_y, validated_x, validated_y);
        assert(crate::asset::info_view(asset_0.info) == side_in);
        assert(crate::asset::info_view(asset_1.info) == side_out);
        assert(transferred_from(
            side_in,
            amount_in.0,
            old(msgs)@,
            mid,
            sender@,
            funds@,
            exchange@,
        ) && transferred(side_out, amount_out.0, mid, msgs@, sender@));
    }
    Ok(())
}

/// Booking a step that fits in what remains adds its output to what came
/// out, its input with its fee to what went in and its fee to the fees, and
/// takes from what remains what went in with its fee (by amount in) or what
/// came out (by amount out).
pub proof fn swap_step_books_amounts(progress: SwapProgress, step: SwapResult, by_amount_in: bool)
    requires
        progress.total_amount_in.0 + step.amount_in.0 + step.fee_amount.0 <= u128::MAX,
        progress.total_amount_out.0 + step.amount_out.0 <= u128::MAX,
        progress.fee_amount.0 + step.fee_amount.0 <= u128::MAX,
        by_amount_in ==> step.amount_in.0 + step.fee_amount.0 <= progress.remaining_amount.0,
        !by_amount_in ==> step.amount_out.0 <= progress.remaining_amount.0,
    ensures
        progress_after_step(progress, step, by_amount_in).total_amount_out.0
            == progress.total_amount_out.0 + step.amount_out.0,
        progress_after_step(progress, step, by_amount_in).total_amount_in.0
            == progress.total_amount_in.0 + step.amount_in.0 + step.fee_amount.0,
        progress_after_step(progress, step, by_amount_in).fee_amount.0 == progress.fee_amount.0
            + step.fee_amount.0,
        by_amount_in ==> progress_after_step(progress, step, by_amount_in).remaining_amount.0
            == progress.remaining_amount.0 - step.amount_in.0 - step.fee_amount.0,
        !by_amount_in ==> progress_after_step(progress, step, by_amount_in).remaining_amount.0
            == progress.remaining_amount.0 - step.amount_out.0,
{
}

/// Over two booked steps from a fresh swap, what came out is the sum of both
/// steps' outputs, what went in the sum of their inputs and fees, and the
/// fees the sum of their fees.
pub proof fn swap_totals_add_up(amount: TokenAmount, first: SwapResult, second: SwapResult, by_amount_in: bool)
    requires
        first.amount_in.0 + first.fee_amount.0 + second.amount_in.0 + second.fee_amount.0 <= u128::MAX,
        first.amount_out.0 + second.amount_out.0 <= u128::MAX,
        by_amount_in ==> first.amount_in.0 + first.fee_amount.0 + second.amount_in.0
            + second.fee_amount.0 <= amount.0,
        !by_amount_in ==> first.amount_out.0 + second.amount_out.0 <= amount.0,
    ensures
        ({
            let start = SwapProgress {
                remaining_amount: amount,
                total_amount_in: TokenAmount(0),
                total_amount_out: TokenAmount(0),
                fee_amount: TokenAmount(0),
            };
            let done = progress_after_step(
                progress_after_step(start, first, by_amount_in),
                second,
                by_amount_in,
            );
            &&& done.total_amount_out.0 == first.amount_out.0 + second.amount_out.0
            &&& done.total_amount_in.0 == first.amount_in.0 + first.fee_amount.0
                + second.amount_in.0 + second.fee_amount.0
            &&& done.fee_amount.0 == first.fee_amount.0 + second.fee_amount.0
        }),
{
    let start = SwapProgress {
        remaining_amount: amount,
        total_amount_in: TokenAmount(0),
        total_amount_out: TokenAmount(0),
        fee_amount: TokenAmount(0),
    };
    swap_step_books_amounts(start, first, by_amount_in);
    swap_step_books_amounts(progress_after_step(start, first, by_amount_in), second, by_amount_in);
}

} // verus!
