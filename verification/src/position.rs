//! A liquidity position of a pool and the rules for changing its liquidity.
use crate::asset::{paid_out, payout_messages, TransferMsg};
use crate::big_num::{big_div, big_mul, big_nat_from_u128, big_nat_to_u128};
use crate::error::ContractError;
use crate::pool_key::PoolKey;
use crate::types::{Liquidity, SqrtPrice};
use vstd::prelude::*;

verus! {

/// Fee growth per unit of liquidity, with 28 decimal places.
#[derive(Debug, Clone, Copy, PartialEq, Eq, Structural, Default)]
pub struct FeeGrowth(pub u128);

/// An amount of tokens.
#[derive(Debug, Clone, Copy, PartialEq, Eq, Structural, Default)]
pub struct TokenAmount(pub u128);

/// `10^28`, the denominator of a [`FeeGrowth`].
pub const FEE_GROWTH_DENOMINATOR: u128 = 10_000_000_000_000_000_000_000_000_000;

/// `10^34`: a fee growth times a liquidity carries `28 + 6` decimal places.
pub const FEE_DENOMINATOR: u128 = 10_000_000_000_000_000_000_000_000_000_000_000;

/// `a - b` modulo `2^128`: fee growth counters wrap around.
pub open spec fn wrapped_difference(a: u128, b: u128) -> u128 {
    ((a - b) % 0x1_0000_0000_0000_0000_0000_0000_0000_0000int) as u128
}

/// The tokens that a growth of `fee_growth` per unit earns `liquidity`,
/// rounded down.
pub open spec fn fee_amount(fee_growth: u128, liquidity: u128) -> nat {
    (fee_growth as nat * liquidity as nat) / (FEE_DENOMINATOR as nat)
}

/// What `FeeGrowth::to_fee` returns: the fee, or `Cast` where it does not
/// fit in a token amount.
pub open spec fn fee_for(fee_growth: u128, liquidity: u128) -> Result<TokenAmount, ContractError> {
    if fee_amount(fee_growth, liquidity) <= u128::MAX {
        Ok(TokenAmount(fee_amount(fee_growth, liquidity) as u128))
    } else {
        Err(ContractError::Cast)
    }
}

/// The fee a growth earns a liquidity is their exact product divided by
/// `10^34`, rounded down; it is refused (`Cast`) exactly where that quotient
/// does not fit in 128 bits, however large the product itself is.
pub proof fn fee_is_exact_quotient(fee_growth: u128, liquidity: u128)
    ensures
        fee_for(fee_growth, liquidity) matches Ok(fee) ==> fee.0 * 10_000_000_000_000_000_000_000_000_000_000_000int
            <= fee_growth * liquidity < (fee.0 + 1) * 10_000_000_000_000_000_000_000_000_000_000_000int,
        fee_growth * liquidity < 0x1_0000_0000_0000_0000_0000_0000_0000_0000int
            * 10_000_000_000_000_000_000_000_000_000_000_000int ==> fee_for(fee_growth, liquidity) is Ok,
        fee_growth * liquidity >= 0x1_0000_0000_0000_0000_0000_0000_0000_0000int
            * 10_000_000_000_000_000_000_000_000_000_000_000int ==> fee_for(fee_growth, liquidity)
            == Err::<TokenAmount, ContractError>(ContractError::Cast),
{
    let d: int = 10_000_000_000_000_000_000_000_000_000_000_000int;
    let p = fee_growth as int * liquidity as int;
    let m: int = 0x1_0000_0000_0000_0000_0000_0000_0000_0000int;
    vstd::arithmetic::mul::lemma_mul_nonnegative(fee_growth as int, liquidity as int);
    assert(fee_growth as nat * liquidity as nat == p);
    vstd::arithmetic::div_mod::lemma_fundamental_div_mod(p, d);
    let q = p / d;
    vstd::arithmetic::mul::lemma_mul_is_commutative(d, q);
    assert((q + 1) * d == q * d + d) by (nonlinear_arith);
    if q <= u128::MAX {
        vstd::arithmetic::mul::lemma_mul_inequality(q + 1, m, d);
    } else {
        vstd::arithmetic::mul::lemma_mul_inequality(m, q, d);
    }
}

impl FeeGrowth {
    /// The fee growth whose raw value (scaled by `10^28`) is `value`.
    pub fn new(value: u128) -> (f: Self)
        ensures
            f.0 == value,
    {
        FeeGrowth(value)
    }

    /// `integer` whole units, that is `integer * 10^28` as raw value.
    pub fn from_integer(integer: u128) -> (f: Self)
        requires
            integer * FEE_GROWTH_DENOMINATOR <= u128::MAX,
        ensures
            f.0 == integer * FEE_GROWTH_DENOMINATOR,
    {
        FeeGrowth(integer * FEE_GROWTH_DENOMINATOR)
    }

    /// The growth since `earlier`, modulo `2^128`.
    pub fn unchecked_sub(self, earlier: FeeGrowth) -> (d: FeeGrowth)
        ensures
            d.0 == wrapped_difference(self.0, earlier.0),
    {
        FeeGrowth(self.0.wrapping_sub(earlier.0))
    }

    /// The tokens this growth per unit earns `liquidity`, computed exactly
    /// and rounded down; `Cast` where they do not fit in 128 bits.
    pub fn to_fee(self, liquidity: Liquidity) -> (r: Result<TokenAmount, ContractError>)
        ensures
            r == fee_for(self.0, liquidity.0),
    {
        let growth = big_nat_from_u128(self.0);
        let amount = big_nat_from_u128(liquidity.0);
        let denominator = big_nat_from_u128(FEE_DENOMINATOR);
        let product = big_mul(&growth, &amount);
        let fee = big_div(&product, &denominator);
        match big_nat_to_u128(&fee) {
            Some(v) => Ok(TokenAmount(v)),
            None => Err(ContractError::Cast),
        }
    }
}

impl TokenAmount {
    pub fn new(value: u128) -> (t: Self)
        ensures
            t.0 == value,
    {
        TokenAmount(value)
    }

    pub fn is_zero(&self) -> (b: bool)
        ensures
            b == (self.0 == 0),
    {
        self.0 == 0
    }
}

/// Liquidity a user provides in a range of ticks of a pool, with the fee
/// growth last settled and the tokens it is owed.
#[derive(Debug, Clone, Default)]
pub struct Position {
    pub pool_key: PoolKey,
    pub liquidity: Liquidity,
    pub lower_tick_index: i32,
    pub upper_tick_index: i32,
    pub fee_growth_inside_x: FeeGrowth,
    pub fee_growth_inside_y: FeeGrowth,
    pub last_block_number: u64,
    pub tokens_owed_x: TokenAmount,
    pub tokens_owed_y: TokenAmount,
}

/// What `calculate_new_liquidity` returns.
pub open spec fn new_liquidity(liquidity: u128, sign: bool, delta: u128) -> Result<
    Liquidity,
    ContractError,
> {
    if !sign && liquidity < delta {
        Err(ContractError::InsufficientLiquidity)
    } else if sign {
        if liquidity + delta > u128::MAX {
            Err(ContractError::PositionAddLiquidityOverflow)
        } else {
            Ok(Liquidity((liquidity + delta) as u128))
        }
    } else {
        Ok(Liquidity((liquidity - delta) as u128))
    }
}

impl Position {
    /// The position's liquidity after adding (`sign`) or removing the delta;
    /// removing more than the position holds is refused.
    pub fn calculate_new_liquidity(&mut self, sign: bool, liquidity_delta: Liquidity) -> (result:
        Result<Liquidity, ContractError>)
        ensures
            result == new_liquidity(old(self).liquidity.0, sign, liquidity_delta.0),
            *final(self) == *old(self),
    {
        // validate in decrease liquidity case
        if !sign && self.liquidity.0 < liquidity_delta.0 {
            return Err(ContractError::InsufficientLiquidity);
        }
        match sign {
            true => match self.liquidity.checked_add(liquidity_delta) {
                Ok(l) => Ok(l),
                Err(_) => Err(ContractError::PositionAddLiquidityOverflow),
            },
            false => match self.liquidity.checked_sub(liquidity_delta) {
                Ok(l) => Ok(l),
                Err(_) => Err(ContractError::PositionRemoveLiquidityUnderflow),
            },
        }
    }
}

/// What `Position::update` computes before it writes anything: the fees
/// earned since the last update on each token and the new liquidity, or the
/// first error met.
pub open spec fn update_outcome(
    position: Position,
    sign: bool,
    liquidity_delta: u128,
    fee_growth_inside_x: u128,
    fee_growth_inside_y: u128,
) -> Result<(TokenAmount, TokenAmount, Liquidity), ContractError> {
    if liquidity_delta == 0 && position.liquidity.0 == 0 {
        Err(ContractError::EmptyPositionPokes)
    } else {
        match fee_for(
            wrapped_difference(fee_growth_inside_x, position.fee_growth_inside_x.0),
            position.liquidity.0,
        ) {
            Err(e) => Err(e),
            Ok(fee_x) => match fee_for(
                wrapped_difference(fee_growth_inside_y, position.fee_growth_inside_y.0),
                position.liquidity.0,
            ) {
                Err(e) => Err(e),
                Ok(fee_y) => match new_liquidity(position.liquidity.0, sign, liquidity_delta) {
                    Err(e) => Err(e),
                    Ok(liquidity) => Ok((fee_x, fee_y, liquidity)),
                },
            },
        }
    }
}

/// The position after an update: new liquidity, the fee growth recorded,
/// and the fees earned added to what it is owed.
pub open spec fn updated_position(
    position: Position,
    liquidity: Liquidity,
    fee_growth_inside_x: FeeGrowth,
    fee_growth_inside_y: FeeGrowth,
    fee_x: TokenAmount,
    fee_y: TokenAmount,
) -> Position {
    Position {
        liquidity,
        fee_growth_inside_x,
        fee_growth_inside_y,
        tokens_owed_x: TokenAmount((position.tokens_owed_x.0 + fee_x.0) as u128),
        tokens_owed_y: TokenAmount((position.tokens_owed_y.0 + fee_y.0) as u128),
        ..position
    }
}

impl Position {
    /// Settles the fees earned since the last update at the given fee growth
    /// inside the range, then changes the liquidity by `liquidity_delta`
    /// (added where `sign` holds). A position with no liquidity cannot be
    /// poked with a zero delta. On an error nothing changes.
    pub fn update(
        &mut self,
        sign: bool,
        liquidity_delta: Liquidity,
        fee_growth_inside_x: FeeGrowth,
        fee_growth_inside_y: FeeGrowth,
    ) -> (result: Result<(), ContractError>)
        requires
            update_outcome(
                *old(self),
                sign,
                liquidity_delta.0,
                fee_growth_inside_x.0,
                fee_growth_inside_y.0,
            ) matches Ok((fee_x, fee_y, _)) ==> old(self).tokens_owed_x.0 + fee_x.0 <= u128::MAX
                && old(self).tokens_owed_y.0 + fee_y.0 <= u128::MAX,
        ensures
            match update_outcome(
                *old(self),
                sign,
                liquidity_delta.0,
                fee_growth_inside_x.0,
                fee_growth_inside_y.0,
            ) {
                Err(e) => result == Err::<(), ContractError>(e) && *final(self) == *old(self),
                Ok((fee_x, fee_y, liquidity)) => result is Ok && *final(self) == updated_position(
                    *old(self),
                    liquidity,
                    fee_growth_inside_x,
                    fee_growth_inside_y,
                    fee_x,
                    fee_y,
                ),
            },
    {
        if liquidity_delta.is_zero() && self.liquidity.is_zero() {
            return Err(ContractError::EmptyPositionPokes);
        }
        // calculate accumulated fee
        let tokens_owed_x = match fee_growth_inside_x.unchecked_sub(
            self.fee_growth_inside_x,
        ).to_fee(self.liquidity) {
            Ok(t) => t,
            Err(e) => return Err(e),
        };
        let tokens_owed_y = match fee_growth_inside_y.unchecked_sub(
            self.fee_growth_inside_y,
        ).to_fee(self.liquidity) {
            Ok(t) => t,
            Err(e) => return Err(e),
        };
        let liquidity = match self.calculate_new_liquidity(sign, liquidity_delta) {
            Ok(l) => l,
            Err(e) => return Err(e),
        };
        self.liquidity = liquidity;
        self.fee_growth_inside_x = fee_growth_inside_x;
        self.fee_growth_inside_y = fee_growth_inside_y;
        self.tokens_owed_x = TokenAmount(self.tokens_owed_x.0 + tokens_owed_x.0);
        self.tokens_owed_y = TokenAmount(self.tokens_owed_y.0 + tokens_owed_y.0);
        Ok(())
    }
}

impl Position {
    /// Hands out the tokens the position is owed and clears them, as
    /// claiming its fees does once they are settled.
    pub fn take_tokens_owed(&mut self) -> (owed: (TokenAmount, TokenAmount))
        ensures
            owed == (old(self).tokens_owed_x, old(self).tokens_owed_y),
            *final(self) == (Position {
                tokens_owed_x: TokenAmount(0),
                tokens_owed_y: TokenAmount(0),
                ..*old(self)
            }),
    {
        let tokens_owed_x = self.tokens_owed_x;
        let tokens_owed_y = self.tokens_owed_y;
        self.tokens_owed_x = TokenAmount::new(0);
        self.tokens_owed_y = TokenAmount::new(0);
        (tokens_owed_x, tokens_owed_y)
    }
}

/// What becomes of a tick bounding a removed position.
#[derive(Debug, Clone, Copy, PartialEq, Eq, Structural)]
pub enum TickChange {
    /// No liquidity references the tick any more: it is removed and its
    /// bit cleared.
    Deinitialize,
    /// The tick stays, with its new bookkeeping stored.
    Update,
}

/// A tick is removed from the map only while no liquidity references it.
pub fn check_tick_deinitialization(liquidity_gross: Liquidity) -> (result: Result<
    (),
    ContractError,
>)
    ensures
        liquidity_gross.0 == 0 ==> result is Ok,
        liquidity_gross.0 != 0 ==> result == Err::<(), ContractError>(
            ContractError::NotEmptyTickDeinitialization,
        ),
{
    if !liquidity_gross.is_zero() {
        return Err(ContractError::NotEmptyTickDeinitialization);
    }
    Ok(())
}

/// The change a bounding tick undergoes once a position's liquidity has
/// left it.
pub open spec fn tick_change(liquidity_gross: u128) -> TickChange {
    if liquidity_gross == 0 {
        TickChange::Deinitialize
    } else {
        TickChange::Update
    }
}

/// What removing a position decides once its liquidity is withdrawn: each
/// bounding tick left with no liquidity is deinitialized, the others
/// updated; the owner is paid what the withdrawal freed plus the tokens the
/// position was owed, per token where not zero.
pub fn plan_position_removal(
    token_x: &String,
    token_y: &String,
    owner: &String,
    withdrawn: (TokenAmount, TokenAmount),
    tokens_owed: (TokenAmount, TokenAmount),
    lower_liquidity_gross: Liquidity,
    upper_liquidity_gross: Liquidity,
) -> (plan: (TickChange, TickChange, Vec<TransferMsg>))
    requires
        withdrawn.0.0 + tokens_owed.0.0 <= u128::MAX,
        withdrawn.1.0 + tokens_owed.1.0 <= u128::MAX,
    ensures
        plan.0 == tick_change(lower_liquidity_gross.0),
        plan.1 == tick_change(upper_liquidity_gross.0),
        paid_out(
            plan.2@,
            token_x@,
            token_y@,
            owner@,
            (withdrawn.0.0 + tokens_owed.0.0) as u128,
            (withdrawn.1.0 + tokens_owed.1.0) as u128,
        ),
{
    let amount_x = withdrawn.0.0 + tokens_owed.0.0;
    let amount_y = withdrawn.1.0 + tokens_owed.1.0;
    let lower = if lower_liquidity_gross.is_zero() {
        TickChange::Deinitialize
    } else {
        TickChange::Update
    };
    let upper = if upper_liquidity_gross.is_zero() {
        TickChange::Deinitialize
    } else {
        TickChange::Update
    };
    (lower, upper, payout_messages(token_x, token_y, owner, amount_x, amount_y))
}

/// Fees are settled once: a second update at the same fee growth inside the
/// range owes the position nothing more, whatever its liquidity has become.
pub proof fn fees_settled_once(
    position: Position,
    sign: bool,
    liquidity_delta: u128,
    fee_growth_inside_x: u128,
    fee_growth_inside_y: u128,
    second_sign: bool,
    second_delta: u128,
)
    requires
        update_outcome(
            position,
            sign,
            liquidity_delta,
            fee_growth_inside_x,
            fee_growth_inside_y,
        ) is Ok,
    ensures
        update_outcome(position, sign, liquidity_delta, fee_growth_inside_x, fee_growth_inside_y)
            matches Ok((fee_x, fee_y, liquidity)) ==> update_outcome(
            updated_position(
                position,
                liquidity,
                FeeGrowth(fee_growth_inside_x),
                FeeGrowth(fee_growth_inside_y),
                fee_x,
                fee_y,
            ),
            second_sign,
            second_delta,
            fee_growth_inside_x,
            fee_growth_inside_y,
        ) matches Ok((again_x, again_y, _)) ==> again_x.0 == 0 && again_y.0 == 0,
{
    assert(wrapped_difference(fee_growth_inside_x, fee_growth_inside_x) == 0);
    assert(wrapped_difference(fee_growth_inside_y, fee_growth_inside_y) == 0);
    assert forall|l: u128| fee_amount(0, l) == 0 by {
        assert(0 as nat * l as nat == 0);
    }
}

/// The checks made before a position is opened: some liquidity, and two
/// distinct ticks.
pub fn validate_position_request(liquidity_delta: Liquidity, lower_tick: i32, upper_tick: i32) -> (
    result: Result<(), ContractError>)
    ensures
        liquidity_delta.0 == 0 ==> result == Err::<(), ContractError>(
            ContractError::InsufficientLiquidity,
        ),
        liquidity_delta.0 != 0 && lower_tick == upper_tick ==> result == Err::<(), ContractError>(
            ContractError::InvalidTickIndex,
        ),
        liquidity_delta.0 != 0 && lower_tick != upper_tick ==> result is Ok,
{
    if liquidity_delta.is_zero() {
        return Err(ContractError::InsufficientLiquidity);
    }
    if lower_tick == upper_tick {
        return Err(ContractError::InvalidTickIndex);
    }
    Ok(())
}

/// The slippage check of opening a position: the pool's price must lie
/// within the limits the owner set.
pub fn check_slippage(
    sqrt_price: SqrtPrice,
    slippage_limit_lower: SqrtPrice,
    slippage_limit_upper: SqrtPrice,
) -> (result: Result<(), ContractError>)
    ensures
        result is Ok <==> slippage_limit_lower.0 <= sqrt_price.0 <= slippage_limit_upper.0,
        result is Err ==> result == Err::<(), ContractError>(ContractError::PriceLimitReached),
{
    if sqrt_price.0 < slippage_limit_lower.0 || sqrt_price.0 > slippage_limit_upper.0 {
        return Err(ContractError::PriceLimitReached);
    }
    Ok(())
}

/// Adding liquidity and then removing the same amount gives the position
/// its liquidity back.
pub proof fn add_then_remove_liquidity(liquidity: u128, delta: u128)
    requires
        liquidity + delta <= u128::MAX,
    ensures
        new_liquidity(liquidity, true, delta) matches Ok(added) && new_liquidity(
            added.0,
            false,
            delta,
        ) == Ok::<Liquidity, ContractError>(Liquidity(liquidity)),
{
}

} // verus!
