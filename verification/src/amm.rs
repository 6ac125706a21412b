//! State records of the single-pool AMM program: pool configuration, global
//! fee growth, protocol fees, the current price slot, ticks, positions and
//! price observations, with its configuration and fee tiers.
use crate::error::ContractError;
use crate::types::{Percentage, PERCENTAGE_DENOMINATOR};
use vstd::prelude::*;

verus! {

/// Token pair and tick parameters of the pool.
#[derive(Debug, Clone)]
pub struct PoolConfig {
    /// The token whose address sorts first.
    pub token_0: String,
    pub token_1: String,
    /// The minimum number of ticks between initialized ticks.
    pub tick_spacing: u16,
    /// Most liquidity any single tick may reference.
    pub max_liquidity_per_tick: u128,
}

/// Fee growth per unit of liquidity over the pool's life, for each token,
/// as Q64.64 numbers.
#[derive(Debug, Clone, Copy, PartialEq, Eq, Structural, Default)]
pub struct FeeGrowthGlobalX64 {
    pub fee_growth_global_0_x64: u128,
    pub fee_growth_global_1_x64: u128,
}

/// Protocol fees owed, for each token.
#[derive(Debug, Clone, Copy, PartialEq, Eq, Structural, Default)]
pub struct ProtocolFee {
    pub token_0: u128,
    pub token_1: u128,
}

/// The current price, tick and oracle bookkeeping of the pool.
#[derive(Debug, Clone, Copy, PartialEq, Eq, Structural, Default)]
pub struct Slot0 {
    pub sqrt_price_x64: u128,
    pub tick: i32,
    pub observation_index: u16,
    pub observation_cardinality: u16,
    pub observation_cardinality_next: u16,
    pub fee_protocol: u8,
    pub unlocked: bool,
}

/// What the pool records of an initialized tick.
#[derive(Debug, Clone, Copy, PartialEq, Eq, Structural, Default)]
pub struct TickInfo {
    /// Net liquidity added (subtracted) when the tick is crossed from left to right (right to left).
    pub liquidity_net: i128,
    /// Total liquidity of the positions that reference the tick.
    pub liquidity_gross: u128,
    /// Fee growth per unit of liquidity on the other side of the tick, relative to the current tick.
    pub fee_growth_outside_0_x64: u128,
    pub fee_growth_outside_1_x64: u128,
    pub tick_cumulative_outside: i64,
    pub seconds_out_side: u32,
    /// Reward growth per unit of liquidity on the other side of the tick, as a Q64.64 number.
    pub reward_growths_outside_x64: u128,
    pub initialized: bool,
}

/// A liquidity position of the pool.
#[derive(Debug, Clone, Copy, PartialEq, Eq, Structural, Default)]
pub struct Position {
    pub liquidity: u128,
    pub fee_growth_inside_0_last_x64: u128,
    pub fee_growth_inside_1_last_x64: u128,
    pub tokens_owed_0: u128,
    pub tokens_owed_1: u128,
}

/// A price observation of the oracle.
#[derive(Debug, Clone, Copy, PartialEq, Eq, Structural, Default)]
pub struct Observation {
    pub block_timestamp: u32,
    pub tick_cumulative: u128,
    pub seconds_per_liquidity_cumulative_x128: u128,
}

/// Admin and protocol fee of the AMM.
#[derive(Debug, Clone)]
pub struct AmmConfig {
    pub admin: String,
    pub protocol_fee: Percentage,
}

impl Default for AmmConfig {
    /// The empty configuration: no admin and a zero protocol fee.
    fn default() -> (config: AmmConfig)
        ensures
            config.admin@ == Seq::<char>::empty(),
            config.protocol_fee.0 == 0,
    {
        AmmConfig { admin: String::new(), protocol_fee: Percentage(0) }
    }
}

/// A fee tier of the AMM.
#[derive(Debug, Clone, Copy, PartialEq, Eq, Structural)]
pub struct FeeTier {
    pub fee: Percentage,
    pub tick_spacing: u16,
}

impl Default for FeeTier {
    /// The default fee tier: zero fee, tick spacing 1.
    fn default() -> (fee_tier: FeeTier)
        ensures
            fee_tier.fee.0 == 0,
            fee_tier.tick_spacing == 1,
    {
        FeeTier { fee: Percentage(0), tick_spacing: 1 }
    }
}

impl FeeTier {
    /// A fee tier with a tick spacing in `1..=100` and a fee of at most 100%.
    pub fn new(fee: Percentage, tick_spacing: u16) -> (result: Result<Self, ContractError>)
        ensures
            tick_spacing == 0 || tick_spacing > 100 ==> result == Err::<FeeTier, ContractError>(
                ContractError::InvalidTickSpacing,
            ),
            1 <= tick_spacing <= 100 && fee.0 > PERCENTAGE_DENOMINATOR ==> result == Err::<
                FeeTier,
                ContractError,
            >(ContractError::InvalidFee),
            1 <= tick_spacing <= 100 && fee.0 <= PERCENTAGE_DENOMINATOR ==> result == Ok::<
                FeeTier,
                ContractError,
            >(FeeTier { fee, tick_spacing }),
    {
        if tick_spacing == 0 || tick_spacing > 100 {
            return Err(ContractError::InvalidTickSpacing);
        }
        if fee.0 > PERCENTAGE_DENOMINATOR {
            return Err(ContractError::InvalidFee);
        }
        Ok(Self { fee, tick_spacing })
    }
}

} // verus!
