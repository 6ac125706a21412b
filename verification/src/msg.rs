//! Message and response records of the exchange's interface.
use crate::pool_key::PoolKey;
use crate::position::FeeGrowth;
use crate::types::Percentage;
use vstd::prelude::*;

verus! {

/// Parameters of a new exchange.
#[derive(Debug, Clone, Copy, PartialEq, Eq, Structural)]
pub struct InstantiateMsg {
    pub protocol_fee: Percentage,
}

/// Parameters of a migration; it takes none.
#[derive(Debug, Clone, Copy, PartialEq, Eq, Structural)]
pub struct MigrateMsg {}

/// One pool of a swap route and the direction of the swap in it.
#[derive(Debug, Clone)]
pub struct SwapHop {
    pub pool_key: PoolKey,
    pub x_to_y: bool,
}

/// The fee and time bookkeeping of a tick bounding a position.
#[derive(Debug, Clone, Copy, PartialEq, Eq, Structural)]
pub struct PositionTick {
    pub index: i32,
    pub fee_growth_outside_x: FeeGrowth,
    pub fee_growth_outside_y: FeeGrowth,
    pub seconds_outside: u64,
}

} // verus!
