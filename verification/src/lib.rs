//! Verified core of a concentrated-liquidity exchange: tick bitmap
//! addressing, tick rounding, fee-tier and pool-key rules, fixed-width and
//! big-number liquidity math.
use vstd::prelude::*;

pub mod amm;
pub mod asset;
pub mod big_num;
pub mod bit_math;
pub mod bytes;
pub mod config;
pub mod encode_sqrt_ratio_x96;
pub mod error;
pub mod fee_growth_inside;
pub mod fee_tier;
pub mod max_liquidity_for_amounts;
pub mod msg;
pub mod nearest_usable_tick;
pub mod nft;
pub mod pool_key;
pub mod position;
pub mod position_ticks;
pub mod swap;
pub mod types;
pub mod uint256;
pub mod tickmap;
pub mod tickmap_query;

verus! {

} // verus!
