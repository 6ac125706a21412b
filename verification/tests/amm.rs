use oraiswap_v3::amm::{AmmConfig, FeeTier, Slot0, TickInfo};
use oraiswap_v3::error::ContractError;
use oraiswap_v3::msg::{InstantiateMsg, MigrateMsg, PositionTick};
use oraiswap_v3::position::{check_slippage, validate_position_request, FeeGrowth};
use oraiswap_v3::types::{Liquidity, Percentage, SqrtPrice};

#[test]
fn amm_defaults() {
    let config = AmmConfig::default();
    assert_eq!(config.admin, "");
    assert_eq!(config.protocol_fee, Percentage::new(0));
    let fee_tier = FeeTier::default();
    assert_eq!(fee_tier.fee, Percentage::new(0));
    assert_eq!(fee_tier.tick_spacing, 1);
    assert_eq!(Slot0::default().tick, 0);
    assert!(!TickInfo::default().initialized);
}

#[test]
fn amm_fee_tier_new() {
    assert_eq!(FeeTier::new(Percentage::new(5), 0), Err(ContractError::InvalidTickSpacing));
    assert_eq!(FeeTier::new(Percentage::from_integer(2), 10), Err(ContractError::InvalidFee));
    assert_eq!(
        FeeTier::new(Percentage::from_integer(1), 10),
        Ok(FeeTier { fee: Percentage::from_integer(1), tick_spacing: 10 })
    );
}

#[test]
fn message_records() {
    let msg = InstantiateMsg { protocol_fee: Percentage::new(7) };
    assert_eq!(msg.protocol_fee.0, 7);
    assert_eq!(MigrateMsg {}, MigrateMsg {});
    let tick = PositionTick {
        index: -10,
        fee_growth_outside_x: FeeGrowth(1),
        fee_growth_outside_y: FeeGrowth(2),
        seconds_outside: 3,
    };
    assert_eq!(tick.index, -10);
}

#[test]
fn position_request_checks() {
    assert_eq!(
        validate_position_request(Liquidity::new(0), -10, 10),
        Err(ContractError::InsufficientLiquidity)
    );
    assert_eq!(
        validate_position_request(Liquidity::new(1), 10, 10),
        Err(ContractError::InvalidTickIndex)
    );
    assert_eq!(validate_position_request(Liquidity::new(1), -10, 10), Ok(()));
    assert_eq!(check_slippage(SqrtPrice(5), SqrtPrice(5), SqrtPrice(9)), Ok(()));
    assert_eq!(
        check_slippage(SqrtPrice(10), SqrtPrice(5), SqrtPrice(9)),
        Err(ContractError::PriceLimitReached)
    );
}
