use oraiswap_v3::position::{check_tick_deinitialization, plan_position_removal, TickChange};
use oraiswap_v3::error::ContractError;
use oraiswap_v3::position::{
    check_slippage, validate_position_request, FeeGrowth, Position, TokenAmount,
};
use oraiswap_v3::types::{Liquidity, SqrtPrice};

/// The pool of these tests was created at tick 0, whose square root of
/// price is 1 (`10^24` raw); opening positions leaves the price there.
fn pool_sqrt_price() -> SqrtPrice {
    SqrtPrice(1_000_000_000_000_000_000_000_000)
}

/// The checks of opening a position from `-tick_spacing` to `tick_spacing`
/// in that pool with the given slippage limits.
fn open_position(limit_lower: SqrtPrice, limit_upper: SqrtPrice) -> Result<(), ContractError> {
    let tick = 10;
    validate_position_request(Liquidity::from_integer(1_000_000), -tick, tick)?;
    check_slippage(pool_sqrt_price(), limit_lower, limit_upper)
}

#[test]
fn test_calculate_new_liquidity() {
    // negative liquidity error
    {
        let mut position = Position { liquidity: Liquidity::from_integer(1), ..Default::default() };
        let sign: bool = false;
        let liquidity_delta = Liquidity::from_integer(2);

        let result = position.calculate_new_liquidity(sign, liquidity_delta);

        assert!(result.is_err());
    }
    // adding liquidity
    {
        let mut position = Position { liquidity: Liquidity::from_integer(2), ..Default::default() };
        let sign: bool = true;
        let liquidity_delta = Liquidity::from_integer(2);

        let new_liquidity = position.calculate_new_liquidity(sign, liquidity_delta).unwrap();

        assert_eq!(new_liquidity, Liquidity::from_integer(4));
    }
    // subtracting liquidity
    {
        let mut position = Position { liquidity: Liquidity::from_integer(2), ..Default::default() };
        let sign: bool = false;
        let liquidity_delta = Liquidity::from_integer(2);

        let new_liquidity = position.calculate_new_liquidity(sign, liquidity_delta).unwrap();

        assert_eq!(new_liquidity, Liquidity::from_integer(0));
    }
}

#[test]
fn new_liquidity_errors_and_roundtrip() {
    let mut position = Position { liquidity: Liquidity::new(5), ..Default::default() };
    assert_eq!(
        position.calculate_new_liquidity(false, Liquidity::new(6)),
        Err(ContractError::InsufficientLiquidity)
    );
    let mut full = Position { liquidity: Liquidity::new(u128::MAX), ..Default::default() };
    assert_eq!(
        full.calculate_new_liquidity(true, Liquidity::new(1)),
        Err(ContractError::PositionAddLiquidityOverflow)
    );
    let added = position.calculate_new_liquidity(true, Liquidity::new(7)).unwrap();
    let mut after = Position { liquidity: added, ..Default::default() };
    assert_eq!(after.calculate_new_liquidity(false, Liquidity::new(7)), Ok(Liquidity::new(5)));
    // the position itself is left as it was
    assert_eq!(position.liquidity, Liquidity::new(5));
}

#[test]
fn test_update() {
    // Disable empty position pokes error
    {
        let mut position = Position { liquidity: Liquidity::from_integer(0), ..Default::default() };
        let sign = true;
        let liquidity_delta = Liquidity::from_integer(0);
        let fee_growth_inside_x = FeeGrowth::from_integer(1);
        let fee_growth_inside_y = FeeGrowth::from_integer(1);

        let result = position.update(sign, liquidity_delta, fee_growth_inside_x, fee_growth_inside_y);

        assert!(result.is_err());
    }
    // zero liquidity fee shouldn't change
    {
        let mut position = Position {
            liquidity: Liquidity::from_integer(0),
            fee_growth_inside_x: FeeGrowth::from_integer(4),
            fee_growth_inside_y: FeeGrowth::from_integer(4),
            tokens_owed_x: TokenAmount(100),
            tokens_owed_y: TokenAmount(100),
            ..Default::default()
        };
        let sign = true;
        let liquidity_delta = Liquidity::from_integer(1);
        let fee_growth_inside_x = FeeGrowth::from_integer(5);
        let fee_growth_inside_y = FeeGrowth::from_integer(5);

        position.update(sign, liquidity_delta, fee_growth_inside_x, fee_growth_inside_y).unwrap();

        assert_eq!({ position.liquidity }, Liquidity::from_integer(1));
        assert_eq!({ position.fee_growth_inside_x }, FeeGrowth::from_integer(5));
        assert_eq!({ position.fee_growth_inside_y }, FeeGrowth::from_integer(5));
        assert_eq!({ position.tokens_owed_x }, TokenAmount(100));
        assert_eq!({ position.tokens_owed_y }, TokenAmount(100));
    }
    // fee should change
    {
        let mut position = Position {
            liquidity: Liquidity::from_integer(1),
            fee_growth_inside_x: FeeGrowth::from_integer(4),
            fee_growth_inside_y: FeeGrowth::from_integer(4),
            tokens_owed_x: TokenAmount(100),
            tokens_owed_y: TokenAmount(100),
            ..Default::default()
        };
        let sign = true;
        let liquidity_delta = Liquidity::from_integer(1);
        let fee_growth_inside_x = FeeGrowth::from_integer(5);
        let fee_growth_inside_y = FeeGrowth::from_integer(5);

        position.update(sign, liquidity_delta, fee_growth_inside_x, fee_growth_inside_y).unwrap();

        assert_eq!({ position.liquidity }, Liquidity::from_integer(2));
        assert_eq!({ position.fee_growth_inside_x }, FeeGrowth::from_integer(5));
        assert_eq!({ position.fee_growth_inside_y }, FeeGrowth::from_integer(5));
        assert_eq!({ position.tokens_owed_x }, TokenAmount(101));
        assert_eq!({ position.tokens_owed_y }, TokenAmount(101));
    }
    // previous fee_growth_inside close to max and current close to 0
    {
        let mut position = Position {
            liquidity: Liquidity::from_integer(1),
            fee_growth_inside_x: FeeGrowth::new(u128::MAX - FeeGrowth::from_integer(10).0),
            fee_growth_inside_y: FeeGrowth::new(u128::MAX - FeeGrowth::from_integer(10).0),
            tokens_owed_x: TokenAmount(100),
            tokens_owed_y: TokenAmount(100),
            ..Default::default()
        };
        let sign = true;
        let liquidity_delta = Liquidity::from_integer(1);
        let fee_growth_inside_x = FeeGrowth::from_integer(10);
        let fee_growth_inside_y = FeeGrowth::from_integer(10);

        position.update(sign, liquidity_delta, fee_growth_inside_x, fee_growth_inside_y).unwrap();

        assert_eq!({ position.liquidity }, Liquidity::from_integer(2));
        assert_eq!({ position.fee_growth_inside_x }, FeeGrowth::from_integer(10));
        assert_eq!({ position.fee_growth_inside_y }, FeeGrowth::from_integer(10));
        assert_eq!({ position.tokens_owed_x }, TokenAmount(120));
        assert_eq!({ position.tokens_owed_y }, TokenAmount(120));
    }
}

#[test]
fn to_fee_rounds_down_and_refuses_overflow() {
    // one unit of growth on one unit of liquidity earns one token
    assert_eq!(FeeGrowth::from_integer(1).to_fee(Liquidity::from_integer(1)), Ok(TokenAmount(1)));
    // 1.5 units of growth on 3 units: 4.5 tokens, rounded down
    let growth = FeeGrowth::new(15_000_000_000_000_000_000_000_000_000);
    assert_eq!(growth.to_fee(Liquidity::from_integer(3)), Ok(TokenAmount(4)));
    // the largest growth on the largest liquidity does not fit in 128 bits
    assert_eq!(
        FeeGrowth::new(u128::MAX).to_fee(Liquidity::new(u128::MAX)),
        Err(ContractError::Cast)
    );
    // the growth counter wraps around
    assert_eq!(FeeGrowth::new(3).unchecked_sub(FeeGrowth::new(5)), FeeGrowth::new(u128::MAX - 1));
}

#[test]
fn update_errors_leave_position_unchanged() {
    let mut position = Position {
        liquidity: Liquidity::from_integer(1),
        fee_growth_inside_x: FeeGrowth::from_integer(4),
        tokens_owed_x: TokenAmount(7),
        ..Default::default()
    };
    // removing more than the position holds
    let result = position.update(false, Liquidity::from_integer(2), FeeGrowth::from_integer(9), FeeGrowth::new(0));
    assert_eq!(result, Err(ContractError::InsufficientLiquidity));
    assert_eq!(position.liquidity, Liquidity::from_integer(1));
    assert_eq!(position.fee_growth_inside_x, FeeGrowth::from_integer(4));
    assert_eq!(position.tokens_owed_x, TokenAmount(7));
    // a fee too large for a token amount
    let mut huge = Position { liquidity: Liquidity::new(u128::MAX), ..Default::default() };
    let result = huge.update(true, Liquidity::new(0), FeeGrowth::new(u128::MAX), FeeGrowth::new(0));
    assert_eq!(result, Err(ContractError::Cast));
    assert_eq!(huge.fee_growth_inside_x, FeeGrowth::new(0));
}

#[test]
fn second_update_at_same_growth_owes_nothing() {
    let mut position = Position {
        liquidity: Liquidity::from_integer(3),
        fee_growth_inside_x: FeeGrowth::from_integer(1),
        fee_growth_inside_y: FeeGrowth::from_integer(2),
        ..Default::default()
    };
    let gx = FeeGrowth::from_integer(3);
    let gy = FeeGrowth::from_integer(5);
    position.update(true, Liquidity::from_integer(2), gx, gy).unwrap();
    assert_eq!(position.tokens_owed_x, TokenAmount(6));
    assert_eq!(position.tokens_owed_y, TokenAmount(9));
    position.update(false, Liquidity::from_integer(4), gx, gy).unwrap();
    assert_eq!(position.tokens_owed_x, TokenAmount(6));
    assert_eq!(position.tokens_owed_y, TokenAmount(9));
    assert_eq!(position.liquidity, Liquidity::from_integer(1));
}

#[test]
fn test_position_slippage_zero_slippage_and_inside_range() {
    // zero slippage
    {
        let known_price = pool_sqrt_price();
        open_position(known_price, known_price).unwrap();
    }
    // inside range
    {
        let limit_lower = SqrtPrice(994734637981406576896367);
        let limit_upper = SqrtPrice(1025038048074314166333500);
        open_position(limit_lower, limit_upper).unwrap();
    }
}

#[test]
fn test_position_slippage_below_range() {
    let limit_lower = SqrtPrice(1014432353584998786339859);
    let limit_upper = SqrtPrice(1045335831204498605270797);
    open_position(limit_lower, limit_upper).unwrap_err();
}

#[test]
fn test_position_slippage_above_range() {
    let limit_lower = SqrtPrice(955339206774222158009382);
    let limit_upper = SqrtPrice(984442481813945288458906);
    open_position(limit_lower, limit_upper).unwrap_err();
}

#[test]
fn claiming_takes_the_tokens_owed() {
    let mut position = Position {
        liquidity: Liquidity::from_integer(2),
        tokens_owed_x: TokenAmount(7),
        tokens_owed_y: TokenAmount(3),
        ..Default::default()
    };
    assert_eq!(position.take_tokens_owed(), (TokenAmount(7), TokenAmount(3)));
    assert_eq!(position.tokens_owed_x, TokenAmount(0));
    assert_eq!(position.tokens_owed_y, TokenAmount(0));
    assert_eq!(position.liquidity, Liquidity::from_integer(2));
}

#[test]
fn position_removal_plan() {
    assert_eq!(check_tick_deinitialization(Liquidity::new(0)), Ok(()));
    assert_eq!(
        check_tick_deinitialization(Liquidity::new(1)),
        Err(ContractError::NotEmptyTickDeinitialization)
    );
    let (lower, upper, payouts) = plan_position_removal(
        &"tx".to_string(),
        &"ty".to_string(),
        &"alice".to_string(),
        (TokenAmount(10), TokenAmount(0)),
        (TokenAmount(5), TokenAmount(0)),
        Liquidity::new(0),
        Liquidity::new(8),
    );
    assert_eq!(lower, TickChange::Deinitialize);
    assert_eq!(upper, TickChange::Update);
    assert_eq!(payouts.len(), 1);
    assert_eq!(
        format!("{:?}", payouts[0]),
        format!(
            "{:?}",
            oraiswap_v3::asset::TransferMsg::Cw20Transfer {
                contract_addr: "tx".to_string(),
                recipient: "alice".to_string(),
                amount: 15
            }
        )
    );
}
