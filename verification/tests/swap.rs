use oraiswap_v3::asset::{Coin, TransferMsg};
use oraiswap_v3::swap::settle_swap;
use oraiswap_v3::error::ContractError;
use oraiswap_v3::position::TokenAmount;
use oraiswap_v3::swap::{
    apply_swap_step, apply_tick_update, check_swap_request, finish_swap, hop_sqrt_price_limit,
    start_swap, swap_tick_limit, SwapResult, MAX_SQRT_PRICE, MIN_SQRT_PRICE,
};
use oraiswap_v3::types::SqrtPrice;

fn step(price: u128, amount_in: u128, amount_out: u128, fee: u128) -> SwapResult {
    SwapResult {
        next_sqrt_price: SqrtPrice(price),
        amount_in: TokenAmount(amount_in),
        amount_out: TokenAmount(amount_out),
        fee_amount: TokenAmount(fee),
    }
}

#[test]
fn swap_request_checks() {
    let price = SqrtPrice(1_000_000_000_000_000_000_000_000);
    assert_eq!(
        check_swap_request(TokenAmount(0), true, price, SqrtPrice(MIN_SQRT_PRICE)),
        Err(ContractError::AmountIsZero)
    );
    // swapping x for y moves the price down: the limit must lie below it
    assert_eq!(check_swap_request(TokenAmount(5), true, price, price), Err(ContractError::WrongLimit));
    assert_eq!(
        check_swap_request(TokenAmount(5), true, SqrtPrice(u128::MAX), SqrtPrice(MAX_SQRT_PRICE + 1)),
        Err(ContractError::WrongLimit)
    );
    assert_eq!(check_swap_request(TokenAmount(5), true, price, SqrtPrice(MIN_SQRT_PRICE)), Ok(()));
    // and y for x moves it up
    assert_eq!(check_swap_request(TokenAmount(5), false, price, SqrtPrice(MIN_SQRT_PRICE)), Err(ContractError::WrongLimit));
    assert_eq!(
        check_swap_request(TokenAmount(5), false, SqrtPrice(0), SqrtPrice(MIN_SQRT_PRICE - 1)),
        Err(ContractError::WrongLimit)
    );
    assert_eq!(check_swap_request(TokenAmount(5), false, price, SqrtPrice(MAX_SQRT_PRICE)), Ok(()));
}

#[test]
fn swap_limits() {
    assert_eq!(swap_tick_limit(true, 10), -221810);
    assert_eq!(swap_tick_limit(false, 10), 221810);
    assert_eq!(swap_tick_limit(false, 1), 221818);
    assert_eq!(hop_sqrt_price_limit(true), SqrtPrice(MIN_SQRT_PRICE));
    assert_eq!(hop_sqrt_price_limit(false), SqrtPrice(MAX_SQRT_PRICE));
}

#[test]
fn swap_steps_book_amounts() {
    let limit = SqrtPrice(10);
    let mut progress = start_swap(TokenAmount(100));
    assert_eq!(apply_swap_step(&mut progress, step(50, 60, 55, 4), true, limit), Ok(()));
    assert_eq!(progress.remaining_amount, TokenAmount(36));
    assert_eq!(progress.total_amount_in, TokenAmount(64));
    assert_eq!(progress.total_amount_out, TokenAmount(55));
    assert_eq!(progress.fee_amount, TokenAmount(4));
    // a step using more than remains is refused and books nothing
    let before = progress;
    assert_eq!(apply_swap_step(&mut progress, step(40, 40, 1, 1), true, limit), Err(ContractError::Sub));
    assert_eq!(progress, before);
    // stopping at the price limit with an amount left
    assert_eq!(
        apply_swap_step(&mut progress, step(10, 20, 18, 1), true, limit),
        Err(ContractError::PriceLimitReached)
    );
    assert_eq!(progress.remaining_amount, TokenAmount(15));
    // reaching the limit with nothing left is fine
    let mut exact = start_swap(TokenAmount(21));
    assert_eq!(apply_swap_step(&mut exact, step(10, 20, 18, 1), true, limit), Ok(()));
    assert_eq!(finish_swap(exact), Ok((TokenAmount(21), TokenAmount(18), TokenAmount(1))));
}

#[test]
fn swap_by_amount_out() {
    let mut progress = start_swap(TokenAmount(30));
    assert_eq!(apply_swap_step(&mut progress, step(7, 40, 30, 2), false, SqrtPrice(1)), Ok(()));
    assert_eq!(progress.remaining_amount, TokenAmount(0));
    assert_eq!(progress.total_amount_in, TokenAmount(42));
    assert_eq!(finish_swap(progress), Ok((TokenAmount(42), TokenAmount(30), TokenAmount(2))));
}

#[test]
fn swap_tick_updates_and_no_gain() {
    let mut progress = start_swap(TokenAmount(10));
    assert_eq!(apply_tick_update(&mut progress, TokenAmount(3), TokenAmount(7), true, -5, -10), Ok(()));
    assert_eq!(progress.remaining_amount, TokenAmount(7));
    assert_eq!(progress.total_amount_in, TokenAmount(3));
    assert_eq!(
        apply_tick_update(&mut progress, TokenAmount(0), TokenAmount(7), true, -10, -10),
        Err(ContractError::TickLimitReached)
    );
    assert_eq!(
        apply_tick_update(&mut progress, TokenAmount(0), TokenAmount(7), false, 11, 10),
        Err(ContractError::TickLimitReached)
    );
    assert_eq!(finish_swap(progress), Err(ContractError::NoGainSwap));
}

fn pool_key() -> oraiswap_v3::pool_key::PoolKey {
    oraiswap_v3::pool_key::PoolKey {
        token_x: "orai1tokenx".to_string(),
        token_y: "orai".to_string(),
        fee_tier: Default::default(),
    }
}

fn shown(msgs: &[oraiswap_v3::asset::TransferMsg]) -> Vec<String> {
    msgs.iter().map(|m| format!("{:?}", m)).collect()
}

#[test]
fn settle_swap_x_for_y() {
    let sender = "alice".to_string();
    let exchange = "dex".to_string();
    let mut msgs = vec![];
    // x is a token contract, y the native coin
    settle_swap(
        &mut msgs,
        &pool_key(),
        true,
        TokenAmount(100),
        TokenAmount(40),
        Some("orai1tokenx".to_string()),
        None,
        &sender,
        &vec![],
        &exchange,
    )
    .unwrap();
    let expected = vec![
        TransferMsg::Cw20TransferFrom {
            contract_addr: "orai1tokenx".to_string(),
            owner: "alice".to_string(),
            recipient: "dex".to_string(),
            amount: 100,
        },
        TransferMsg::BankSend { to_address: "alice".to_string(), denom: "orai".to_string(), amount: 40 },
    ];
    assert_eq!(shown(&msgs), shown(&expected));
    // y for x: the native coin sent along must cover what goes in; the excess comes back
    let mut msgs = vec![];
    let funds = vec![Coin { denom: "orai".to_string(), amount: 50 }];
    settle_swap(
        &mut msgs,
        &pool_key(),
        false,
        TokenAmount(45),
        TokenAmount(9),
        Some("orai1tokenx".to_string()),
        None,
        &sender,
        &funds,
        &exchange,
    )
    .unwrap();
    let expected = vec![
        TransferMsg::BankSend { to_address: "alice".to_string(), denom: "orai".to_string(), amount: 5 },
        TransferMsg::Cw20Transfer {
            contract_addr: "orai1tokenx".to_string(),
            recipient: "alice".to_string(),
            amount: 9,
        },
    ];
    assert_eq!(shown(&msgs), shown(&expected));
    let mut msgs = vec![];
    let short = vec![Coin { denom: "orai".to_string(), amount: 44 }];
    assert_eq!(
        settle_swap(
            &mut msgs,
            &pool_key(),
            false,
            TokenAmount(45),
            TokenAmount(9),
            Some("orai1tokenx".to_string()),
            None,
            &sender,
            &short,
            &exchange,
        ),
        Err(ContractError::InvalidFunds { transfer_amount: 45 })
    );
    assert!(msgs.is_empty());
}
