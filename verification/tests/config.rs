use oraiswap_v3::config::{check_tick, Config};
use oraiswap_v3::error::ContractError;
use oraiswap_v3::fee_tier::FeeTier;
use oraiswap_v3::types::Percentage;

fn dex(admin: &str, protocol_fee: Percentage) -> Config {
    Config::instantiate(admin.to_string(), protocol_fee)
}

#[test]
fn test_add_multiple_fee_tiers() {
    let mut config = dex("alice", Percentage::new(0));

    let first_fee_tier = FeeTier::new(Percentage::new(1), 1).unwrap();
    let second_fee_tier = FeeTier::new(Percentage::new(1), 2).unwrap();
    let third_fee_tier = FeeTier::new(Percentage::new(1), 4).unwrap();

    config.add_fee_tier(&"alice".to_string(), first_fee_tier).unwrap();
    config.add_fee_tier(&"alice".to_string(), second_fee_tier).unwrap();
    config.add_fee_tier(&"alice".to_string(), third_fee_tier).unwrap();

    let fee_tiers = config.get_fee_tiers();
    assert!(fee_tiers.contains(&first_fee_tier));
    assert!(fee_tiers.contains(&second_fee_tier));
    assert!(fee_tiers.contains(&third_fee_tier));
    assert_eq!(fee_tiers.len(), 3);
}

#[test]
fn test_add_fee_tier_not_admin() {
    let mut config = dex("alice", Percentage::new(0));
    let result = config.add_fee_tier(&"user".to_string(), FeeTier::new(Percentage::new(1), 1).unwrap());
    assert!(result.is_err());
    assert_eq!(result, Err(ContractError::Unauthorized));
}

#[test]
fn test_add_fee_tier_zero_fee() {
    let mut config = dex("alice", Percentage::new(0));
    let result = config.add_fee_tier(&"alice".to_string(), FeeTier::new(Percentage::new(0), 10).unwrap());
    assert!(result.is_ok());
}

#[test]
fn test_add_fee_tier_tick_spacing_zero() {
    let mut config = dex("alice", Percentage::new(0));
    let fee_tier = FeeTier { fee: Percentage::new(1), tick_spacing: 0 };
    let result = config.add_fee_tier(&"alice".to_string(), fee_tier);
    assert!(result.is_err());
    assert_eq!(result, Err(ContractError::InvalidTickSpacing));
}

#[test]
fn test_add_fee_tier_over_upper_bound_tick_spacing() {
    let mut config = dex("alice", Percentage::new(0));
    let fee_tier = FeeTier { fee: Percentage::new(1), tick_spacing: 101 };
    let result = config.add_fee_tier(&"alice".to_string(), fee_tier);
    assert!(result.is_err());
}

#[test]
fn test_add_fee_tier_fee_above_limit() {
    let mut config = dex("alice", Percentage::new(0));
    let fee_tier = FeeTier { fee: Percentage::new(1000000000000), tick_spacing: 10 };
    let result = config.add_fee_tier(&"alice".to_string(), fee_tier);
    assert!(result.is_err());
    assert_eq!(result, Err(ContractError::InvalidFee));
}

#[test]
fn add_existing_fee_tier_is_refused() {
    let mut config = dex("alice", Percentage::new(0));
    let fee_tier = FeeTier::new(Percentage::new(1), 1).unwrap();
    config.add_fee_tier(&"alice".to_string(), fee_tier).unwrap();
    assert_eq!(config.add_fee_tier(&"alice".to_string(), fee_tier), Err(ContractError::FeeTierAlreadyExist));
    assert_eq!(config.get_fee_tiers().len(), 1);
}

#[test]
fn test_remove_fee_tier() {
    let mut config = dex("alice", Percentage::new(0));
    let fee_tier = FeeTier::new(Percentage::from_scale(2, 4), 1).unwrap();
    config.add_fee_tier(&"alice".to_string(), fee_tier).unwrap();

    let fee_tier = FeeTier::new(Percentage::from_scale(2, 4), 2).unwrap();
    config.add_fee_tier(&"alice".to_string(), fee_tier).unwrap();

    config.remove_fee_tier(&"alice".to_string(), fee_tier).unwrap();
    let exist = config.fee_tier_exist(FeeTier::new(Percentage::from_scale(2, 4), 2).unwrap());
    assert!(!exist);
}

#[test]
fn test_remove_not_existing_fee_tier() {
    let mut config = dex("alice", Percentage::new(0));
    let fee_tier = FeeTier::new(Percentage::from_scale(2, 4), 1).unwrap();
    config.add_fee_tier(&"alice".to_string(), fee_tier).unwrap();

    let fee_tier = FeeTier::new(Percentage::from_scale(2, 4), 2).unwrap();
    let err = config.remove_fee_tier(&"alice".to_string(), fee_tier).unwrap_err();
    assert_eq!(err, ContractError::FeeTierNotFound);
}

#[test]
fn test_remove_fee_tier_not_admin() {
    let mut config = dex("alice", Percentage::new(0));
    let fee_tier = FeeTier::new(Percentage::from_scale(2, 4), 1).unwrap();
    config.add_fee_tier(&"alice".to_string(), fee_tier).unwrap();

    let fee_tier = FeeTier::new(Percentage::from_scale(2, 4), 2).unwrap();
    config.add_fee_tier(&"alice".to_string(), fee_tier).unwrap();

    let err = config.remove_fee_tier(&"bob".to_string(), fee_tier).unwrap_err();
    assert_eq!(err, ContractError::Unauthorized);
}

#[test]
fn add_then_remove_restores_fee_tiers() {
    let mut config = dex("alice", Percentage::new(0));
    let a = FeeTier::new(Percentage::new(1), 1).unwrap();
    let b = FeeTier::new(Percentage::new(1), 2).unwrap();
    config.add_fee_tier(&"alice".to_string(), a).unwrap();
    let before = config.get_fee_tiers();
    config.add_fee_tier(&"alice".to_string(), b).unwrap();
    assert!(config.fee_tier_exist(b));
    config.remove_fee_tier(&"alice".to_string(), b).unwrap();
    assert_eq!(config.get_fee_tiers(), before);
}

#[test]
fn test_change_protocol_fee() {
    let mut config = dex("alice", Percentage::new(0));
    assert_eq!(config.get_protocol_fee(), Percentage::new(0));

    let result = config.change_protocol_fee(&"alice".to_string(), Percentage::new(1));
    assert!(result.is_ok());
    assert_eq!(config.get_protocol_fee(), Percentage::new(1));
}

#[test]
fn test_change_protocol_fee_not_admin() {
    let mut config = dex("admin", Percentage::new(0));
    let result = config.change_protocol_fee(&"user".to_string(), Percentage::new(1));
    assert_eq!(result, Err(ContractError::Unauthorized));
    assert_eq!(config.get_protocol_fee(), Percentage::new(0));
}

#[test]
fn test_create_pool_with_same_tokens() {
    let protocol_fee = Percentage::from_scale(6, 3);
    let mut config = dex("owner", protocol_fee);
    let fee_tier = FeeTier::new(protocol_fee, 10).unwrap();
    config.add_fee_tier(&"owner".to_string(), fee_tier).unwrap();
    let init_tick = 0;
    let result = config.new_pool_key("tokenx".to_string(), "tokenx".to_string(), fee_tier, init_tick);
    assert!(result.is_err());
    assert_eq!(result.unwrap_err(), ContractError::InvalidPoolKey);
}

#[test]
fn test_create_pool_fee_tier_not_added() {
    let protocol_fee = Percentage::from_scale(6, 3);
    let config = dex("owner", protocol_fee);
    let fee_tier = FeeTier::new(protocol_fee, 10).unwrap();
    let init_tick = 0;
    let result = config.new_pool_key("tokenx".to_string(), "tokeny".to_string(), fee_tier, init_tick);
    assert!(result.is_err());
    assert_eq!(result.unwrap_err(), ContractError::FeeTierNotFound);
}

#[test]
fn test_create_pool_init_tick_not_divided_by_tick_spacing() {
    let protocol_fee = Percentage::from_scale(6, 3);
    let mut config = dex("owner", protocol_fee);
    let fee_tier = FeeTier::new(protocol_fee, 3).unwrap();
    config.add_fee_tier(&"owner".to_string(), fee_tier).unwrap();
    let init_tick = 2;
    let result = config.new_pool_key("tokenx".to_string(), "tokeny".to_string(), fee_tier, init_tick);
    assert!(result.is_err());
    assert_eq!(result.unwrap_err(), ContractError::InvalidInitTick);
}

#[test]
fn new_pool_key_orders_tokens() {
    let mut config = dex("owner", Percentage::new(0));
    let fee_tier = FeeTier::new(Percentage::new(0), 10).unwrap();
    config.add_fee_tier(&"owner".to_string(), fee_tier).unwrap();
    let key = config.new_pool_key("tokeny".to_string(), "tokenx".to_string(), fee_tier, 10).unwrap();
    assert_eq!(key.token_x, "tokenx");
    assert_eq!(key.token_y, "tokeny");
    assert_eq!(key.fee_tier, fee_tier);
}

#[test]
fn pools_for_pair_one_key_per_fee_tier() {
    let mut config = dex("owner", Percentage::new(0));
    let a = FeeTier::new(Percentage::new(1), 1).unwrap();
    let b = FeeTier::new(Percentage::new(2), 10).unwrap();
    config.add_fee_tier(&"owner".to_string(), a).unwrap();
    config.add_fee_tier(&"owner".to_string(), b).unwrap();
    let keys = config.pool_keys_for_pair(&"token_1".to_string(), &"token_0".to_string()).unwrap();
    assert_eq!(keys.len(), 2);
    assert_eq!(keys[0].token_x, "token_0");
    assert_eq!(keys[1].token_y, "token_1");
    assert_eq!(keys[0].fee_tier, a);
    assert_eq!(keys[1].fee_tier, b);
    assert_eq!(
        config.pool_keys_for_pair(&"t".to_string(), &"t".to_string()).unwrap_err(),
        ContractError::TokensAreSame
    );
}

#[test]
fn check_tick_errors() {
    assert_eq!(check_tick(0, 1), Ok(()));
    assert_eq!(check_tick(5, 10), Err(ContractError::InvalidTickSpacing));
    assert_eq!(check_tick(-7, 3), Err(ContractError::InvalidTickSpacing));
    assert_eq!(check_tick(221_820, 10), Err(ContractError::InvalidTickIndex));
    assert_eq!(check_tick(-221_810, 10), Ok(()));
}

#[test]
fn fee_tier_new_bounds() {
    assert_eq!(FeeTier::new(Percentage::new(1), 0), Err(ContractError::InvalidTickSpacing));
    assert_eq!(FeeTier::new(Percentage::new(1), 101), Err(ContractError::InvalidTickSpacing));
    assert_eq!(FeeTier::new(Percentage::from_integer(1), 100).unwrap().tick_spacing, 100);
    assert_eq!(FeeTier::new(Percentage::new(1_000_000_000_001), 1), Err(ContractError::InvalidFee));
    assert_eq!(Percentage::from_scale(5, 1), Percentage::new(500_000_000_000));
    assert_eq!(Percentage::from_scale(6, 3), Percentage::new(6_000_000_000));
}
