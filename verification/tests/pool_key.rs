use oraiswap_v3::bytes::{push_be_u16, push_be_u64, read_be_u16, read_be_u64};
use oraiswap_v3::error::{ContractError, StdError};
use oraiswap_v3::fee_tier::FeeTier;
use oraiswap_v3::pool_key::{bytes_less, split_framed, PoolKey};
use oraiswap_v3::types::Percentage;

#[test]
fn test_key() {
    let token_x = "token_0".to_string();
    let token_y = "token_1".to_string();
    let fee_tier = FeeTier { fee: Percentage::new(10), tick_spacing: 1 };

    let pool_key = PoolKey::new(token_x, token_y, fee_tier).unwrap();

    assert_eq!(
        pool_key.key(),
        cosmwasm_storage::to_length_prefixed_nested(&[b"token_0", b"token_1", fee_tier.key().as_slice()])
    );
}

#[test]
fn fee_tier_key_layout() {
    let fee_tier = FeeTier { fee: Percentage::new(0x0102030405060708), tick_spacing: 0x0a0b };
    assert_eq!(fee_tier.key(), vec![1, 2, 3, 4, 5, 6, 7, 8, 0x0a, 0x0b]);
    assert_eq!(FeeTier::from_bytes(&fee_tier.key()), Ok(fee_tier));
    assert_eq!(FeeTier::from_bytes(&[1, 2, 3]), Err(ContractError::InvalidSize));
}

#[test]
fn pool_key_order_does_not_depend_on_arguments() {
    let fee_tier = FeeTier { fee: Percentage::new(10), tick_spacing: 1 };
    let a = PoolKey::new("orai".to_string(), "atom".to_string(), fee_tier).unwrap();
    let b = PoolKey::new("atom".to_string(), "orai".to_string(), fee_tier).unwrap();
    assert_eq!(a.token_x, "atom");
    assert_eq!(a.token_y, "orai");
    assert_eq!(a.token_x, b.token_x);
    assert_eq!(a.token_y, b.token_y);
    // a prefix sorts first
    let c = PoolKey::new("tokenx1".to_string(), "tokenx".to_string(), fee_tier).unwrap();
    assert_eq!(c.token_x, "tokenx");
    assert!(PoolKey::new("same".to_string(), "same".to_string(), fee_tier).is_err());
    assert_eq!(
        PoolKey::new("same".to_string(), "same".to_string(), fee_tier).unwrap_err(),
        ContractError::TokensAreSame
    );
}

#[test]
fn pool_key_bytes_roundtrip() {
    let fee_tier = FeeTier { fee: Percentage::new(500_000_000), tick_spacing: 10 };
    let key = PoolKey::new("token_1".to_string(), "token_0".to_string(), fee_tier).unwrap();
    let raw = key.key();
    let back = PoolKey::from_bytes(&raw).unwrap();
    assert_eq!(back.token_x, "token_0");
    assert_eq!(back.token_y, "token_1");
    assert_eq!(back.fee_tier, fee_tier);
}

#[test]
fn pool_key_from_bytes_errors() {
    // two parts only
    let raw = cosmwasm_storage::to_length_prefixed_nested(&[b"a", b"b"]);
    assert_eq!(PoolKey::from_bytes(&raw).unwrap_err(), ContractError::InvalidSize);
    // a token that is not UTF-8
    let raw = cosmwasm_storage::to_length_prefixed_nested(&[&[0xff, 0xfe], b"b", &[0; 10]]);
    assert_eq!(PoolKey::from_bytes(&raw).unwrap_err(), ContractError::Std(StdError::InvalidUtf8));
    // a fee tier key of the wrong size
    let raw = cosmwasm_storage::to_length_prefixed_nested(&[b"a", b"b", &[0; 9]]);
    assert_eq!(PoolKey::from_bytes(&raw).unwrap_err(), ContractError::InvalidSize);
}

#[test]
fn framing_splits_back() {
    let raw = cosmwasm_storage::to_length_prefixed_nested(&[b"abc", b"", b"de"]);
    assert_eq!(split_framed(&raw), vec![b"abc".to_vec(), vec![], b"de".to_vec()]);
    assert_eq!(split_framed(&[]), Vec::<Vec<u8>>::new());
}

#[test]
fn byte_order() {
    assert!(bytes_less(b"a", b"b"));
    assert!(bytes_less(b"a", b"ab"));
    assert!(!bytes_less(b"ab", b"a"));
    assert!(!bytes_less(b"a", b"a"));
    assert!(bytes_less(b"", b"a"));
}

#[test]
fn big_endian_codecs() {
    let mut out = Vec::new();
    push_be_u64(&mut out, 0x0102030405060708);
    push_be_u16(&mut out, 0xabcd);
    assert_eq!(out, vec![1, 2, 3, 4, 5, 6, 7, 8, 0xab, 0xcd]);
    assert_eq!(read_be_u64(&out, 0), 0x0102030405060708);
    assert_eq!(read_be_u16(&out, 8), 0xabcd);
}
