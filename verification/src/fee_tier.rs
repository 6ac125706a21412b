//! Fee tiers: the fee a pool charges and the spacing of its usable ticks.
use crate::bytes::{be_u16, be_u16_roundtrip, be_u64, be_u64_roundtrip, push_be_u16, push_be_u64, read_be_u16, read_be_u64, u16_of_be, u64_of_be};
use crate::error::ContractError;
use crate::types::{Percentage, PERCENTAGE_DENOMINATOR};
use vstd::prelude::*;

verus! {

/// Largest tick spacing a fee tier may have.
pub const MAX_TICK_SPACING: u16 = 100;

#[derive(Debug, Clone, Copy, PartialEq, Eq, Structural, Default)]
pub struct FeeTier {
    pub fee: Percentage,
    pub tick_spacing: u16,
}

/// Storage key of a fee tier: the fee's 8 big-endian bytes, then the tick
/// spacing's 2.
pub open spec fn fee_tier_key(fee_tier: FeeTier) -> Seq<u8> {
    be_u64(fee_tier.fee.0) + be_u16(fee_tier.tick_spacing)
}

/// What `FeeTier::new` returns.
pub open spec fn spec_new_fee_tier(fee: Percentage, tick_spacing: u16) -> Result<
    FeeTier,
    ContractError,
> {
    if tick_spacing == 0 || tick_spacing > MAX_TICK_SPACING {
        Err(ContractError::InvalidTickSpacing)
    } else if fee.0 > PERCENTAGE_DENOMINATOR {
        Err(ContractError::InvalidFee)
    } else {
        Ok(FeeTier { fee, tick_spacing })
    }
}

impl FeeTier {
    /// A fee tier with a tick spacing in `1..=100` and a fee of at most 100%.
    pub fn new(fee: Percentage, tick_spacing: u16) -> (result: Result<Self, ContractError>)
        ensures
            result == spec_new_fee_tier(fee, tick_spacing),
    {
        if tick_spacing == 0 || tick_spacing > MAX_TICK_SPACING {
            return Err(ContractError::InvalidTickSpacing);
        }
        if fee.0 > PERCENTAGE_DENOMINATOR {
            return Err(ContractError::InvalidFee);
        }
        Ok(Self { fee, tick_spacing })
    }

    /// The fee tier's storage key.
    pub fn key(&self) -> (key: Vec<u8>)
        ensures
            key@ == fee_tier_key(*self),
            key@.len() == 10,
    {
        let mut key: Vec<u8> = Vec::new();
        push_be_u64(&mut key, self.fee.0);
        push_be_u16(&mut key, self.tick_spacing);
        proof {
            assert(key@ =~= fee_tier_key(*self));
        }
        key
    }

    /// The fee tier whose storage key is `bytes`; `InvalidSize` where
    /// `bytes` does not have the 10 bytes of a key.
    pub fn from_bytes(bytes: &[u8]) -> (result: Result<FeeTier, ContractError>)
        ensures
            bytes@.len() == 10 ==> result == Ok::<FeeTier, ContractError>(
                FeeTier {
                    fee: Percentage(u64_of_be(bytes@.subrange(0, 8))),
                    tick_spacing: u16_of_be(bytes@.subrange(8, 10)),
                },
            ),
            bytes@.len() != 10 ==> result == Err::<FeeTier, ContractError>(
                ContractError::InvalidSize,
            ),
    {
        if bytes.len() != 10 {
            return Err(ContractError::InvalidSize);
        }
        let fee = read_be_u64(bytes, 0);
        let tick_spacing = read_be_u16(bytes, 8);
        Ok(FeeTier { fee: Percentage(fee), tick_spacing })
    }
}

/// Decoding the storage key of a fee tier gives the fee tier back.
pub proof fn fee_tier_key_roundtrip(fee_tier: FeeTier)
    ensures
        fee_tier_key(fee_tier).len() == 10,
        u64_of_be(fee_tier_key(fee_tier).subrange(0, 8)) == fee_tier.fee.0,
        u16_of_be(fee_tier_key(fee_tier).subrange(8, 10)) == fee_tier.tick_spacing,
{
    let k = fee_tier_key(fee_tier);
    assert(k.subrange(0, 8) =~= be_u64(fee_tier.fee.0));
    assert(k.subrange(8, 10) =~= be_u16(fee_tier.tick_spacing));
    be_u64_roundtrip(fee_tier.fee.0);
    be_u16_roundtrip(fee_tier.tick_spacing);
}

} // verus!
