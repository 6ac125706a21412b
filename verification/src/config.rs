//! The exchange's configuration: its admin, the fee tiers pools may use and
//! the protocol's share of swap fees. Only the admin changes it.
use crate::error::ContractError;
use crate::fee_tier::{FeeTier, MAX_TICK_SPACING};
use crate::pool_key::{sorted_tokens, PoolKey};
use crate::tickmap::{get_max_tick, get_min_tick, max_tick_for, valid_tick, MAX_TICK};
use crate::types::{Percentage, PERCENTAGE_DENOMINATOR};
use vstd::prelude::*;

verus! {

pub struct Config {
    pub admin: String,
    pub fee_tiers: Vec<FeeTier>,
    pub protocol_fee: Percentage,
}

/// Index of the first occurrence of `x` in `s`, or `s.len()` where there is none.
pub open spec fn first_index(s: Seq<FeeTier>, x: FeeTier) -> int
    decreases s.len(),
{
    if s.len() == 0 {
        0
    } else if s[0] == x {
        0
    } else {
        1 + first_index(s.drop_first(), x)
    }
}

/// What `add_fee_tier` decides: the error, if any, in the order the checks
/// are made.
pub open spec fn add_fee_tier_error(
    admin: Seq<char>,
    fee_tiers: Seq<FeeTier>,
    caller: Seq<char>,
    fee_tier: FeeTier,
) -> Option<ContractError> {
    if fee_tier.tick_spacing == 0 || fee_tier.tick_spacing > MAX_TICK_SPACING {
        Some(ContractError::InvalidTickSpacing)
    } else if fee_tier.fee.0 >= PERCENTAGE_DENOMINATOR {
        Some(ContractError::InvalidFee)
    } else if caller != admin {
        Some(ContractError::Unauthorized)
    } else if fee_tiers.contains(fee_tier) {
        Some(ContractError::FeeTierAlreadyExist)
    } else {
        None
    }
}

/// What `check_tick` decides about a tick for a spacing.
pub open spec fn check_tick_error(tick: int, tick_spacing: int) -> Option<ContractError> {
    if tick % tick_spacing != 0 {
        Some(ContractError::InvalidTickSpacing)
    } else if tick > max_tick_for(tick_spacing) || tick < -max_tick_for(tick_spacing) {
        Some(ContractError::InvalidTickIndex)
    } else {
        None
    }
}

proof fn lemma_first_index(s: Seq<FeeTier>, x: FeeTier)
    ensures
        0 <= first_index(s, x) <= s.len(),
        s.contains(x) <==> first_index(s, x) < s.len(),
        first_index(s, x) < s.len() ==> s[first_index(s, x)] == x,
        forall|j: int| 0 <= j < first_index(s, x) ==> s[j] != x,
    decreases s.len(),
{
    if s.len() > 0 && s[0] != x {
        lemma_first_index(s.drop_first(), x);
        if s.contains(x) {
            let k = choose|k: int| 0 <= k < s.len() && s[k] == x;
            assert(s.drop_first()[k - 1] == x);
        }
        if s.drop_first().contains(x) {
            let k = choose|k: int| 0 <= k < s.drop_first().len() && s.drop_first()[k] == x;
            assert(s[k + 1] == x);
        }
        assert forall|j: int| 0 <= j < first_index(s, x) implies s[j] != x by {
            if j > 0 {
                assert(s[j] == s.drop_first()[j - 1]);
            }
        }
    } else if s.len() > 0 {
        assert(s[0] == x);
        assert(s.contains(x));
    }
}

/// Checks that a tick is a multiple of the spacing and lies between the
/// smallest and the largest usable tick.
pub fn check_tick(tick_index: i32, tick_spacing: u16) -> (result: Result<(), ContractError>)
    requires
        tick_spacing > 0,
    ensures
        result == (match check_tick_error(tick_index as int, tick_spacing as int) {
            Some(e) => Err(e),
            None => Ok(()),
        }),
        result is Ok <==> valid_tick(tick_index as int, tick_spacing as int),
{
    let min_tick = get_min_tick(tick_spacing);
    let max_tick = get_max_tick(tick_spacing);
    let ts = tick_spacing as i32;
    proof {
        if valid_tick(tick_index as int, ts as int) {
            crate::tickmap::tick_chunk_in_bounds(tick_index as int, ts as int);
        }
    }
    let rem = tick_index % ts;
    proof {
        let t = tick_index as int;
        let d = ts as int;
        assert(rem as int == if t >= 0 { t % d } else { -((-t) % d) });
        lemma_mod_zero_neg(t, d);
    }
    if rem != 0 {
        return Err(ContractError::InvalidTickSpacing);
    }
    if tick_index > max_tick || tick_index < min_tick {
        return Err(ContractError::InvalidTickIndex);
    }
    Ok(())
}

pub proof fn lemma_mod_zero_neg(t: int, d: int)
    requires
        d > 0,
    ensures
        (t % d == 0) <==> ((-t) % d == 0),
{
    vstd::arithmetic::div_mod::lemma_fundamental_div_mod(t, d);
    vstd::arithmetic::div_mod::lemma_fundamental_div_mod(-t, d);
    if t % d == 0 {
        vstd::arithmetic::mul::lemma_mul_unary_negation(d, t / d);
        vstd::arithmetic::mul::lemma_mul_is_commutative(d, -(t / d));
        vstd::arithmetic::div_mod::lemma_mod_multiples_basic(-(t / d), d);
    }
    if (-t) % d == 0 {
        vstd::arithmetic::mul::lemma_mul_unary_negation(d, (-t) / d);
        vstd::arithmetic::mul::lemma_mul_is_commutative(d, -((-t) / d));
        vstd::arithmetic::div_mod::lemma_mod_multiples_basic(-((-t) / d), d);
    }
}

impl Config {
    /// The configuration of a freshly instantiated exchange: the sender is
    /// the admin and no fee tier exists yet.
    pub fn instantiate(sender: String, protocol_fee: Percentage) -> (config: Config)
        ensures
            config.admin@ == sender@,
            config.fee_tiers@ == Seq::<FeeTier>::empty(),
            config.protocol_fee == protocol_fee,
    {
        Config { fee_tiers: Vec::new(), admin: sender, protocol_fee }
    }

    /// Lets the admin add a fee tier with a tick spacing in `1..=100`, a fee
    /// below 100% and not yet in the list.
    pub fn add_fee_tier(&mut self, caller: &String, fee_tier: FeeTier) -> (result: Result<
        (),
        ContractError,
    >)
        ensures
            final(self).admin@ == old(self).admin@,
            final(self).protocol_fee == old(self).protocol_fee,
            match add_fee_tier_error(old(self).admin@, old(self).fee_tiers@, caller@, fee_tier) {
                Some(e) => result == Err::<(), ContractError>(e) && final(self).fee_tiers@
                    == old(self).fee_tiers@,
                None => result is Ok && final(self).fee_tiers@ == old(self).fee_tiers@.push(
                    fee_tier,
                ),
            },
    {
        if fee_tier.tick_spacing == 0 || fee_tier.tick_spacing > MAX_TICK_SPACING {
            return Err(ContractError::InvalidTickSpacing);
        }
        if fee_tier.fee.0 >= PERCENTAGE_DENOMINATOR {
            // 100% -> fee invalid
            return Err(ContractError::InvalidFee);
        }
        if *caller != self.admin {
            return Err(ContractError::Unauthorized);
        }
        if self.fee_tier_exist(fee_tier) {
            return Err(ContractError::FeeTierAlreadyExist);
        }
        self.fee_tiers.push(fee_tier);
        Ok(())
    }

    /// Lets the admin remove a fee tier; the first occurrence in the list goes.
    pub fn remove_fee_tier(&mut self, caller: &String, fee_tier: FeeTier) -> (result: Result<
        (),
        ContractError,
    >)
        ensures
            final(self).admin@ == old(self).admin@,
            final(self).protocol_fee == old(self).protocol_fee,
            caller@ != old(self).admin@ ==> result == Err::<(), ContractError>(
                ContractError::Unauthorized,
            ) && final(self).fee_tiers@ == old(self).fee_tiers@,
            caller@ == old(self).admin@ && !old(self).fee_tiers@.contains(fee_tier) ==> result
                == Err::<(), ContractError>(ContractError::FeeTierNotFound)
                && final(self).fee_tiers@ == old(self).fee_tiers@,
            caller@ == old(self).admin@ && old(self).fee_tiers@.contains(fee_tier) ==> result is Ok
                && final(self).fee_tiers@ == old(self).fee_tiers@.remove(
                first_index(old(self).fee_tiers@, fee_tier),
            ),
    {
        if *caller != self.admin {
            return Err(ContractError::Unauthorized);
        }
        proof {
            lemma_first_index(self.fee_tiers@, fee_tier);
        }
        let mut i: usize = 0;
        while i < self.fee_tiers.len()
            invariant
                i <= self.fee_tiers@.len(),
                forall|j: int| 0 <= j < i ==> self.fee_tiers@[j] != fee_tier,
                self.admin@ == old(self).admin@,
                self.protocol_fee == old(self).protocol_fee,
                self.fee_tiers@ == old(self).fee_tiers@,
                caller@ == old(self).admin@,
            decreases self.fee_tiers@.len() - i,
        {
            if self.fee_tiers[i] == fee_tier {
                proof {
                    lemma_first_index(self.fee_tiers@, fee_tier);
                    assert(first_index(self.fee_tiers@, fee_tier) == i);
                }
                self.fee_tiers.remove(i);
                return Ok(());
            }
            i = i + 1;
        }
        proof {
            assert(!self.fee_tiers@.contains(fee_tier));
        }
        Err(ContractError::FeeTierNotFound)
    }

    /// Lets the admin set the protocol's share of swap fees.
    pub fn change_protocol_fee(&mut self, caller: &String, protocol_fee: Percentage) -> (result:
        Result<(), ContractError>)
        ensures
            final(self).admin@ == old(self).admin@,
            final(self).fee_tiers@ == old(self).fee_tiers@,
            caller@ != old(self).admin@ ==> result == Err::<(), ContractError>(
                ContractError::Unauthorized,
            ) && final(self).protocol_fee == old(self).protocol_fee,
            caller@ == old(self).admin@ ==> result is Ok && final(self).protocol_fee
                == protocol_fee,
    {
        if *caller != self.admin {
            return Err(ContractError::Unauthorized);
        }
        self.protocol_fee = protocol_fee;
        Ok(())
    }

    /// Whether the fee tier is in the list.
    pub fn fee_tier_exist(&self, fee_tier: FeeTier) -> (exists: bool)
        ensures
            exists == self.fee_tiers@.contains(fee_tier),
    {
        let mut i: usize = 0;
        while i < self.fee_tiers.len()
            invariant
                i <= self.fee_tiers@.len(),
                forall|j: int| 0 <= j < i ==> self.fee_tiers@[j] != fee_tier,
            decreases self.fee_tiers@.len() - i,
        {
            if self.fee_tiers[i] == fee_tier {
                return true;
            }
            i = i + 1;
        }
        false
    }

    /// The fee tiers, in the order they were added.
    pub fn get_fee_tiers(&self) -> (fee_tiers: Vec<FeeTier>)
        ensures
            fee_tiers@ == self.fee_tiers@,
    {
        self.fee_tiers.clone()
    }

    /// The protocol's share of swap fees.
    pub fn get_protocol_fee(&self) -> (fee: Percentage)
        ensures
            fee == self.protocol_fee,
    {
        self.protocol_fee
    }

    /// The checks made before a pool is created: the fee tier is offered,
    /// the initial tick is usable, and the two tokens differ. Gives the key
    /// of the new pool.
    pub fn new_pool_key(
        &self,
        token_0: String,
        token_1: String,
        fee_tier: FeeTier,
        init_tick: i32,
    ) -> (result: Result<PoolKey, ContractError>)
        ensures
            !self.fee_tiers@.contains(fee_tier) ==> result == Err::<PoolKey, ContractError>(
                ContractError::FeeTierNotFound,
            ),
            self.fee_tiers@.contains(fee_tier) && (fee_tier.tick_spacing == 0 || !valid_tick(
                init_tick as int,
                fee_tier.tick_spacing as int,
            )) ==> result == Err::<PoolKey, ContractError>(ContractError::InvalidInitTick),
            self.fee_tiers@.contains(fee_tier) && fee_tier.tick_spacing > 0 && valid_tick(
                init_tick as int,
                fee_tier.tick_spacing as int,
            ) && token_0@ == token_1@ ==> result == Err::<PoolKey, ContractError>(
                ContractError::InvalidPoolKey,
            ),
            self.fee_tiers@.contains(fee_tier) && fee_tier.tick_spacing > 0 && valid_tick(
                init_tick as int,
                fee_tier.tick_spacing as int,
            ) && token_0@ != token_1@ ==> (result matches Ok(key) && (key.token_x@, key.token_y@)
                == sorted_tokens(token_0@, token_1@) && key.fee_tier == fee_tier),
    {
        if !self.fee_tier_exist(fee_tier) {
            return Err(ContractError::FeeTierNotFound);
        }
        if fee_tier.tick_spacing == 0 {
            return Err(ContractError::InvalidInitTick);
        }
        if check_tick(init_tick, fee_tier.tick_spacing).is_err() {
            return Err(ContractError::InvalidInitTick);
        }
        match PoolKey::new(token_0, token_1, fee_tier) {
            Ok(key) => Ok(key),
            Err(_) => Err(ContractError::InvalidPoolKey),
        }
    }

    /// Keys of the pools a token pair could have, one per fee tier, in the
    /// order of the fee tiers.
    pub fn pool_keys_for_pair(&self, token_0: &String, token_1: &String) -> (result: Result<
        Vec<PoolKey>,
        ContractError,
    >)
        ensures
            token_0@ == token_1@ ==> result == Err::<Vec<PoolKey>, ContractError>(
                ContractError::TokensAreSame,
            ),
            token_0@ != token_1@ ==> (result matches Ok(keys) && keys@.len()
                == self.fee_tiers@.len() && forall|i: int|
                0 <= i < keys@.len() ==> (#[trigger] keys@[i].token_x@, keys@[i].token_y@)
                    == sorted_tokens(token_0@, token_1@) && keys@[i].fee_tier
                    == self.fee_tiers@[i]),
    {
        let pool_key = PoolKey::new(token_0.clone(), token_1.clone(), FeeTier::default_tier())?;
        let mut keys: Vec<PoolKey> = Vec::new();
        let mut i: usize = 0;
        while i < self.fee_tiers.len()
            invariant
                i <= self.fee_tiers@.len(),
                keys@.len() == i,
                (pool_key.token_x@, pool_key.token_y@) == sorted_tokens(token_0@, token_1@),
                forall|j: int|
                    0 <= j < i ==> (#[trigger] keys@[j].token_x@, keys@[j].token_y@)
                        == sorted_tokens(token_0@, token_1@) && keys@[j].fee_tier
                        == self.fee_tiers@[j],
            decreases self.fee_tiers@.len() - i,
        {
            keys.push(
                PoolKey {
                    token_x: pool_key.token_x.clone(),
                    token_y: pool_key.token_y.clone(),
                    fee_tier: self.fee_tiers[i],
                },
            );
            i = i + 1;
        }
        Ok(keys)
    }
}

impl FeeTier {
    /// The default fee tier: zero fee and zero spacing.
    pub fn default_tier() -> (fee_tier: FeeTier)
        ensures
            fee_tier.fee.0 == 0,
            fee_tier.tick_spacing == 0,
    {
        FeeTier { fee: Percentage(0), tick_spacing: 0 }
    }
}

/// Once the admin has added a fee tier, it exists; removing it again gives
/// back the list of fee tiers from before the addition.
pub proof fn add_then_remove_fee_tier(fee_tiers: Seq<FeeTier>, fee_tier: FeeTier)
    requires
        !fee_tiers.contains(fee_tier),
    ensures
        fee_tiers.push(fee_tier).contains(fee_tier),
        fee_tiers.push(fee_tier).remove(first_index(fee_tiers.push(fee_tier), fee_tier))
            == fee_tiers,
{
    let s = fee_tiers.push(fee_tier);
    assert(s[fee_tiers.len() as int] == fee_tier);
    lemma_first_index(s, fee_tier);
    if first_index(s, fee_tier) < fee_tiers.len() {
        assert(fee_tiers[first_index(s, fee_tier)] == fee_tier);
    }
    assert(first_index(s, fee_tier) == fee_tiers.len());
    assert(s.remove(fee_tiers.len() as int) =~= fee_tiers);
}

/// The fee tiers of a configuration: each has a tick spacing in `1..=100`
/// and a fee below 100%, and none appears twice.
pub open spec fn fee_tiers_well_formed(fee_tiers: Seq<FeeTier>) -> bool {
    &&& forall|i: int|
        0 <= i < fee_tiers.len() ==> 1 <= (#[trigger] fee_tiers[i]).tick_spacing
            <= MAX_TICK_SPACING && fee_tiers[i].fee.0 < PERCENTAGE_DENOMINATOR
    &&& forall|i: int, j: int|
        0 <= i < j < fee_tiers.len() ==> #[trigger] fee_tiers[i] != #[trigger] fee_tiers[j]
}

/// Every operation on the configuration keeps its fee tiers well formed: a
/// fresh configuration has none, a successful addition appends a valid tier
/// that was absent, and a removal takes one out.
pub proof fn fee_tiers_stay_well_formed(
    admin: Seq<char>,
    fee_tiers: Seq<FeeTier>,
    caller: Seq<char>,
    fee_tier: FeeTier,
)
    requires
        fee_tiers_well_formed(fee_tiers),
    ensures
        fee_tiers_well_formed(Seq::<FeeTier>::empty()),
        add_fee_tier_error(admin, fee_tiers, caller, fee_tier) is None ==> fee_tiers_well_formed(
            fee_tiers.push(fee_tier),
        ),
        fee_tiers.contains(fee_tier) ==> fee_tiers_well_formed(
            fee_tiers.remove(first_index(fee_tiers, fee_tier)),
        ),
{
    let pushed = fee_tiers.push(fee_tier);
    if add_fee_tier_error(admin, fee_tiers, caller, fee_tier) is None {
        assert forall|i: int, j: int| 0 <= i < j < pushed.len() implies #[trigger] pushed[i]
            != #[trigger] pushed[j] by {
            if j == fee_tiers.len() {
                assert(fee_tiers[i] == pushed[i]);
                if pushed[i] == fee_tier {
                    assert(fee_tiers.contains(fee_tier));
                }
            } else {
                assert(fee_tiers[i] == pushed[i] && fee_tiers[j] == pushed[j]);
            }
        }
        assert forall|i: int| 0 <= i < pushed.len() implies 1 <= (#[trigger] pushed[i]).tick_spacing
            <= MAX_TICK_SPACING && pushed[i].fee.0 < PERCENTAGE_DENOMINATOR by {
            if i < fee_tiers.len() {
                assert(fee_tiers[i] == pushed[i]);
            }
        }
    }
    if fee_tiers.contains(fee_tier) {
        lemma_first_index(fee_tiers, fee_tier);
        let k = first_index(fee_tiers, fee_tier);
        let removed = fee_tiers.remove(k);
        assert forall|i: int| 0 <= i < removed.len() implies removed[i] == fee_tiers[if i < k {
            i
        } else {
            i + 1
        }] by {}
        assert forall|i: int, j: int| 0 <= i < j < removed.len() implies #[trigger] removed[i]
            != #[trigger] removed[j] by {
            let a = if i < k { i } else { i + 1 };
            let b = if j < k { j } else { j + 1 };
            assert(removed[i] == fee_tiers[a] && removed[j] == fee_tiers[b]);
        }
        assert forall|i: int| 0 <= i < removed.len() implies 1 <= (#[trigger] removed[i]).tick_spacing
            <= MAX_TICK_SPACING && removed[i].fee.0 < PERCENTAGE_DENOMINATOR by {
            let a = if i < k { i } else { i + 1 };
            assert(removed[i] == fee_tiers[a]);
        }
    }
}

} // verus!
