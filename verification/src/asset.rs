//! Assets the exchange moves, and the transfer messages a payment turns
//! into: CW20 tokens through their contract, native coins through the bank.
use crate::error::ContractError;
use vstd::prelude::*;

verus! {

/// A CW20 token contract or a native coin denomination.
#[derive(Debug, Clone)]
pub enum AssetInfo {
    Token { contract_addr: String },
    NativeToken { denom: String },
}

/// An amount of an asset.
#[derive(Debug, Clone)]
pub struct Asset {
    pub info: AssetInfo,
    pub amount: u128,
}

/// Native coins sent along with a message.
#[derive(Debug, Clone)]
pub struct Coin {
    pub denom: String,
    pub amount: u128,
}

/// A message the exchange sends to move tokens.
#[derive(Debug, Clone)]
pub enum TransferMsg {
    /// CW20 `Transfer` of the contract's own tokens.
    Cw20Transfer { contract_addr: String, recipient: String, amount: u128 },
    /// CW20 `TransferFrom`, spending an allowance the owner gave.
    Cw20TransferFrom { contract_addr: String, owner: String, recipient: String, amount: u128 },
    /// Bank `Send` of native coins.
    BankSend { to_address: String, denom: String, amount: u128 },
}

/// Index of the first coin of the denomination, or `funds.len()`.
pub open spec fn first_coin_index(funds: Seq<Coin>, denom: Seq<char>) -> int
    decreases funds.len(),
{
    if funds.len() == 0 {
        0
    } else if funds[0].denom@ == denom {
        0
    } else {
        1 + first_coin_index(funds.drop_first(), denom)
    }
}

proof fn lemma_first_coin_index(funds: Seq<Coin>, denom: Seq<char>)
    ensures
        0 <= first_coin_index(funds, denom) <= funds.len(),
        first_coin_index(funds, denom) < funds.len() ==> funds[first_coin_index(funds, denom)].denom@
            == denom,
        forall|j: int| 0 <= j < first_coin_index(funds, denom) ==> funds[j].denom@ != denom,
    decreases funds.len(),
{
    if funds.len() > 0 && funds[0].denom@ != denom {
        lemma_first_coin_index(funds.drop_first(), denom);
        assert forall|j: int| 0 <= j < first_coin_index(funds, denom) implies funds[j].denom@
            != denom by {
            if j > 0 {
                assert(funds[j] == funds.drop_first()[j - 1]);
            }
        }
    }
}

/// The message `msgs` ends with, after `old` messages: a CW20 transfer.
pub open spec fn sent_cw20_transfer(
    msgs: Seq<TransferMsg>,
    old: Seq<TransferMsg>,
    contract_addr: Seq<char>,
    recipient: Seq<char>,
    amount: u128,
) -> bool {
    &&& msgs.len() == old.len() + 1
    &&& msgs.drop_last() == old
    &&& msgs.last() matches TransferMsg::Cw20Transfer { contract_addr: c, recipient: r, amount: a }
        && c@ == contract_addr && r@ == recipient && a == amount
}

/// The message `msgs` ends with, after `old` messages: a CW20 transfer from
/// an allowance.
pub open spec fn sent_cw20_transfer_from(
    msgs: Seq<TransferMsg>,
    old: Seq<TransferMsg>,
    contract_addr: Seq<char>,
    owner: Seq<char>,
    recipient: Seq<char>,
    amount: u128,
) -> bool {
    &&& msgs.len() == old.len() + 1
    &&& msgs.drop_last() == old
    &&& msgs.last() matches TransferMsg::Cw20TransferFrom {
        contract_addr: c,
        owner: o,
        recipient: r,
        amount: a,
    } && c@ == contract_addr && o@ == owner && r@ == recipient && a == amount
}

/// The message `msgs` ends with, after `old` messages: a bank send.
pub open spec fn sent_bank_send(
    msgs: Seq<TransferMsg>,
    old: Seq<TransferMsg>,
    to_address: Seq<char>,
    denom: Seq<char>,
    amount: u128,
) -> bool {
    &&& msgs.len() == old.len() + 1
    &&& msgs.drop_last() == old
    &&& msgs.last() matches TransferMsg::BankSend { to_address: t, denom: d, amount: a } && t@
        == to_address && d@ == denom && a == amount
}

/// What an asset names: a token contract (`true`) or a native coin
/// denomination (`false`), and that address or denomination.
pub open spec fn info_view(info: AssetInfo) -> (bool, Seq<char>) {
    match info {
        AssetInfo::Token { contract_addr } => (true, contract_addr@),
        AssetInfo::NativeToken { denom } => (false, denom@),
    }
}

/// What `AssetInfo::from_denom` names for a denomination, given what the
/// chain's address check made of it.
pub open spec fn denom_view(denom: Seq<char>, validated_address: Option<String>) -> (
    bool,
    Seq<char>,
) {
    match validated_address {
        Some(addr) => (true, addr@),
        None => (false, denom),
    }
}

/// `after` is `before` with the payment of `amount` of the asset to the
/// sender appended: nothing for a zero amount, a CW20 transfer for a token,
/// a bank send for a native coin.
pub open spec fn transferred(
    asset: (bool, Seq<char>),
    amount: u128,
    before: Seq<TransferMsg>,
    after: Seq<TransferMsg>,
    sender: Seq<char>,
) -> bool {
    if amount == 0 {
        after == before
    } else if asset.0 {
        sent_cw20_transfer(after, before, asset.1, sender, amount)
    } else {
        sent_bank_send(after, before, sender, asset.1, amount)
    }
}

/// Whether collecting `amount` of the asset from the sender succeeds: a
/// native coin needs the first coin of its denomination sent along to
/// cover the amount.
pub open spec fn transfer_from_result(
    asset: (bool, Seq<char>),
    amount: u128,
    funds: Seq<Coin>,
) -> Result<(), ContractError> {
    if amount == 0 || asset.0 {
        Ok(())
    } else {
        let i = first_coin_index(funds, asset.1);
        if i == funds.len() || funds[i].amount < amount {
            Err(ContractError::InvalidFunds { transfer_amount: amount })
        } else {
            Ok(())
        }
    }
}

/// `after` is `before` with what collecting `amount` of the asset from the
/// sender for `recipient` appends: nothing for a zero amount, a CW20
/// transfer from the sender's allowance for a token, and for a native coin
/// the refund of any excess sent along (nothing where it fails).
pub open spec fn transferred_from(
    asset: (bool, Seq<char>),
    amount: u128,
    before: Seq<TransferMsg>,
    after: Seq<TransferMsg>,
    sender: Seq<char>,
    funds: Seq<Coin>,
    recipient: Seq<char>,
) -> bool {
    if amount == 0 {
        after == before
    } else if asset.0 {
        sent_cw20_transfer_from(after, before, asset.1, sender, recipient, amount)
    } else {
        let i = first_coin_index(funds, asset.1);
        if i == funds.len() || funds[i].amount <= amount {
            after == before
        } else {
            sent_bank_send(after, before, sender, asset.1, (funds[i].amount - amount) as u128)
        }
    }
}

impl AssetInfo {
    /// The asset a denomination names: a token contract where the chain's
    /// address check (`Api::addr_validate`, whose result is
    /// `validated_address`) accepts it, a native coin otherwise.
    pub fn from_denom(denom: &str, validated_address: Option<String>) -> (info: AssetInfo)
        ensures
            info_view(info) == denom_view(denom@, validated_address),
    {
        match validated_address {
            Some(contract_addr) => AssetInfo::Token { contract_addr },
            None => AssetInfo::NativeToken { denom: denom.to_string() },
        }
    }
}

impl Asset {
    /// Pays the asset out of the contract to the sender: nothing for a zero
    /// amount, a CW20 transfer for a token, a bank send for a native coin.
    pub fn transfer(&self, msgs: &mut Vec<TransferMsg>, sender: &String) -> (result: Result<
        (),
        ContractError,
    >)
        ensures
            result is Ok,
            transferred(info_view(self.info), self.amount, old(msgs)@, final(msgs)@, sender@),
    {
        if self.amount != 0 {
            match &self.info {
                AssetInfo::Token { contract_addr } => {
                    msgs.push(
                        TransferMsg::Cw20Transfer {
                            contract_addr: contract_addr.clone(),
                            recipient: sender.clone(),
                            amount: self.amount,
                        },
                    );
                    proof {
                        assert(msgs@.drop_last() =~= old(msgs)@);
                    }
                },
                AssetInfo::NativeToken { denom } => {
                    msgs.push(
                        TransferMsg::BankSend {
                            to_address: sender.clone(),
                            amount: self.amount,
                            denom: denom.clone(),
                        },
                    );
                    proof {
                        assert(msgs@.drop_last() =~= old(msgs)@);
                    }
                },
            }
        }
        Ok(())
    }

    /// Collects the asset from the sender for `recipient`: nothing for a zero
    /// amount; for a token, a CW20 transfer from the sender's allowance; for
    /// a native coin, the coins of that denomination sent along (the first
    /// entry in `funds`) must cover the amount, and any excess goes back.
    pub fn transfer_from(
        &self,
        msgs: &mut Vec<TransferMsg>,
        sender: &String,
        funds: &Vec<Coin>,
        recipient: String,
    ) -> (result: Result<(), ContractError>)
        ensures
            result == transfer_from_result(info_view(self.info), self.amount, funds@),
            transferred_from(
                info_view(self.info),
                self.amount,
                old(msgs)@,
                final(msgs)@,
                sender@,
                funds@,
                recipient@,
            ),
    {
        if self.amount != 0 {
            match &self.info {
                AssetInfo::Token { contract_addr } => {
                    msgs.push(
                        TransferMsg::Cw20TransferFrom {
                            contract_addr: contract_addr.clone(),
                            owner: sender.clone(),
                            recipient,
                            amount: self.amount,
                        },
                    );
                    proof {
                        assert(msgs@.drop_last() =~= old(msgs)@);
                    }
                },
                AssetInfo::NativeToken { denom } => {
                    proof {
                        lemma_first_coin_index(funds@, denom@);
                    }
                    let mut i: usize = 0;
                    while i < funds.len()
                        invariant
                            i <= funds@.len(),
                            forall|j: int| 0 <= j < i ==> funds@[j].denom@ != denom@,
                        ensures
                            i <= funds@.len(),
                            forall|j: int| 0 <= j < i ==> funds@[j].denom@ != denom@,
                            i < funds@.len() ==> funds@[i as int].denom@ == denom@,
                        decreases funds@.len() - i,
                    {
                        if funds[i].denom == *denom {
                            break;
                        }
                        i = i + 1;
                    }
                    proof {
                        lemma_first_coin_index(funds@, denom@);
                        let k = first_coin_index(funds@, denom@);
                        if k < i {
                            assert(funds@[k].denom@ != denom@);
                        }
                        if (i as int) < k {
                            assert(funds@[i as int].denom@ != denom@);
                        }
                        assert(i == first_coin_index(funds@, denom@));
                    }
                    if i == funds.len() {
                        return Err(ContractError::InvalidFunds { transfer_amount: self.amount });
                    }
                    let coin_amount = funds[i].amount;
                    if coin_amount >= self.amount {
                        let refund_amount = coin_amount - self.amount;
                        // refund for user
                        if refund_amount != 0 {
                            msgs.push(
                                TransferMsg::BankSend {
                                    to_address: sender.clone(),
                                    amount: refund_amount,
                                    denom: denom.clone(),
                                },
                            );
                            proof {
                                assert(msgs@.drop_last() =~= old(msgs)@);
                            }
                        }
                    } else {
                        return Err(ContractError::InvalidFunds { transfer_amount: self.amount });
                    }
                },
            }
        }
        Ok(())
    }
}

/// `msgs` pays a position's owner: one CW20 transfer per token whose
/// amount is not zero, token x first.
pub open spec fn paid_out(
    msgs: Seq<TransferMsg>,
    token_x: Seq<char>,
    token_y: Seq<char>,
    recipient: Seq<char>,
    amount_x: u128,
    amount_y: u128,
) -> bool {
    &&& msgs.len() == (if amount_x != 0 {
        1int
    } else {
        0
    }) + (if amount_y != 0 {
        1int
    } else {
        0
    })
    &&& amount_x != 0 ==> (msgs[0] matches TransferMsg::Cw20Transfer {
        contract_addr,
        recipient: r,
        amount,
    } && contract_addr@ == token_x && r@ == recipient && amount == amount_x)
    &&& amount_y != 0 ==> (msgs.last() matches TransferMsg::Cw20Transfer {
        contract_addr,
        recipient: r,
        amount,
    } && contract_addr@ == token_y && r@ == recipient && amount == amount_y)
}

/// The transfers paying a position's owner: one CW20 transfer per token
/// whose amount is not zero, token x first.
pub fn payout_messages(
    token_x: &String,
    token_y: &String,
    recipient: &String,
    amount_x: u128,
    amount_y: u128,
) -> (msgs: Vec<TransferMsg>)
    ensures
        paid_out(msgs@, token_x@, token_y@, recipient@, amount_x, amount_y),
{
    let mut msgs: Vec<TransferMsg> = Vec::new();
    if amount_x != 0 {
        msgs.push(
            TransferMsg::Cw20Transfer {
                contract_addr: token_x.clone(),
                recipient: recipient.clone(),
                amount: amount_x,
            },
        );
    }
    if amount_y != 0 {
        msgs.push(
            TransferMsg::Cw20Transfer {
                contract_addr: token_y.clone(),
                recipient: recipient.clone(),
                amount: amount_y,
            },
        );
    }
    msgs
}

/// The transfers of withdrawn protocol fees to the fee receiver: a CW20
/// transfer of each token, token x first, zero amounts included.
pub fn protocol_fee_messages(
    token_x: &String,
    token_y: &String,
    fee_receiver: &String,
    fee_x: u128,
    fee_y: u128,
) -> (msgs: Vec<TransferMsg>)
    ensures
        msgs@.len() == 2,
        msgs@[0] matches TransferMsg::Cw20Transfer { contract_addr, recipient, amount }
            && contract_addr@ == token_x@ && recipient@ == fee_receiver@ && amount == fee_x,
        msgs@[1] matches TransferMsg::Cw20Transfer { contract_addr, recipient, amount }
            && contract_addr@ == token_y@ && recipient@ == fee_receiver@ && amount == fee_y,
{
    let mut msgs: Vec<TransferMsg> = Vec::new();
    msgs.push(
        TransferMsg::Cw20Transfer {
            contract_addr: token_x.clone(),
            recipient: fee_receiver.clone(),
            amount: fee_x,
        },
    );
    msgs.push(
        TransferMsg::Cw20Transfer {
            contract_addr: token_y.clone(),
            recipient: fee_receiver.clone(),
            amount: fee_y,
        },
    );
    msgs
}

/// The transfers that fund a new position: a CW20 transfer from the owner's
/// allowance to the exchange for each token, token x first, zero amounts
/// included.
pub fn deposit_messages(
    token_x: &String,
    token_y: &String,
    owner: &String,
    exchange: &String,
    amount_x: u128,
    amount_y: u128,
) -> (msgs: Vec<TransferMsg>)
    ensures
        msgs@.len() == 2,
        msgs@[0] matches TransferMsg::Cw20TransferFrom { contract_addr, owner: o, recipient, amount }
            && contract_addr@ == token_x@ && o@ == owner@ && recipient@ == exchange@ && amount
            == amount_x,
        msgs@[1] matches TransferMsg::Cw20TransferFrom { contract_addr, owner: o, recipient, amount }
            && contract_addr@ == token_y@ && o@ == owner@ && recipient@ == exchange@ && amount
            == amount_y,
{
    let mut msgs: Vec<TransferMsg> = Vec::new();
    msgs.push(
        TransferMsg::Cw20TransferFrom {
            contract_addr: token_x.clone(),
            owner: owner.clone(),
            recipient: exchange.clone(),
            amount: amount_x,
        },
    );
    msgs.push(
        TransferMsg::Cw20TransferFrom {
            contract_addr: token_y.clone(),
            owner: owner.clone(),
            recipient: exchange.clone(),
            amount: amount_y,
        },
    );
    msgs
}

} // verus!
