//! Positions as non-fungible tokens: who may approve or transfer them, and
//! how approvals to spend them are kept.
use crate::error::{ContractError, StdError};
use crate::pool_key::{token_as_bytes, token_bytes};
use vstd::prelude::*;

verus! {

/// The height and time of the block being executed.
#[derive(Debug, Clone, Copy, PartialEq, Eq, Structural, Default)]
pub struct BlockInfo {
    pub height: u64,
    /// Nanoseconds since the UNIX epoch.
    pub time_nanos: u64,
}

/// A point in time, in nanoseconds since the UNIX epoch.
#[derive(Debug, Clone, Copy, PartialEq, Eq, Structural, Default)]
pub struct Timestamp {
    pub nanos: u64,
}

/// When an approval or an operator grant lapses.
#[derive(Debug, Clone, Copy, PartialEq, Eq, Structural)]
pub enum Expiration {
    /// Expires once the block height reaches this value.
    AtHeight(u64),
    /// Expires once the block time, in nanoseconds, reaches this value.
    AtTime(u64),
    /// Never expires.
    Never,
}

/// A spender allowed to transfer a position, until the approval expires.
#[derive(Debug, Clone)]
pub struct Approval {
    /// Account that can transfer the position.
    pub spender: String,
    /// When the approval expires.
    pub expires: Expiration,
}

/// Milliseconds of a timestamp.
pub trait TimeStampExt {
    fn millis(&self) -> (ms: u64)
        ensures
            ms == self.spec_nanos() / 1_000_000,
    ;

    spec fn spec_nanos(&self) -> u64;
}

impl TimeStampExt for Timestamp {
    open spec fn spec_nanos(&self) -> u64 {
        self.nanos
    }

    fn millis(&self) -> (ms: u64) {
        self.nanos / 1_000_000
    }
}

/// Whether the expiration has passed at the block.
pub open spec fn expired(expires: Expiration, block: BlockInfo) -> bool {
    match expires {
        Expiration::AtHeight(height) => block.height >= height,
        Expiration::AtTime(time) => block.time_nanos >= time,
        Expiration::Never => false,
    }
}

impl Expiration {
    /// Whether the expiration has passed at the block.
    pub fn is_expired(&self, block: &BlockInfo) -> (b: bool)
        ensures
            b == expired(*self, *block),
            *self matches Expiration::AtHeight(h) ==> (b <==> block.height >= h),
            *self matches Expiration::AtTime(t) ==> (b <==> block.time_nanos >= t),
            *self is Never ==> !b,
    {
        match self {
            Expiration::AtHeight(height) => block.height >= *height,
            Expiration::AtTime(time) => block.time_nanos >= *time,
            Expiration::Never => false,
        }
    }
}

/// The approvals that stay after those of the spender are dropped, in order.
pub open spec fn without_spender(approvals: Seq<Approval>, spender: Seq<char>) -> Seq<Approval>
    decreases approvals.len(),
{
    if approvals.len() == 0 {
        approvals
    } else {
        let rest = without_spender(approvals.drop_last(), spender);
        if approvals.last().spender@ == spender {
            rest
        } else {
            rest.push(approvals.last())
        }
    }
}

/// The approvals listed when expired ones are left out, in order.
pub open spec fn unexpired(approvals: Seq<Approval>, block: BlockInfo) -> Seq<Approval>
    decreases approvals.len(),
{
    if approvals.len() == 0 {
        approvals
    } else {
        let rest = unexpired(approvals.drop_last(), block);
        if expired(approvals.last().expires, block) {
            rest
        } else {
            rest.push(approvals.last())
        }
    }
}

/// An approval lets the spender transfer the position at the block.
pub open spec fn approved(approvals: Seq<Approval>, sender: Seq<char>, block: BlockInfo) -> bool {
    exists|i: int|
        0 <= i < approvals.len() && #[trigger] approvals[i].spender@ == sender && !expired(
            approvals[i].expires,
            block,
        )
}

/// An operator grant that has not expired at the block.
pub open spec fn operator_active(operator: Option<Expiration>, block: BlockInfo) -> bool {
    match operator {
        Some(expires) => !expired(expires, block),
        None => false,
    }
}

/// Checks that the sender may approve or revoke spenders of the owner's
/// position: it is the owner, or an operator of the owner whose grant has
/// not expired (`operator`, as stored for owner and sender).
pub fn check_can_approve(
    sender: &String,
    owner_raw: &[u8],
    operator: Option<Expiration>,
    block: &BlockInfo,
) -> (result: Result<(), ContractError>)
    ensures
        result is Ok <==> (token_bytes(sender@) == owner_raw@ || operator_active(operator, *block)),
        result is Err ==> result == Err::<(), ContractError>(ContractError::Unauthorized),
{
    // owner can approve
    let sender_raw = token_as_bytes(sender);
    if crate::pool_key::bytes_equal(sender_raw, owner_raw) {
        return Ok(());
    }
    // operator can approve
    match operator {
        Some(ex) => {
            if ex.is_expired(block) {
                Err(ContractError::Unauthorized)
            } else {
                Ok(())
            }
        },
        None => Err(ContractError::Unauthorized),
    }
}

/// Checks that the sender may transfer the owner's position: it is the
/// owner, a spender with an unexpired approval, or an operator of the owner
/// whose grant has not expired.
pub fn check_can_send(
    sender: &String,
    owner_raw: &[u8],
    approvals: &Vec<Approval>,
    operator: Option<Expiration>,
    block: &BlockInfo,
) -> (result: Result<(), ContractError>)
    ensures
        result is Ok <==> (token_bytes(sender@) == owner_raw@ || approved(
            approvals@,
            sender@,
            *block,
        ) || operator_active(operator, *block)),
        result is Err ==> result == Err::<(), ContractError>(ContractError::Unauthorized),
{
    // owner can send
    let sender_raw = token_as_bytes(sender);
    if crate::pool_key::bytes_equal(sender_raw, owner_raw) {
        return Ok(());
    }
    // any non-expired token approval can send
    let mut i: usize = 0;
    while i < approvals.len()
        invariant
            i <= approvals@.len(),
            forall|j: int|
                0 <= j < i ==> !(#[trigger] approvals@[j].spender@ == sender@ && !expired(
                    approvals@[j].expires,
                    *block,
                )),
        decreases approvals@.len() - i,
    {
        if approvals[i].spender == *sender && !approvals[i].expires.is_expired(block) {
            return Ok(());
        }
        i = i + 1;
    }
    // operator can send
    match operator {
        Some(ex) => {
            if ex.is_expired(block) {
                Err(ContractError::Unauthorized)
            } else {
                Ok(())
            }
        },
        None => Err(ContractError::Unauthorized),
    }
}

/// The approvals of a position without those of the spender.
pub fn remove_spender(approvals: Vec<Approval>, spender: &String) -> (kept: Vec<Approval>)
    ensures
        kept@ == without_spender(approvals@, spender@),
{
    let mut kept: Vec<Approval> = Vec::new();
    let mut i: usize = 0;
    while i < approvals.len()
        invariant
            i <= approvals@.len(),
            kept@ == without_spender(approvals@.subrange(0, i as int), spender@),
        decreases approvals@.len() - i,
    {
        proof {
            assert(approvals@.subrange(0, i + 1).drop_last() =~= approvals@.subrange(0, i as int));
        }
        if approvals[i].spender != *spender {
            kept.push(approvals[i].clone_approval());
        }
        i = i + 1;
    }
    proof {
        assert(approvals@.subrange(0, approvals@.len() as int) =~= approvals@);
    }
    kept
}

impl Approval {
    /// A copy of the approval.
    pub fn clone_approval(&self) -> (copy: Approval)
        ensures
            copy == *self,
    {
        Approval { spender: self.spender.clone(), expires: self.expires }
    }
}

/// The approvals of a position after the spender's approval is revoked
/// (`add` false) or set to `expires` (`add` true; a missing expiration
/// means never). Setting an approval that has already expired is refused.
pub fn update_approvals(
    approvals: Vec<Approval>,
    spender: &String,
    add: bool,
    expires: Option<Expiration>,
    block: &BlockInfo,
) -> (result: Result<Vec<Approval>, ContractError>)
    ensures
        !add ==> (result matches Ok(kept) && kept@ == without_spender(approvals@, spender@)),
        add ==> {
            let expires = match expires {
                Some(e) => e,
                None => Expiration::Never,
            };
            if expired(expires, *block) {
                result == Err::<Vec<Approval>, ContractError>(ContractError::Expired)
            } else {
                (result matches Ok(kept) && kept@.len() == without_spender(approvals@, spender@).len()
                    + 1 && kept@.drop_last() == without_spender(approvals@, spender@)
                    && kept@.last().spender@ == spender@ && kept@.last().expires == expires)
            }
        },
{
    // drop any approval of the same spender before adding
    let mut kept = remove_spender(approvals, spender);
    // only difference between approve and revoke
    if add {
        // reject expired data as invalid
        let expires = match expires {
            Some(e) => e,
            None => Expiration::Never,
        };
        if expires.is_expired(block) {
            return Err(ContractError::Expired);
        }
        let ghost before = kept@;
        kept.push(Approval { spender: spender.clone(), expires });
        proof {
            assert(kept@.drop_last() =~= before);
        }
    }
    Ok(kept)
}

/// The approvals of a position to list: all, or only those that have not
/// expired at the block.
pub fn humanize_approvals(
    block: &BlockInfo,
    approvals: &Vec<Approval>,
    include_expired: bool,
) -> (listed: Vec<Approval>)
    ensures
        include_expired ==> listed@ == approvals@,
        !include_expired ==> listed@ == unexpired(approvals@, *block),
{
    let mut listed: Vec<Approval> = Vec::new();
    let mut i: usize = 0;
    while i < approvals.len()
        invariant
            i <= approvals@.len(),
            include_expired ==> listed@ == approvals@.subrange(0, i as int),
            !include_expired ==> listed@ == unexpired(approvals@.subrange(0, i as int), *block),
        decreases approvals@.len() - i,
    {
        proof {
            assert(approvals@.subrange(0, i + 1).drop_last() =~= approvals@.subrange(0, i as int));
        }
        if include_expired || !approvals[i].expires.is_expired(block) {
            let ghost before = listed@;
            listed.push(approvals[i].clone_approval());
            proof {
                assert(listed@ =~= before.push(approvals@[i as int]));
                if include_expired {
                    assert(approvals@.subrange(0, i + 1) =~= approvals@.subrange(0, i as int).push(
                        approvals@[i as int],
                    ));
                }
            }
        }
        i = i + 1;
    }
    proof {
        assert(approvals@.subrange(0, approvals@.len() as int) =~= approvals@);
    }
    listed
}

/// The token id of a position: the owner's address bytes followed by the
/// position's index as four big-endian bytes.
pub open spec fn token_id_parts(token_id: Seq<u8>) -> (Seq<u8>, u32) {
    let n = token_id.len() as int;
    (
        token_id.subrange(0, n - 4),
        crate::bytes::u64_of_be(seq![0u8, 0u8, 0u8, 0u8] + token_id.subrange(n - 4, n)) as u32,
    )
}

/// Splits a position's token id into its owner and its index. A token id
/// shorter than four bytes has no index and is refused.
pub fn split_token_id(token_id: &[u8]) -> (parts: (Vec<u8>, u32))
    requires
        token_id@.len() >= 4,
    ensures
        parts.0@ == token_id_parts(token_id@).0,
        parts.1 == token_id_parts(token_id@).1,
{
    let n = token_id.len();
    let mut owner: Vec<u8> = Vec::new();
    let mut i: usize = 0;
    while i < n - 4
        invariant
            n == token_id@.len(),
            i <= n - 4,
            owner@ == token_id@.subrange(0, i as int),
        decreases n - 4 - i,
    {
        owner.push(token_id[i]);
        proof {
            assert(owner@ =~= token_id@.subrange(0, i + 1));
        }
        i = i + 1;
    }
    let (b0, b1, b2, b3) = (token_id[n - 4], token_id[n - 3], token_id[n - 2], token_id[n - 1]);
    let index = ((b0 as u32) << 24u32) | ((b1 as u32) << 16u32) | ((b2 as u32) << 8u32) | (b3 as u32);
    proof {
        let full = seq![0u8, 0u8, 0u8, 0u8] + token_id@.subrange(n - 4, n as int);
        assert(full[4] == b0 && full[5] == b1 && full[6] == b2 && full[7] == b3);
        assert(full[0] == 0 && full[1] == 0 && full[2] == 0 && full[3] == 0);
        assert(((((0u8 as u64) << 56u64) | ((0u8 as u64) << 48u64) | ((0u8 as u64) << 40u64) | ((
        0u8 as u64) << 32u64) | ((b0 as u64) << 24u64) | ((b1 as u64) << 16u64) | ((b2 as u64)
            << 8u64) | (b3 as u64)) as u32) == ((b0 as u32) << 24u32) | ((b1 as u32) << 16u32) | ((
        b2 as u32) << 8u32) | (b3 as u32)) by (bit_vector);
    }
    (owner, index)
}

/// The owner address of a position's token id, as a string; refused where
/// the bytes are not UTF-8.
pub fn token_owner(owner_raw: &[u8]) -> (owner: Result<String, ContractError>)
    ensures
        vstd::utf8::valid_utf8(owner_raw@) ==> (owner matches Ok(s) && s@
            == vstd::utf8::decode_utf8(owner_raw@)),
        !vstd::utf8::valid_utf8(owner_raw@) ==> owner == Err::<String, ContractError>(
            ContractError::Std(StdError::InvalidUtf8),
        ),
{
    match crate::bytes::string_from_utf8(owner_raw) {
        Some(s) => Ok(s),
        None => Err(ContractError::Std(StdError::InvalidUtf8)),
    }
}

/// Revoking a spender and setting its approval again leaves exactly one
/// approval for it, the new one, at the end of the list.
pub proof fn reapproval_keeps_one(approvals: Seq<Approval>, spender: Seq<char>, a: Approval)
    requires
        a.spender@ == spender,
    ensures
        ({
            let updated = without_spender(approvals, spender).push(a);
            &&& updated.last() == a
            &&& forall|i: int| 0 <= i < updated.len() - 1 ==> #[trigger] updated[i].spender@ != spender
        }),
{
    lemma_without_spender(approvals, spender);
}

proof fn lemma_without_spender(approvals: Seq<Approval>, spender: Seq<char>)
    ensures
        forall|i: int|
            0 <= i < without_spender(approvals, spender).len() ==> #[trigger] without_spender(
                approvals,
                spender,
            )[i].spender@ != spender,
    decreases approvals.len(),
{
    if approvals.len() > 0 {
        lemma_without_spender(approvals.drop_last(), spender);
    }
}

/// An expiration passes once the block reaches it, in the expiration's own
/// units: a height against the block height, a time in nanoseconds against
/// the block time in nanoseconds; `Never` never passes.
pub proof fn expiration_passes_at_its_bound(height: u64, time: u64, block: BlockInfo)
    ensures
        expired(Expiration::AtHeight(height), block) <==> height <= block.height,
        expired(Expiration::AtTime(time), block) <==> time <= block.time_nanos,
        !expired(Expiration::Never, block),
{
}

/// A spender's only approval, expiring at time `t`, lets it transfer the
/// position at exactly the blocks whose time (in nanoseconds) is before
/// `t`, and no others.
pub proof fn timed_approval_lapses_at_expiry(approval: Approval, t: u64, block: BlockInfo)
    requires
        approval.expires == Expiration::AtTime(t),
    ensures
        approved(seq![approval], approval.spender@, block) <==> block.time_nanos < t,
{
    if block.time_nanos < t {
        assert(seq![approval][0] == approval);
    }
}

} // verus!
