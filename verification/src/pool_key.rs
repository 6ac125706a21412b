//! The key of a pool: its two tokens, in a fixed order, and its fee tier.
use crate::bytes::{framed, string_from_utf8, unframed, unframed_framed, well_framed, u16_of_be};
use crate::error::{ContractError, StdError};
use crate::fee_tier::{fee_tier_key, fee_tier_key_roundtrip, FeeTier};
use crate::types::Percentage;
use vstd::prelude::*;
use vstd::utf8::{decode_utf8, encode_utf8, encode_utf8_decode_utf8, encode_utf8_valid_utf8, valid_utf8};

verus! {

#[derive(Debug, Clone, Default)]
pub struct PoolKey {
    pub token_x: String,
    pub token_y: String,
    pub fee_tier: FeeTier,
}

/// Lexicographic order of byte strings, the order of Rust's `str`.
pub open spec fn bytes_lt(a: Seq<u8>, b: Seq<u8>) -> bool
    decreases a.len(),
{
    if a.len() == 0 {
        b.len() > 0
    } else if b.len() == 0 {
        false
    } else if a[0] != b[0] {
        a[0] < b[0]
    } else {
        bytes_lt(a.drop_first(), b.drop_first())
    }
}

/// The UTF-8 bytes of a token address.
pub open spec fn token_bytes(token: Seq<char>) -> Seq<u8> {
    encode_utf8(token)
}

/// The order of two distinct tokens within a pool key: the smaller address
/// becomes token x.
pub open spec fn sorted_tokens(token_0: Seq<char>, token_1: Seq<char>) -> (Seq<char>, Seq<char>) {
    if bytes_lt(token_bytes(token_0), token_bytes(token_1)) {
        (token_0, token_1)
    } else {
        (token_1, token_0)
    }
}

/// The storage key of a pool key: token x, token y and the fee tier key,
/// each preceded by its length.
pub open spec fn pool_key_bytes(token_x: Seq<char>, token_y: Seq<char>, fee_tier: FeeTier) -> Seq<
    u8,
> {
    framed(seq![token_bytes(token_x), token_bytes(token_y), fee_tier_key(fee_tier)])
}

/// `a < b` in the order of `bytes_lt`.
pub fn bytes_less(a: &[u8], b: &[u8]) -> (lt: bool)
    ensures
        lt == bytes_lt(a@, b@),
{
    let mut i: usize = 0;
    proof {
        assert(a@.skip(0) =~= a@);
        assert(b@.skip(0) =~= b@);
    }
    while i < a.len() && i < b.len()
        invariant
            i <= a@.len(),
            i <= b@.len(),
            bytes_lt(a@, b@) == bytes_lt(a@.skip(i as int), b@.skip(i as int)),
        decreases a@.len() - i,
    {
        if a[i] != b[i] {
            proof {
                assert(a@.skip(i as int)[0] == a@[i as int]);
                assert(b@.skip(i as int)[0] == b@[i as int]);
            }
            return a[i] < b[i];
        }
        proof {
            assert(a@.skip(i as int).drop_first() =~= a@.skip(i + 1));
            assert(b@.skip(i as int).drop_first() =~= b@.skip(i + 1));
        }
        i = i + 1;
    }
    i < b.len()
}

/// `==` of two byte strings.
pub fn bytes_equal(a: &[u8], b: &[u8]) -> (eq: bool)
    ensures
        eq == (a@ == b@),
{
    if a.len() != b.len() {
        return false;
    }
    let mut i: usize = 0;
    while i < a.len()
        invariant
            a@.len() == b@.len(),
            i <= a@.len(),
            forall|j: int| 0 <= j < i ==> a@[j] == b@[j],
        decreases a@.len() - i,
    {
        if a[i] != b[i] {
            return false;
        }
        i = i + 1;
    }
    proof {
        assert(a@ =~= b@);
    }
    true
}

/// `String::as_bytes` on a token address, which is its UTF-8 encoding.
pub(crate) fn token_as_bytes(token: &String) -> (bytes: &[u8])
    ensures
        bytes@ == token_bytes(token@),
{
    token.as_str().as_bytes()
}

/// `to_length_prefixed_nested` of `cosmwasm-std` (re-exported by
/// `cosmwasm-storage`) on three parts: each part preceded by its length as
/// two big-endian bytes. It panics on a part longer than `0xFFFF` bytes,
/// which `requires` leaves out.
#[verifier::external_body]
fn to_length_prefixed_nested3(a: &[u8], b: &[u8], c: &[u8]) -> (key: Vec<u8>)
    requires
        a@.len() <= 0xFFFF,
        b@.len() <= 0xFFFF,
        c@.len() <= 0xFFFF,
    ensures
        key@ == framed(seq![a@, b@, c@]),
{
    cosmwasm_storage::to_length_prefixed_nested(&[a, b, c])
}

/// The contents of a list of byte vectors.
pub open spec fn parts_view(parts: Seq<Vec<u8>>) -> Seq<Seq<u8>> {
    parts.map_values(|p: Vec<u8>| p@)
}

/// Splits a well-framed byte string into its parts.
pub fn split_framed(raw: &[u8]) -> (parts: Vec<Vec<u8>>)
    requires
        well_framed(raw@),
    ensures
        parts_view(parts@) == unframed(raw@),
{
    let mut index: usize = 0;
    let mut parts: Vec<Vec<u8>> = Vec::new();
    proof {
        assert(raw@.skip(0) =~= raw@);
        assert(parts_view(parts@) + unframed(raw@) =~= unframed(raw@));
    }
    while index < raw.len()
        invariant
            index <= raw@.len(),
            well_framed(raw@.skip(index as int)),
            parts_view(parts@) + unframed(raw@.skip(index as int)) == unframed(raw@),
        decreases raw@.len() - index,
    {
        let ghost rest = raw@.skip(index as int);
        proof {
            assert(rest.len() >= 2);
        }
        let item_len = ((raw[index] as u16) << 8u16 | raw[index + 1] as u16) as usize;
        proof {
            assert(rest.subrange(0, 2) =~= raw@.subrange(index as int, index + 2));
            assert(item_len == u16_of_be(rest.subrange(0, 2)) as int);
        }
        index += 2;
        let mut item: Vec<u8> = Vec::new();
        let end = index + item_len;
        let mut j = index;
        while j < end
            invariant
                index <= j <= end <= raw@.len(),
                item@ == raw@.subrange(index as int, j as int),
            decreases end - j,
        {
            item.push(raw[j]);
            proof {
                assert(item@ =~= raw@.subrange(index as int, j + 1));
            }
            j += 1;
        }
        proof {
            assert(item@ =~= rest.subrange(2, 2 + item_len));
            assert(rest.subrange(2 + item_len, rest.len() as int) =~= raw@.skip(end as int));
            assert(unframed(rest) =~= seq![item@] + unframed(raw@.skip(end as int)));
        }
        let ghost before = parts_view(parts@);
        let ghost item_view = item@;
        parts.push(item);
        proof {
            assert(parts_view(parts@) =~= before.push(item_view));
            assert(before + unframed(rest) =~= parts_view(parts@) + unframed(raw@.skip(end as int)));
        }
        index = end;
    }
    proof {
        assert(raw@.skip(index as int).len() == 0);
        assert(unframed(raw@.skip(index as int)) =~= Seq::<Seq<u8>>::empty());
        assert(parts_view(parts@) + Seq::<Seq<u8>>::empty() =~= parts_view(parts@));
    }
    parts
}

impl PoolKey {
    /// The key of the pool on two distinct tokens with a fee tier; the
    /// token whose address sorts first becomes token x.
    pub fn new(token_0: String, token_1: String, fee_tier: FeeTier) -> (result: Result<
        Self,
        ContractError,
    >)
        ensures
            token_0@ == token_1@ ==> result == Err::<PoolKey, ContractError>(
                ContractError::TokensAreSame,
            ),
            token_0@ != token_1@ ==> (result matches Ok(key) && (key.token_x@, key.token_y@)
                == sorted_tokens(token_0@, token_1@) && key.fee_tier == fee_tier),
    {
        if token_0 == token_1 {
            return Err(ContractError::TokensAreSame);
        }
        let lt = bytes_less(token_as_bytes(&token_0), token_as_bytes(&token_1));
        if lt {
            Ok(PoolKey { token_x: token_0, token_y: token_1, fee_tier })
        } else {
            Ok(PoolKey { token_x: token_1, token_y: token_0, fee_tier })
        }
    }

    /// The pool's storage key.
    pub fn key(&self) -> (key: Vec<u8>)
        requires
            token_bytes(self.token_x@).len() <= 0xFFFF,
            token_bytes(self.token_y@).len() <= 0xFFFF,
        ensures
            key@ == pool_key_bytes(self.token_x@, self.token_y@, self.fee_tier),
    {
        let fee_key = self.fee_tier.key();
        to_length_prefixed_nested3(
            token_as_bytes(&self.token_x),
            token_as_bytes(&self.token_y),
            fee_key.as_slice(),
        )
    }

    /// The pool key stored under a raw storage key: exactly three framed
    /// parts, two UTF-8 token addresses and a fee tier key.
    pub fn from_bytes(raw_key: &[u8]) -> (result: Result<Self, ContractError>)
        requires
            well_framed(raw_key@),
        ensures
            ({
                let parts = unframed(raw_key@);
                if parts.len() != 3 {
                    result == Err::<PoolKey, ContractError>(ContractError::InvalidSize)
                } else if !valid_utf8(parts[0]) || !valid_utf8(parts[1]) {
                    result == Err::<PoolKey, ContractError>(ContractError::Std(StdError::InvalidUtf8))
                } else if parts[2].len() != 10 {
                    result == Err::<PoolKey, ContractError>(ContractError::InvalidSize)
                } else {
                    result matches Ok(key) && key.token_x@ == decode_utf8(parts[0])
                        && key.token_y@ == decode_utf8(parts[1]) && fee_tier_key(key.fee_tier)
                        == parts[2]
                }
            }),
    {
        let namespaces = split_framed(raw_key);
        if namespaces.len() != 3 {
            return Err(ContractError::InvalidSize);
        }
        proof {
            assert(namespaces[0]@ == parts_view(namespaces@)[0]);
            assert(namespaces[1]@ == parts_view(namespaces@)[1]);
            assert(namespaces[2]@ == parts_view(namespaces@)[2]);
        }
        let token_x = match string_from_utf8(namespaces[0].as_slice()) {
            Some(s) => s,
            None => return Err(ContractError::Std(StdError::InvalidUtf8)),
        };
        let token_y = match string_from_utf8(namespaces[1].as_slice()) {
            Some(s) => s,
            None => return Err(ContractError::Std(StdError::InvalidUtf8)),
        };
        let fee_tier = FeeTier::from_bytes(namespaces[2].as_slice())?;
        proof {
            let p = namespaces[2]@;
            assert(p =~= p.subrange(0, 8) + p.subrange(8, 10));
            let ft = fee_tier;
            crate::bytes::be_u64_roundtrip(ft.fee.0);
            assert(fee_tier_key(ft) =~= p) by {
                lemma_be_u64_of_bytes(p.subrange(0, 8));
                lemma_be_u16_of_bytes(p.subrange(8, 10));
            }
        }
        Ok(PoolKey { token_x, token_y, fee_tier })
    }
}

proof fn lemma_be_u64_of_bytes(b: Seq<u8>)
    requires
        b.len() == 8,
    ensures
        crate::bytes::be_u64(crate::bytes::u64_of_be(b)) =~= b,
{
    let (b0, b1, b2, b3, b4, b5, b6, b7) = (b[0], b[1], b[2], b[3], b[4], b[5], b[6], b[7]);
    let x = crate::bytes::u64_of_be(b);
    assert(x == ((b0 as u64) << 56u64) | ((b1 as u64) << 48u64) | ((b2 as u64) << 40u64) | ((
    b3 as u64) << 32u64) | ((b4 as u64) << 24u64) | ((b5 as u64) << 16u64) | ((b6 as u64) << 8u64)
        | (b7 as u64));
    assert(((x >> 56u64) as u8) == b0 && ((x >> 48u64) as u8) == b1 && ((x >> 40u64) as u8) == b2
        && ((x >> 32u64) as u8) == b3 && ((x >> 24u64) as u8) == b4 && ((x >> 16u64) as u8) == b5
        && ((x >> 8u64) as u8) == b6 && (x as u8) == b7) by (bit_vector)
        requires
            x == ((b0 as u64) << 56u64) | ((b1 as u64) << 48u64) | ((b2 as u64) << 40u64) | ((
            b3 as u64) << 32u64) | ((b4 as u64) << 24u64) | ((b5 as u64) << 16u64) | ((b6 as u64)
                << 8u64) | (b7 as u64),
    ;
}

proof fn lemma_be_u16_of_bytes(b: Seq<u8>)
    requires
        b.len() == 2,
    ensures
        crate::bytes::be_u16(crate::bytes::u16_of_be(b)) =~= b,
{
    let (b0, b1) = (b[0], b[1]);
    let x = crate::bytes::u16_of_be(b);
    assert(x == ((b0 as u16) << 8u16) | (b1 as u16));
    assert(((x >> 8u16) as u8) == b0 && (x as u8) == b1) by (bit_vector)
        requires
            x == ((b0 as u16) << 8u16) | (b1 as u16),
    ;
}

/// `bytes_lt` is the lexicographic order: where two byte strings first
/// differ at an index below both lengths, the smaller byte decides; a proper
/// prefix is smaller; a string is never smaller than one of its prefixes
/// (itself included).
pub proof fn bytes_lt_is_lexicographic(a: Seq<u8>, b: Seq<u8>, i: int)
    ensures
        0 <= i < a.len() && i < b.len() && a[i] != b[i] && a.subrange(0, i) == b.subrange(0, i)
            ==> (bytes_lt(a, b) <==> a[i] < b[i]),
        a.len() < b.len() && a == b.subrange(0, a.len() as int) ==> bytes_lt(a, b),
        b.len() <= a.len() && b == a.subrange(0, b.len() as int) ==> !bytes_lt(a, b),
    decreases a.len(),
{
    if 0 <= i < a.len() && i < b.len() && a[i] != b[i] && a.subrange(0, i) == b.subrange(0, i) {
        if i > 0 {
            assert(a[0] == a.subrange(0, i)[0]);
            assert(b[0] == b.subrange(0, i)[0]);
            assert(a.drop_first().subrange(0, i - 1) =~= a.subrange(0, i).drop_first());
            assert(b.drop_first().subrange(0, i - 1) =~= b.subrange(0, i).drop_first());
            bytes_lt_is_lexicographic(a.drop_first(), b.drop_first(), i - 1);
        }
    }
    if a.len() < b.len() && a == b.subrange(0, a.len() as int) {
        if a.len() > 0 {
            assert(a[0] == b[0]);
            assert(a.drop_first() =~= b.drop_first().subrange(0, a.len() - 1));
            bytes_lt_is_lexicographic(a.drop_first(), b.drop_first(), 0);
        }
    }
    if b.len() <= a.len() && b == a.subrange(0, b.len() as int) {
        if b.len() > 0 {
            assert(a[0] == b[0]);
            assert(b.drop_first() =~= a.drop_first().subrange(0, b.len() - 1));
            bytes_lt_is_lexicographic(a.drop_first(), b.drop_first(), 0);
        }
    }
}

/// `bytes_lt` is a strict total order: of two distinct byte strings exactly
/// one is smaller.
pub proof fn bytes_lt_total(a: Seq<u8>, b: Seq<u8>)
    ensures
        a != b ==> (bytes_lt(a, b) != bytes_lt(b, a)),
        a == b ==> !bytes_lt(a, b),
    decreases a.len(),
{
    if a.len() > 0 && b.len() > 0 && a[0] == b[0] {
        bytes_lt_total(a.drop_first(), b.drop_first());
        if a.drop_first() == b.drop_first() {
            assert(a =~= seq![a[0]] + a.drop_first());
            assert(b =~= seq![b[0]] + b.drop_first());
        }
    } else if a.len() == 0 && b.len() == 0 {
        assert(a =~= b);
    }
}

/// A pool key does not depend on the order in which its two tokens are
/// given, and its token x sorts strictly before its token y.
pub proof fn pool_key_order_independent(token_0: Seq<char>, token_1: Seq<char>)
    requires
        token_0 != token_1,
    ensures
        sorted_tokens(token_0, token_1) == sorted_tokens(token_1, token_0),
        bytes_lt(
            token_bytes(sorted_tokens(token_0, token_1).0),
            token_bytes(sorted_tokens(token_0, token_1).1),
        ),
{
    encode_utf8_decode_utf8(token_0);
    encode_utf8_decode_utf8(token_1);
    assert(token_bytes(token_0) != token_bytes(token_1));
    bytes_lt_total(token_bytes(token_0), token_bytes(token_1));
}

/// Reading a pool key back from its storage key gives the same tokens and
/// fee tier.
pub proof fn pool_key_bytes_roundtrip(token_x: Seq<char>, token_y: Seq<char>, fee_tier: FeeTier)
    requires
        token_bytes(token_x).len() <= 0xFFFF,
        token_bytes(token_y).len() <= 0xFFFF,
    ensures
        well_framed(pool_key_bytes(token_x, token_y, fee_tier)),
        ({
            let parts = unframed(pool_key_bytes(token_x, token_y, fee_tier));
            &&& parts.len() == 3
            &&& valid_utf8(parts[0]) && decode_utf8(parts[0]) == token_x
            &&& valid_utf8(parts[1]) && decode_utf8(parts[1]) == token_y
            &&& parts[2].len() == 10 && parts[2] == fee_tier_key(fee_tier)
        }),
{
    let parts = seq![token_bytes(token_x), token_bytes(token_y), fee_tier_key(fee_tier)];
    fee_tier_key_roundtrip(fee_tier);
    assert forall|i: int| 0 <= i < parts.len() implies #[trigger] parts[i].len() <= 0xFFFF by {}
    unframed_framed(parts);
    encode_utf8_valid_utf8(token_x);
    encode_utf8_valid_utf8(token_y);
    encode_utf8_decode_utf8(token_x);
    encode_utf8_decode_utf8(token_y);
}

} // verus!
