//! Big-endian integer encodings and length-prefixed framing of byte strings,
//! the layout of storage keys.
use vstd::prelude::*;

verus! {

/// The 8 big-endian bytes of `x`.
pub open spec fn be_u64(x: u64) -> Seq<u8> {
    seq![
        (x >> 56u64) as u8,
        (x >> 48u64) as u8,
        (x >> 40u64) as u8,
        (x >> 32u64) as u8,
        (x >> 24u64) as u8,
        (x >> 16u64) as u8,
        (x >> 8u64) as u8,
        x as u8,
    ]
}

/// The 2 big-endian bytes of `x`.
pub open spec fn be_u16(x: u16) -> Seq<u8> {
    seq![(x >> 8u16) as u8, x as u8]
}

/// The integer whose big-endian bytes are `b[0..8]`.
pub open spec fn u64_of_be(b: Seq<u8>) -> u64 {
    ((b[0] as u64) << 56u64) | ((b[1] as u64) << 48u64) | ((b[2] as u64) << 40u64) | ((
    b[3] as u64) << 32u64) | ((b[4] as u64) << 24u64) | ((b[5] as u64) << 16u64) | ((
    b[6] as u64) << 8u64) | (b[7] as u64)
}

/// The integer whose big-endian bytes are `b[0..2]`.
pub open spec fn u16_of_be(b: Seq<u8>) -> u16 {
    ((b[0] as u16) << 8u16) | (b[1] as u16)
}

/// Each part preceded by its length as two big-endian bytes.
pub open spec fn framed(parts: Seq<Seq<u8>>) -> Seq<u8>
    decreases parts.len(),
{
    if parts.len() == 0 {
        Seq::empty()
    } else {
        be_u16(parts[0].len() as u16) + parts[0] + framed(parts.drop_first())
    }
}

/// `raw` is a sequence of parts each preceded by its two-byte length,
/// with nothing left over.
pub open spec fn well_framed(raw: Seq<u8>) -> bool
    decreases raw.len(),
{
    if raw.len() == 0 {
        true
    } else if raw.len() < 2 {
        false
    } else {
        let n = u16_of_be(raw.subrange(0, 2)) as int;
        2 + n <= raw.len() && well_framed(raw.subrange(2 + n, raw.len() as int))
    }
}

/// The parts of a well-framed byte string.
pub open spec fn unframed(raw: Seq<u8>) -> Seq<Seq<u8>>
    decreases raw.len(),
{
    if raw.len() < 2 {
        Seq::empty()
    } else {
        let n = u16_of_be(raw.subrange(0, 2)) as int;
        if 2 + n <= raw.len() {
            seq![raw.subrange(2, 2 + n)] + unframed(raw.subrange(2 + n, raw.len() as int))
        } else {
            Seq::empty()
        }
    }
}

/// Appends the 8 big-endian bytes of `x`.
pub fn push_be_u64(out: &mut Vec<u8>, x: u64)
    ensures
        final(out)@ == old(out)@ + be_u64(x),
{
    out.push((x >> 56u64) as u8);
    out.push((x >> 48u64) as u8);
    out.push((x >> 40u64) as u8);
    out.push((x >> 32u64) as u8);
    out.push((x >> 24u64) as u8);
    out.push((x >> 16u64) as u8);
    out.push((x >> 8u64) as u8);
    out.push(x as u8);
    proof {
        assert(out@ =~= old(out)@ + be_u64(x));
    }
}

/// Appends the 2 big-endian bytes of `x`.
pub fn push_be_u16(out: &mut Vec<u8>, x: u16)
    ensures
        final(out)@ == old(out)@ + be_u16(x),
{
    out.push((x >> 8u16) as u8);
    out.push(x as u8);
    proof {
        assert(out@ =~= old(out)@ + be_u16(x));
    }
}

/// Reads an integer from 8 big-endian bytes.
pub fn read_be_u64(b: &[u8], start: usize) -> (x: u64)
    requires
        start + 8 <= b@.len(),
    ensures
        x == u64_of_be(b@.subrange(start as int, start + 8)),
{
    ((b[start] as u64) << 56u64) | ((b[start + 1] as u64) << 48u64) | ((b[start + 2] as u64)
        << 40u64) | ((b[start + 3] as u64) << 32u64) | ((b[start + 4] as u64) << 24u64) | ((b[start
        + 5] as u64) << 16u64) | ((b[start + 6] as u64) << 8u64) | (b[start + 7] as u64)
}

/// Reads an integer from 2 big-endian bytes.
pub fn read_be_u16(b: &[u8], start: usize) -> (x: u16)
    requires
        start + 2 <= b@.len(),
    ensures
        x == u16_of_be(b@.subrange(start as int, start + 2)),
{
    ((b[start] as u16) << 8u16) | (b[start + 1] as u16)
}

/// Reading back the big-endian bytes of an integer gives the integer.
pub proof fn be_u64_roundtrip(x: u64)
    ensures
        u64_of_be(be_u64(x)) == x,
{
    assert(((((x >> 56u64) as u8) as u64) << 56u64) | ((((x >> 48u64) as u8) as u64) << 48u64)
        | ((((x >> 40u64) as u8) as u64) << 40u64) | ((((x >> 32u64) as u8) as u64) << 32u64) | ((
    ((x >> 24u64) as u8) as u64) << 24u64) | ((((x >> 16u64) as u8) as u64) << 16u64) | ((((x
        >> 8u64) as u8) as u64) << 8u64) | ((x as u8) as u64) == x) by (bit_vector);
}

/// Reading back the big-endian bytes of an integer gives the integer.
pub proof fn be_u16_roundtrip(x: u16)
    ensures
        u16_of_be(be_u16(x)) == x,
{
    assert(((((x >> 8u16) as u8) as u16) << 8u16) | ((x as u8) as u16) == x) by (bit_vector);
}

/// Splitting a framed sequence of parts gives the parts back, as long as
/// every part is shorter than 2^16 bytes.
pub proof fn unframed_framed(parts: Seq<Seq<u8>>)
    requires
        forall|i: int| 0 <= i < parts.len() ==> #[trigger] parts[i].len() <= 0xFFFF,
    ensures
        well_framed(framed(parts)),
        unframed(framed(parts)) =~= parts,
    decreases parts.len(),
{
    if parts.len() > 0 {
        let rest = parts.drop_first();
        assert forall|i: int| 0 <= i < rest.len() implies #[trigger] rest[i].len() <= 0xFFFF by {
            assert(rest[i] == parts[i + 1]);
        }
        unframed_framed(rest);
        let raw = framed(parts);
        let n = parts[0].len() as int;
        be_u16_roundtrip(n as u16);
        assert(raw.subrange(0, 2) =~= be_u16(n as u16));
        assert(raw.subrange(2, 2 + n) =~= parts[0]);
        assert(raw.subrange(2 + n, raw.len() as int) =~= framed(rest));
    }
}

/// `String::from_utf8`: the string whose UTF-8 encoding is `bytes`, or an
/// error where `bytes` is not valid UTF-8.
#[verifier::external_body]
pub(crate) fn string_from_utf8(bytes: &[u8]) -> (s: Option<String>)
    ensures
        s is Some <==> vstd::utf8::valid_utf8(bytes@),
        s matches Some(s) ==> s@ == vstd::utf8::decode_utf8(bytes@),
{
    String::from_utf8(bytes.to_vec()).ok()
}

} // verus!
