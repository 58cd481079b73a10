//! The byte encoding of integer vertex values, as bincode's default
//! configuration writes them.

use vstd::prelude::*;
use vstd::arithmetic::power2::pow2;
use vstd::bits::lemma_u64_shr_is_div;

verus! {

/// The eight little-endian bytes of `v`.
pub open spec fn u64_le_bytes(v: u64) -> Seq<u8> {
    Seq::new(8, |i: int| ((v as nat / pow2((8 * i) as nat)) % 256) as u8)
}

/// `bincode::serialize` of a `u64`. bincode's default options use the
/// fixed-width integer encoding in little-endian order, so the result is
/// the eight little-endian bytes of `v`; serializing a `u64` cannot fail.
#[verifier::external_body]
pub(crate) fn encode_u64(v: u64) -> (r: Vec<u8>)
    ensures
        r@ == u64_le_bytes(v),
{
    bincode::serialize(&v).unwrap_or_default()
}

/// The number that the first eight bytes of `b` spell in little-endian
/// order.
pub open spec fn le_value(b: Seq<u8>) -> int {
    b[0] as int + b[1] as int * 0x100 + b[2] as int * 0x1_0000 + b[3] as int * 0x100_0000 + b[4] as int
        * 0x1_0000_0000 + b[5] as int * 0x100_0000_0000 + b[6] as int * 0x1_0000_0000_0000 + b[7] as int
        * 0x100_0000_0000_0000
}

/// What `bincode::deserialize::<u64>` gives for `b`: the first eight bytes
/// read little-endian when there are at least eight (bytes after them are
/// allowed), nothing otherwise.
pub open spec fn decoded_u64(b: Seq<u8>) -> Option<u64> {
    if b.len() >= 8 {
        Some(le_value(b) as u64)
    } else {
        None
    }
}

/// Decoding the encoding of a value gives the value back.
pub proof fn lemma_u64_codec_roundtrip(v: u64)
    ensures
        decoded_u64(u64_le_bytes(v)) == Some(v),
{
    let b = u64_le_bytes(v);
    assert forall|i: int| 0 <= i < 8 implies #[trigger] b[i] == ((v >> (8 * i) as u64) % 256) as u8 by {
        lemma_u64_shr_is_div(v, (8 * i) as u64);
    }
    assert(b[0] == ((v >> 0u64) % 256) as u8);
    assert(b[1] == ((v >> 8u64) % 256) as u8);
    assert(b[2] == ((v >> 16u64) % 256) as u8);
    assert(b[3] == ((v >> 24u64) % 256) as u8);
    assert(b[4] == ((v >> 32u64) % 256) as u8);
    assert(b[5] == ((v >> 40u64) % 256) as u8);
    assert(b[6] == ((v >> 48u64) % 256) as u8);
    assert(b[7] == ((v >> 56u64) % 256) as u8);
    assert(v == ((v >> 0u64) % 256) + ((v >> 8u64) % 256) * 0x100 + ((v >> 16u64) % 256) * 0x1_0000 + ((v
        >> 24u64) % 256) * 0x100_0000 + ((v >> 32u64) % 256) * 0x1_0000_0000 + ((v >> 40u64) % 256)
        * 0x100_0000_0000 + ((v >> 48u64) % 256) * 0x1_0000_0000_0000 + ((v >> 56u64) % 256)
        * 0x100_0000_0000_0000) by (bit_vector);
}

/// `bincode::deserialize` of a `u64`. bincode's default options read a
/// fixed-width little-endian integer, fail on input shorter than eight
/// bytes and allow trailing bytes; the error becomes `None`.
#[verifier::external_body]
pub(crate) fn decode_u64(b: &[u8]) -> (r: Option<u64>)
    ensures
        r == decoded_u64(b@),
{
    match bincode::deserialize::<u64>(b) {
        Ok(v) => Some(v),
        Err(_) => None,
    }
}

} // verus!
