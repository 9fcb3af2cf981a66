//! The length field of the self-describing formats: an unsigned 64-bit
//! integer, least significant byte first, as `ark_serialize` writes it.
use vstd::bytes::{spec_u64_from_le_bytes, spec_u64_to_le_bytes};
use vstd::prelude::*;
use vstd::slice::slice_subrange;

verus! {

/// Bytes of an encoded length.
pub const LENGTH_WIDTH: usize = 8;

/// `CanonicalSerialize::serialize` of a `u64`, which writes its
/// `to_le_bytes`.
#[verifier::external_body]
fn ark_serialize_u64(n: u64) -> (bytes: Vec<u8>)
    ensures
        bytes@ == spec_u64_to_le_bytes(n),
{
    let mut out = Vec::new();
    ark_serialize::CanonicalSerialize::serialize(&n, &mut out).unwrap();
    out
}

/// `CanonicalDeserialize::deserialize` of a `u64`, which reads eight bytes
/// and takes their `from_le_bytes`.
#[verifier::external_body]
fn ark_deserialize_u64(bytes: &[u8]) -> (n: u64)
    requires
        bytes@.len() == 8,
    ensures
        n == spec_u64_from_le_bytes(bytes@),
{
    <u64 as ark_serialize::CanonicalDeserialize>::deserialize(bytes).unwrap()
}

/// The encoding of the length `n`.
pub open spec fn length_bytes(n: u64) -> Seq<u8> {
    spec_u64_to_le_bytes(n)
}

/// The length that eight bytes encode.
pub open spec fn length_value(bytes: Seq<u8>) -> u64 {
    spec_u64_from_le_bytes(bytes)
}

/// Appends the encoding of `n` to `out`.
pub fn write_length(n: u64, out: &mut Vec<u8>)
    ensures
        final(out)@ == old(out)@ + length_bytes(n),
{
    let mut encoded = ark_serialize_u64(n);
    out.append(&mut encoded);
}

/// Reads the length that stands at `at` in `bytes`.
pub fn read_length(bytes: &[u8], at: usize) -> (n: u64)
    requires
        at + 8 <= bytes.len(),
    ensures
        n == length_value(bytes@.subrange(at as int, at + 8)),
{
    ark_deserialize_u64(slice_subrange(bytes, at, at + 8))
}

/// An encoded length takes eight bytes and reads back as itself, and eight
/// bytes are the encoding of the length they read as.
pub proof fn lemma_length_round_trip()
    ensures
        forall|n: u64| #[trigger] length_bytes(n).len() == 8,
        forall|n: u64| length_value(#[trigger] length_bytes(n)) == n,
        forall|s: Seq<u8>| s.len() == 8 ==> length_bytes(#[trigger] length_value(s)) == s,
{
    vstd::bytes::lemma_auto_spec_u64_to_from_le_bytes();
}

} // verus!
