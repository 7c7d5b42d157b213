//! Hash functions: SHA-256, HASH160 and the BIP-340 tagged hashes.
use vstd::prelude::*;

verus! {

/// What SHA-256 gives for the bytes `m`.
pub uninterp spec fn sha256_of(m: Seq<u8>) -> Seq<u8>;

/// What RIPEMD-160 of SHA-256 gives for the bytes `m`.
pub uninterp spec fn hash160_of(m: Seq<u8>) -> Seq<u8>;

/// Relies on bitcoin_hashes' `sha256::Hash::hash`: the 32-byte SHA-256 digest.
#[verifier::external_body]
pub(crate) fn sha256(m: &[u8]) -> (r: Vec<u8>)
    ensures
        r@ == sha256_of(m@),
        r@.len() == 32,
{
    let h = <bitcoin::hashes::sha256::Hash as bitcoin::hashes::Hash>::hash(m);
    <bitcoin::hashes::sha256::Hash as bitcoin::hashes::Hash>::to_byte_array(h).to_vec()
}

/// Relies on bitcoin_hashes' `hash160::Hash::hash`: the 20-byte RIPEMD-160 of
/// the SHA-256 digest.
#[verifier::external_body]
pub(crate) fn hash160(m: &[u8]) -> (r: Vec<u8>)
    ensures
        r@ == hash160_of(m@),
        r@.len() == 20,
{
    let h = <bitcoin::hashes::hash160::Hash as bitcoin::hashes::Hash>::hash(m);
    <bitcoin::hashes::hash160::Hash as bitcoin::hashes::Hash>::to_byte_array(h).to_vec()
}

pub open spec fn sha256d_of(m: Seq<u8>) -> Seq<u8> {
    sha256_of(sha256_of(m))
}

/// SHA-256 applied twice.
pub fn sha256d(m: &[u8]) -> (r: Vec<u8>)
    ensures
        r@ == sha256d_of(m@),
        r@.len() == 32,
{
    let h = sha256(m);
    sha256(h.as_slice())
}

/// The BIP-340 tagged hash: SHA-256 over the tag's digest twice, then the
/// message.
pub open spec fn tagged_hash_of(tag: Seq<u8>, m: Seq<u8>) -> Seq<u8> {
    sha256_of(sha256_of(tag) + sha256_of(tag) + m)
}

/// The tags of Taproot's hashes.
#[derive(Clone, Copy, Debug, PartialEq, Eq)]
pub enum Tag {
    TapLeaf,
    TapBranch,
    TapTweak,
    TapSighash,
}

/// The ASCII bytes of a tag's name.
pub open spec fn tag_bytes(t: Tag) -> Seq<u8> {
    match t {
        // "TapLeaf"
        Tag::TapLeaf => seq![0x54u8, 0x61, 0x70, 0x4c, 0x65, 0x61, 0x66],
        // "TapBranch"
        Tag::TapBranch => seq![0x54u8, 0x61, 0x70, 0x42, 0x72, 0x61, 0x6e, 0x63, 0x68],
        // "TapTweak"
        Tag::TapTweak => seq![0x54u8, 0x61, 0x70, 0x54, 0x77, 0x65, 0x61, 0x6b],
        // "TapSighash"
        Tag::TapSighash => seq![0x54u8, 0x61, 0x70, 0x53, 0x69, 0x67, 0x68, 0x61, 0x73, 0x68],
    }
}

fn tag_name(t: Tag) -> (r: Vec<u8>)
    ensures
        r@ == tag_bytes(t),
{
    let r = match t {
        Tag::TapLeaf => vec![0x54u8, 0x61, 0x70, 0x4c, 0x65, 0x61, 0x66],
        Tag::TapBranch => vec![0x54u8, 0x61, 0x70, 0x42, 0x72, 0x61, 0x6e, 0x63, 0x68],
        Tag::TapTweak => vec![0x54u8, 0x61, 0x70, 0x54, 0x77, 0x65, 0x61, 0x6b],
        Tag::TapSighash => vec![0x54u8, 0x61, 0x70, 0x53, 0x69, 0x67, 0x68, 0x61, 0x73, 0x68],
    };
    assert(r@ =~= tag_bytes(t));
    r
}

/// The tagged hash of `m` under the tag `t`.
pub fn tagged_hash(t: Tag, m: &[u8]) -> (r: Vec<u8>)
    ensures
        r@ == tagged_hash_of(tag_bytes(t), m@),
        r@.len() == 32,
{
    let name = tag_name(t);
    let th = sha256(name.as_slice());
    let mut pre: Vec<u8> = Vec::new();
    crate::script::append_bytes(&mut pre, th.as_slice());
    crate::script::append_bytes(&mut pre, th.as_slice());
    crate::script::append_bytes(&mut pre, m);
    sha256(pre.as_slice())
}

} // verus!
