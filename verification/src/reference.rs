//! Checking a computed hash against the `sha3` crate's implementation of the
//! same variant.

use sha3::Digest;
use vstd::prelude::*;
use vstd::string::StringSliceAdditionalSpecFns;

use crate::sha3_impl::sponge::{hex, to_hex};
use crate::sha3_impl::Sha3Variant;

verus! {

/// The digest that `sha3::Sha3_224` computes for a message.
pub uninterp spec fn sha3_224_reference(data: Seq<u8>) -> Seq<u8>;

/// The digest that `sha3::Sha3_256` computes for a message.
pub uninterp spec fn sha3_256_reference(data: Seq<u8>) -> Seq<u8>;

/// The digest that `sha3::Sha3_384` computes for a message.
pub uninterp spec fn sha3_384_reference(data: Seq<u8>) -> Seq<u8>;

/// The digest that `sha3::Sha3_512` computes for a message.
pub uninterp spec fn sha3_512_reference(data: Seq<u8>) -> Seq<u8>;

/// Calls `<sha3::Sha3_224 as Digest>::digest`. Claimed: the result is the
/// named reference digest of the message, 28 bytes long (the type's output
/// size `U28`).
#[verifier::external_body]
fn sha3_224_digest(data: &[u8]) -> (d: Vec<u8>)
    ensures
        d@ == sha3_224_reference(data@),
        d@.len() == 28,
{
    sha3::Sha3_224::digest(data).to_vec()
}

/// Calls `<sha3::Sha3_256 as Digest>::digest`. Claimed: the result is the
/// named reference digest of the message, 32 bytes long (output size `U32`).
#[verifier::external_body]
fn sha3_256_digest(data: &[u8]) -> (d: Vec<u8>)
    ensures
        d@ == sha3_256_reference(data@),
        d@.len() == 32,
{
    sha3::Sha3_256::digest(data).to_vec()
}

/// Calls `<sha3::Sha3_384 as Digest>::digest`. Claimed: the result is the
/// named reference digest of the message, 48 bytes long (output size `U48`).
#[verifier::external_body]
fn sha3_384_digest(data: &[u8]) -> (d: Vec<u8>)
    ensures
        d@ == sha3_384_reference(data@),
        d@.len() == 48,
{
    sha3::Sha3_384::digest(data).to_vec()
}

/// Calls `<sha3::Sha3_512 as Digest>::digest`. Claimed: the result is the
/// named reference digest of the message, 64 bytes long (output size `U64`).
#[verifier::external_body]
fn sha3_512_digest(data: &[u8]) -> (d: Vec<u8>)
    ensures
        d@ == sha3_512_reference(data@),
        d@.len() == 64,
{
    sha3::Sha3_512::digest(data).to_vec()
}

/// The `sha3` crate's digest of `data` for variant `v`.
pub open spec fn reference_digest(v: Sha3Variant, data: Seq<u8>) -> Seq<u8> {
    match v {
        Sha3Variant::Sha3_224 => sha3_224_reference(data),
        Sha3Variant::Sha3_256 => sha3_256_reference(data),
        Sha3Variant::Sha3_384 => sha3_384_reference(data),
        Sha3Variant::Sha3_512 => sha3_512_reference(data),
    }
}

/// Computes the `sha3` crate's digest of `data` for `variant`.
pub fn reference_digest_bytes(data: &[u8], variant: Sha3Variant) -> (d: Vec<u8>)
    ensures
        d@ == reference_digest(variant, data@),
{
    match variant {
        Sha3Variant::Sha3_224 => sha3_224_digest(data),
        Sha3Variant::Sha3_256 => sha3_256_digest(data),
        Sha3Variant::Sha3_384 => sha3_384_digest(data),
        Sha3Variant::Sha3_512 => sha3_512_digest(data),
    }
}

/// The `sha3` crate's digest of the bytes of `input`, in lowercase hex.
pub fn reference_hash_hex(input: &str, variant: Sha3Variant) -> (h: String)
    ensures
        h@ == hex(reference_digest(variant, input.spec_bytes())),
{
    let d = reference_digest_bytes(input.as_bytes(), variant);
    to_hex(d.as_slice())
}

/// Whether `our_hash` is exactly the lowercase hex rendering of the digest
/// bytes `expected`.
pub fn hash_matches(our_hash: &str, expected: &[u8]) -> (ok: bool)
    ensures
        ok == (our_hash@ == hex(expected@)),
{
    let expected_hex = to_hex(expected);
    let ours = String::from_str(our_hash);
    ours == expected_hex
}

/// Whether `our_hash` equals the `sha3` crate's digest of the bytes of
/// `input` for `variant`, in lowercase hex.
pub fn verify_hash_with_variant(our_hash: &str, input: &str, variant: Sha3Variant) -> (ok: bool)
    ensures
        ok == (our_hash@ == hex(reference_digest(variant, input.spec_bytes()))),
{
    let d = reference_digest_bytes(input.as_bytes(), variant);
    hash_matches(our_hash, d.as_slice())
}

} // verus!
