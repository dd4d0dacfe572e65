//! The cryptographic primitives the engine relies on.
//!
//! Everything in this module is trusted: the contracts describe what the
//! called crates do and are not proved here.

use rand::Rng;
use rand_chacha::ChaCha20Rng;
use rand_core::SeedableRng;
use sha2::{Digest, Sha256};
use subtle::ConstantTimeEq;
use vstd::prelude::*;

verus! {

/// The SHA-256 digest of `data`.
pub uninterp spec fn sha256_digest(data: Seq<u8>) -> Seq<u8>;

/// The standard base64 text, with padding, of `data`.
pub uninterp spec fn base64_text(data: Seq<u8>) -> Seq<char>;

/// The ChaCha generator with 20 rounds of `rand_chacha`; its state is opaque here.
#[verifier::external_type_specification]
#[verifier::external_body]
pub struct ExChaCha20Rng(rand_chacha::ChaCha20Rng);

/// Calls `sha2::Sha256::digest`, the one-shot form of the hasher.
///
/// Claims that the returned array is the SHA-256 digest of `data`; the digest
/// itself is only named, not defined.
#[verifier::external_body]
pub(crate) fn sha_256(data: &[u8]) -> (digest: [u8; 32])
    ensures
        digest@ == sha256_digest(data@),
{
    Sha256::digest(data).into()
}

/// Calls `base64::encode`, which encodes with the standard alphabet and padding.
///
/// Claims that the returned string is the base64 text of `data`; the text
/// itself is only named, not defined.
#[verifier::external_body]
pub(crate) fn base64_encode(data: &[u8]) -> (text: String)
    ensures
        text@ == base64_text(data@),
{
    base64::encode(data)
}

/// Calls `subtle::ConstantTimeEq::ct_eq` on two byte slices.
///
/// Claims that the result tells whether the slices have the same length and
/// the same bytes. The call takes time that depends on the lengths only; that
/// is its purpose and is not part of the contract.
#[verifier::external_body]
pub(crate) fn ct_slice_compare(a: &[u8], b: &[u8]) -> (same: bool)
    ensures
        same == (a@ == b@),
{
    a.ct_eq(b).into()
}

/// Calls `rand_core::SeedableRng::from_seed` for `ChaCha20Rng`.
///
/// Nothing is claimed about the generator that comes back.
#[verifier::external_body]
pub(crate) fn rng_from_seed(seed: [u8; 32]) -> ChaCha20Rng {
    ChaCha20Rng::from_seed(seed)
}

/// Calls `rand::Rng::gen_range`, which samples from the half-open range
/// `[low, high)` and panics when the range is empty.
///
/// Claims only that the sample lies in the range.
#[verifier::external_body]
pub(crate) fn gen_range(rng: &mut ChaCha20Rng, low: u64, high: u64) -> (sample: u64)
    requires
        low < high,
    ensures
        low <= sample < high,
{
    rng.gen_range(low, high)
}

} // verus!
