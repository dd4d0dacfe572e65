//! Viewing keys: the credential a user presents to read private records.
//!
//! Only the SHA-256 digest of a key is stored. A presented key is checked
//! by hashing it and comparing the digests in constant time.

use vstd::prelude::*;
use vstd::utf8::encode_utf8;

use crate::crypto::{base64_encode, base64_text, ct_slice_compare, sha256_digest, sha_256};
use crate::encoding::{append_bytes, be_bytes, to_be_bytes};
use crate::msg::Env;

verus! {

/// Length in bytes of a stored viewing key digest.
pub const VIEWING_KEY_SIZE: usize = 32;

/// The digest under which the key `key` is stored.
pub open spec fn key_hash(key: Seq<char>) -> Seq<u8> {
    sha256_digest(encode_utf8(key))
}

/// The bytes a fresh viewing key is derived from: the seed of the lottery,
/// height and time of the call as big-endian bytes, the caller and the
/// entropy the caller supplied.
pub open spec fn key_material(
    seed: Seq<u8>,
    height: u64,
    time: u64,
    sender: Seq<char>,
    entropy: Seq<char>,
) -> Seq<u8> {
    seed + be_bytes(height) + be_bytes(time) + encode_utf8(sender) + encode_utf8(entropy)
}

/// The text of the viewing key derived from `material`.
pub open spec fn key_text(material: Seq<u8>) -> Seq<char> {
    "api_key_"@ + base64_text(sha256_digest(material))
}

/// Whether a key presented as `presented` opens a record whose stored digest is `stored`.
pub open spec fn key_opens(stored: Option<[u8; 32]>, presented: Seq<char>) -> bool {
    stored matches Some(digest) && digest@ == key_hash(presented)
}

/// A viewing key in clear.
#[derive(Clone, Debug, PartialEq)]
pub struct ViewingKey(pub String);

impl ViewingKey {
    /// Derives a fresh key from the seed of the lottery, the call and the caller's entropy.
    pub fn new(env: &Env, seed: &[u8], entropy: &str) -> (key: ViewingKey)
        ensures
            key.0@ == key_text(key_material(seed@, env.height, env.time, env.sender@, entropy@)),
    {
        let mut material: Vec<u8> = Vec::new();
        append_bytes(&mut material, seed);
        let height = to_be_bytes(env.height);
        append_bytes(&mut material, height.as_slice());
        let time = to_be_bytes(env.time);
        append_bytes(&mut material, time.as_slice());
        append_bytes(&mut material, env.sender.as_str().as_bytes());
        append_bytes(&mut material, entropy.as_bytes());
        let digest = sha_256(material.as_slice());
        let encoded = base64_encode(digest.as_slice());
        let mut text = "api_key_".to_owned();
        text.append(encoded.as_str());
        ViewingKey(text)
    }

    /// The digest under which the key is stored.
    pub fn to_hashed(&self) -> (digest: [u8; 32])
        ensures
            digest@ == key_hash(self.0@),
    {
        sha_256(self.0.as_str().as_bytes())
    }

    /// Whether the key hashes to `hashed_pw`. The comparison takes the same
    /// time whether or not the digests agree.
    pub fn check_viewing_key(&self, hashed_pw: &[u8]) -> (matches: bool)
        ensures
            matches == (hashed_pw@ == key_hash(self.0@)),
    {
        let mine_hashed = self.to_hashed();
        ct_slice_compare(mine_hashed.as_slice(), hashed_pw)
    }
}

/// Whether `viewing_key` is the key whose digest is stored in `stored`.
///
/// When no digest is stored the presented key is still hashed and compared,
/// against a digest of zeros, so that the answer takes as long as for a wrong key.
pub fn is_key_valid(stored: &Option<[u8; 32]>, viewing_key: String) -> (valid: bool)
    ensures
        valid == key_opens(*stored, viewing_key@),
{
    let input_key = ViewingKey(viewing_key);
    match stored {
        Some(expected_key) => input_key.check_viewing_key(expected_key.as_slice()),
        None => {
            let blank = [0u8; 32];
            let _ = input_key.check_viewing_key(blank.as_slice());
            false
        },
    }
}

} // verus!
