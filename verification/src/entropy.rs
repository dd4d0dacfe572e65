//! Aggregation of the entropy that seeds a draw.
//!
//! The seed of a draw is the SHA-256 digest of an ordered list of byte
//! strings: the entropy given at creation, the entropy the triggerer supplies
//! with the call, and the numbers of the most recent bets, oldest first.
//! Numbers are hashed as eight big-endian bytes each.

use vstd::prelude::*;

use crate::crypto::{sha256_digest, sha_256};
use crate::encoding::{append_bytes, be_bytes, to_be_bytes};
use crate::state::{ConfigState, ConfigView, ENTROPY_CAPACITY};

verus! {

/// The buffer of recent picks after `number` was pushed: the oldest entry
/// leaves once the buffer is at capacity.
pub open spec fn entropy_pushed(recent: Seq<u64>, number: u64) -> Seq<u64> {
    if recent.len() >= ENTROPY_CAPACITY {
        recent.drop_first().push(number)
    } else {
        recent.push(number)
    }
}

/// The byte strings of `inputs` joined in order.
pub open spec fn concat_all(inputs: Seq<Seq<u8>>) -> Seq<u8>
    decreases inputs.len(),
{
    if inputs.len() == 0 {
        Seq::empty()
    } else {
        concat_all(inputs.drop_last()) + inputs.last()
    }
}

/// The contents of a list of byte vectors.
pub open spec fn byte_strings(inputs: Seq<Vec<u8>>) -> Seq<Seq<u8>> {
    inputs.map_values(|bytes: Vec<u8>| bytes@)
}

/// The inputs of the seed of a draw, in the order in which they are hashed:
/// the entropy of the creation, the entropy of the call, the recent picks.
pub open spec fn seed_inputs(base: Seq<u8>, entropy: u64, recent: Seq<u64>) -> Seq<Seq<u8>> {
    seq![base, be_bytes(entropy)] + recent.map_values(|pick: u64| be_bytes(pick))
}

impl ConfigView {
    /// The seed of a draw triggered with `entropy`.
    pub open spec fn draw_seed(self, entropy: u64) -> Seq<u8> {
        sha256_digest(concat_all(seed_inputs(self.base_entropy, entropy, self.addition_entropy)))
    }
}

/// Adds `number` to the buffer of recent picks, evicting the oldest at capacity.
pub fn push_entropy(recent: &mut Vec<u64>, number: u64)
    ensures
        final(recent)@ == entropy_pushed(old(recent)@, number),
        final(recent)@.len() <= if old(recent)@.len() < ENTROPY_CAPACITY {
            old(recent)@.len() + 1
        } else {
            old(recent)@.len()
        },
{
    if recent.len() >= ENTROPY_CAPACITY {
        recent.remove(0);
        assert(recent@ =~= old(recent)@.drop_first());
    }
    recent.push(number);
}

/// Digests the byte strings of `seed_inputs`, joined in the order given, into 32 bytes.
pub fn mix(seed_inputs: &Vec<Vec<u8>>) -> (digest: [u8; 32])
    ensures
        digest@ == sha256_digest(concat_all(byte_strings(seed_inputs@))),
{
    let mut material: Vec<u8> = Vec::new();
    let mut i: usize = 0;
    while i < seed_inputs.len()
        invariant
            i <= seed_inputs@.len(),
            material@ == concat_all(byte_strings(seed_inputs@).take(i as int)),
        decreases seed_inputs@.len() - i,
    {
        proof {
            let inputs = byte_strings(seed_inputs@);
            assert(inputs.take(i + 1).drop_last() =~= inputs.take(i as int));
        }
        append_bytes(&mut material, seed_inputs[i].as_slice());
        i = i + 1;
    }
    assert(byte_strings(seed_inputs@).take(i as int) =~= byte_strings(seed_inputs@));
    sha_256(material.as_slice())
}

fn byte_vector(value: u64) -> (bytes: Vec<u8>)
    ensures
        bytes@ == be_bytes(value),
{
    let encoded = to_be_bytes(value);
    let mut bytes: Vec<u8> = Vec::new();
    append_bytes(&mut bytes, encoded.as_slice());
    bytes
}

/// Derives the 32-byte seed of a draw triggered with `entropy`.
pub fn draw_seed(config: &ConfigState, entropy: u64) -> (seed: [u8; 32])
    ensures
        seed@ == config@.draw_seed(entropy),
{
    let ghost expected = seed_inputs(config@.base_entropy, entropy, config@.addition_entropy);
    let mut inputs: Vec<Vec<u8>> = Vec::new();
    let mut base: Vec<u8> = Vec::new();
    append_bytes(&mut base, config.base_entropy.as_slice());
    inputs.push(base);
    inputs.push(byte_vector(entropy));
    assert(byte_strings(inputs@) =~= expected.take(2));
    let mut i: usize = 0;
    while i < config.addition_entropy.len()
        invariant
            i <= config.addition_entropy@.len(),
            expected == seed_inputs(config@.base_entropy, entropy, config@.addition_entropy),
            byte_strings(inputs@) == expected.take(2 + i),
        decreases config.addition_entropy@.len() - i,
    {
        let ghost before = byte_strings(inputs@);
        inputs.push(byte_vector(config.addition_entropy[i]));
        assert(byte_strings(inputs@) =~= before.push(be_bytes(config.addition_entropy@[i as int])));
        assert(byte_strings(inputs@) =~= expected.take(2 + i + 1));
        i = i + 1;
    }
    assert(expected.take(2 + i) =~= expected);
    mix(&inputs)
}

} // verus!
