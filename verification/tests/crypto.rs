use lucky_number::contract::{handle, init, try_bet, try_create_key, try_set_key};
use lucky_number::encoding::{append_bytes, bytes_equal, decimal_string, to_be_bytes};
use lucky_number::entropy::{draw_seed, mix, push_entropy};
use lucky_number::msg::{Env, HandleAnswer, HandleMsg, InitMsg};
use lucky_number::state::{LotteryState, UserBetsStruct, UserRecord};
use lucky_number::viewing_key::{is_key_valid, ViewingKey, VIEWING_KEY_SIZE};
use sha2::{Digest, Sha256};

fn call(sender: &str, time: u64, height: u64) -> Env {
    Env {
        sender: sender.to_string(),
        time,
        height,
        contract_code_hash: "lottery-hash".to_string(),
    }
}

fn lottery(entropy: u64) -> LotteryState {
    let msg = InitMsg {
        entropy,
        triggerer_address: "trigger".to_string(),
        token_address: "token".to_string(),
        token_hash: "token-hash".to_string(),
        token_vk: "vk".to_string(),
        tier1_entry_fee: 10,
        tier1_triggerer_fee: 2,
        tier1_min_entries: 2,
        tier1_max_rand_number: 5,
        tier2_entry_fee: 50,
        tier2_triggerer_fee: 5,
        tier2_min_entries: 3,
        tier2_max_rand_number: 15,
        tier3_entry_fee: 100,
        tier3_triggerer_fee: 10,
        tier3_min_entries: 4,
        tier3_max_rand_number: 30,
    };
    init(&call("owner", 0, 0), msg).0
}

fn sha(data: &[u8]) -> Vec<u8> {
    Sha256::digest(data).to_vec()
}

#[test]
fn big_endian_bytes() {
    assert_eq!(to_be_bytes(0), [0; 8]);
    assert_eq!(to_be_bytes(1), [0, 0, 0, 0, 0, 0, 0, 1]);
    assert_eq!(to_be_bytes(0x0102030405060708), [1, 2, 3, 4, 5, 6, 7, 8]);
    assert_eq!(to_be_bytes(u64::MAX), [255; 8]);
    for value in [3u64, 255, 256, 65_535, 1 << 40, 0xdead_beef_0bad_f00d] {
        assert_eq!(to_be_bytes(value), value.to_be_bytes());
    }
}

#[test]
fn decimal_digits() {
    assert_eq!(decimal_string(0), b"0".to_vec());
    assert_eq!(decimal_string(7), b"7".to_vec());
    assert_eq!(decimal_string(10), b"10".to_vec());
    assert_eq!(decimal_string(1203), b"1203".to_vec());
    assert_eq!(decimal_string(u64::MAX), b"18446744073709551615".to_vec());
    for value in [9u64, 99, 100, 101, 4_294_967_296, 9_999_999_999] {
        assert_eq!(decimal_string(value), value.to_string().into_bytes());
    }
}

#[test]
fn appended_bytes_follow_the_old_ones() {
    let mut out = vec![1u8, 2];
    append_bytes(&mut out, &[3, 4, 5]);
    assert_eq!(out, vec![1, 2, 3, 4, 5]);
    append_bytes(&mut out, &[]);
    assert_eq!(out, vec![1, 2, 3, 4, 5]);
}

#[test]
fn byte_strings_compare_by_length_and_content() {
    assert!(bytes_equal(b"", b""));
    assert!(bytes_equal(b"tier1", b"tier1"));
    assert!(!bytes_equal(b"tier1", b"tier2"));
    assert!(!bytes_equal(b"tier1", b"tier"));
    assert!(!bytes_equal(b"tier", b"tier1"));
    assert!(!bytes_equal(b"xier1", b"tier1"));
}

#[test]
fn entropy_push_evicts_the_oldest_at_capacity() {
    let mut recent: Vec<u64> = Vec::new();
    for n in 1..=6u64 {
        push_entropy(&mut recent, n);
    }
    assert_eq!(recent, vec![1, 2, 3, 4, 5, 6]);
    push_entropy(&mut recent, 7);
    assert_eq!(recent, vec![2, 3, 4, 5, 6, 7]);
    push_entropy(&mut recent, 8);
    assert_eq!(recent, vec![3, 4, 5, 6, 7, 8]);
}

#[test]
fn viewing_key_seed_is_digest_of_base64_of_decimal_entropy() {
    let state = lottery(42);
    // "42" in base64 is "NDI="
    assert_eq!(base64::encode("42"), "NDI=");
    assert_eq!(state.config.prng_seed, sha(b"NDI="));
    let state = lottery(18_446_744_073_709_551_615);
    assert_eq!(
        state.config.prng_seed,
        sha(base64::encode("18446744073709551615").as_bytes())
    );
}

#[test]
fn draw_seed_hashes_base_then_fresh_then_recent_picks() {
    let mut state = lottery(42);
    let mut expected: Vec<u8> = Vec::new();
    expected.extend_from_slice(&42u64.to_be_bytes());
    expected.extend_from_slice(&7u64.to_be_bytes());
    assert_eq!(draw_seed(&state.config, 7).to_vec(), sha(&expected));
    // known digest of sixteen bytes: 0..0 42 0..0 7
    assert_ne!(draw_seed(&state.config, 7), draw_seed(&state.config, 8));

    let mut alice = UserBetsStruct::new();
    let mut bob = UserBetsStruct::new();
    try_bet(&mut state, &mut alice, &call("alice", 1, 1), 10, 3, 1).unwrap();
    try_bet(&mut state, &mut bob, &call("bob", 2, 1), 50, 12, 2).unwrap();
    expected.extend_from_slice(&3u64.to_be_bytes());
    expected.extend_from_slice(&12u64.to_be_bytes());
    assert_eq!(draw_seed(&state.config, 7).to_vec(), sha(&expected));
}

#[test]
fn draw_seed_of_empty_material_parts() {
    let state = lottery(0);
    // sixteen zero bytes
    let digest = draw_seed(&state.config, 0);
    assert_eq!(digest.to_vec(), sha(&[0u8; 16]));
    assert_eq!(
        digest[..4],
        [0x37, 0x47, 0x08, 0xff]
    );
}

#[test]
fn created_key_is_prefix_and_base64_of_digest() {
    let state = lottery(42);
    let mut user = UserRecord::new();
    let env = call("alice", 1_600_000_000, 99);
    let key = try_create_key(&state, &mut user, &env, "user entropy");
    let mut material: Vec<u8> = state.config.prng_seed.clone();
    material.extend_from_slice(&99u64.to_be_bytes());
    material.extend_from_slice(&1_600_000_000u64.to_be_bytes());
    material.extend_from_slice(b"alice");
    material.extend_from_slice(b"user entropy");
    let expected = format!("api_key_{}", base64::encode(sha(&material)));
    assert_eq!(key.0, expected);
    assert_eq!(ViewingKey::new(&env, &state.config.prng_seed, "user entropy"), key);
    assert_eq!(user.viewing_key.unwrap().to_vec(), sha(expected.as_bytes()));
    assert!(is_key_valid(&user.viewing_key, expected));
    assert_eq!(user.bets, UserBetsStruct::new());
    // other entropy, other key
    assert_ne!(ViewingKey::new(&env, &state.config.prng_seed, "other"), key);
}

#[test]
fn key_digest_is_sha256_of_its_text() {
    let key = ViewingKey("secret".to_string());
    assert_eq!(VIEWING_KEY_SIZE, 32);
    assert_eq!(key.to_hashed().to_vec(), sha(b"secret"));
    assert_eq!(
        key.to_hashed()[..4],
        [0x2b, 0xb8, 0x0d, 0x53]
    );
    assert!(key.check_viewing_key(&sha(b"secret")));
    assert!(!key.check_viewing_key(&sha(b"Secret")));
    assert!(!key.check_viewing_key(&sha(b"secret")[..31]));
    assert!(!key.check_viewing_key(b"secret"));
}

#[test]
fn key_check_for_unset_wrong_and_right_key() {
    let mut user = UserRecord::new();
    assert!(!is_key_valid(&user.viewing_key, "anything".to_string()));
    assert!(!is_key_valid(&user.viewing_key, String::new()));
    try_set_key(&mut user, "my key".to_string());
    assert_eq!(user.viewing_key.unwrap().to_vec(), sha(b"my key"));
    assert!(is_key_valid(&user.viewing_key, "my key".to_string()));
    assert!(!is_key_valid(&user.viewing_key, "my kez".to_string()));
    assert!(!is_key_valid(&user.viewing_key, String::new()));
    // a stored digest of zeros is not opened by an arbitrary key
    assert!(!is_key_valid(&Some([0u8; 32]), "my key".to_string()));
}

#[test]
fn handle_creates_and_sets_keys() {
    let mut state = lottery(42);
    let before = state.clone();
    let mut user = UserRecord::new();
    let env = call("alice", 5, 6);
    let response = handle(
        &mut state,
        &mut user,
        &env,
        HandleMsg::CreateViewingKey { entropy: "e".to_string(), padding: None },
        None,
    )
    .unwrap();
    let key = match response.data {
        Some(HandleAnswer::ViewingKey { key }) => key,
        _ => panic!("no key in the answer"),
    };
    assert!(key.starts_with("api_key_"));
    assert_eq!(key, ViewingKey::new(&env, &state.config.prng_seed, "e").0);
    assert!(is_key_valid(&user.viewing_key, key));
    handle(
        &mut state,
        &mut user,
        &env,
        HandleMsg::SetViewingKey { key: "chosen".to_string(), padding: None },
        None,
    )
    .unwrap();
    assert!(is_key_valid(&user.viewing_key, "chosen".to_string()));
    assert_eq!(state, before);
}

#[test]
fn mix_digests_the_inputs_joined_in_order() {
    let inputs = vec![b"ab".to_vec(), Vec::new(), b"cde".to_vec()];
    assert_eq!(mix(&inputs).to_vec(), sha(b"abcde"));
    let swapped = vec![b"cde".to_vec(), b"ab".to_vec()];
    assert_eq!(mix(&swapped).to_vec(), sha(b"cdeab"));
    assert_ne!(mix(&inputs), mix(&swapped));
    // the digest of no input at all
    let empty: Vec<Vec<u8>> = Vec::new();
    assert_eq!(
        mix(&empty)[..4],
        [0xe3, 0xb0, 0xc4, 0x42]
    );
    // the digest of "abc"
    assert_eq!(
        mix(&vec![b"abc".to_vec()])[..4],
        [0xba, 0x78, 0x16, 0xbf]
    );
}
