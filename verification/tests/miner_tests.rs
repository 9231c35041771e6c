use standalone_miner::hashing::hash_with_fractal_salt;
use standalone_miner::miner::Miner;
use standalone_miner::target::get_target;
use standalone_miner::validate::validate_proof;

fn test_miner() -> Miner {
    Miner { address: String::from("test-miner"), hash_rate: 1000 }
}

fn combine(payload: &[u8], nonce: u64, salt: &[u8]) -> Vec<u8> {
    let mut input = Vec::from(payload);
    input.extend_from_slice(&nonce.to_le_bytes());
    hash_with_fractal_salt(&input, salt)
}

#[test]
fn mine_at_difficulty_zero_yields_valid_proof() {
    let payload = b"hello block";
    let salt = b"salt";
    let (nonce, digest) = test_miner().mine(payload, salt, 0).expect("search must hit");
    assert!(nonce < 1000, "difficulty 0 should be satisfied by an early nonce");
    assert!(validate_proof(&digest, &get_target(0)));
    assert_eq!(combine(payload, nonce, salt), digest);
}

#[test]
fn mine_end_to_end_empty_payload() {
    let payload = b"";
    let salt = b"test";
    let (nonce, digest) = test_miner().mine(payload, salt, 0).expect("search must hit");
    assert!(nonce < 1000, "difficulty 0 should be satisfied by an early nonce");
    let recomputed = combine(payload, nonce, salt);
    assert_eq!(recomputed, digest);
    assert!(validate_proof(&recomputed, &get_target(0)));
}

#[test]
fn mine_at_small_difficulty_verifies_independently() {
    let payload = b"block data";
    let salt = b"genesis-salt";
    let difficulty = 8;
    let (nonce, digest) = test_miner().mine(payload, salt, difficulty).expect("search must hit");
    let recomputed = combine(payload, nonce, salt);
    assert_eq!(recomputed, digest);
    assert!(validate_proof(&recomputed, &get_target(difficulty)));
    for earlier in 0..nonce {
        assert!(
            !validate_proof(&combine(payload, earlier, salt), &get_target(difficulty)),
            "an earlier nonce must not win"
        );
    }
}

#[test]
fn mine_is_deterministic() {
    let payload = b"same inputs";
    let salt = b"same salt";
    let a = test_miner().mine(payload, salt, 4);
    let b = test_miner().mine(payload, salt, 4);
    assert_eq!(a, b);
}
