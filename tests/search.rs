use ethaddrgen::address::{address_from_secret, generate};
use ethaddrgen::hex::to_hex_string;
use ethaddrgen::pattern_vec::PatternVec;
use ethaddrgen::search::{
    after_round, attempt, check_can_start, run_attempt, worker_step, AfterRound, AttemptCounter,
    ResultRendezvous, SearchError, SearchResult, WorkerStep,
};

fn key_one() -> [u8; 32] {
    let mut key = [0u8; 32];
    key[31] = 1;
    key
}

#[test]
fn hex_of_bytes() {
    assert_eq!(to_hex_string(&[0x00, 0x0f, 0xa0, 0xff], 8), "000fa0ff");
    assert_eq!(to_hex_string(&[], 0), "");
}

#[test]
fn address_of_known_key() {
    let address = address_from_secret(&key_one()).unwrap();
    assert_eq!(address, "7e5f4552091a69125d5dfcb7b8c2659029395bdf");
}

#[test]
fn address_of_key_is_deterministic() {
    let mut key = [0u8; 32];
    for (i, b) in key.iter_mut().enumerate() {
        *b = (i as u8).wrapping_mul(7).wrapping_add(1);
    }
    let a = address_from_secret(&key).unwrap();
    let b = address_from_secret(&key).unwrap();
    assert_eq!(a, b);
    assert_eq!(a.len(), 40);
}

#[test]
fn invalid_secret_keys_rejected() {
    assert!(address_from_secret(&[0u8; 32]).is_none());
    assert!(address_from_secret(&[0xffu8; 32]).is_none());
}

#[test]
fn generate_yields_matching_address() {
    let c = generate();
    assert_eq!(address_from_secret(&c.private_key).unwrap(), c.address);
    assert_eq!(c.address.len(), 40);
    assert!(c.address.chars().all(|ch| ch.is_ascii_hexdigit() && !ch.is_ascii_uppercase()));
}

#[test]
fn fresh_draws_differ() {
    let a = generate();
    let b = generate();
    assert_ne!(a.private_key, b.private_key);
    assert_ne!(a.address, b.address);
}

#[test]
fn counter_counts_and_resets() {
    let mut counter = AttemptCounter::new();
    counter.increment();
    counter.increment();
    assert_eq!(counter.sample_and_reset(), 2);
    assert_eq!(counter.sample_and_reset(), 0);
}

#[test]
fn new_round_counter_starts_at_zero() {
    let mut first = AttemptCounter::new();
    first.increment();
    let mut second = AttemptCounter::new();
    assert_eq!(second.sample_and_reset(), 0);
}

#[test]
fn rendezvous_last_claim_wins() {
    let mut r = ResultRendezvous::new();
    assert!(!r.peek());
    assert!(matches!(worker_step(&r), WorkerStep::Attempt));
    r.try_claim(SearchResult { address: "aa".to_string(), private_key: "01".to_string() });
    assert!(r.peek());
    assert!(matches!(worker_step(&r), WorkerStep::Stop));
    r.try_claim(SearchResult { address: "bb".to_string(), private_key: "02".to_string() });
    let result = r.into_result().unwrap();
    assert_eq!(result.address, "bb");
    assert_eq!(result.private_key, "02");
}

#[test]
fn attempt_claims_matching_candidate() {
    let (set, _) = PatternVec::new(false, &vec!["7e5f".to_string()]);
    let mut counter = AttemptCounter::new();
    let candidate = ethaddrgen::address::Candidate {
        private_key: key_one(),
        address: "7e5f4552091a69125d5dfcb7b8c2659029395bdf".to_string(),
    };
    let result = attempt(&set, candidate, &mut counter).unwrap();
    assert_eq!(result.address, "7e5f4552091a69125d5dfcb7b8c2659029395bdf");
    assert_eq!(result.private_key, format!("{}1", "0".repeat(63)));
    assert_eq!(counter.sample_and_reset(), 0);
}

#[test]
fn attempt_counts_miss() {
    let (set, _) = PatternVec::new(false, &vec!["0000".to_string()]);
    let mut counter = AttemptCounter::new();
    let candidate = ethaddrgen::address::Candidate {
        private_key: key_one(),
        address: "7e5f4552091a69125d5dfcb7b8c2659029395bdf".to_string(),
    };
    assert!(attempt(&set, candidate, &mut counter).is_none());
    assert_eq!(counter.sample_and_reset(), 1);
}

#[test]
fn every_digit_set_ends_round_on_first_attempt() {
    let digits: Vec<String> = "0123456789abcdef".chars().map(|c| c.to_string()).collect();
    let (set, _) = PatternVec::new(false, &digits);
    let mut counter = AttemptCounter::new();
    let result = run_attempt(&set, &mut counter).unwrap();
    assert_eq!(result.address.len(), 40);
    assert_eq!(result.private_key.len(), 64);
    assert_eq!(counter.sample_and_reset(), 0);
}

#[test]
fn empty_set_cannot_start() {
    let (set, _) = PatternVec::new(false, &vec!["nothex".to_string()]);
    assert_eq!(check_can_start(&set), Err(SearchError::EmptyPatternSet));
    let (set, _) = PatternVec::new(false, &vec!["ab".to_string()]);
    assert_eq!(check_can_start(&set), Ok(()));
}

#[test]
fn streaming_restarts_rounds() {
    assert!(matches!(after_round(true), AfterRound::Restart));
    assert!(matches!(after_round(false), AfterRound::Finish));
}
