use solana_vanity::keys::{generate_keypair_from_seed, generate_random_seeds, seeded_secret, KeyPair};
use solana_vanity::matcher::MatchSpec;
use solana_vanity::orchestrator::{Aggregator, Phase, Receipt};
use solana_vanity::search::{evaluate_candidate, pattern_label, Worker};

fn rfc8032_secret() -> [u8; 32] {
    [
        0x9d, 0x61, 0xb1, 0x9d, 0xef, 0xfd, 0x5a, 0x60, 0xba, 0x84, 0x4a, 0xf4, 0x92, 0xec, 0x2c, 0xc4,
        0x44, 0x49, 0xc5, 0x69, 0x7b, 0x32, 0x69, 0x19, 0x70, 0x3b, 0xac, 0x03, 0x1c, 0xae, 0x7f, 0x60,
    ]
}

fn rfc8032_public() -> Vec<u8> {
    vec![
        0xd7, 0x5a, 0x98, 0x01, 0x82, 0xb1, 0x0a, 0xb7, 0xd5, 0x4b, 0xfe, 0xd3, 0xc9, 0x64, 0x07, 0x3a,
        0x0e, 0xe1, 0x72, 0xf3, 0xda, 0xa6, 0x23, 0x25, 0xaf, 0x02, 0x1a, 0x68, 0xf7, 0x07, 0x51, 0x1a,
    ]
}

fn batch(n: u32) -> Vec<KeyPair> {
    (0..n).map(generate_keypair_from_seed).collect()
}

#[test]
fn secret_derives_its_public_key() {
    let kp = KeyPair::from_secret(rfc8032_secret());
    assert_eq!(kp.secret, rfc8032_secret().to_vec());
    assert_eq!(kp.public, rfc8032_public());
    let bytes = kp.to_bytes();
    assert_eq!(bytes.len(), 64);
    assert_eq!(&bytes[..32], &rfc8032_secret()[..]);
    assert_eq!(&bytes[32..], &rfc8032_public()[..]);
}

#[test]
fn seed_fills_the_first_four_bytes() {
    let secret = seeded_secret(0x0403_0201, [9u8; 32]);
    assert_eq!(&secret[..4], &[1, 2, 3, 4]);
    assert!(secret[4..].iter().all(|b| *b == 9));
    let kp = generate_keypair_from_seed(0xAABB_CCDD);
    assert_eq!(&kp.secret[..4], &[0xDD, 0xCC, 0xBB, 0xAA]);
    assert_eq!(kp.public, KeyPair::from_secret(kp.secret.clone().try_into().unwrap()).public);
}

#[test]
fn random_seeds_have_the_requested_count() {
    assert_eq!(generate_random_seeds(0).len(), 0);
    assert_eq!(generate_random_seeds(17).len(), 17);
}

#[test]
fn label_prefers_prefix_then_suffix() {
    assert_eq!(pattern_label(&MatchSpec::new(Some("ab".into()), Some("yz".into()), true)), "ab");
    assert_eq!(pattern_label(&MatchSpec::new(None, Some("yz".into()), true)), "yz");
    assert_eq!(pattern_label(&MatchSpec::new(None, None, true)), "random");
}

#[test]
fn matching_candidate_becomes_a_result() {
    let zero = KeyPair { secret: vec![0u8; 32], public: vec![0u8; 32] };
    let spec = MatchSpec::new(Some("111".into()), None, true);
    let r = evaluate_candidate(&spec, &zero, 42).expect("matches");
    assert_eq!(r.public_key, "1".repeat(32));
    assert_eq!(r.private_key, "1".repeat(64));
    assert_eq!(r.pattern_matched, "111");
    assert_eq!(r.attempts, 42);
    assert!(r.found_at.secs > 0);
    let other = MatchSpec::new(Some("2".into()), None, true);
    assert!(evaluate_candidate(&other, &zero, 42).is_none());
}

#[test]
fn random_mode_matches_every_candidate() {
    let spec = MatchSpec::new(None, None, true);
    let mut worker = Worker::new();
    let cands = batch(8);
    let found = worker.process_batch(&spec, &cands);
    assert_eq!(worker.evaluated, 8);
    assert_eq!(found.len(), 8);
    for (i, r) in found.iter().enumerate() {
        assert_eq!(r.attempts, i as u64 + 1);
        assert_eq!(r.pattern_matched, "random");
    }
    let more = worker.process_batch(&spec, &batch(2));
    assert_eq!(more[0].attempts, 9);
    assert_eq!(worker.evaluated, 10);
}

#[test]
fn worker_stamps_its_own_count() {
    let zero = KeyPair { secret: vec![0u8; 32], public: vec![0u8; 32] };
    let spec = MatchSpec::new(Some("1".into()), None, true);
    let mut worker = Worker { evaluated: 100 };
    let mut cands = batch(3);
    cands.push(zero);
    let found = worker.process_batch(&spec, &cands);
    assert_eq!(worker.evaluated, 104);
    let last = found.last().expect("the zero key matches");
    assert_eq!(last.attempts, 104);
    assert_eq!(last.public_key, "1".repeat(32));
}

#[test]
fn search_for_prefix_ab_finds_exactly_one() {
    let spec = MatchSpec::new(Some("AB".into()), None, true);
    let mut agg = Aggregator::start(Vec::new(), 1).expect("target is positive");
    let mut worker = Worker::new();
    let mut seed: u32 = 0;
    while agg.is_running() {
        let cands = batch_from(seed, 256);
        seed = seed.wrapping_add(256);
        for r in worker.process_batch(&spec, &cands) {
            if agg.receive(r) == Receipt::PersistAndStop {
                break;
            }
        }
    }
    assert_eq!(agg.phase, Phase::Draining);
    assert_eq!(agg.results.len(), 1);
    assert!(agg.results[0].public_key.starts_with("AB"));
    agg.finish();
    assert_eq!(agg.phase, Phase::Done);
}

fn batch_from(start: u32, n: u32) -> Vec<KeyPair> {
    (0..n).map(|k| generate_keypair_from_seed(start.wrapping_add(k))).collect()
}
