use solana_vanity::accelerator::{keypair_from_record, matched_records, KernelPatternArgs, KernelRecord, SeedLaunch};
use solana_vanity::keys::KeyPair;

#[test]
fn pattern_args_pad_empty_patterns() {
    let args = KernelPatternArgs::new("", "xyz", true);
    assert_eq!(args.prefix, vec![0u8]);
    assert_eq!(args.prefix_len, 0);
    assert_eq!(args.suffix, b"xyz".to_vec());
    assert_eq!(args.suffix_len, 3);
    assert_eq!(args.case_flag, 1);
    let loose = KernelPatternArgs::new("Ab", "", false);
    assert_eq!(loose.prefix, b"Ab".to_vec());
    assert_eq!(loose.suffix, vec![0u8]);
    assert_eq!(loose.suffix_len, 0);
    assert_eq!(loose.case_flag, 0);
}

#[test]
fn seed_launch_covers_the_batch() {
    let l = SeedLaunch::for_seeds(1_000_000);
    assert_eq!(l.base_seeds, 1024);
    assert_eq!(l.seeds_per_item, 4);
    assert_eq!(l.work_group_size, 256);
    assert_eq!(l.global_work_size, 250_112);
    assert_eq!(l.total_seeds, 1_000_000);
    let big = SeedLaunch::for_seeds(16_777_216);
    assert_eq!(big.base_seeds, 4096);
    assert_eq!(big.global_work_size, 4_194_304);
    assert_eq!(SeedLaunch::for_seeds(0).global_work_size, 0);
    assert_eq!(SeedLaunch::for_seeds(1).global_work_size, 256);
}

#[test]
fn blank_records_are_dropped() {
    let mut out = vec![0u8; 64 * 3];
    out[64] = 7; // public key of the second record
    out[64 + 32] = 9; // its secret
    out[128 + 40] = 1; // third record: secret only, public blank
    let recs = matched_records(&out, 3);
    assert_eq!(recs.len(), 1);
    assert_eq!(recs[0].public[0], 7);
    assert_eq!(recs[0].secret[0], 9);
    assert!(matched_records(&Vec::new(), 0).is_empty());
}

#[test]
fn record_keypair_falls_back_to_derivation() {
    let secret = [3u8; 32];
    let good = KeyPair::from_secret(secret);
    let rec = KernelRecord { public: good.public.clone(), secret: good.secret.clone() };
    assert_eq!(keypair_from_record(&rec).public, good.public);
    let bad = KernelRecord { public: vec![1u8; 32], secret: secret.to_vec() };
    let fixed = keypair_from_record(&bad);
    assert_eq!(fixed.secret, secret.to_vec());
    assert_eq!(fixed.public, good.public);
}
