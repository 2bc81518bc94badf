use solana_vanity::matcher::{affix_matches, check_pattern_match, first_pattern_in, matches_encoded, MatchSpec};

fn some(s: &str) -> Option<String> {
    Some(s.to_string())
}

#[test]
fn prefix_and_suffix_must_both_hold() {
    assert!(affix_matches("ABcdefXY", &some("AB"), &some("XY")));
    assert!(!affix_matches("ABcdefXY", &some("AB"), &some("XZ")));
    assert!(!affix_matches("ABcdefXY", &some("AC"), &some("XY")));
    assert!(affix_matches("ABcdefXY", &some("AB"), &None));
    assert!(affix_matches("ABcdefXY", &None, &some("fXY")));
}

#[test]
fn empty_patterns_constrain_nothing() {
    assert!(affix_matches("Zq", &some(""), &some("")));
    assert!(affix_matches("", &some(""), &None));
    assert!(affix_matches("anything", &None, &None));
}

#[test]
fn pattern_longer_than_candidate_fails() {
    assert!(!affix_matches("AB", &some("ABC"), &None));
    assert!(!affix_matches("AB", &None, &some("xAB")));
    assert!(affix_matches("AB", &some("AB"), &some("AB")));
}

#[test]
fn case_sensitive_comparison_respects_case() {
    assert!(!matches_encoded("AbCDeFgh", &some("ab"), &None, true));
    assert!(matches_encoded("AbCDeFgh", &some("Ab"), &None, true));
}

#[test]
fn case_insensitive_prefix_matches() {
    assert!(matches_encoded("AbCDeFgh", &some("ab"), &None, false));
    assert!(matches_encoded("AbCDeFgh", &some("ABCD"), &some("FGH"), false));
    assert!(!matches_encoded("AbCDeFgh", &some("abd"), &None, false));
}

#[test]
fn case_insensitive_invariant_under_case_changes() {
    for (c, p, s) in [("AbCDeFgh", "ab", "GH"), ("ABCDEFGH", "AB", "gh"), ("abcdefgh", "aB", "gH")] {
        assert!(matches_encoded(c, &some(p), &some(s), false));
    }
}

#[test]
fn match_spec_matches_delegates() {
    let spec = MatchSpec::new(some("So"), some("na"), true);
    assert!(spec.matches("Solana"));
    assert!(!spec.matches("solana"));
    let loose = MatchSpec::new(some("so"), None, false);
    assert!(loose.matches("SOLANA"));
}

#[test]
fn public_key_is_matched_in_base58() {
    // Thirty-two zero bytes are written as thirty-two ones in base58.
    let zero = [0u8; 32];
    assert!(check_pattern_match(&zero, &some("1111"), &some("11"), true));
    assert!(!check_pattern_match(&zero, &some("0"), &None, true));
    assert!(!check_pattern_match(&zero, &some("111111111111111111111111111111111"), &None, true));
    assert!(check_pattern_match(&zero, &some("11111111111111111111111111111111"), &None, true));
}

#[test]
fn first_pattern_found_anywhere() {
    let pats = vec!["XYZ".to_string(), "123".to_string(), "ABC".to_string()];
    assert_eq!(first_pattern_in("ABC123XYZ456789", &pats, true), Some(0));
    assert_eq!(first_pattern_in("ABC12", &pats, true), Some(2));
    assert_eq!(first_pattern_in("abc12", &pats, true), None);
    assert_eq!(first_pattern_in("abc12", &pats, false), Some(2));
    assert_eq!(first_pattern_in("", &pats, false), None);
}

#[test]
fn empty_pattern_is_no_constraint_either_case() {
    for cs in [true, false] {
        assert!(matches_encoded("AbC", &Some(String::new()), &None, cs));
        assert!(matches_encoded("AbC", &Some(String::new()), &Some(String::new()), cs));
        assert!(matches_encoded("", &Some(String::new()), &None, cs));
        assert!(!matches_encoded("AbC", &Some(String::new()), &Some("x".to_string()), cs));
    }
}

#[test]
fn base58_text_follows_the_bitcoin_alphabet() {
    let bytes = [0x04u8, 0x30, 0x5e, 0x2b, 0x24, 0x73, 0xf0, 0x58];
    let word = Some("he11owor1d".to_string());
    assert!(check_pattern_match(&bytes, &word, &word, true));
    let padded = [0u8, 0x04, 0x30, 0x5e, 0x2b, 0x24, 0x73, 0xf0, 0x58];
    assert!(check_pattern_match(&padded, &Some("1he11owor1d".to_string()), &None, true));
    assert!(!check_pattern_match(&padded, &Some("1he11owor1d1".to_string()), &None, true));
}
