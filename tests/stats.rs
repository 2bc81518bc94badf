use solana_vanity::stats::{estimate_attempts_needed, format_attempts, pattern_length};

#[test]
fn small_counts_are_written_out() {
    assert_eq!(format_attempts(0), "0");
    assert_eq!(format_attempts(7), "7");
    assert_eq!(format_attempts(999), "999");
}

#[test]
fn thousands_millions_billions() {
    assert_eq!(format_attempts(1_000), "1.00K");
    assert_eq!(format_attempts(1_234), "1.23K");
    assert_eq!(format_attempts(1_500_000), "1.50M");
    assert_eq!(format_attempts(2_345_678_901), "2.35B");
    assert_eq!(format_attempts(999_999), "1000.00K");
    assert_eq!(format_attempts(u64::MAX), "18446744073.71B");
}

#[test]
fn estimate_grows_with_pattern_length() {
    assert_eq!(estimate_attempts_needed(&None, &None), 0);
    assert_eq!(estimate_attempts_needed(&Some("A".to_string()), &None), 40);
    assert_eq!(estimate_attempts_needed(&Some("A".to_string()), &Some("B".to_string())), 2331);
    assert_eq!(
        estimate_attempts_needed(&Some("ABCDEFGHIJK".to_string()), &None),
        17_315_744_292_114_717_689
    );
    assert_eq!(estimate_attempts_needed(&Some("ABCDEFGHIJKL".to_string()), &None), u64::MAX);
}

#[test]
fn pattern_length_counts_characters() {
    assert_eq!(pattern_length(&Some("abc".to_string()), &Some("de".to_string())), 5);
    assert_eq!(pattern_length(&None, &None), 0);
}

fn float_text(a: u64) -> String {
    if a >= 1_000_000_000 {
        format!("{:.2}B", a as f64 / 1_000_000_000.0)
    } else if a >= 1_000_000 {
        format!("{:.2}M", a as f64 / 1_000_000.0)
    } else if a >= 1_000 {
        format!("{:.2}K", a as f64 / 1_000.0)
    } else {
        a.to_string()
    }
}

#[test]
fn halfway_quotients_round_as_f64_does() {
    assert_eq!(format_attempts(1_005), "1.00K");
    assert_eq!(format_attempts(1_025), "1.02K");
    assert_eq!(format_attempts(1_125), "1.12K");
    assert_eq!(format_attempts(1_375), "1.38K");
    assert_eq!(format_attempts(2_675_000), "2.67M");
}

#[test]
fn agrees_with_float_formatting() {
    for a in 0..1_000_000u64 {
        assert_eq!(format_attempts(a), float_text(a), "{}", a);
    }
    for k in 0..200_000u64 {
        let a = 1_000_000 + k * 5_000;
        assert_eq!(format_attempts(a), float_text(a), "{}", a);
    }
    let mut x: u64 = 0x9E37_79B9_7F4A_7C15;
    for _ in 0..200_000 {
        x = x.wrapping_mul(6_364_136_223_846_793_005).wrapping_add(1_442_695_040_888_963_407);
        for a in [x, x >> 7, x >> 20, x >> 33, (x >> 40) * 5_000_000 + 5_000_000] {
            assert_eq!(format_attempts(a), float_text(a), "{}", a);
        }
    }
    for a in [
        (1u64 << 53) - 1,
        1u64 << 53,
        (1u64 << 53) + 1,
        (1u64 << 63) + 1025,
        u64::MAX - 1,
        u64::MAX,
        999_999_999,
        999_995_000,
        999_994_999,
    ] {
        assert_eq!(format_attempts(a), float_text(a), "{}", a);
    }
}

#[test]
fn estimate_agrees_with_float_formula() {
    for n in 0..=9usize {
        let p = "A".repeat(n);
        let prob = if n == 0 { 1.0 } else { 1.0 / 58f64.powi(n as i32) };
        let expected = (0.693 / prob) as u64;
        assert_eq!(estimate_attempts_needed(&Some(p), &None), expected, "length {}", n);
    }
}

#[test]
fn estimate_counts_pattern_bytes() {
    assert_eq!(estimate_attempts_needed(&Some("\u{e9}".to_string()), &None), 2331);
    assert_eq!(estimate_attempts_needed(&Some("\u{e9}".repeat(6)), &None), u64::MAX);
    assert_eq!(estimate_attempts_needed(&Some(String::new()), &None), 0);
    assert_eq!(pattern_length(&Some("\u{e9}".to_string()), &None), 2);
}
