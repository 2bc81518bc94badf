use vstd::prelude::*;

use vstd::utf8::encode_utf8;

use crate::binary64::{nearest_binary64, nearest_binary64_exec, round_even, round_even_exec};
use crate::matcher::opt_view;
use crate::text::{decimal, digit, digit_char, push_decimal, string_from_chars};

verus! {

/// `a / unit` in hundredths as `format!("{:.2}", a as f64 / unit as f64)`
/// gives it: `a` becomes the nearest `f64`, the quotient is the `f64` nearest
/// that divided by `unit`, and its exact value is rounded to hundredths with
/// a tie going to the even digit.
pub open spec fn hundredths(a: nat, unit: nat) -> nat
    recommends
        unit > 0,
{
    let x = nearest_binary64(a, 1);
    let q = nearest_binary64(x.0, x.1 * unit);
    round_even(q.0 * 100, q.1)
}

/// `a / unit` written with two decimals, then the unit's letter.
pub open spec fn scaled(a: nat, unit: nat, tag: char) -> Seq<char> {
    let h = hundredths(a, unit);
    decimal(h / 100) + seq!['.', digit_char((h % 100) / 10), digit_char(h % 10), tag]
}

/// A count of attempts in short form: billions, millions and thousands get
/// two decimals and the letter `B`, `M` or `K`; smaller counts are written out.
pub open spec fn attempts_text(a: nat) -> Seq<char> {
    if a >= 1_000_000_000 {
        scaled(a, 1_000_000_000, 'B')
    } else if a >= 1_000_000 {
        scaled(a, 1_000_000, 'M')
    } else if a >= 1_000 {
        scaled(a, 1_000, 'K')
    } else {
        decimal(a)
    }
}

fn push_scaled(out: &mut Vec<char>, a: u64, unit: u64, tag: char)
    requires
        1 <= unit <= 1_000_000_000,
    ensures
        final(out)@ == old(out)@ + scaled(a as nat, unit as nat, tag),
{
    let x = nearest_binary64_exec(a as u128, 1);
    assert(x.1 * unit <= 0x10_0000_0000_0000 * 1_000_000_000) by (nonlinear_arith)
        requires
            1 <= x.1 <= 0x10_0000_0000_0000,
            1 <= unit <= 1_000_000_000,
    ;
    assert(x.1 * unit >= 1) by (nonlinear_arith)
        requires
            1 <= x.1,
            1 <= unit,
    ;
    let q = nearest_binary64_exec(x.0, x.1 * unit as u128);
    let h = round_even_exec(q.0 * 100, q.1);
    let ghost hs = hundredths(a as nat, unit as nat);
    assert(h == hs);
    let whole: u128 = h / 100;
    let frac: u64 = (h % 100) as u64;
    push_decimal(out, whole);
    assert(out@ == old(out)@ + decimal(hs / 100));
    out.push('.');
    out.push(digit(frac / 10));
    out.push(digit(frac % 10));
    out.push(tag);
    assert(frac / 10 == (hs % 100) / 10);
    assert(frac % 10 == hs % 10);
    assert(out@ =~= old(out)@ + scaled(a as nat, unit as nat, tag));
}

/// Renders an attempt count for people: `1.50B`, `2.35M`, `1.00K`, `999`.
pub fn format_attempts(attempts: u64) -> (r: String)
    ensures
        r@ == attempts_text(attempts as nat),
{
    let mut out: Vec<char> = Vec::new();
    if attempts >= 1_000_000_000 {
        push_scaled(&mut out, attempts, 1_000_000_000, 'B');
    } else if attempts >= 1_000_000 {
        push_scaled(&mut out, attempts, 1_000_000, 'M');
    } else if attempts >= 1_000 {
        push_scaled(&mut out, attempts, 1_000, 'K');
    } else {
        push_decimal(&mut out, attempts as u128);
    }
    assert(out@ =~= attempts_text(attempts as nat));
    string_from_chars(&out)
}

/// `58` to the power `n`: the number of base58 strings of `n` characters.
pub open spec fn pow58(n: nat) -> nat
    decreases n,
{
    if n == 0 {
        1
    } else {
        58 * pow58((n - 1) as nat)
    }
}

/// The length of a pattern in bytes of UTF-8 (what `str::len` gives); an
/// absent pattern has none.
pub open spec fn pattern_bytes(p: Option<Seq<char>>) -> nat {
    match p {
        Some(p) => encode_utf8(p).len(),
        None => 0,
    }
}

/// Attempts after which a match is more likely than not: `0.693 * 58^n`,
/// rounded down, for patterns of `n` bytes in all, and `u64::MAX` where that does not fit.
pub open spec fn attempts_estimate(n: nat) -> nat {
    let e = 693 * pow58(n) / 1000;
    if e > u64::MAX {
        u64::MAX as nat
    } else {
        e
    }
}

proof fn lemma_pow58_monotonic(a: nat, b: nat)
    requires
        a <= b,
    ensures
        pow58(a) <= pow58(b),
    decreases b,
{
    if a < b {
        lemma_pow58_monotonic(a, (b - 1) as nat);
    }
}

fn optional_bytes(p: &Option<String>) -> (r: usize)
    ensures
        r == pattern_bytes(opt_view(*p)),
{
    match p {
        Some(s) => s.as_str().as_bytes().len(),
        None => 0,
    }
}

/// The byte length of the two patterns together (saturating at `usize::MAX`).
pub fn pattern_length(starts_with: &Option<String>, ends_with: &Option<String>) -> (r: usize)
    ensures
        r == if pattern_bytes(opt_view(*starts_with)) + pattern_bytes(opt_view(*ends_with))
            > usize::MAX {
            usize::MAX as int
        } else {
            pattern_bytes(opt_view(*starts_with)) + pattern_bytes(opt_view(*ends_with)) as int
        },
{
    optional_bytes(starts_with).saturating_add(optional_bytes(ends_with))
}

/// The attempts after which a match of the patterns is more likely than not.
pub fn estimate_attempts_needed(starts_with: &Option<String>, ends_with: &Option<String>) -> (r:
    u64)
    ensures
        r == attempts_estimate(
            pattern_bytes(opt_view(*starts_with)) + pattern_bytes(opt_view(*ends_with)),
        ),
{
    let n = pattern_length(starts_with, ends_with);
    let ghost total = pattern_bytes(opt_view(*starts_with)) + pattern_bytes(opt_view(*ends_with));
    proof {
        reveal_with_fuel(pow58, 13);
        assert(pow58(12) == 1449225352009601191936);
    }
    if n > 12 {
        proof {
            lemma_pow58_monotonic(12, total);
        }
        return u64::MAX;
    }
    let mut p: u128 = 1;
    let mut i: usize = 0;
    while i < n
        invariant
            i <= n <= 12,
            p == pow58(i as nat),
            n == total,
            pow58(12) == 1449225352009601191936,
        decreases n - i,
    {
        proof {
            lemma_pow58_monotonic((i + 1) as nat, 12);
        }
        p = p * 58;
        i = i + 1;
    }
    let e: u128 = p * 693 / 1000;
    if e > u64::MAX as u128 {
        u64::MAX
    } else {
        e as u64
    }
}

} // verus!
