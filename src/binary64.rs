use vstd::arithmetic::power2::{
    lemma2_to64, lemma2_to64_rest, lemma_pow2_adds, lemma_pow2_pos, lemma_pow2_strictly_increases,
    lemma_pow2_unfold, pow2,
};
use vstd::prelude::*;

verus! {

/// `n / d` rounded to the nearest whole number, a tie going to the even one.
pub open spec fn round_even(n: nat, d: nat) -> nat {
    let q = n / d;
    let r = n % d;
    if 2 * r > d || (2 * r == d && q % 2 == 1) {
        q + 1
    } else {
        q
    }
}

/// The `k` with `2^k * d <= n < 2^(k+1) * d` when `n >= d > 0` (zero when `n < 2 * d`).
pub open spec fn log2_ratio(n: nat, d: nat) -> nat
    decreases n - d,
{
    if d == 0 || n < 2 * d {
        0
    } else {
        1 + log2_ratio(n, 2 * d)
    }
}

/// The binary64 (`f64`) value nearest `n / d`, for a ratio of at least one and
/// far below the largest `f64`, written as a fraction `(num, den)`: a
/// significand of 53 bits, a tie going to the even significand.
pub open spec fn nearest_binary64(n: nat, d: nat) -> (nat, nat) {
    let k = log2_ratio(n, d);
    if k <= 52 {
        (round_even(n * pow2((52 - k) as nat), d), pow2((52 - k) as nat))
    } else {
        (round_even(n, d * pow2((k - 52) as nat)) * pow2((k - 52) as nat), 1)
    }
}

pub fn round_even_exec(n: u128, d: u128) -> (r: u128)
    requires
        d > 0,
        n < 0x8000_0000_0000_0000_0000_0000_0000_0000,
        d < 0x8000_0000_0000_0000_0000_0000_0000_0000,
    ensures
        r == round_even(n as nat, d as nat),
        r <= n / d + 1,
{
    let q = n / d;
    let rem = n % d;
    assert(q <= n) by (nonlinear_arith)
        requires
            q == n / d,
            d > 0,
    ;
    if 2 * rem > d || (2 * rem == d && q % 2 == 1) {
        q + 1
    } else {
        q
    }
}

fn pow2_exec(e: u32) -> (r: u128)
    requires
        e <= 64,
    ensures
        r == pow2(e as nat),
{
    proof {
        lemma2_to64();
        lemma2_to64_rest();
    }
    let mut p: u128 = 1;
    let mut i: u32 = 0;
    while i < e
        invariant
            i <= e <= 64,
            p == pow2(i as nat),
            pow2(63) == 0x8000_0000_0000_0000,
        decreases e - i,
    {
        proof {
            lemma_pow2_unfold((i + 1) as nat);
            if i < 63 {
                lemma_pow2_strictly_increases(i as nat, 63);
            }
        }
        p = p * 2;
        i = i + 1;
    }
    p
}

/// The binary64 value nearest `n / d`, as `nearest_binary64` gives it.
pub fn nearest_binary64_exec(n: u128, d: u128) -> (r: (u128, u128))
    requires
        1 <= d <= 0x1_0000_0000_0000_0000_0000_0000,
        n < 0x4_0000_0000_0000_0000,
    ensures
        r.0 as nat == nearest_binary64(n as nat, d as nat).0,
        r.1 as nat == nearest_binary64(n as nat, d as nat).1,
        1 <= r.1 <= 0x10_0000_0000_0000,
        r.0 <= 2 * n + 0x20_0000_0000_0000,
{
    proof {
        lemma2_to64();
        lemma2_to64_rest();
    }
    let mut dk: u128 = d;
    let mut k: u32 = 0;
    while n >= 2 * dk
        invariant
            1 <= d <= 0x1_0000_0000_0000_0000_0000_0000,
            n < 0x4_0000_0000_0000_0000,
            dk == d * pow2(k as nat),
            dk >= 1,
            pow2(k as nat) <= dk,
            k == 0 || dk <= n,
            dk <= 0x1_0000_0000_0000_0000_0000_0000,
            log2_ratio(n as nat, d as nat) == k + log2_ratio(n as nat, dk as nat),
            k <= 66,
        decreases n - dk,
    {
        let ghost old_k = k;
        let ghost old_dk = dk;
        assert(log2_ratio(n as nat, dk as nat) == 1 + log2_ratio(n as nat, (2 * dk) as nat));
        dk = 2 * dk;
        k = k + 1;
        proof {
            lemma_pow2_unfold(k as nat);
            assert(dk == d * pow2(k as nat)) by (nonlinear_arith)
                requires
                    dk == 2 * old_dk,
                    old_dk == d * pow2(old_k as nat),
                    pow2(k as nat) == 2 * pow2(old_k as nat),
            ;
            assert(pow2(k as nat) <= dk);
            if k > 66 {
                lemma_pow2_strictly_increases(66, k as nat);
                lemma_pow2_adds(64, 2);
                lemma2_to64();
            }
        }
    }
    proof {
        lemma_pow2_pos(k as nat);
        if k >= 66 {
            if k > 66 {
                lemma_pow2_strictly_increases(66, k as nat);
            }
            assert(pow2(66) == 4 * pow2(64)) by {
                lemma_pow2_adds(64, 2);
            }
        }
    }
    assert(k < 66);
    assert(log2_ratio(n as nat, dk as nat) == 0);
    if k <= 52 {
        let s: u32 = 52 - k;
        let p = pow2_exec(s);
        proof {
            if s < 52 {
                lemma_pow2_strictly_increases(s as nat, 52);
            }
            lemma_pow2_pos(s as nat);
            lemma_pow2_adds(k as nat, s as nat);
            lemma_pow2_adds(52, 1);
        }
        assert(n * p < 0x40_0000_0000_0000_0000_0000_0000_0000) by (nonlinear_arith)
            requires
                n < 0x4_0000_0000_0000_0000,
                p <= 0x10_0000_0000_0000,
        ;
        let m = n * p;
        let num = round_even_exec(m, d);
        assert(m < d * pow2(53)) by (nonlinear_arith)
            requires
                m == n * p,
                n < 2 * dk,
                dk == d * pow2(k as nat),
                p == pow2(s as nat),
                p >= 1,
                pow2(52) == pow2(k as nat) * pow2(s as nat),
                pow2(53) == pow2(52) * 2,
                d >= 1,
        ;
        assert(m / d < pow2(53)) by (nonlinear_arith)
            requires
                m < d * pow2(53),
                d >= 1,
        ;
        (num, p)
    } else {
        let t: u32 = k - 52;
        let p = pow2_exec(t);
        proof {
            lemma_pow2_adds(t as nat, 52);
            lemma_pow2_adds(52, 1);
            lemma_pow2_pos(t as nat);
        }
        assert(d * p <= dk) by (nonlinear_arith)
            requires
                dk == d * pow2(k as nat),
                p == pow2(t as nat),
                pow2(k as nat) == pow2(t as nat) * pow2(52),
                pow2(52) >= 1,
                d >= 1,
        ;
        let dd = d * p;
        assert(dd >= 1) by (nonlinear_arith)
            requires
                dd == d * p,
                d >= 1,
                p >= 1,
        ;
        let q = round_even_exec(n, dd);
        assert(dk == dd * pow2(52)) by (nonlinear_arith)
            requires
                dd == d * p,
                dk == d * pow2(k as nat),
                p == pow2(t as nat),
                pow2(k as nat) == pow2(t as nat) * pow2(52),
        ;
        assert(n / dd < pow2(53)) by (nonlinear_arith)
            requires
                n < 2 * dk,
                dk == dd * pow2(52),
                dd >= 1,
                pow2(53) == pow2(52) * 2,
        ;
        assert(q * p <= 2 * dk) by (nonlinear_arith)
            requires
                q <= pow2(53),
                dk == d * pow2(k as nat),
                p == pow2(t as nat),
                pow2(k as nat) == pow2(t as nat) * pow2(52),
                pow2(53) == pow2(52) * 2,
                d >= 1,
        ;
        (q * p, 1)
    }
}

} // verus!
