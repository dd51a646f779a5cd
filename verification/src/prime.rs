use vstd::prelude::*;

verus! {

use vstd::arithmetic::power::{pow, lemma_pow0, lemma_pow1, lemma_pow_adds, lemma_pow_multiplies,
    lemma_pow_positive, lemma_square_is_pow2, lemma_pow_increases};
use vstd::arithmetic::div_mod::lemma_mul_mod_noop;
use crate::arith::{mod_pow, mul_mod, pow2_u64};
use crate::rng::rand_range_u64;

/// The odd factor `d` of `m = d * 2^s`.
pub open spec fn odd_factor(m: nat) -> nat
    decreases m,
{
    if m == 0 {
        0
    } else if m % 2 == 1 {
        m
    } else {
        odd_factor((m / 2) as nat)
    }
}

/// The exponent `s` of the largest power of two dividing `m`.
pub open spec fn two_exponent(m: nat) -> nat
    decreases m,
{
    if m == 0 || m % 2 == 1 {
        0
    } else {
        two_exponent((m / 2) as nat) + 1
    }
}

/// The value `a^(d * 2^r) mod n` examined by the witness loop, where
/// `d` is the odd factor of `n - 1`.
pub open spec fn mr_step(n: nat, a: nat, r: nat) -> int {
    pow(a as int, (odd_factor((n - 1) as nat) as int * pow(2, r)) as nat) % (n as int)
}

/// A single Miller-Rabin witness `a` fails to expose `n` as composite:
/// `a^d mod n` is `1` or `n - 1`, or some repeated squaring reaches `n - 1`
/// before the exponent returns to `n - 1` itself.
pub open spec fn mr_witness_passes(n: nat, a: nat) -> bool {
    ||| mr_step(n, a, 0) == 1
    ||| mr_step(n, a, 0) == n - 1
    ||| exists|r: nat|
        1 <= r < two_exponent((n - 1) as nat) && #[trigger] mr_step(n, a, r) == n - 1
}

/// Splits `m` into an odd factor and a power of two.
fn decompose(m: u64) -> (res: (u64, u32))
    requires
        m >= 1,
    ensures
        res.0 == odd_factor(m as nat),
        res.1 == two_exponent(m as nat),
{
    let mut d: u64 = m;
    let mut s: u32 = 0;
    proof {
        lemma_pow0(2);
    }
    while d % 2 == 0
        invariant
            1 <= d <= m,
            m as int == d as int * pow(2, s as nat),
            odd_factor(m as nat) == odd_factor(d as nat),
            two_exponent(m as nat) == two_exponent(d as nat) + s,
            s <= 63,
        decreases d,
    {
        proof {
            lemma_pow_adds(2, s as nat, 1);
            lemma_pow1(2);
            assert(d as int / 2 * pow(2, (s + 1) as nat) == d as int * pow(2, s as nat))
                by (nonlinear_arith)
                requires
                    d % 2 == 0,
                    d >= 2,
                    pow(2, (s + 1) as nat) == pow(2, s as nat) * 2,
            ;
            // s stays below 64: otherwise 2^s alone would exceed the range of m
            if s >= 63 {
                lemma_pow_increases(2, 64, (s + 1) as nat);
                assert(pow(2, 64) == 0x1_0000_0000_0000_0000) by {
                    vstd::arithmetic::power2::lemma2_to64();
                    vstd::arithmetic::power2::lemma2_to64_rest();
                    vstd::arithmetic::power2::lemma_pow2(64);
                };
                assert(d as int / 2 >= 1);
                assert(d as int / 2 * pow(2, (s + 1) as nat) >= pow(2, (s + 1) as nat))
                    by (nonlinear_arith)
                    requires
                        d as int / 2 >= 1,
                        pow(2, (s + 1) as nat) > 0,
                ;
                assert(false);
            }
        }
        d = d / 2;
        s = s + 1;
    }
    (d, s)
}

/// Runs one Miller-Rabin witness check, exactly deciding `mr_witness_passes`.
pub fn mr_round(n: u64, d: u64, s: u32, a: u64) -> (passes: bool)
    requires
        n >= 4,
        d == odd_factor((n - 1) as nat),
        s == two_exponent((n - 1) as nat),
    ensures
        passes == mr_witness_passes(n as nat, a as nat),
{
    let mut x: u64 = mod_pow(a, d, n);
    proof {
        lemma_pow0(2);
        lemma_pow1(2);
        assert(d as int * pow(2, 0) == d as int);
        assert(x == mr_step(n as nat, a as nat, 0));
    }
    if x == 1 || x == n - 1 {
        return true;
    }
    let mut i: u32 = 0;
    while i + 1 < s
        invariant
            n >= 4,
            d == odd_factor((n - 1) as nat),
            s == two_exponent((n - 1) as nat),
            i < s || i == 0,
            x < n,
            x == mr_step(n as nat, a as nat, i as nat),
            mr_step(n as nat, a as nat, 0) != 1,
            mr_step(n as nat, a as nat, 0) != n - 1,
            forall|r: nat| 1 <= r <= i ==> #[trigger] mr_step(n as nat, a as nat, r) != n - 1,
        decreases s - i,
    {
        let ghost i0 = i as nat;
        x = mul_mod(x, x, n);
        i = i + 1;
        proof {
            let di = d as int;
            let ni = n as int;
            let e_prev = (di * pow(2, i0)) as nat;
            let e_next = (di * pow(2, (i0 + 1) as nat)) as nat;
            lemma_pow_positive(2, i0);
            lemma_pow_adds(2, i0, 1);
            lemma_pow1(2);
            assert(di * pow(2, (i0 + 1) as nat) == (di * pow(2, i0)) * 2) by (nonlinear_arith)
                requires
                    pow(2, (i0 + 1) as nat) == pow(2, i0) * 2,
            ;
            lemma_pow_multiplies(a as int, e_prev, 2);
            lemma_square_is_pow2(pow(a as int, e_prev));
            assert(pow(a as int, e_next) == pow(a as int, e_prev) * pow(a as int, e_prev));
            lemma_mul_mod_noop(pow(a as int, e_prev), pow(a as int, e_prev), ni);
            assert(x == mr_step(n as nat, a as nat, (i0 + 1) as nat));
        }
        if x == n - 1 {
            return true;
        }
    }
    proof {
        if mr_witness_passes(n as nat, a as nat) {
            let r = choose|r: nat|
                1 <= r < two_exponent((n - 1) as nat) && #[trigger] mr_step(n as nat, a as nat, r)
                    == n - 1;
            assert(1 <= r <= i);
        }
    }
    false
}

/// Miller-Rabin probabilistic primality test with `k` independently sampled
/// witnesses, as decided by `mr_witness_passes`. A `false` answer always
/// exhibits a failing witness; `true` means no sampled witness failed.
pub fn miller_rabin_primality_test(n: u64, k: i64) -> (probably_prime: bool)
    ensures
        n <= 1 ==> !probably_prime,
        1 < n <= 3 ==> probably_prime,
        n > 3 && k <= 0 ==> probably_prime,
        !probably_prime && n > 1 ==> n > 3 && exists|a: nat|
            2 <= a <= n - 2 && !#[trigger] mr_witness_passes(n as nat, a),
{
    if n <= 1 {
        return false;
    }
    if n <= 3 {
        return true;
    }
    let (d, s) = decompose(n - 1);
    let mut i: i64 = 0;
    while i < k
        invariant
            0 <= i,
            n >= 4,
            d == odd_factor((n - 1) as nat),
            s == two_exponent((n - 1) as nat),
        decreases k - i,
    {
        let a = rand_range_u64(2, n - 1);
        if !mr_round(n, d, s, a) {
            proof {
                assert(2 <= a as nat <= n - 2 && !mr_witness_passes(n as nat, a as nat));
            }
            return false;
        }
        i = i + 1;
    }
    true
}

/// Samples random odd candidates of the requested bit width until one passes
/// Miller-Rabin, within a fixed trial budget; `None` if the budget runs out.
pub fn n_bit_prime(bits: u64) -> (res: Option<u64>)
    requires
        2 <= bits <= 62,
    ensures
        res matches Some(p) ==> 3 <= p < pow(2, bits as nat) && p % 2 == 1,
{
    let bound = pow2_u64(bits);
    let half = bound / 2;
    proof {
        lemma_pow_positive(2, bits as nat);
        lemma_pow_adds(2, 1, (bits - 1) as nat);
        lemma_pow1(2);
        lemma_pow_increases(2, 1, (bits - 1) as nat);
        assert(bound % 2 == 0 && bound >= 4);
    }
    let mut attempts: u64 = 0;
    let budget: u64 = 64 * bits;
    while attempts < budget
        invariant
            half == bound as int / 2,
            bound == pow(2, bits as nat),
            bound % 2 == 0,
            bound >= 4,
        decreases budget - attempts,
    {
        let candidate = 2 * rand_range_u64(0, half) + 1;
        if miller_rabin_primality_test(candidate, 5) {
            return Some(candidate);
        }
        attempts = attempts + 1;
    }
    None
}

} // verus!

