use vstd::prelude::*;

verus! {

use vstd::arithmetic::power::{
    pow, lemma_pow0, lemma_pow1, lemma_pow_adds, lemma_pow_increases, lemma_pow_multiplies,
    lemma_pow_mod_noop, lemma_square_is_pow2,
};
use vstd::arithmetic::div_mod::{
    lemma_add_mod_noop, lemma_fundamental_div_mod, lemma_mod_twice, lemma_mul_mod_noop_left,
    lemma_mul_mod_noop_right, lemma_small_mod, lemma_sub_mod_noop,
};
use vstd::arithmetic::mul::lemma_mul_upper_bound;

/// `b` raised to `e`, reduced modulo `m`.
pub open spec fn pow_mod_spec(b: int, e: nat, m: int) -> int {
    pow(b, e) % m
}

/// Computes `(a * b) % m` without overflow by widening to 128 bits.
pub fn mul_mod(a: u64, b: u64, m: u64) -> (r: u64)
    requires
        m > 0,
    ensures
        r == (a as int * b as int) % (m as int),
        r < m,
{
    proof {
        lemma_mul_upper_bound(a as int, 0xffff_ffff_ffff_ffff, b as int, 0xffff_ffff_ffff_ffff);
    }
    let wide: u128 = (a as u128) * (b as u128) % (m as u128);
    wide as u64
}

/// Modular exponentiation by repeated squaring.
pub fn mod_pow(base: u64, exp: u64, m: u64) -> (r: u64)
    requires
        m > 1,
    ensures
        r == pow_mod_spec(base as int, exp as nat, m as int),
        r < m,
{
    let mut result: u64 = 1;
    let mut b: u64 = base % m;
    let mut e: u64 = exp;
    proof {
        lemma_pow_mod_noop(base as int, exp as nat, m as int);
    }
    while e > 0
        invariant
            m > 1,
            result < m,
            b < m,
            (result as int * pow(b as int, e as nat)) % (m as int) == pow_mod_spec(
                base as int,
                exp as nat,
                m as int,
            ),
        decreases e,
    {
        let ghost result0 = result as int;
        let ghost b0 = b as int;
        let ghost e0 = e as nat;
        let ghost mi = m as int;
        if e % 2 == 1 {
            result = mul_mod(result, b, m);
        }
        let b_next = mul_mod(b, b, m);
        proof {
            let half = (e0 / 2) as nat;
            let sq = b0 * b0;
            lemma_square_is_pow2(b0);
            lemma_pow_multiplies(b0, 2, half);
            assert(pow(b0, (2 * half) as nat) == pow(sq, half));
            // pow(b_next, half) % m == pow(sq, half) % m
            lemma_pow_mod_noop(sq, half, mi);
            assert(pow(b_next as int, half) % mi == pow(sq, half) % mi);
            if e0 % 2 == 1 {
                assert(e0 == 2 * half + 1);
                lemma_pow_adds(b0, 1nat, (2 * half) as nat);
                lemma_pow1(b0);
                assert(pow(b0, e0) == b0 * pow(sq, half));
                let rb = result0 * b0;
                assert(result as int == rb % mi);
                lemma_mul_mod_noop_left(rb, pow(b_next as int, half), mi);
                lemma_mul_mod_noop_right(rb, pow(b_next as int, half), mi);
                lemma_mul_mod_noop_right(rb, pow(sq, half), mi);
                assert(rb * pow(sq, half) == result0 * pow(b0, e0)) by (nonlinear_arith)
                    requires
                        rb == result0 * b0,
                        pow(b0, e0) == b0 * pow(sq, half),
                ;
            } else {
                assert(e0 == 2 * half);
                assert(pow(b0, e0) == pow(sq, half));
                lemma_mul_mod_noop_right(result0, pow(b_next as int, half), mi);
                lemma_mul_mod_noop_right(result0, pow(sq, half), mi);
            }
        }
        b = b_next;
        e = e / 2;
    }
    proof {
        lemma_pow0(b as int);
        lemma_small_mod(result as nat, m as nat);
    }
    result
}

/// Multiples of `q` in the exponent vanish: if `g^q % p == 1` then raising `g`
/// to any `m * q` more steps leaves the residue unchanged.
proof fn lemma_pow_add_multiple(g: int, a: nat, m: nat, p: int, q: nat)
    requires
        p > 1,
        g >= 0,
        pow(g, q) % p == 1,
    ensures
        pow(g, (a + m * q) as nat) % p == pow(g, a) % p,
    decreases m,
{
    if m > 0 {
        let prev = (a + (m - 1) * q) as nat;
        lemma_pow_add_multiple(g, a, (m - 1) as nat, p, q);
        assert(a + m * q == prev + q) by (nonlinear_arith)
            requires
                m > 0,
                prev == a + (m - 1) * q,
        ;
        lemma_pow_adds(g, prev, q);
        lemma_mul_mod_noop_right(pow(g, prev), pow(g, q), p);
        assert(pow(g, prev) * 1 == pow(g, prev));
        lemma_mod_twice(pow(g, prev), p);
    }
}

/// Exponents congruent modulo `q` give the same residue modulo `p`, provided
/// `g^q % p == 1`.
pub proof fn lemma_pow_mod_congruence(g: int, a: nat, b: nat, p: int, q: nat)
    requires
        p > 1,
        q > 0,
        g >= 0,
        pow(g, q) % p == 1,
        (a as int) % (q as int) == (b as int) % (q as int),
    ensures
        pow(g, a) % p == pow(g, b) % p,
    decreases a,
{
    if a <= b {
        let qi = q as int;
        lemma_sub_mod_noop(b as int, a as int, qi);
        assert((b - a) % qi == 0int % qi);
        lemma_fundamental_div_mod(b - a, qi);
        let m = (b - a) / qi;
        assert(b - a == qi * m);
        assert(m >= 0) by (nonlinear_arith)
            requires
                qi > 0,
                b - a >= 0,
                b - a == qi * m,
        ;
        assert(b == a + (m as nat) * q) by (nonlinear_arith)
            requires
                b - a == qi * m,
                qi == q,
                m >= 0,
        ;
        lemma_pow_add_multiple(g, a, m as nat, p, q);
    } else {
        lemma_pow_mod_congruence(g, b, a, p, q);
    }
}

/// The honest response exponent: adding back `x * c` to
/// `s = (k - (x * c) % q) % q` restores `k` modulo `q`.
pub proof fn lemma_response_congruence(k: int, x: int, c: int, q: int)
    requires
        q > 0,
        k >= 0,
        x >= 0,
        c >= 0,
    ensures
        0 <= (k - (x * c) % q) % q < q,
        ((k - (x * c) % q) % q + x * c) % q == k % q,
{
    let t = (x * c) % q;
    let s = (k - t) % q;
    lemma_small_mod(0nat, q as nat);
    assert(0 <= t < q);
    assert(0 <= s < q);
    // s + x*c == (k - t) % q + x*c; reduce both sides modulo q.
    lemma_add_mod_noop(k - t, x * c, q);
    lemma_mod_twice(k - t, q);
    lemma_mod_twice(x * c, q);
    // ((k - t) % q + (x*c) % q) % q == ((k - t) + x*c) % q == (k + (x*c - t)) % q
    assert((s + x * c) % q == (s % q + (x * c) % q) % q) by {
        lemma_add_mod_noop(s, x * c, q);
        lemma_mod_twice(s, q);
    };
    assert((s % q + (x * c) % q) % q == ((k - t) + (x * c)) % q) by {
        lemma_mod_twice(k - t, q);
        lemma_add_mod_noop(k - t, x * c, q);
    };
    // (k - t) + x*c == k + q * ((x*c) / q)
    lemma_fundamental_div_mod(x * c, q);
    assert((k - t) + x * c == k + q * ((x * c) / q));
    lemma_mod_multiple_vanish(k, (x * c) / q, q);
}

/// Adding a multiple of the modulus does not change the remainder.
proof fn lemma_mod_multiple_vanish(a: int, m: int, q: int)
    requires
        q > 0,
    ensures
        (a + q * m) % q == a % q,
{
    vstd::arithmetic::div_mod::lemma_mod_multiples_vanish(m, a, q);
    assert(m * q + a == a + q * m) by (nonlinear_arith);
}

/// Computes `2^e` for exponents that fit a 64-bit result.
pub fn pow2_u64(e: u64) -> (r: u64)
    requires
        e <= 63,
    ensures
        r == pow(2, e as nat),
{
    let mut r: u64 = 1;
    let mut i: u64 = 0;
    proof {
        lemma_pow0(2);
    }
    while i < e
        invariant
            i <= e <= 63,
            r == pow(2, i as nat),
        decreases e - i,
    {
        proof {
            lemma_pow_increases(2, (i + 1) as nat, 63);
            assert(pow(2, 63) == 0x8000_0000_0000_0000) by {
                vstd::arithmetic::power2::lemma2_to64();
                vstd::arithmetic::power2::lemma2_to64_rest();
                vstd::arithmetic::power2::lemma_pow2(63);
            };
            lemma_pow_adds(2, i as nat, 1);
            lemma_pow1(2);
        }
        r = r * 2;
        i = i + 1;
    }
    r
}

} // verus!
