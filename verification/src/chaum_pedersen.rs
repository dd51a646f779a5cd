use vstd::prelude::*;

verus! {

use vstd::arithmetic::power::{pow, lemma_pow_adds, lemma_pow_multiplies, lemma_pow_mod_noop};
use vstd::arithmetic::div_mod::{
    lemma_add_mod_noop, lemma_mod_add_multiples_vanish, lemma_mod_twice, lemma_mul_mod_noop,
    lemma_small_mod,
};
use crate::arith::{mod_pow, mul_mod, pow_mod_spec, lemma_pow_mod_congruence,
    lemma_response_congruence};
use crate::generator::{Generator, get_default, default_group};
use crate::rng::rand_range_u64;

/// The normalized honest response: `(k - x * c mod q) mod q`, in `[0, q)`.
pub open spec fn response_spec(k: int, x: int, c: int, q: int) -> int {
    (k - (x * c) % q) % q
}

/// The quantity the verifier recomputes: `base^s * y^c mod p`.
pub open spec fn combine_spec(base: int, y: int, s: nat, c: nat, p: int) -> int {
    (pow_mod_spec(base, s, p) * pow_mod_spec(y, c, p)) % p
}

/// A key pair: the secret exponent `x` and the two public commitments
/// `y1 = g^x mod p`, `y2 = h^x mod p`.
#[derive(Clone, Copy, PartialEq, Eq, Structural, Debug)]
pub struct KeyPair {
    pub x: u64,
    pub y1: u64,
    pub y2: u64,
}

impl KeyPair {
    /// Generates a key pair with a freshly sampled secret `x` in `[1, p)`.
    pub fn new(g: u64, h: u64, p: u64) -> (kp: KeyPair)
        requires
            p > 1,
        ensures
            1 <= kp.x < p,
            kp.y1 == pow_mod_spec(g as int, kp.x as nat, p as int),
            kp.y2 == pow_mod_spec(h as int, kp.x as nat, p as int),
    {
        let x = rand_range_u64(1, p);
        KeyPair::from_secret(g, h, p, x)
    }

    /// Builds the key pair for a caller-chosen secret.
    pub fn from_secret(g: u64, h: u64, p: u64, x: u64) -> (kp: KeyPair)
        requires
            p > 1,
            1 <= x < p,
        ensures
            kp.x == x,
            kp.y1 == pow_mod_spec(g as int, x as nat, p as int),
            kp.y2 == pow_mod_spec(h as int, x as nat, p as int),
    {
        let y1 = mod_pow(g, x, p);
        let y2 = mod_pow(h, x, p);
        KeyPair { x, y1, y2 }
    }
}

/// Prover side of the protocol. `commit` (`prove_sync_a`) samples a fresh
/// ephemeral `k` and sends `(r1, r2)`; `respond` (`prove_sync_b`) answers a
/// challenge `c` with `s = (k - x * c mod q) mod q`.
#[derive(Clone, Copy, PartialEq, Eq, Structural, Debug)]
pub struct ChaumPedersenProver {
    pub g: Generator,
    pub kp: KeyPair,
    pub k: u64,
    pub r1: u64,
    pub r2: u64,
    pub c: u64,
    pub s: u64,
}

impl ChaumPedersenProver {
    /// A prover over the default demonstration group with a random secret.
    pub fn new() -> (prover: ChaumPedersenProver)
        ensures
            prover.g == default_group(),
            1 <= prover.kp.x < prover.g.p,
            prover.kp.y1 == pow_mod_spec(
                prover.g.g as int,
                prover.kp.x as nat,
                prover.g.p as int,
            ),
            prover.kp.y2 == pow_mod_spec(
                prover.g.h as int,
                prover.kp.x as nat,
                prover.g.p as int,
            ),
            prover.k == 0 && prover.r1 == 0 && prover.r2 == 0 && prover.c == 0 && prover.s == 0,
    {
        let g = get_default();
        let kp = KeyPair::new(g.g, g.h, g.p);
        ChaumPedersenProver { g, kp, k: 0, r1: 0, r2: 0, c: 0, s: 0 }
    }

    /// A prover over the default demonstration group with a chosen secret.
    pub fn with_secret(x: u64) -> (prover: ChaumPedersenProver)
        requires
            1 <= x < default_group().p,
        ensures
            prover.g == default_group(),
            prover.kp.x == x,
            prover.kp.y1 == pow_mod_spec(
                prover.g.g as int,
                prover.kp.x as nat,
                prover.g.p as int,
            ),
            prover.kp.y2 == pow_mod_spec(
                prover.g.h as int,
                prover.kp.x as nat,
                prover.g.p as int,
            ),
            prover.k == 0 && prover.r1 == 0 && prover.r2 == 0 && prover.c == 0 && prover.s == 0,
    {
        let g = get_default();
        let kp = KeyPair::from_secret(g.g, g.h, g.p, x);
        ChaumPedersenProver { g, kp, k: 0, r1: 0, r2: 0, c: 0, s: 0 }
    }

    /// The commitment move: samples a fresh ephemeral `k` in `[1, p - 2)`,
    /// discarding any earlier exchange, and returns
    /// `(g^k mod p, h^k mod p)`.
    pub fn prove_sync_a(&mut self) -> (r: (u64, u64))
        requires
            old(self).g.p > 3,
        ensures
            final(self).g == old(self).g,
            final(self).kp == old(self).kp,
            final(self).c == old(self).c,
            final(self).s == old(self).s,
            1 <= final(self).k < old(self).g.p - 2,
            final(self).r1 == pow_mod_spec(
                old(self).g.g as int,
                final(self).k as nat,
                old(self).g.p as int,
            ),
            final(self).r2 == pow_mod_spec(
                old(self).g.h as int,
                final(self).k as nat,
                old(self).g.p as int,
            ),
            r == (final(self).r1, final(self).r2),
    {
        self.k = rand_range_u64(1, self.g.p - 2);
        self.r1 = mod_pow(self.g.g, self.k, self.g.p);
        self.r2 = mod_pow(self.g.h, self.k, self.g.p);
        (self.r1, self.r2)
    }

    /// The response move: answers challenge `c` with the normalized
    /// `s = (k - x * c mod q) mod q`. The caller must have committed first;
    /// `k` is whatever the last commitment stored.
    pub fn prove_sync_b(&mut self, c: u64) -> (s: u64)
        requires
            old(self).g.q >= 1,
        ensures
            final(self).g == old(self).g,
            final(self).kp == old(self).kp,
            final(self).k == old(self).k,
            final(self).r1 == old(self).r1,
            final(self).r2 == old(self).r2,
            final(self).c == c,
            final(self).s == s,
            s == response_spec(
                old(self).k as int,
                old(self).kp.x as int,
                c as int,
                old(self).g.q as int,
            ),
            s < old(self).g.q,
    {
        let q = self.g.q;
        let t = mul_mod(self.kp.x, c, q);
        let reduced = self.k % q;
        let s = (((reduced as u128) + (q as u128) - (t as u128)) % (q as u128)) as u64;
        proof {
            let ki = self.k as int;
            let xi = self.kp.x as int;
            let ci = c as int;
            let qi = q as int;
            let ti = (xi * ci) % qi;
            lemma_small_mod(0nat, q as nat);
            // (k % q + (q - t)) % q == (k + (q - t)) % q
            lemma_add_mod_noop(ki, qi - ti, qi);
            lemma_mod_twice(ki, qi);
            if ti == 0 {
                assert((qi - ti) % qi == 0) by {
                    lemma_mod_add_multiples_vanish(0, qi);
                };
            } else {
                lemma_small_mod((qi - ti) as nat, q as nat);
            }
            lemma_add_mod_noop(ki % qi, qi - ti, qi);
            lemma_mod_twice(ki % qi, qi);
            // (k + q - t) % q == (k - t) % q
            lemma_mod_add_multiples_vanish(ki - ti, qi);
            assert(s == response_spec(ki, xi, ci, qi));
        }
        self.c = c;
        self.s = s;
        s
    }
}

/// The verifier's acceptance condition on a response `s`: both recomputed
/// commitment equations hold for the stored challenge and commitments.
pub open spec fn check_passes(v: ChaumPedersenVerifier, s: u64) -> bool {
    &&& combine_spec(v.g.g as int, v.y1 as int, s as nat, v.c as nat, v.g.p as int) == v.r1
    &&& combine_spec(v.g.h as int, v.y2 as int, s as nat, v.c as nat, v.g.p as int) == v.r2
}

/// Verifier side of the protocol. `issueChallenge` (`verify_sync_a`) stores a
/// received commitment and returns a fresh random challenge; `check`
/// (`verify_sync_b`) recomputes both commitment equations from the response.
#[derive(Clone, Copy, PartialEq, Eq, Structural, Debug)]
pub struct ChaumPedersenVerifier {
    pub g: Generator,
    pub y1: u64,
    pub y2: u64,
    pub r1: u64,
    pub r2: u64,
    pub c: u64,
    pub s: u64,
}

impl ChaumPedersenVerifier {
    /// A verifier over the default demonstration group, holding a prover's
    /// public commitments.
    pub fn new(y1: u64, y2: u64) -> (v: ChaumPedersenVerifier)
        ensures
            v == (ChaumPedersenVerifier {
                g: default_group(),
                y1,
                y2,
                r1: 0,
                r2: 0,
                c: 0,
                s: 0,
            }),
    {
        let g = get_default();
        ChaumPedersenVerifier { g, y1, y2, r1: 0, r2: 0, c: 0, s: 0 }
    }

    /// The challenge move: stores the received commitment `(r1, r2)` and
    /// returns a fresh random challenge `c` in `[1, p)`.
    pub fn verify_sync_a(&mut self, r1: u64, r2: u64) -> (c: u64)
        requires
            old(self).g.p > 1,
        ensures
            final(self).g == old(self).g,
            final(self).y1 == old(self).y1,
            final(self).y2 == old(self).y2,
            final(self).s == old(self).s,
            final(self).r1 == r1,
            final(self).r2 == r2,
            final(self).c == c,
            1 <= c < old(self).g.p,
    {
        self.c = rand_range_u64(1, self.g.p);
        self.r1 = r1;
        self.r2 = r2;
        self.c
    }

    /// The check move: accepts iff both recomputed commitments match, i.e.
    /// `g^s * y1^c mod p == r1` and `h^s * y2^c mod p == r2`.
    pub fn verify_sync_b(&mut self, s: u64) -> (ok: bool)
        requires
            old(self).g.p > 1,
        ensures
            *final(self) == (ChaumPedersenVerifier { s, ..*old(self) }),
            ok == check_passes(*old(self), s),
    {
        self.s = s;
        let p = self.g.p;
        let r1_prime = mul_mod(mod_pow(self.g.g, s, p), mod_pow(self.y1, self.c, p), p);
        let r2_prime = mul_mod(mod_pow(self.g.h, s, p), mod_pow(self.y2, self.c, p), p);
        r1_prime == self.r1 && r2_prime == self.r2
    }
}

/// Completeness for one generator: an honest response makes the verifier's
/// recomputed value equal the commitment `base^k mod p`.
proof fn lemma_completeness_one(p: int, q: int, base: int, x: int, k: int, c: int)
    requires
        p > 1,
        q > 0,
        base >= 0,
        x >= 0,
        k >= 0,
        c >= 0,
        pow(base, q as nat) % p == 1,
    ensures
        combine_spec(
            base,
            pow_mod_spec(base, x as nat, p),
            response_spec(k, x, c, q) as nat,
            c as nat,
            p,
        ) == pow_mod_spec(base, k as nat, p),
{
    lemma_response_congruence(k, x, c, q);
    let s = response_spec(k, x, c, q);
    let y = pow(base, x as nat) % p;
    // y^c mod p == base^(x*c) mod p
    lemma_pow_mod_noop(pow(base, x as nat), c as nat, p);
    lemma_pow_multiplies(base, x as nat, c as nat);
    assert((x as nat) * (c as nat) == (x * c) as nat) by (nonlinear_arith)
        requires
            x >= 0,
            c >= 0,
    ;
    assert(pow(y, c as nat) % p == pow(base, (x * c) as nat) % p);
    // (base^s mod p) * (base^(x*c) mod p) mod p == base^(s + x*c) mod p
    lemma_mul_mod_noop(pow(base, s as nat), pow(base, (x * c) as nat), p);
    lemma_pow_adds(base, s as nat, (x * c) as nat);
    // s + x*c is congruent to k modulo q, so the residues agree
    lemma_pow_mod_congruence(base, (s + x * c) as nat, k as nat, p, q as nat);
}

/// Completeness of the protocol: over any group whose generators satisfy
/// `g^q mod p == 1` and `h^q mod p == 1`, an honest prover's response to any
/// challenge makes both of the verifier's recomputed commitment equations
/// hold, whatever secret `x` and ephemeral `k` were drawn.
pub proof fn lemma_protocol_completeness(gp: Generator, x: int, k: int, c: int)
    requires
        gp.p > 1,
        gp.q > 0,
        x >= 0,
        k >= 0,
        c >= 0,
        pow(gp.g as int, gp.q as nat) % (gp.p as int) == 1,
        pow(gp.h as int, gp.q as nat) % (gp.p as int) == 1,
    ensures
        ({
            let s = response_spec(k, x, c, gp.q as int);
            &&& combine_spec(
                gp.g as int,
                pow_mod_spec(gp.g as int, x as nat, gp.p as int),
                s as nat,
                c as nat,
                gp.p as int,
            ) == pow_mod_spec(gp.g as int, k as nat, gp.p as int)
            &&& combine_spec(
                gp.h as int,
                pow_mod_spec(gp.h as int, x as nat, gp.p as int),
                s as nat,
                c as nat,
                gp.p as int,
            ) == pow_mod_spec(gp.h as int, k as nat, gp.p as int)
        }),
{
    lemma_completeness_one(gp.p as int, gp.q as int, gp.g as int, x, k, c);
    lemma_completeness_one(gp.p as int, gp.q as int, gp.h as int, x, k, c);
}

/// Completeness at the level of the state machines: a verifier holding an
/// honest key pair's commitments (`y1`, `y2`), an honest commitment
/// (`r1`, `r2`) for some ephemeral `k`, and any challenge `c` accepts the
/// honest response `s = (k - x * c mod q) mod q` — whatever `x` and `k`
/// were drawn, including the `k` of a restarted exchange.
pub proof fn lemma_completeness_for_states(v: ChaumPedersenVerifier, x: u64, k: u64, s: u64)
    requires
        v.g.p > 1,
        v.g.q > 0,
        pow(v.g.g as int, v.g.q as nat) % (v.g.p as int) == 1,
        pow(v.g.h as int, v.g.q as nat) % (v.g.p as int) == 1,
        v.y1 == pow_mod_spec(v.g.g as int, x as nat, v.g.p as int),
        v.y2 == pow_mod_spec(v.g.h as int, x as nat, v.g.p as int),
        v.r1 == pow_mod_spec(v.g.g as int, k as nat, v.g.p as int),
        v.r2 == pow_mod_spec(v.g.h as int, k as nat, v.g.p as int),
        s == response_spec(k as int, x as int, v.c as int, v.g.q as int),
    ensures
        check_passes(v, s),
{
    lemma_protocol_completeness(v.g, x as int, k as int, v.c as int);
}

} // verus!
