use vstd::prelude::*;

verus! {

use vstd::arithmetic::power::{pow, lemma_pow1, lemma_pow_positive, lemma_pow_increases};
use vstd::arithmetic::div_mod::{lemma_mod_multiples_vanish, lemma_small_mod};
use vstd::arithmetic::mul::lemma_mul_upper_bound;
use crate::arith::{mod_pow, pow2_u64, pow_mod_spec};
use crate::prime::{miller_rabin_primality_test, n_bit_prime};
use crate::rng::rand_range_u64;

/// A cyclic-group description for the protocol: a modulus `p`, a subgroup
/// order `q` dividing `p - 1`, and two generators `g` and `h` of that
/// subgroup.
#[derive(Clone, Copy, PartialEq, Eq, Structural, Debug)]
pub struct Generator {
    pub p: u64,
    pub q: u64,
    pub g: u64,
    pub h: u64,
}

/// The fixed demonstration parameter set. Toy-sized: not a security parameter.
pub open spec fn default_group() -> Generator {
    Generator { p: 421360559, q: 455033, g: 103117051, h: 322482758 }
}

/// The smaller parameter set used while debugging.
pub open spec fn debug_group() -> Generator {
    Generator { p: 367, q: 61, g: 137, h: 199 }
}

pub fn get_default() -> (r: Generator)
    ensures
        r == default_group(),
{
    Generator { p: 421360559, q: 455033, g: 103117051, h: 322482758 }
}

pub fn get_debug() -> (r: Generator)
    ensures
        r == debug_group(),
{
    Generator { p: 367, q: 61, g: 137, h: 199 }
}

/// Searches for a subgroup description: a prime-candidate `q` of `bits - 1`
/// bits, a prime-candidate `p = k * q + 1`, and `num` values `g` with
/// `g != 1` and `g^q mod p == 1`. Each accepted `g` is checked to actually
/// have order dividing `q`, so the returned candidates satisfy the subgroup
/// equation unconditionally; primality of `p` and `q` remains probabilistic.
/// All searches run under a fixed trial budget; `None` if any runs out.
pub fn get_generator_prime(bits: u64, num: i32) -> (res: Option<(u64, u64, Vec<u64>)>)
    requires
        4 <= bits <= 32,
    ensures
        res matches Some(pqg) ==> {
            let (p, q, g_list) = pqg;
            &&& 3 <= q < p
            &&& p % q == 1
            &&& g_list.len() == num
            &&& forall|i: int|
                0 <= i < g_list.len() ==> {
                    &&& #[trigger] g_list[i] != 1
                    &&& g_list[i] < p
                    &&& pow_mod_spec(g_list[i] as int, q as nat, p as int) == 1
                }
        },
{
    if num < 1 {
        return None;
    }
    let n = pow2_u64(bits);
    let q = match n_bit_prime(bits - 1) {
        Some(q) => q,
        None => { return None },
    };
    proof {
        lemma_pow_increases(2, (bits - 1) as nat, 31);
        lemma_pow_positive(2, (bits - 1) as nat);
        assert(pow(2, 31) == 0x8000_0000) by {
            vstd::arithmetic::power2::lemma2_to64();
            vstd::arithmetic::power2::lemma_pow2(31);
        };
        lemma_pow_increases(2, bits as nat, 32);
        assert(pow(2, 32) == 0x1_0000_0000) by {
            vstd::arithmetic::power2::lemma2_to64();
            vstd::arithmetic::power2::lemma_pow2(32);
        };
        lemma_pow1(2);
        lemma_pow_increases(2, 1, bits as nat);
    }
    // q < 2^31 and every sampled k < n <= 2^32, so k * q + 1 < 2^63.
    let mut p: u64 = 0;
    let mut k: u64 = 0;
    let mut attempts: u64 = 0;
    let budget: u64 = 4096;
    loop
        invariant
            n == pow(2, bits as nat),
            2 <= n <= 0x1_0000_0000,
            3 <= q < 0x8000_0000,
            p != 0 ==> {
                &&& k >= 1
                &&& p == k * q + 1
                &&& p < 0x8000_0000_0000_0000
            },
        ensures
            k >= 1,
            p == k * q + 1,
            p < 0x8000_0000_0000_0000,
        decreases budget - attempts,
    {
        if p != 0 && miller_rabin_primality_test(p, 5) {
            break ;
        }
        if attempts >= budget {
            return None;
        }
        attempts = attempts + 1;
        k = rand_range_u64(1, n);
        proof {
            lemma_mul_upper_bound(k as int, 0xffff_ffff, q as int, 0x7fff_ffff);
        }
        p = k * q + 1;
    }
    proof {
        lemma_mod_multiples_vanish(k as int, 1, q as int);
        lemma_small_mod(1, q as nat);
        assert(k * q + 1 == 1 + q * k) by (nonlinear_arith);
        assert(p % q == 1);
        assert(p > q) by (nonlinear_arith)
            requires
                p == k * q + 1,
                k >= 1,
                q >= 3,
        ;
    }
    // p - 1 == k * q, so k is the cofactor exponent (p - 1) / q.
    let mut g_list: Vec<u64> = Vec::new();
    let mut g_attempts: u64 = 0;
    let g_budget: u64 = 4096;
    while g_attempts < g_budget
        invariant
            3 <= q < p,
            p % q == 1,
            p < 0x8000_0000_0000_0000,
            2 <= n,
            num >= 1,
            g_list.len() < num,
            forall|i: int|
                0 <= i < g_list.len() ==> {
                    &&& #[trigger] g_list[i] != 1
                    &&& g_list[i] < p
                    &&& pow_mod_spec(g_list[i] as int, q as nat, p as int) == 1
                },
        decreases g_budget - g_attempts,
    {
        g_attempts = g_attempts + 1;
        let h = rand_range_u64(1, n);
        let g = mod_pow(h, k, p);
        if g != 1 && mod_pow(g, q, p) == 1 {
            g_list.push(g);
            if g_list.len() == num as usize {
                return Some((p, q, g_list));
            }
        }
    }
    None
}

} // verus!
