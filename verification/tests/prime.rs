use zkp_auth::prime::{miller_rabin_primality_test, n_bit_prime};

#[test]
fn test_miller_rabin_primality_test() {
    let prime = 29u64; // A prime number
    let non_prime = 30u64; // A non-prime number

    assert!(miller_rabin_primality_test(prime, 5));
    assert!(!miller_rabin_primality_test(non_prime, 5));
}

#[test]
fn test_n_bit_prime() {
    let bits = 32u64;
    let prime = n_bit_prime(bits).expect("prime search within budget");

    assert!(miller_rabin_primality_test(prime, 5));
}

#[test]
fn test_miller_rabin_small_inputs() {
    assert!(!miller_rabin_primality_test(0, 5));
    assert!(!miller_rabin_primality_test(1, 5));
    assert!(miller_rabin_primality_test(2, 5));
    assert!(miller_rabin_primality_test(3, 5));
    assert!(!miller_rabin_primality_test(4, 5));
}

#[test]
fn test_miller_rabin_rejects_base2_pseudoprime() {
    // 341 = 11 * 31 passes the plain Fermat test to base 2; enough
    // independent witnesses expose it with overwhelming probability.
    assert!(!miller_rabin_primality_test(341, 40));
}

#[test]
fn test_miller_rabin_accepts_true_primes() {
    assert!(miller_rabin_primality_test(97, 40));
    assert!(miller_rabin_primality_test(7919, 40));
}

#[test]
fn test_miller_rabin_rejects_composites_across_trials() {
    for _ in 0..10 {
        assert!(!miller_rabin_primality_test(341, 30));
        assert!(!miller_rabin_primality_test(561, 30));
        assert!(!miller_rabin_primality_test(100, 30));
        assert!(!miller_rabin_primality_test(7917, 30));
    }
}

#[test]
fn test_n_bit_prime_is_odd_and_in_range() {
    for _ in 0..5 {
        let p = n_bit_prime(16).expect("prime search within budget");
        assert!(p % 2 == 1);
        assert!(p < 1 << 16);
        assert!(p >= 3);
    }
}
