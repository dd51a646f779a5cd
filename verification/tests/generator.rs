use zkp_auth::arith::mod_pow;
use zkp_auth::generator::{get_debug, get_default, get_generator_prime};
use zkp_auth::prime::miller_rabin_primality_test;

#[test]
fn test_get_default() {
    let generator = get_default();
    assert_eq!(generator.p, 421360559);
    assert_eq!(generator.q, 455033);
    assert_eq!(generator.g, 103117051);
    assert_eq!(generator.h, 322482758);
}

#[test]
fn test_get_debug() {
    let generator = get_debug();
    assert_eq!(generator.p, 367);
    assert_eq!(generator.q, 61);
    assert_eq!(generator.g, 137);
    assert_eq!(generator.h, 199);
}

#[test]
fn test_get_generator_prime() {
    let bits = 32;
    let num = 3;
    let (p, q, g_list) = get_generator_prime(bits, num).expect("search within budget");

    assert!(miller_rabin_primality_test(p, 5));
    assert!(miller_rabin_primality_test(q, 5));
    assert_eq!(g_list.len(), num as usize);
}

#[test]
fn test_generated_group_satisfies_subgroup_equations() {
    let (p, q, g_list) = get_generator_prime(16, 2).expect("search within budget");

    // q divides p - 1, i.e. p is congruent to 1 modulo q
    assert_eq!(p % q, 1);
    assert!(miller_rabin_primality_test(p, 30));
    assert!(miller_rabin_primality_test(q, 30));
    for &g in g_list.iter() {
        assert_ne!(g, 1);
        assert!(g < p);
        assert_eq!(mod_pow(g, q, p), 1);
    }
}

#[test]
fn test_default_group_subgroup_equations() {
    let gp = get_default();
    assert_eq!(gp.p % gp.q, 1);
    assert_ne!(gp.g, 1);
    assert_eq!(mod_pow(gp.g, gp.q, gp.p), 1);
    assert_eq!(mod_pow(gp.h, gp.q, gp.p), 1);
}
