use zkp_auth::arith::mod_pow;
use zkp_auth::chaum_pedersen::{ChaumPedersenProver, ChaumPedersenVerifier, KeyPair};
use zkp_auth::generator::get_default;

#[test]
fn test_keypair_creation() {
    let g = get_default().g;
    let h = get_default().h;
    let p = get_default().p;

    let keypair = KeyPair::new(g, h, p);

    let y1_expected = mod_pow(g, keypair.x, p);
    let y2_expected = mod_pow(h, keypair.x, p);

    assert_eq!(keypair.y1, y1_expected);
    assert_eq!(keypair.y2, y2_expected);
}

#[test]
fn test_chaum_pedersen_protocol() {
    let mut prover = ChaumPedersenProver::new();
    let mut verifier = ChaumPedersenVerifier::new(prover.kp.y1, prover.kp.y2);

    // Prover's side
    let (r1, r2) = prover.prove_sync_a();
    let c = verifier.verify_sync_a(r1, r2);
    let s = prover.prove_sync_b(c);
    let result = verifier.verify_sync_b(s);

    assert_eq!(result, true);
}

#[test]
fn test_keypair_from_chosen_secret() {
    let gp = get_default();
    let kp = KeyPair::from_secret(gp.g, gp.h, gp.p, 7);
    assert_eq!(kp.x, 7);
    assert_eq!(kp.y1, mod_pow(gp.g, 7, gp.p));
    assert_eq!(kp.y2, mod_pow(gp.h, 7, gp.p));
}

#[test]
fn test_wrong_response_is_rejected() {
    let mut prover = ChaumPedersenProver::new();
    let mut verifier = ChaumPedersenVerifier::new(prover.kp.y1, prover.kp.y2);
    let q = prover.g.q;

    let (r1, r2) = prover.prove_sync_a();
    let c = verifier.verify_sync_a(r1, r2);
    let s = prover.prove_sync_b(c);
    let forged = (s + 1) % q;
    assert_eq!(verifier.verify_sync_b(forged), false);
}

#[test]
fn test_recommit_then_respond_verifies() {
    let mut prover = ChaumPedersenProver::new();
    let mut verifier = ChaumPedersenVerifier::new(prover.kp.y1, prover.kp.y2);

    // A second commitment discards the first exchange entirely.
    let (_r1_old, _r2_old) = prover.prove_sync_a();
    let (r1, r2) = prover.prove_sync_a();
    let c = verifier.verify_sync_a(r1, r2);
    let s = prover.prove_sync_b(c);
    assert_eq!(verifier.verify_sync_b(s), true);
}

#[test]
fn test_stale_commitment_is_rejected() {
    let mut prover = ChaumPedersenProver::new();
    let mut verifier = ChaumPedersenVerifier::new(prover.kp.y1, prover.kp.y2);

    // The verifier holds the first commitment, but the prover answers with
    // the ephemeral secret of its second commitment.
    let (r1_old, r2_old) = prover.prove_sync_a();
    let (_r1, _r2) = prover.prove_sync_a();
    let c = verifier.verify_sync_a(r1_old, r2_old);
    let s = prover.prove_sync_b(c);
    assert_eq!(verifier.verify_sync_b(s), false);
}

#[test]
fn test_protocol_with_chosen_secret() {
    let mut prover = ChaumPedersenProver::with_secret(7);
    let mut verifier = ChaumPedersenVerifier::new(prover.kp.y1, prover.kp.y2);

    let (r1, r2) = prover.prove_sync_a();
    let c = verifier.verify_sync_a(r1, r2);
    let s = prover.prove_sync_b(c);
    assert_eq!(verifier.verify_sync_b(s), true);
}
