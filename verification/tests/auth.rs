use zkp_auth::arith::mod_pow;
use zkp_auth::auth::{AuthError, MyAuth};
use zkp_auth::chaum_pedersen::ChaumPedersenProver;
use zkp_auth::generator::get_default;
use zkp_auth::token::generate_random_string;

fn is_alphanumeric_ascii(s: &str) -> bool {
    s.bytes().all(|b| b.is_ascii_alphanumeric())
}

#[test]
fn test_register_twice_fails_with_already_exists() {
    let mut auth = MyAuth::new();
    assert!(auth.register("alice".to_string(), 5, 9).is_ok());
    assert_eq!(
        auth.register("alice".to_string(), 5, 9),
        Err(AuthError::AlreadyExists)
    );
}

#[test]
fn test_challenge_for_unknown_user_fails() {
    let mut auth = MyAuth::new();
    assert_eq!(
        auth.create_authentication_challenge("bob".to_string(), 1, 2),
        Err(AuthError::UnknownUser)
    );
}

#[test]
fn test_unknown_token_fails() {
    let mut auth = MyAuth::new();
    assert_eq!(
        auth.verify_authentication("no-such-token".to_string(), 3),
        Err(AuthError::UnknownToken)
    );
}

#[test]
fn test_auth_token_is_single_use() {
    let mut auth = MyAuth::new();
    let mut prover = ChaumPedersenProver::with_secret(11);
    auth.register("carol".to_string(), prover.kp.y1, prover.kp.y2)
        .unwrap();

    let (r1, r2) = prover.prove_sync_a();
    let (token, c) = auth
        .create_authentication_challenge("carol".to_string(), r1, r2)
        .unwrap();
    let s = prover.prove_sync_b(c);
    assert!(auth.verify_authentication(token.clone(), s).is_ok());

    // The first use consumed the token, whatever its outcome was.
    assert_eq!(
        auth.verify_authentication(token, s),
        Err(AuthError::UnknownToken)
    );
}

#[test]
fn test_failed_proof_consumes_token() {
    let mut auth = MyAuth::new();
    let mut prover = ChaumPedersenProver::with_secret(13);
    auth.register("dave".to_string(), prover.kp.y1, prover.kp.y2)
        .unwrap();

    let (r1, r2) = prover.prove_sync_a();
    let (token, c) = auth
        .create_authentication_challenge("dave".to_string(), r1, r2)
        .unwrap();
    let s = prover.prove_sync_b(c);
    let forged = (s + 1) % prover.g.q;
    assert_eq!(
        auth.verify_authentication(token.clone(), forged),
        Err(AuthError::VerificationFailed)
    );
    assert_eq!(
        auth.verify_authentication(token, s),
        Err(AuthError::UnknownToken)
    );
}

#[test]
fn test_end_to_end_alice_with_secret_seven() {
    let gp = get_default();
    assert_eq!(gp.p, 421360559);
    assert_eq!(gp.q, 455033);
    assert_eq!(gp.g, 103117051);
    assert_eq!(gp.h, 322482758);

    let mut auth = MyAuth::new();
    let mut prover = ChaumPedersenProver::with_secret(7);
    assert_eq!(prover.kp.y1, mod_pow(gp.g, 7, gp.p));
    assert_eq!(prover.kp.y2, mod_pow(gp.h, 7, gp.p));

    auth.register("alice".to_string(), prover.kp.y1, prover.kp.y2)
        .unwrap();
    let (r1, r2) = prover.prove_sync_a();
    let (token, c) = auth
        .create_authentication_challenge("alice".to_string(), r1, r2)
        .unwrap();
    assert_eq!(token.len(), 32);
    assert!(is_alphanumeric_ascii(&token));

    let s = prover.prove_sync_b(c);
    let session = auth.verify_authentication(token, s).unwrap();
    assert_eq!(session.len(), 32);
    assert!(is_alphanumeric_ascii(&session));
}

#[test]
fn test_generate_random_string_shape() {
    let t = generate_random_string(32);
    assert_eq!(t.len(), 32);
    assert!(is_alphanumeric_ascii(&t));
    assert_eq!(generate_random_string(0).len(), 0);
}
