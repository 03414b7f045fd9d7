use argon2::password_hash::SaltString;
use argon2::{Argon2, PasswordHasher};

use chloria::auth::{Argon2Tool, AuthenticateCase, AuthenticateCaseInput, AuthenticateCaseOutput,
    authenticate_outcome, claim_expiry};

fn hash_of(secret: &str) -> String {
    let salt = SaltString::encode_b64(b"salt-for-tests-1").unwrap();
    Argon2::default().hash_password(secret.as_bytes(), &salt).unwrap().to_string()
}

#[test]
fn confirm_successful_authentication() {
    let output = authenticate_outcome(true, Some(true)).unwrap();
    assert!(matches!(output, AuthenticateCaseOutput::Success));
}

#[test]
fn unknown_key_is_not_found() {
    let case = AuthenticateCase::new(AuthenticateCaseInput {
        api_key: "k".to_string(),
        api_secret: "s".to_string(),
    });
    let output = case.execute(None, &Argon2Tool::new()).unwrap();
    assert!(matches!(output, AuthenticateCaseOutput::NotFound));
}

#[test]
fn matching_secret_succeeds() {
    let hashed = hash_of("opensesame");
    let case = AuthenticateCase::new(AuthenticateCaseInput {
        api_key: "k".to_string(),
        api_secret: "opensesame".to_string(),
    });
    let output = case.execute(Some(&hashed), &Argon2Tool::new()).unwrap();
    assert!(matches!(output, AuthenticateCaseOutput::Success));
}

#[test]
fn wrong_secret_is_rejected() {
    let hashed = hash_of("opensesame");
    let case = AuthenticateCase::new(AuthenticateCaseInput {
        api_key: "k".to_string(),
        api_secret: "letmein".to_string(),
    });
    let output = case.execute(Some(&hashed), &Argon2Tool::new()).unwrap();
    assert!(matches!(output, AuthenticateCaseOutput::IncorrectSecret));
}

#[test]
fn argon2_tool_verifies_real_hashes() {
    let hashed = hash_of("opensesame");
    let tool = Argon2Tool::new();
    assert_eq!(tool.verify("opensesame", &hashed).unwrap(), true);
    assert_eq!(tool.verify("letmein", &hashed).unwrap(), false);
    assert!(tool.verify("opensesame", "not a hash").is_err());
}

#[test]
fn malformed_stored_hash_is_an_error() {
    let case = AuthenticateCase::new(AuthenticateCaseInput {
        api_key: "k".to_string(),
        api_secret: "s".to_string(),
    });
    let stored = "plaintext-left-in-the-column".to_string();
    assert!(case.execute(Some(&stored), &Argon2Tool::new()).is_err());
}

#[test]
fn outcome_labels_match_the_variants() {
    assert_eq!(AuthenticateCaseOutput::NotFound.label(), "NotFound");
    assert_eq!(AuthenticateCaseOutput::IncorrectSecret.label(), "IncorrectSecret");
    assert_eq!(AuthenticateCaseOutput::Success.label(), "Success");
}

#[test]
fn token_expiry_is_clock_plus_lifetime() {
    assert_eq!(claim_expiry(1_000, 600), Some(1_600));
    assert_eq!(claim_expiry(u64::MAX, 1), None);
}
