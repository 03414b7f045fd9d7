//! Client authentication: look the client's hashed secret up, verify the
//! presented secret against it, and issue a token lifetime. The hash
//! verification itself is argon2's; everything around it is decided here.

use vstd::prelude::*;

verus! {

/// The credentials a client presents.
pub struct AuthenticateCaseInput {
    pub api_key: String,
    pub api_secret: String,
}

/// How an authentication attempt ends.
#[derive(Debug)]
pub enum AuthenticateCaseOutput {
    /// No client under the presented key.
    NotFound,
    /// The presented secret does not match the stored hash.
    IncorrectSecret,
    Success,
}

impl AuthenticateCaseOutput {
    /// The outcome's name, as responses report it.
    pub fn label(&self) -> (r: String)
        ensures
            self is NotFound ==> r@ == "NotFound"@,
            self is IncorrectSecret ==> r@ == "IncorrectSecret"@,
            self is Success ==> r@ == "Success"@,
    {
        match self {
            AuthenticateCaseOutput::NotFound => "NotFound".to_owned(),
            AuthenticateCaseOutput::IncorrectSecret => "IncorrectSecret".to_owned(),
            AuthenticateCaseOutput::Success => "Success".to_owned(),
        }
    }
}

/// Authentication could not be decided: the stored hash is not a password
/// hash string.
#[derive(Debug, PartialEq, Eq)]
pub enum AuthError {
    MalformedSecretHash,
}

/// What argon2 decides for a presented secret against a stored hash string:
/// nothing when the stored string is no password hash, otherwise whether the
/// secret matches. Argon2 recomputes the hash from the secret and the
/// string's own salt and parameters, so this is a function of the two
/// strings alone.
pub uninterp spec fn argon2_outcome_of(secret: Seq<char>, hashed_secret: Seq<char>) -> Option<bool>;

/// Relies on the argon2 crate: `PasswordHash::new` parses the stored string,
/// and `Argon2::verify_password` (via `PasswordVerifier`) recomputes the hash
/// and compares. Both depend on their string arguments alone.
#[verifier::external_body]
fn argon2_check(secret: &str, hashed_secret: &str) -> (r: Option<bool>)
    ensures
        r == argon2_outcome_of(secret@, hashed_secret@),
{
    let parsed = match argon2::PasswordHash::new(hashed_secret) {
        Ok(parsed) => parsed,
        Err(_) => return None,
    };
    Some(argon2::PasswordVerifier::verify_password(
        &argon2::Argon2::default(), secret.as_bytes(), &parsed).is_ok())
}

/// The argon2 hashing algorithm, stateless.
#[derive(Clone, Copy)]
pub struct Argon2Tool {}

impl Argon2Tool {
    pub fn new() -> Argon2Tool {
        Argon2Tool {}
    }

    /// Whether `secret` matches the stored `hashed_secret`; fails when the
    /// stored string is no password hash.
    pub fn verify(&self, secret: &str, hashed_secret: &str) -> (r: Result<bool, AuthError>)
        ensures
            r matches Ok(matched) ==> argon2_outcome_of(secret@, hashed_secret@) == Some(matched),
            r is Err <==> argon2_outcome_of(secret@, hashed_secret@) is None,
    {
        match argon2_check(secret, hashed_secret) {
            Some(matched) => Ok(matched),
            None => Err(AuthError::MalformedSecretHash),
        }
    }
}

/// What authentication returns for each verification outcome: no stored
/// secret means an unknown client; an undecidable hash is an error; otherwise
/// the verdict follows the match.
pub fn authenticate_outcome(secret_found: bool, verification: Option<bool>) -> (r: Result<AuthenticateCaseOutput, AuthError>)
    ensures
        !secret_found ==> (r matches Ok(o) && o is NotFound),
        secret_found ==> (r is Err <==> verification is None),
        secret_found && verification == Some(false) ==> (r matches Ok(o) && o is IncorrectSecret),
        secret_found && verification == Some(true) ==> (r matches Ok(o) && o is Success),
{
    if !secret_found {
        Ok(AuthenticateCaseOutput::NotFound)
    } else {
        match verification {
            None => Err(AuthError::MalformedSecretHash),
            Some(false) => Ok(AuthenticateCaseOutput::IncorrectSecret),
            Some(true) => Ok(AuthenticateCaseOutput::Success),
        }
    }
}

/// One authentication attempt.
pub struct AuthenticateCase {
    pub input: AuthenticateCaseInput,
}

impl AuthenticateCase {
    pub fn new(input: AuthenticateCaseInput) -> (r: AuthenticateCase)
        ensures
            r.input == input,
    {
        AuthenticateCase { input }
    }

    /// Decides the attempt, given the hashed secret the repository holds for
    /// the presented key — none when the key is unknown.
    pub fn execute(&self, stored_secret: Option<&String>, tool: &Argon2Tool) -> (r: Result<AuthenticateCaseOutput, AuthError>)
        ensures
            stored_secret is None ==> (r matches Ok(o) && o is NotFound),
            stored_secret matches Some(h) ==> {
                &&& argon2_outcome_of(self.input.api_secret@, h@) is None <==> r is Err
                &&& argon2_outcome_of(self.input.api_secret@, h@) == Some(true)
                    ==> (r matches Ok(o) && o is Success)
                &&& argon2_outcome_of(self.input.api_secret@, h@) == Some(false)
                    ==> (r matches Ok(o) && o is IncorrectSecret)
            },
    {
        match stored_secret {
            None => authenticate_outcome(false, None),
            Some(hashed) => {
                let verification = argon2_check(self.input.api_secret.as_str(), hashed.as_str());
                authenticate_outcome(true, verification)
            }
        }
    }
}

/// When a token issued now expires: the lifetime added to the clock, unless
/// that overflows the word.
pub fn claim_expiry(now_secs: u64, lifetime_secs: u64) -> (r: Option<u64>)
    ensures
        r matches Some(exp) ==> exp == now_secs + lifetime_secs,
        r is None <==> now_secs + lifetime_secs > u64::MAX,
{
    now_secs.checked_add(lifetime_secs)
}

} // verus!
