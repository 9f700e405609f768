//! Cross-cutting types: errors of the shared utilities, and credentials that
//! must never leak into logs.
//!
//! A secret leaves only through an explicit [`Secret::expose_secret`] call; its printed form
//! never shows it, and it cannot be serialized.

use secrecy::{ExposeSecret, SecretString};
use vstd::prelude::*;

verus! {

/// The product version.
pub const VERSION: &'static str = "0.1.0";

/// Errors produced by shared utilities.
#[derive(Debug, PartialEq, Eq)]
pub enum SharedError {
    /// A required environment variable was not set, or not valid UTF-8.
    EnvVarMissing {
        /// The name of the missing environment variable.
        name: &'static str,
    },
}

impl SharedError {
    /// The message of an error.
    pub open spec fn message_text(self) -> Seq<char> {
        match self {
            SharedError::EnvVarMissing { name } => "environment variable `"@ + name@
                + "` is not set or not valid UTF-8"@,
        }
    }

    /// A message for people.
    pub fn message(&self) -> (r: String)
        ensures
            r@ == self.message_text(),
    {
        match self {
            SharedError::EnvVarMissing { name } => {
                let mut r = crate::text::joined("environment variable `", name);
                r.append("` is not set or not valid UTF-8");
                r
            },
        }
    }
}

/// A credential: a `secrecy::SecretString`, whose memory is wiped when it is
/// dropped and whose printed form does not show it.
#[verifier::external_body]
#[derive(Debug)]
pub struct Secret {
    held: SecretString,
}

/// The text that a secret holds.
pub uninterp spec fn held_text(secret: Secret) -> Seq<char>;

/// `SecretString::from`: the secret holds the text it was made of.
#[verifier::external_body]
fn sealed(text: String) -> (r: Secret)
    ensures
        held_text(r) == text@,
{
    Secret { held: SecretString::from(text) }
}

/// `ExposeSecret::expose_secret`: the text that the secret holds.
#[verifier::external_body]
fn exposed(secret: &Secret) -> (r: &str)
    ensures
        r@ == held_text(*secret),
{
    secret.held.expose_secret()
}

impl Secret {
    /// Seal a text.
    pub fn new(text: String) -> (r: Self)
        ensures
            held_text(r) == text@,
    {
        sealed(text)
    }

    /// The text, at a boundary where it has to leave.
    pub fn expose_secret(&self) -> (r: &str)
        ensures
            r@ == held_text(*self),
    {
        exposed(self)
    }
}

/// A secret from an environment variable, given what the variable holds.
///
/// # Errors
///
/// Returns [`SharedError::EnvVarMissing`] when the variable is absent or not
/// valid UTF-8.
pub fn secret_from_env(name: &'static str, value: Option<String>) -> (r: Result<
    Secret,
    SharedError,
>)
    ensures
        match value {
            Some(value) => r is Ok && held_text(r->Ok_0) == value@,
            None => r is Err && r->Err_0 == (SharedError::EnvVarMissing { name }),
        },
{
    match value {
        Some(value) => Ok(Secret::new(value)),
        None => Err(SharedError::EnvVarMissing { name }),
    }
}

} // verus!
