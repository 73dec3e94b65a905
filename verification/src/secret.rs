//! Secret text: a string that is wiped from memory when its holder drops it, and that
//! never shows in debug output.

use secrecy::{ExposeSecret, SecretString};
use vstd::prelude::*;

verus! {

/// A secret string, held by `secrecy::SecretString`. What it holds is named by
/// `secret_text`; its debug output is the redacted one of the outside type.
#[verifier::external_body]
#[derive(Debug)]
pub struct Secret {
    inner: SecretString,
}

/// The text that a secret holds.
pub uninterp spec fn secret_text(secret: Secret) -> Seq<char>;

impl Secret {
    /// Calls `SecretString::from`. Trusted: the new secret holds the text it was made
    /// from.
    #[verifier::external_body]
    pub(crate) fn seal(text: String) -> (secret: Secret)
        ensures
            secret_text(secret) == text@,
    {
        Secret { inner: SecretString::from(text) }
    }

    /// Calls `SecretString::expose_secret`. Trusted: it hands out the text that the secret
    /// holds.
    #[verifier::external_body]
    pub(crate) fn unseal(&self) -> (text: &str)
        ensures
            text@ == secret_text(*self),
    {
        self.inner.expose_secret()
    }

    /// Makes a secret from text.
    pub fn new(text: &str) -> (secret: Secret)
        ensures
            secret_text(secret) == text@,
    {
        Secret::seal(text.to_owned())
    }

    /// Hands out the text, for the one place that has to send it.
    pub fn expose(&self) -> (text: &str)
        ensures
            text@ == secret_text(*self),
    {
        self.unseal()
    }

    /// A second secret with the same text.
    pub fn duplicate(&self) -> (secret: Secret)
        ensures
            secret_text(secret) == secret_text(*self),
    {
        Secret::new(self.unseal())
    }
}

} // verus!
