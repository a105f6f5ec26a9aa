//! Credentials, held in the secret strings of the `secrecy` crate: they are wiped
//! from memory when dropped, and nothing prints them by accident.

use secrecy::{ExposeSecret, SecretString};
use vstd::prelude::*;
use vstd::string::*;

verus! {

/// A text that is held in a `secrecy::SecretString`.
#[verifier::external_body]
pub struct Secret {
    inner: SecretString,
}

/// The text that a secret holds.
pub uninterp spec fn text_in(secret: Secret) -> Seq<char>;

/// The text that an optional secret holds.
pub open spec fn opt_text_in(secret: Option<Secret>) -> Option<Seq<char>> {
    match secret {
        Some(s) => Some(text_in(s)),
        None => None,
    }
}

/// `SecretString::from`: the secret holds the given text.
#[verifier::external_body]
fn hide_text(text: String) -> (secret: Secret)
    ensures
        text_in(secret) == text@,
{
    Secret { inner: SecretString::from(text) }
}

/// `ExposeSecret::expose_secret`: the text that the secret holds.
#[verifier::external_body]
fn exposed(secret: &Secret) -> (text: &str)
    ensures
        text@ == text_in(*secret),
{
    secret.inner.expose_secret()
}

impl Secret {
    /// A secret that holds `text`.
    pub fn new(text: String) -> (secret: Secret)
        ensures
            text_in(secret) == text@,
    {
        hide_text(text)
    }

    /// The text that the secret holds.
    pub fn expose(&self) -> (text: &str)
        ensures
            text@ == text_in(*self),
    {
        exposed(self)
    }
}

impl Clone for Secret {
    fn clone(&self) -> (copy: Secret)
        ensures
            text_in(copy) == text_in(*self),
    {
        Secret::new(self.expose().to_owned())
    }
}

} // verus!
