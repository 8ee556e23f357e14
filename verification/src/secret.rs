//! Text that must not leak into logs and is wiped from memory when dropped.

use vstd::prelude::*;

verus! {

/// A string kept inside `secrecy::Secret`, which hides it from `Debug`
/// output and wipes it when it is dropped.
///
/// `secrecy::Secret` is bounded by a trait that cannot be declared here, so
/// the value is held opaquely; [`secret_text`] names what it holds.
#[verifier::external_body]
pub struct SecretString {
    inner: secrecy::Secret<String>,
}

/// The characters that a [`SecretString`] holds.
pub uninterp spec fn secret_text(s: SecretString) -> Seq<char>;

/// `secrecy::Secret::new`: takes ownership of the string; the secret holds
/// exactly its characters.
#[verifier::external_body]
fn seal(text: String) -> (sealed: SecretString)
    ensures
        secret_text(sealed) == text@,
{
    SecretString { inner: secrecy::Secret::new(text) }
}

/// `secrecy::ExposeSecret::expose_secret`: borrows the string that the
/// secret was made from.
#[verifier::external_body]
fn expose(sealed: &SecretString) -> (text: &String)
    ensures
        text@ == secret_text(*sealed),
{
    secrecy::ExposeSecret::expose_secret(&sealed.inner)
}

impl View for SecretString {
    type V = Seq<char>;

    open spec fn view(&self) -> Seq<char> {
        secret_text(*self)
    }
}

impl SecretString {
    /// Wraps `text`.
    pub fn new(text: String) -> (sealed: Self)
        ensures
            sealed@ == text@,
    {
        seal(text)
    }

    /// Borrows the wrapped text.
    pub fn expose_secret(&self) -> (text: &String)
        ensures
            text@ == self@,
    {
        expose(self)
    }

    /// A second secret holding the same text.
    pub fn duplicate(&self) -> (copy: Self)
        ensures
            copy@ == self@,
    {
        seal(expose(self).clone())
    }
}

} // verus!
