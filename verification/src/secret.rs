//! Credentials held in `secrecy::Secret`, which keeps them out of debug output
//! and wipes them from memory when dropped.

use vstd::prelude::*;
use secrecy::Secret;

verus! {

/// An opaque holder of a credential string, kept in a `secrecy::Secret<String>`;
/// its text is known to proofs only as `credential_text`.
#[verifier::external_body]
pub struct Credential {
    inner: Secret<String>,
}

/// The text that a credential holds.
pub uninterp spec fn credential_text(c: Credential) -> Seq<char>;

/// `secrecy::Secret::new`: takes ownership of the string and holds it
/// unchanged (the source stores it in the secret's one field).
#[verifier::external_body]
pub(crate) fn credential_new(s: String) -> (r: Credential)
    ensures
        credential_text(r) == s@,
{
    Credential { inner: Secret::new(s) }
}

/// The text of an optional credential.
pub open spec fn credential_opt_text(c: Option<Credential>) -> Option<Seq<char>> {
    match c {
        Some(x) => Some(credential_text(x)),
        None => None,
    }
}

/// Wraps an optional credential string.
pub fn credential_opt(s: Option<String>) -> (r: Option<Credential>)
    ensures
        credential_opt_text(r) == match s {
            Some(x) => Some(x@),
            None => None::<Seq<char>>,
        },
{
    match s {
        Some(x) => Some(credential_new(x)),
        None => None,
    }
}

} // verus!
