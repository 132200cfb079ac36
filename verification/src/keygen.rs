//! Key generation: an API key is derived deterministically from an email
//! address, so registering the same email always yields the same key.

use vstd::prelude::*;

verus! {

/// The key derived from an email address: the hex digest that `derive_key`
/// computes. Uninterpreted here; it stands for a fixed function of the
/// email alone, which is all the rest of the library relies on.
pub uninterp spec fn key_of(email: Seq<char>) -> Seq<char>;

/// Relies on `crypto::sha1::Sha1` (`input_str`, then `result_str`): the
/// hex-encoded SHA-1 digest depends on the input string alone, so the
/// result is a fixed function of `email`.
#[verifier::external_body]
pub(crate) fn derive_key(email: &str) -> (key: String)
    ensures
        key@ == key_of(email@),
{
    let mut hasher = crypto::sha1::Sha1::new();
    crypto::digest::Digest::input_str(&mut hasher, email);
    crypto::digest::Digest::result_str(&mut hasher)
}

} // verus!
