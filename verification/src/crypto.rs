//! HMAC-SHA256 over byte strings, computed by the `hmac` and `sha2` crates.

use hmac::{Hmac, Mac};
use sha2::Sha256;
use vstd::prelude::*;

verus! {

/// The HMAC-SHA256 tag of `message` under `key`.
pub uninterp spec fn spec_hmac_sha256(key: Seq<u8>, message: Seq<u8>) -> Seq<u8>;

/// Calls `Hmac::<Sha256>::new_from_slice`, `Mac::update` and `Mac::finalize`.
/// Trusted: key setup succeeds for every key length (the `hmac` 0.12 source
/// builds the key block for any length and always returns `Ok`), and the tag
/// is the named HMAC of the arguments, 32 bytes long (SHA-256 output size).
#[verifier::external_body]
fn hmac_sha256_tag(key: &[u8], message: &[u8]) -> (tag: Option<Vec<u8>>)
    ensures
        tag is Some,
        tag matches Some(t) ==> t@ == spec_hmac_sha256(key@, message@),
        tag matches Some(t) ==> t@.len() == 32,
{
    match <Hmac<Sha256> as Mac>::new_from_slice(key) {
        Ok(mut mac) => {
            mac.update(message);
            Some(mac.finalize().into_bytes().to_vec())
        },
        Err(_) => None,
    }
}

/// HMAC-SHA256 of `message` keyed with `key`.
pub fn hmac_sha256(key: &[u8], message: &[u8]) -> (tag: Vec<u8>)
    ensures
        tag@ == spec_hmac_sha256(key@, message@),
        tag@.len() == 32,
{
    match hmac_sha256_tag(key, message) {
        Some(t) => t,
        None => Vec::new(),
    }
}

} // verus!
