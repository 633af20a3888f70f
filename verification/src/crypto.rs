//! Keyed hashing and constant-time comparison.
use vstd::prelude::*;

use hmac::Mac;
use subtle::ConstantTimeEq;

verus! {

/// HMAC-SHA256 of `data` under `key`, as computed by the `hmac` and `sha2` crates.
pub uninterp spec fn spec_hmac_sha256(key: Seq<u8>, data: Seq<u8>) -> Seq<u8>;

/// Calls `hmac::Hmac::<sha2::Sha256>::new_from_slice`, `update` and `finalize`.
/// Claims: the tag is `spec_hmac_sha256(key, data)` (a function of the two
/// inputs alone) and has SHA-256's 32-byte output size. `new_from_slice`
/// accepts keys of every length for HMAC, so the call cannot fail.
#[verifier::external_body]
pub(crate) fn hmac_sha256(key: &[u8], data: &[u8]) -> (r: Vec<u8>)
    ensures
        r@ == spec_hmac_sha256(key@, data@),
        r@.len() == 32,
{
    let mut mac = <hmac::Hmac<sha2::Sha256> as Mac>::new_from_slice(key).unwrap();
    mac.update(data);
    mac.finalize().into_bytes().to_vec()
}

/// Compares two byte slices in constant time over their equal-length content.
///
/// Calls `subtle::ConstantTimeEq::ct_eq` on the slices and converts the
/// `Choice` to `bool`. Claims: the result is the equality of the two slices
/// (`ct_eq` returns false on a length mismatch and otherwise compares every byte).
#[verifier::external_body]
pub fn eq_bytes(a: &[u8], b: &[u8]) -> (r: bool)
    ensures
        r == (a@ == b@),
{
    a.ct_eq(b).into()
}

} // verus!
