//! Credential hashing and resolution of a presented credential to an identity.
use vstd::prelude::*;
use vstd::string::StringSliceAdditionalSpecFns;
use vstd::utf8::encode_utf8;

use crate::crypto::{eq_bytes, hmac_sha256, spec_hmac_sha256};
use crate::domain::{BucketId, BucketPolicy, Permission, ResolvedIdentity, SigningKey};
use crate::error::AuthError;
use crate::tokens::{policy_signing_key, spec_verify, verify};

verus! {

/// The stored form of an API credential: `HMAC-SHA256(root_key, credential bytes)`.
pub open spec fn spec_credential_hash(raw: Seq<u8>, root_key: Seq<u8>) -> Seq<u8> {
    spec_hmac_sha256(root_key, raw)
}

/// Whether a presented credential matches a stored hash.
pub open spec fn spec_credential_matches(raw: Seq<u8>, stored: Seq<u8>, root_key: Seq<u8>) -> bool {
    spec_credential_hash(raw, root_key) == stored
}

/// Stores `HMAC-SHA256(root_key, raw_credential_bytes)` as bytes.
pub fn hash_credential(raw: &str, root_key: &SigningKey) -> (r: Result<Vec<u8>, AuthError>)
    ensures
        r matches Ok(h) && h@ == spec_credential_hash(raw.spec_bytes(), root_key@),
{
    Ok(hmac_sha256(root_key.expose_secret(), raw.as_bytes()))
}

/// Constant-time compare of a presented credential against a stored hash.
pub fn verify_credential(presented: &str, stored_hash: &[u8], root_key: &SigningKey) -> (r: bool)
    ensures
        r == spec_credential_matches(presented.spec_bytes(), stored_hash@, root_key@),
{
    let computed = match hash_credential(presented, root_key) {
        Ok(c) => c,
        Err(_) => {
            return false;
        },
    };
    computed.len() == stored_hash.len() && eq_bytes(computed.as_slice(), stored_hash)
}

/// A credential always matches the hash made from it, and a hash made from
/// another credential matches only if the two credentials hash alike.
pub proof fn lemma_hash_then_verify(raw: Seq<u8>, other: Seq<u8>, root_key: Seq<u8>)
    ensures
        spec_credential_matches(raw, spec_credential_hash(raw, root_key), root_key),
        spec_credential_matches(other, spec_credential_hash(raw, root_key), root_key)
            <==> spec_hmac_sha256(root_key, other) == spec_hmac_sha256(root_key, raw),
{
}

/// A resolved identity as plain values.
pub enum IdentityView {
    Anonymous,
    Admin,
    Scoped(Permission, Seq<u8>),
}

pub open spec fn identity_view(id: ResolvedIdentity) -> IdentityView {
    match id {
        ResolvedIdentity::Anonymous => IdentityView::Anonymous,
        ResolvedIdentity::Admin => IdentityView::Admin,
        ResolvedIdentity::Scoped { permissions, key_prefix } => IdentityView::Scoped(
            permissions,
            key_prefix@,
        ),
    }
}

/// Whether an optional stored hash is present and matches the credential.
pub open spec fn stored_hash_matches(stored: Option<Vec<u8>>, raw: Seq<u8>, root_key: Seq<u8>) -> bool {
    match stored {
        Some(h) => spec_credential_matches(raw, h@, root_key),
        None => false,
    }
}

/// Who presents `raw` (if anything) to a bucket with `policy`: the first of
/// `secret_key_hash` (admin), `write_key_hash` (write anywhere),
/// `read_key_hash` (read and list anywhere) that the credential matches, else
/// the scope of the signed token it is; a credential that is none of these is refused.
pub open spec fn spec_resolve(
    raw: Option<Seq<char>>,
    policy: &BucketPolicy,
    bucket: Seq<char>,
    root_key: Seq<u8>,
    now: i128,
) -> Result<IdentityView, AuthError> {
    match raw {
        None => Ok(IdentityView::Anonymous),
        Some(cred) => {
            let cb = encode_utf8(cred);
            if stored_hash_matches(policy.secret_key_hash, cb, root_key) {
                Ok(IdentityView::Admin)
            } else if stored_hash_matches(policy.write_key_hash, cb, root_key) {
                Ok(
                    IdentityView::Scoped(
                        Permission { read: false, write: true, enumerate: false, delete: false },
                        Seq::empty(),
                    ),
                )
            } else if stored_hash_matches(policy.read_key_hash, cb, root_key) {
                Ok(
                    IdentityView::Scoped(
                        Permission { read: true, write: false, enumerate: true, delete: false },
                        Seq::empty(),
                    ),
                )
            } else {
                match spec_verify(
                    cb,
                    policy_signing_key(policy),
                    policy.signing_key_generation,
                    bucket,
                    now,
                ) {
                    Ok(c) => Ok(IdentityView::Scoped(c.permissions, c.allowed_prefix)),
                    Err(_) => Err(AuthError::InvalidCredential),
                }
            }
        },
    }
}

fn stored_matches(stored: &Option<Vec<u8>>, cred: &str, root_key: &SigningKey) -> (r: bool)
    ensures
        r == stored_hash_matches(*stored, cred.spec_bytes(), root_key@),
{
    match stored {
        Some(h) => verify_credential(cred, h.as_slice(), root_key),
        None => false,
    }
}

/// Resolves `raw` (Bearer/Basic/query string value) or anonymous access.
///
/// Order: `secret_key_hash` → `write_key_hash` → `read_key_hash` → signed token.
/// `signing_key` is never matched as a direct credential string.
pub fn resolve(
    raw: Option<&str>,
    policy: &BucketPolicy,
    bucket: &BucketId,
    root_key: &SigningKey,
    now: i128,
) -> (r: Result<ResolvedIdentity, AuthError>)
    ensures
        r matches Ok(id) ==> spec_resolve(opt_chars(raw), policy, bucket@, root_key@, now) == Ok::<IdentityView, AuthError>(identity_view(id)),
        r matches Err(e) ==> spec_resolve(opt_chars(raw), policy, bucket@, root_key@, now) == Err::<IdentityView, AuthError>(e),
{
    let cred = match raw {
        None => {
            return Ok(ResolvedIdentity::Anonymous);
        },
        Some(c) => c,
    };
    if stored_matches(&policy.secret_key_hash, cred, root_key) {
        return Ok(ResolvedIdentity::Admin);
    }
    if stored_matches(&policy.write_key_hash, cred, root_key) {
        let r = ResolvedIdentity::Scoped { permissions: Permission::write_only(), key_prefix: Vec::new() };
        assert(identity_view(r) == IdentityView::Scoped(
            Permission { read: false, write: true, enumerate: false, delete: false },
            Seq::<u8>::empty(),
        ));
        return Ok(r);
    }
    if stored_matches(&policy.read_key_hash, cred, root_key) {
        // `read_key` authenticates the bucket's read side, which covers both
        // `get` and `list`.
        let r = ResolvedIdentity::Scoped {
            permissions: Permission::read_enumerate(),
            key_prefix: Vec::new(),
        };
        assert(identity_view(r) == IdentityView::Scoped(
            Permission { read: true, write: false, enumerate: true, delete: false },
            Seq::<u8>::empty(),
        ));
        return Ok(r);
    }
    match verify(cred, policy, bucket, now) {
        Ok(claims) => Ok(
            ResolvedIdentity::Scoped {
                permissions: claims.permissions,
                key_prefix: claims.allowed_prefix,
            },
        ),
        Err(_) => Err(AuthError::InvalidCredential),
    }
}

/// The characters of an optional text.
pub open spec fn opt_chars(raw: Option<&str>) -> Option<Seq<char>> {
    match raw {
        Some(s) => Some(s@),
        None => None,
    }
}

/// A presented text that matches none of the bucket's stored key hashes and
/// verifies as a token of the bucket resolves to exactly that token's scope:
/// its permissions and key prefix.
pub proof fn lemma_token_resolves_to_its_scope(
    cred: Seq<char>,
    policy: &BucketPolicy,
    bucket: Seq<char>,
    root_key: Seq<u8>,
    now: i128,
    c: crate::claims::ClaimsView,
)
    requires
        !stored_hash_matches(policy.secret_key_hash, encode_utf8(cred), root_key),
        !stored_hash_matches(policy.write_key_hash, encode_utf8(cred), root_key),
        !stored_hash_matches(policy.read_key_hash, encode_utf8(cred), root_key),
        spec_verify(encode_utf8(cred), policy_signing_key(policy), policy.signing_key_generation, bucket, now)
            == Ok::<crate::claims::ClaimsView, crate::error::TokenError>(c),
    ensures
        spec_resolve(Some(cred), policy, bucket, root_key, now) == Ok::<IdentityView, AuthError>(
            IdentityView::Scoped(c.permissions, c.allowed_prefix),
        ),
{
}

/// A credential matching the bucket's `secret_key` hash is an admin, whatever
/// else the policy holds; signing keys are never compared with the
/// credential text directly, only through token verification.
pub proof fn lemma_secret_key_is_admin(
    cred: Seq<char>,
    policy: &BucketPolicy,
    bucket: Seq<char>,
    root_key: Seq<u8>,
    now: i128,
)
    requires
        stored_hash_matches(policy.secret_key_hash, encode_utf8(cred), root_key),
    ensures
        spec_resolve(Some(cred), policy, bucket, root_key, now) == Ok::<IdentityView, AuthError>(IdentityView::Admin),
{
}

} // verus!
