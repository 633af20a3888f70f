//! `POST /{bucket}/tokens/`: issuing scoped temporary tokens.
use vstd::prelude::*;
use vstd::utf8::encode_utf8;

use crate::access::{spec_require_admin, BucketAuth};
use crate::claims::ClaimsView;
use crate::domain::{BucketId, BucketPolicy, Permission, TemporaryTokenClaims};
use crate::error::{ApiError, UseCaseError};
use crate::text::{chars_eq, split_chars, split_on, str_chars, string_into_bytes, trim, trim_chars, views};
use crate::error::TokenError;
use crate::tokens::{claims_fit, mint, policy_signing_key, spec_verify, token_text};
use crate::values::{expiry_after, spec_expiry};
use crate::words::{
    lit_delete, lit_enumerate, lit_read, lit_write, LIT_DELETE, LIT_ENUMERATE, LIT_READ, LIT_WRITE,
};

verus! {

/// Form of `POST /{bucket}/tokens/`.
pub struct CreateTokenForm {
    /// Required non-empty prefix scope for the minted token.
    pub prefix: String,
    pub permissions: String,
    /// TTL seconds from now; must be strictly positive.
    pub ttl: i64,
}

/// Answer of `POST /{bucket}/tokens/`.
pub struct AccessTokenResponse {
    pub access_token: String,
}

/// The permissions named by comma-separated words (blank pieces ignored,
/// words trimmed); an unknown word makes the whole list invalid.
pub open spec fn spec_parse_permissions(pieces: Seq<Seq<char>>) -> Option<Permission>
    decreases pieces.len(),
{
    if pieces.len() == 0 {
        Some(Permission { read: false, write: false, enumerate: false, delete: false })
    } else {
        match spec_parse_permissions(pieces.drop_last()) {
            None => None,
            Some(p) => {
                let w = trim(pieces.last());
                if w.len() == 0 {
                    Some(p)
                } else if w == LIT_READ() {
                    Some(Permission { read: true, ..p })
                } else if w == LIT_WRITE() {
                    Some(Permission { write: true, ..p })
                } else if w == LIT_ENUMERATE() {
                    Some(Permission { enumerate: true, ..p })
                } else if w == LIT_DELETE() {
                    Some(Permission { delete: true, ..p })
                } else {
                    None
                }
            },
        }
    }
}

proof fn lemma_refused_stays_refused(all: Seq<Seq<char>>, j: int)
    requires
        0 <= j <= all.len(),
        spec_parse_permissions(all.subrange(0, j)) is None,
    ensures
        spec_parse_permissions(all.subrange(0, all.len() as int)) is None,
    decreases all.len() - j,
{
    if j < all.len() {
        assert(all.subrange(0, j + 1).drop_last() =~= all.subrange(0, j));
        lemma_refused_stays_refused(all, j + 1);
    }
}

/// Parses `read,write,enumerate,delete`-style permission lists; an unknown
/// word is a `400`.
pub fn parse_permissions(raw: &str) -> (r: Result<Permission, ApiError>)
    ensures
        match spec_parse_permissions(split_on(raw@, ',')) {
            Some(p) => r == Ok::<Permission, ApiError>(p),
            None => r == Err::<Permission, ApiError>(ApiError::BadRequest),
        },
{
    let chars = str_chars(raw);
    let pieces = split_chars(chars.as_slice(), ',');
    let ghost all = views(pieces@);
    let read = lit_read();
    let write = lit_write();
    let enumerate = lit_enumerate();
    let delete = lit_delete();
    let mut p = Permission::none();
    let mut i: usize = 0;
    assert(all.subrange(0, 0) =~= Seq::<Seq<char>>::empty());
    while i < pieces.len()
        invariant
            i <= pieces@.len(),
            all == views(pieces@),
            all == split_on(raw@, ','),
            read@ == LIT_READ(),
            write@ == LIT_WRITE(),
            enumerate@ == LIT_ENUMERATE(),
            delete@ == LIT_DELETE(),
            spec_parse_permissions(all.subrange(0, i as int)) == Some(p),
        decreases pieces@.len() - i,
    {
        let ghost pre = all.subrange(0, i as int);
        let ghost next = all.subrange(0, i + 1);
        assert(next.drop_last() =~= pre);
        assert(next.last() == pieces@[i as int]@);
        let w = trim_chars(pieces[i].as_slice());
        if w.len() == 0 {
        } else if chars_eq(w.as_slice(), read.as_slice()) {
            p.read = true;
        } else if chars_eq(w.as_slice(), write.as_slice()) {
            p.write = true;
        } else if chars_eq(w.as_slice(), enumerate.as_slice()) {
            p.enumerate = true;
        } else if chars_eq(w.as_slice(), delete.as_slice()) {
            p.delete = true;
        } else {
            proof {
                lemma_refused_stays_refused(all, i + 1);
                assert(all.subrange(0, all.len() as int) =~= all);
            }
            return Err(ApiError::BadRequest);
        }
        i = i + 1;
    }
    assert(all.subrange(0, all.len() as int) =~= all);
    Ok(p)
}

/// The claims a token request asks for, on bucket `bucket` at key generation
/// `generation` and instant `now`: the TTL must be positive, the prefix
/// non-empty, the expiry representable and the permission list valid, each
/// failure being a `400`, checked in that order.
pub open spec fn spec_token_claims(
    bucket: Seq<char>,
    generation: u64,
    prefix: Seq<char>,
    permissions: Seq<char>,
    ttl: i64,
    now: i128,
) -> Result<ClaimsView, ApiError> {
    if ttl <= 0 {
        Err(ApiError::BadRequest)
    } else if prefix.len() == 0 {
        Err(ApiError::BadRequest)
    } else {
        match spec_expiry(now, ttl as u64) {
            None => Err(ApiError::BadRequest),
            Some(exp) => match spec_parse_permissions(split_on(permissions, ',')) {
                None => Err(ApiError::BadRequest),
                Some(p) => Ok(
                    ClaimsView {
                        version: 1,
                        bucket,
                        bucket_generation: generation,
                        allowed_prefix: encode_utf8(prefix),
                        permissions: p,
                        iat: now,
                        exp,
                    },
                ),
            },
        }
    }
}

/// A token request that is granted yields claims for the bucket and key
/// generation it was made on, version 1, the requested prefix as bytes,
/// issued at `now` and expiring exactly `ttl` seconds later; it is granted
/// only for a positive TTL and a non-empty prefix.
pub proof fn lemma_granted_claims_match_request(
    bucket: Seq<char>,
    generation: u64,
    prefix: Seq<char>,
    permissions: Seq<char>,
    ttl: i64,
    now: i128,
)
    ensures
        spec_token_claims(bucket, generation, prefix, permissions, ttl, now) matches Ok(c) ==> {
            &&& ttl > 0 && prefix.len() > 0
            &&& c.version == 1
            &&& c.bucket == bucket
            &&& c.bucket_generation == generation
            &&& c.allowed_prefix == encode_utf8(prefix)
            &&& c.iat == now
            &&& c.exp == now + ttl * 1000000000
        },
{
    if ttl > 0 {
        assert((ttl as u64) as i64 == ttl);
    }
}

/// The token a request gets, for what looking the bucket's policy up gave:
/// a failed lookup is a `500`, an unknown bucket a `404`, a bucket without a
/// signing key a `503`; then the claims of [`spec_token_claims`] are signed
/// with the bucket's key at its current generation (claims too large to be
/// written are a `503`).
pub open spec fn spec_token_answer(
    bucket: Seq<char>,
    lookup: Result<Option<BucketPolicy>, UseCaseError>,
    form: CreateTokenForm,
    now: i128,
) -> Result<Seq<u8>, ApiError> {
    match lookup {
        Err(_) => Err(ApiError::InternalError),
        Ok(None) => Err(ApiError::NotFound),
        Ok(Some(policy)) => match policy.signing_key {
            None => Err(ApiError::ServiceUnavailable),
            Some(key) => match spec_token_claims(
                bucket,
                policy.signing_key_generation,
                form.prefix@,
                form.permissions@,
                form.ttl,
                now,
            ) {
                Err(e) => Err(e),
                Ok(c) => if claims_fit(c) {
                    Ok(token_text(c, key@))
                } else {
                    Err(ApiError::ServiceUnavailable)
                },
            },
        },
    }
}

/// The token a request gets (see [`spec_token_answer`]).
pub fn token_answer(
    bucket: &BucketId,
    lookup: Result<Option<BucketPolicy>, UseCaseError>,
    form: CreateTokenForm,
    now: i128,
) -> (r: Result<AccessTokenResponse, ApiError>)
    ensures
        match (r, spec_token_answer(bucket@, lookup, form, now)) {
            (Ok(t), Ok(text)) => encode_utf8(t.access_token@) == text,
            (Err(e), Err(f)) => e == f,
            _ => false,
        },
        r matches Ok(t) ==> lookup matches Ok(Some(p)) && spec_token_claims(
            bucket@,
            p.signing_key_generation,
            form.prefix@,
            form.permissions@,
            form.ttl,
            now,
        ) matches Ok(c) && forall|later: i128|
            #[trigger] spec_verify(
                encode_utf8(t.access_token@),
                policy_signing_key(&p),
                p.signing_key_generation,
                bucket@,
                later,
            ) == if c.exp <= later {
                Err::<ClaimsView, TokenError>(TokenError::Expired)
            } else {
                Ok(c)
            },
{
    let policy = match lookup {
        Err(_) => {
            return Err(ApiError::InternalError);
        },
        Ok(None) => {
            return Err(ApiError::NotFound);
        },
        Ok(Some(p)) => p,
    };
    let signing_key = match &policy.signing_key {
        Some(k) => k,
        None => {
            return Err(ApiError::ServiceUnavailable);
        },
    };
    if form.ttl <= 0 {
        return Err(ApiError::BadRequest);
    }
    if form.prefix.as_str().is_empty() {
        return Err(ApiError::BadRequest);
    }
    let exp = match expiry_after(now, form.ttl as u64) {
        Some(e) => e,
        None => {
            return Err(ApiError::BadRequest);
        },
    };
    let permissions = match parse_permissions(form.permissions.as_str()) {
        Ok(p) => p,
        Err(e) => {
            return Err(e);
        },
    };
    let allowed_prefix = string_into_bytes(form.prefix);
    let claims = TemporaryTokenClaims {
        version: 1,
        bucket: bucket.clone(),
        bucket_generation: policy.signing_key_generation,
        allowed_prefix,
        permissions,
        iat: now,
        exp,
    };
    match mint(&claims, signing_key) {
        Ok(access_token) => Ok(AccessTokenResponse { access_token }),
        Err(_) => Err(ApiError::ServiceUnavailable),
    }
}

/// The bucket whose policy `POST /{bucket}/tokens/` asks the store for:
/// admins only (anyone else gets the admin check's error and the store is
/// not asked); the answer is then [`token_answer`]'s for that lookup at the
/// clock's instant.
pub fn create_token(auth: &BucketAuth) -> (r: Result<BucketId, ApiError>)
    ensures
        match spec_require_admin(*auth) {
            Err(e) => r == Err::<BucketId, ApiError>(e),
            Ok(()) => r matches Ok(b) && b@ == auth.bucket_id@,
        },
{
    match auth.require_admin() {
        Ok(()) => Ok(auth.bucket_id.clone()),
        Err(e) => Err(e),
    }
}

} // verus!
