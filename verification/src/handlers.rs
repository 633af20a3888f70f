//! The decisions of the HTTP endpoints, from request values and repository
//! results to responses; the transport itself stays with the server.
use vstd::prelude::*;
use vstd::string::StringSliceAdditionalSpecFns;
use vstd::utf8::encode_utf8;

use crate::access::{
    BucketAuth, PolicyKeysPresence, spec_require_admin, spec_require_delete, spec_require_read,
    spec_require_write,
};
use crate::credential::{extract, opt_bytes_view, opt_str_view, spec_extract, RawCredential};
use crate::domain::{
    valid_key_bytes, BucketId, BucketPolicy, Key, SigningKey, StoredEntry, StoredValue, ValueKind,
};
use crate::encoding::{percent_decode, percent_decode_bytes};
use crate::error::{ApiError, UseCaseError};
use crate::identity::{identity_view, opt_chars, resolve, spec_resolve, IdentityView};
use crate::keys::{spec_delete_outcome, spec_entry_from_lookup, spec_write_plan, KeyService};
use crate::values::opt_text;
use crate::text::{chars_to_string, split_chars, split_on, str_chars, views};

verus! {

// ---------------------------------------------------------------- bucket from path

/// The first non-empty piece of a list of path pieces.
pub open spec fn first_nonempty(pieces: Seq<Seq<char>>) -> Option<Seq<char>>
    decreases pieces.len(),
{
    if pieces.len() == 0 {
        None
    } else if pieces[0].len() > 0 {
        Some(pieces[0])
    } else {
        first_nonempty(pieces.drop_first())
    }
}

proof fn lemma_first_nonempty(pieces: Seq<Seq<char>>)
    ensures
        first_nonempty(pieces) matches Some(t) ==> t.len() > 0,
    decreases pieces.len(),
{
    if pieces.len() > 0 && pieces[0].len() == 0 {
        lemma_first_nonempty(pieces.drop_first());
    }
}

/// The first non-empty `/`-separated segment of a request path.
pub open spec fn spec_first_path_segment(path: Seq<char>) -> Option<Seq<char>> {
    first_nonempty(split_on(path, '/'))
}

/// The first non-empty `/`-separated segment of a request path.
pub fn first_path_segment(path: &str) -> (r: Option<String>)
    ensures
        match (r, spec_first_path_segment(path@)) {
            (Some(s), Some(t)) => s@ == t,
            (None, None) => true,
            _ => false,
        },
{
    let chars = str_chars(path);
    let pieces = split_chars(chars.as_slice(), '/');
    let ghost all = views(pieces@);
    let mut i: usize = 0;
    assert(all.subrange(0, all.len() as int) =~= all);
    while i < pieces.len()
        invariant
            i <= pieces@.len(),
            all == views(pieces@),
            all == split_on(path@, '/'),
            first_nonempty(all) == first_nonempty(all.subrange(i as int, all.len() as int)),
        decreases pieces@.len() - i,
    {
        let ghost rest = all.subrange(i as int, all.len() as int);
        assert(rest[0] == pieces@[i as int]@);
        if pieces[i].len() > 0 {
            return Some(chars_to_string(pieces[i].as_slice()));
        }
        assert(rest.drop_first() =~= all.subrange(i + 1, all.len() as int));
        i = i + 1;
    }
    None
}

/// The bucket named by the first segment of a request path, if there is one.
pub fn bucket_id_from_path(path: &str) -> (r: Option<BucketId>)
    ensures
        match (r, spec_first_path_segment(path@)) {
            (Some(b), Some(t)) => b@ == t,
            (None, None) => true,
            _ => false,
        },
{
    proof {
        lemma_first_nonempty(split_on(path@, '/'));
    }
    match first_path_segment(path) {
        Some(segment) => match BucketId::new(segment) {
            Ok(id) => Some(id),
            Err(_) => None,
        },
        None => None,
    }
}

// ---------------------------------------------------------------- authentication

/// The authentication of a request for `bucket`, given what looking up its
/// policy gave: a failed lookup is a `500`, an unknown bucket a `404`, a
/// credential that resolves to nothing a `401`.
pub open spec fn spec_auth_outcome(
    bucket: Seq<char>,
    cred: Option<Seq<char>>,
    lookup: Result<Option<BucketPolicy>, UseCaseError>,
    root_key: Seq<u8>,
    now: i128,
) -> Result<IdentityView, ApiError> {
    match lookup {
        Err(_) => Err(ApiError::InternalError),
        Ok(None) => Err(ApiError::NotFound),
        Ok(Some(policy)) => match spec_resolve(cred, &policy, bucket, root_key, now) {
            Ok(id) => Ok(id),
            Err(_) => Err(ApiError::Unauthorized),
        },
    }
}

/// Whether `a` carries `policy`'s metadata for `bucket`.
pub open spec fn auth_carries_policy(a: BucketAuth, bucket: Seq<char>, policy: BucketPolicy) -> bool {
    &&& a.bucket_id@ == bucket
    &&& a.policy_presence == (PolicyKeysPresence {
        has_read_key: policy.read_key_hash is Some,
        has_write_key: policy.write_key_hash is Some,
        has_secret_key: policy.secret_key_hash is Some,
    })
    &&& a.anonymous_access == policy.anonymous_access
    &&& a.default_ttl_secs == policy.default_ttl_secs
}

/// Builds the authentication of a request for `bucket` from the policy lookup
/// (see [`spec_auth_outcome`]).
pub fn auth_from_lookup(
    bucket: BucketId,
    cred: Option<&str>,
    lookup: Result<Option<BucketPolicy>, UseCaseError>,
    root_key: &SigningKey,
    now: i128,
) -> (r: Result<BucketAuth, ApiError>)
    ensures
        match (r, spec_auth_outcome(bucket@, opt_chars(cred), lookup, root_key@, now)) {
            (Ok(a), Ok(id)) => identity_view(a.identity) == id && (lookup matches Ok(Some(p))
                && auth_carries_policy(a, bucket@, p)),
            (Err(e), Err(f)) => e == f,
            _ => false,
        },
{
    let policy = match lookup {
        Err(_) => {
            return Err(ApiError::InternalError);
        },
        Ok(None) => {
            return Err(ApiError::NotFound);
        },
        Ok(Some(p)) => p,
    };
    let identity = match resolve(cred, &policy, &bucket, root_key, now) {
        Ok(id) => id,
        Err(_) => {
            return Err(ApiError::Unauthorized);
        },
    };
    Ok(
        BucketAuth {
            identity,
            bucket_id: bucket,
            policy_presence: PolicyKeysPresence::from_policy(&policy),
            anonymous_access: policy.anonymous_access,
            default_ttl_secs: policy.default_ttl_secs,
        },
    )
}

/// What authenticating a request needs from the store: the bucket named by
/// the path, whose policy is to be looked up, and the credential the request carries.
pub struct AuthRequest {
    pub bucket: BucketId,
    pub credential: Option<RawCredential>,
}

/// Reads a request on a bucket path: the bucket is the first path segment
/// (none is a `400`, and the store is not asked), the credential comes from
/// the `Authorization` header or the query ([`extract`]). The identity is
/// then [`auth_from_lookup`]'s for the stored policy of exactly that bucket.
pub fn authenticate(path: &str, authorization: Option<&[u8]>, query: Option<&str>) -> (r: Result<AuthRequest, ApiError>)
    ensures
        spec_first_path_segment(path@) is None ==> r == Err::<AuthRequest, ApiError>(ApiError::BadRequest),
        spec_first_path_segment(path@) matches Some(bucket) ==> (r matches Ok(req) && req.bucket@ == bucket
            && match (req.credential, spec_extract(opt_bytes_view(authorization), opt_str_view(query))) {
            (Some(c), Some(v)) => c@ == v,
            (None, None) => true,
            _ => false,
        }),
{
    let bucket = match bucket_id_from_path(path) {
        Some(b) => b,
        None => {
            return Err(ApiError::BadRequest);
        },
    };
    let credential = extract(authorization, query);
    Ok(AuthRequest { bucket, credential })
}

// ---------------------------------------------------------------- keys

/// Percent-decodes a path segment or JSON key string.
pub fn decode_to_bytes(raw: &str) -> (r: Vec<u8>)
    ensures
        r@ == percent_decode(raw.spec_bytes()),
{
    percent_decode_bytes(raw.as_bytes())
}

/// Parses a percent-encoded path segment or JSON key string into a key; a
/// decoded key that is empty or longer than 128 bytes is a `400`.
pub fn parse_percent_encoded_key(raw: &str) -> (r: Result<Key, ApiError>)
    ensures
        r is Ok <==> valid_key_bytes(percent_decode(raw.spec_bytes())),
        r matches Ok(k) ==> k@ == percent_decode(raw.spec_bytes()),
        r matches Err(e) ==> e == ApiError::BadRequest,
{
    match Key::from_bytes(decode_to_bytes(raw)) {
        Ok(k) => Ok(k),
        Err(_) => Err(ApiError::BadRequest),
    }
}

/// The `Content-Type` a stored value is served with.
pub open spec fn spec_content_type_for_kind(kind: ValueKind) -> Seq<char> {
    match kind {
        ValueKind::Json => "application/json"@,
        ValueKind::Int64 | ValueKind::Float64 | ValueKind::Utf8 => "text/plain; charset=utf-8"@,
        ValueKind::Raw => "application/octet-stream"@,
    }
}

/// The `Content-Type` a stored value is served with.
pub fn content_type_for_kind(kind: ValueKind) -> (r: &'static str)
    ensures
        r@ == spec_content_type_for_kind(kind),
{
    match kind {
        ValueKind::Json => "application/json",
        ValueKind::Int64 | ValueKind::Float64 | ValueKind::Utf8 => "text/plain; charset=utf-8",
        ValueKind::Raw => "application/octet-stream",
    }
}

/// A `200` answer carrying a stored value (or only its content type, for `HEAD`).
pub struct KeyResponse {
    pub content_type: &'static str,
    pub body: Vec<u8>,
}

/// The answer to a key request, as plain values: its content type and body.
pub open spec fn key_response_view(r: Result<KeyResponse, ApiError>) -> Result<(Seq<char>, Seq<u8>), ApiError> {
    match r {
        Ok(k) => Ok((k.content_type@, k.body@)),
        Err(e) => Err(e),
    }
}

/// The answer carrying a stored value: its kind's content type and its payload.
pub fn stored_value_response(value: &StoredValue) -> (r: KeyResponse)
    ensures
        r.content_type@ == spec_content_type_for_kind(value.kind),
        r.body@ == value.payload@,
{
    KeyResponse { content_type: content_type_for_kind(value.kind), body: value.payload.clone() }
}

/// The HTTP error of a failed key operation: a missing (or expired) key is a
/// `404`, any other failure a `500`.
pub open spec fn spec_key_error(e: UseCaseError) -> ApiError {
    match e {
        UseCaseError::NotFound => ApiError::NotFound,
        _ => ApiError::InternalError,
    }
}

/// The HTTP error of a failed key operation (see [`spec_key_error`]).
pub fn key_error(e: UseCaseError) -> (r: ApiError)
    ensures
        r == spec_key_error(e),
{
    match e {
        UseCaseError::NotFound => ApiError::NotFound,
        _ => ApiError::InternalError,
    }
}

/// The answer to a read (`with_body`) or a `HEAD` (without) for what the
/// read of the entry gave.
pub open spec fn spec_read_answer(entry: Result<StoredEntry, UseCaseError>, with_body: bool) -> Result<
    (Seq<char>, Seq<u8>),
    ApiError,
> {
    match entry {
        Err(e) => Err(spec_key_error(e)),
        Ok(en) => Ok(
            (
                spec_content_type_for_kind(en.value.kind),
                if with_body {
                    en.value.payload@
                } else {
                    Seq::empty()
                },
            ),
        ),
    }
}

/// A `HEAD` answers as the `GET` of the same entry does, with the same
/// status and content type but no body; a `GET` serves the stored payload;
/// an entry that is missing or expired is a `404`, and no other failure is.
pub proof fn lemma_head_answers_like_get(entry: Result<StoredEntry, UseCaseError>)
    ensures
        spec_read_answer(entry, true) is Ok <==> spec_read_answer(entry, false) is Ok,
        entry matches Ok(en) ==> spec_read_answer(entry, true) matches Ok((ct, body)) && body == en.value.payload@
            && spec_read_answer(entry, false) == Ok::<(Seq<char>, Seq<u8>), ApiError>((ct, Seq::empty())),
        entry matches Err(e) ==> spec_read_answer(entry, true) == spec_read_answer(entry, false) && (
        spec_read_answer(entry, true) == Err::<(Seq<char>, Seq<u8>), ApiError>(ApiError::NotFound) <==> e
            == UseCaseError::NotFound),
{
}

/// The answer to a read or `HEAD` for what the read of the entry gave.
pub fn read_answer(entry: Result<StoredEntry, UseCaseError>, with_body: bool) -> (r: Result<KeyResponse, ApiError>)
    ensures
        key_response_view(r) == spec_read_answer(entry, with_body),
{
    match entry {
        Err(e) => Err(key_error(e)),
        Ok(en) => {
            if with_body {
                Ok(stored_value_response(&en.value))
            } else {
                let r = KeyResponse { content_type: content_type_for_kind(en.value.kind), body: Vec::new() };
                assert(r.body@ =~= Seq::<u8>::empty());
                Ok(r)
            }
        },
    }
}

/// What gating a key request gives before the repository is asked: a key
/// that does not decode to a valid key is a `400`, then the identity must be
/// allowed the operation on it.
pub open spec fn spec_key_gate(
    auth: BucketAuth,
    raw_key: Seq<u8>,
    allowed: spec_fn(BucketAuth, Seq<u8>) -> Result<(), ApiError>,
) -> Result<Seq<u8>, ApiError> {
    let k = percent_decode(raw_key);
    if !valid_key_bytes(k) {
        Err(ApiError::BadRequest)
    } else {
        match allowed(auth, k) {
            Ok(()) => Ok(k),
            Err(e) => Err(e),
        }
    }
}

/// The key a read asks the store for: gated as [`spec_key_gate`] says for
/// reading; on an error the store is not asked.
pub fn get_key(auth: &BucketAuth, raw_key: &str) -> (r: Result<Key, ApiError>)
    ensures
        match spec_key_gate(*auth, raw_key.spec_bytes(), |a: BucketAuth, k: Seq<u8>| spec_require_read(a, k)) {
            Ok(k) => r matches Ok(key) && key@ == k,
            Err(e) => r == Err::<Key, ApiError>(e),
        },
{
    let key = match parse_percent_encoded_key(raw_key) {
        Ok(k) => k,
        Err(e) => {
            return Err(e);
        },
    };
    match auth.require_read_on(&key) {
        Ok(()) => Ok(key),
        Err(e) => Err(e),
    }
}

/// The key a `HEAD` asks the store for: gated exactly as a read.
pub fn head_key(auth: &BucketAuth, raw_key: &str) -> (r: Result<Key, ApiError>)
    ensures
        match spec_key_gate(*auth, raw_key.spec_bytes(), |a: BucketAuth, k: Seq<u8>| spec_require_read(a, k)) {
            Ok(k) => r matches Ok(key) && key@ == k,
            Err(e) => r == Err::<Key, ApiError>(e),
        },
{
    get_key(auth, raw_key)
}

/// The answer to a read (`with_body`) or `HEAD` (without) for what the store
/// answered to it at instant `now`: missing or expired is a `404`.
pub fn read_key_answer(lookup: Result<Option<StoredEntry>, UseCaseError>, now: i128, with_body: bool) -> (r: Result<
    KeyResponse,
    ApiError,
>)
    ensures
        key_response_view(r) == spec_read_answer(spec_entry_from_lookup(lookup, now), with_body),
{
    read_answer(KeyService::entry_from_lookup(lookup, now), with_body)
}

/// A write for the store to make.
pub struct KeyWrite {
    pub key: Key,
    pub value: StoredValue,
    pub expires_at: Option<i128>,
}

/// The write a `PUT`/`POST` asks the store for at instant `now`: gated for
/// writing, then the body with its inferred kind, expiring as
/// [`spec_write_expiry`] says (the request's TTL over the bucket default, 0
/// meaning never). A value the store cannot keep is a `500`. On an error
/// the store is not asked.
pub fn put_key(
    auth: &BucketAuth,
    raw_key: &str,
    ttl: Option<u64>,
    content_type: Option<&str>,
    body: Vec<u8>,
    now: i128,
) -> (r: Result<KeyWrite, ApiError>)
    ensures
        match spec_key_gate(*auth, raw_key.spec_bytes(), |a: BucketAuth, k: Seq<u8>| spec_require_write(a, k)) {
            Err(e) => r == Err::<KeyWrite, ApiError>(e),
            Ok(k) => match spec_write_plan(now, body@, opt_text(content_type), ttl, auth.default_ttl_secs) {
                Err(_) => r == Err::<KeyWrite, ApiError>(ApiError::InternalError),
                Ok((v, e)) => r matches Ok(w) && w.key@ == k && (w.value.payload@, w.value.kind) == v
                    && w.expires_at == e,
            },
        },
{
    let key = match parse_percent_encoded_key(raw_key) {
        Ok(k) => k,
        Err(e) => {
            return Err(e);
        },
    };
    match auth.require_write_on(&key) {
        Ok(()) => {},
        Err(e) => {
            return Err(e);
        },
    }
    match KeyService::write_plan(now, body, content_type, ttl, auth.default_ttl_secs) {
        Ok((value, expires_at)) => Ok(KeyWrite { key, value, expires_at }),
        Err(_) => Err(ApiError::InternalError),
    }
}

/// The answer to a write for what the store answered: the stored value
/// echoed, or a `500`.
pub fn put_key_answer(value: &StoredValue, reply: Result<(), UseCaseError>) -> (r: Result<KeyResponse, ApiError>)
    ensures
        match reply {
            Ok(()) => r matches Ok(resp) && resp.content_type@ == spec_content_type_for_kind(value.kind)
                && resp.body@ == value.payload@,
            Err(_) => r == Err::<KeyResponse, ApiError>(ApiError::InternalError),
        },
{
    match reply {
        Ok(()) => Ok(stored_value_response(value)),
        Err(_) => Err(ApiError::InternalError),
    }
}

/// The key a `DELETE` asks the store to remove: gated for deleting; on an
/// error the store is not asked.
pub fn delete_key(auth: &BucketAuth, raw_key: &str) -> (r: Result<Key, ApiError>)
    ensures
        match spec_key_gate(*auth, raw_key.spec_bytes(), |a: BucketAuth, k: Seq<u8>| spec_require_delete(a, k)) {
            Ok(k) => r matches Ok(key) && key@ == k,
            Err(e) => r == Err::<Key, ApiError>(e),
        },
{
    let key = match parse_percent_encoded_key(raw_key) {
        Ok(k) => k,
        Err(e) => {
            return Err(e);
        },
    };
    match auth.require_delete_on(&key) {
        Ok(()) => Ok(key),
        Err(e) => Err(e),
    }
}

/// The answer to a delete for what the store answered: `204` when the key
/// was removed, `404` when there was none, `500` on a store failure.
pub fn delete_key_answer(deleted: Result<bool, UseCaseError>) -> (r: Result<(), ApiError>)
    ensures
        r == match spec_delete_outcome(deleted) {
            Ok(()) => Ok::<(), ApiError>(()),
            Err(e) => Err(spec_key_error(e)),
        },
{
    match KeyService::delete_outcome(deleted) {
        Ok(()) => Ok(()),
        Err(e) => Err(key_error(e)),
    }
}

/// The key a counter increment (`PATCH`) updates: gated for writing; on an
/// error the store is not asked.
pub fn patch_key(auth: &BucketAuth, raw_key: &str) -> (r: Result<Key, ApiError>)
    ensures
        match spec_key_gate(*auth, raw_key.spec_bytes(), |a: BucketAuth, k: Seq<u8>| spec_require_write(a, k)) {
            Ok(k) => r matches Ok(key) && key@ == k,
            Err(e) => r == Err::<Key, ApiError>(e),
        },
{
    let key = match parse_percent_encoded_key(raw_key) {
        Ok(k) => k,
        Err(e) => {
            return Err(e);
        },
    };
    match auth.require_write_on(&key) {
        Ok(()) => Ok(key),
        Err(e) => Err(e),
    }
}

/// The answer to a store write that returns nothing: success, or a `500`.
pub fn write_answer(reply: Result<(), UseCaseError>) -> (r: Result<(), ApiError>)
    ensures
        r == match reply {
            Ok(()) => Ok::<(), ApiError>(()),
            Err(_) => Err(ApiError::InternalError),
        },
{
    match reply {
        Ok(()) => Ok(()),
        Err(_) => Err(ApiError::InternalError),
    }
}

} // verus!
