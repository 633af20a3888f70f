//! Bucket policy projections, creation from the form, and the JSON patch.
use vstd::prelude::*;
use vstd::string::StringSliceAdditionalSpecFns;
use vstd::utf8::encode_utf8;

use crate::domain::{BucketPolicy, Permission, SigningKey, spec_anonymous_from_keys};
use crate::error::ApiError;
use crate::identity::{hash_credential, spec_credential_hash};
use crate::text::{index_of, lemma_index_of_bounds, str_chars, trim, trim_chars, find_char};

verus! {

/// Hosted default TTL applied to buckets created without `default_ttl`: 7 days.
pub const DEFAULT_BUCKET_TTL_SECS: u64 = 604800;

/// What a [`BucketPolicy`] holds, as plain values.
pub struct PolicyView {
    pub default_ttl_secs: Option<u64>,
    pub anonymous_access: Permission,
    pub secret_key_hash: Option<Seq<u8>>,
    pub read_key_hash: Option<Seq<u8>>,
    pub write_key_hash: Option<Seq<u8>>,
    pub signing_key: Option<Seq<u8>>,
    pub signing_key_generation: u64,
}

pub open spec fn opt_bytes(o: Option<Vec<u8>>) -> Option<Seq<u8>> {
    match o {
        Some(v) => Some(v@),
        None => None,
    }
}

pub open spec fn opt_key(o: Option<SigningKey>) -> Option<Seq<u8>> {
    match o {
        Some(k) => Some(k@),
        None => None,
    }
}

impl View for BucketPolicy {
    type V = PolicyView;

    open spec fn view(&self) -> PolicyView {
        PolicyView {
            default_ttl_secs: self.default_ttl_secs,
            anonymous_access: self.anonymous_access,
            secret_key_hash: opt_bytes(self.secret_key_hash),
            read_key_hash: opt_bytes(self.read_key_hash),
            write_key_hash: opt_bytes(self.write_key_hash),
            signing_key: opt_key(self.signing_key),
            signing_key_generation: self.signing_key_generation,
        }
    }
}

/// Public snapshot of anonymous capabilities.
#[derive(Debug, Clone, Copy, PartialEq, Eq, Structural)]
pub struct AnonymousAccessView {
    pub read: bool,
    pub write: bool,
    pub enumerate: bool,
    pub delete: bool,
}

impl AnonymousAccessView {
    pub fn from_permission(p: Permission) -> (r: AnonymousAccessView)
        ensures
            r.read == p.read && r.write == p.write && r.enumerate == p.enumerate && r.delete
                == p.delete,
    {
        AnonymousAccessView { read: p.read, write: p.write, enumerate: p.enumerate, delete: p.delete }
    }
}

/// Public projection of a policy returned by `GET /{bucket}`: presence flags
/// and rotation metadata only, never hashes or the signing key.
#[derive(Debug, Clone, Copy, PartialEq, Eq, Structural)]
pub struct BucketPolicyPublic {
    pub default_ttl: Option<u64>,
    pub has_secret_key: bool,
    pub has_read_key: bool,
    pub has_write_key: bool,
    pub has_signing_key: bool,
    pub signing_key_generation: u64,
    pub anonymous_access: AnonymousAccessView,
}

pub open spec fn spec_public_policy_view(p: PolicyView) -> BucketPolicyPublic {
    BucketPolicyPublic {
        default_ttl: p.default_ttl_secs,
        has_secret_key: p.secret_key_hash is Some,
        has_read_key: p.read_key_hash is Some,
        has_write_key: p.write_key_hash is Some,
        has_signing_key: p.signing_key is Some,
        signing_key_generation: p.signing_key_generation,
        anonymous_access: AnonymousAccessView {
            read: p.anonymous_access.read,
            write: p.anonymous_access.write,
            enumerate: p.anonymous_access.enumerate,
            delete: p.anonymous_access.delete,
        },
    }
}

pub fn public_policy_view(policy: &BucketPolicy) -> (r: BucketPolicyPublic)
    ensures
        r == spec_public_policy_view(policy@),
{
    BucketPolicyPublic {
        default_ttl: policy.default_ttl_secs,
        has_secret_key: policy.secret_key_hash.is_some(),
        has_read_key: policy.read_key_hash.is_some(),
        has_write_key: policy.write_key_hash.is_some(),
        has_signing_key: policy.signing_key.is_some(),
        signing_key_generation: policy.signing_key_generation,
        anonymous_access: AnonymousAccessView::from_permission(policy.anonymous_access),
    }
}

/// Anonymous capabilities that match the credentials a policy holds.
pub open spec fn spec_recompute_anonymous(p: PolicyView) -> Permission {
    spec_anonymous_from_keys(
        p.secret_key_hash is Some,
        p.read_key_hash is Some,
        p.write_key_hash is Some,
    )
}

pub fn recompute_anonymous_access(policy: &BucketPolicy) -> (r: Permission)
    ensures
        r == spec_recompute_anonymous(policy@),
{
    Permission::anonymous_from_keys(
        policy.secret_key_hash.is_some(),
        policy.read_key_hash.is_some(),
        policy.write_key_hash.is_some(),
    )
}

// ---------------------------------------------------------------- creation

/// Form fields of `POST /api/v1/` (bucket creation).
#[derive(Debug, Clone)]
pub struct CreateBucketForm {
    pub email: String,
    pub secret_key: Option<String>,
    pub read_key: Option<String>,
    pub write_key: Option<String>,
    pub signing_key: Option<String>,
    pub default_ttl: Option<u64>,
}

/// Minimal structural e-mail check: after trimming, exactly one `@`, a
/// non-empty local part, and a domain holding a `.` at neither edge.
pub open spec fn spec_valid_email(raw: Seq<char>) -> bool {
    let t = trim(raw);
    let i = index_of(t, '@');
    let local = t.subrange(0, i);
    let domain = t.subrange(i + 1, t.len() as int);
    &&& t.len() > 0
    &&& i < t.len()
    &&& local.len() > 0
    &&& index_of(domain, '@') == domain.len()
    &&& index_of(domain, '.') < domain.len()
    &&& domain[0] != '.'
    &&& domain.last() != '.'
}

/// Minimal structural e-mail validation; the field is only an administrative label.
pub fn is_minimally_valid_email(raw: &str) -> (r: bool)
    ensures
        r == spec_valid_email(raw@),
{
    let chars = str_chars(raw);
    let t = trim_chars(chars.as_slice());
    if t.len() == 0 {
        return false;
    }
    let i = find_char(t.as_slice(), '@');
    proof {
        lemma_index_of_bounds(t@, '@');
    }
    if i == t.len() {
        return false;
    }
    let domain = crate::text::sub_chars(t.as_slice(), i + 1, t.len());
    if i == 0 {
        return false;
    }
    let at2 = find_char(domain.as_slice(), '@');
    proof {
        lemma_index_of_bounds(domain@, '@');
    }
    if at2 < domain.len() {
        return false;
    }
    let dot = find_char(domain.as_slice(), '.');
    if dot == domain.len() {
        return false;
    }
    proof {
        lemma_index_of_bounds(domain@, '.');
    }
    domain[0] != '.' && domain[domain.len() - 1] != '.'
}

/// An absent or empty text both mean "not provided".
pub open spec fn spec_none_if_empty(s: Option<Seq<char>>) -> Option<Seq<char>> {
    match s {
        Some(v) => if v.len() == 0 {
            None
        } else {
            Some(v)
        },
        None => None,
    }
}

pub open spec fn opt_string(o: Option<String>) -> Option<Seq<char>> {
    match o {
        Some(s) => Some(s@),
        None => None,
    }
}

pub fn none_if_empty(s: Option<String>) -> (r: Option<String>)
    ensures
        opt_string(r) == spec_none_if_empty(opt_string(s)),
{
    match s {
        Some(v) => {
            if v.as_str().is_empty() {
                None
            } else {
                Some(v)
            }
        },
        None => None,
    }
}

/// The stored hash of a credential given as text.
pub open spec fn text_hash(s: Seq<char>, root_key: Seq<u8>) -> Seq<u8> {
    spec_credential_hash(encode_utf8(s), root_key)
}

pub open spec fn opt_text_hash(s: Option<Seq<char>>, root_key: Seq<u8>) -> Option<Seq<u8>> {
    match s {
        Some(v) => Some(text_hash(v, root_key)),
        None => None,
    }
}

/// Hashes an API key for storage (hashing itself cannot fail).
pub fn hash_api_key_or_fail(root_key: &SigningKey, raw: &str) -> (r: Result<Vec<u8>, ApiError>)
    ensures
        r matches Ok(h) && h@ == text_hash(raw@, root_key@),
{
    match hash_credential(raw, root_key) {
        Ok(h) => Ok(h),
        Err(_) => Err(ApiError::InternalError),
    }
}

fn hash_optional(raw: &Option<String>, root_key: &SigningKey) -> (r: Option<Vec<u8>>)
    ensures
        opt_bytes(r) == opt_text_hash(opt_string(*raw), root_key@),
{
    match raw {
        Some(s) => match hash_api_key_or_fail(root_key, s.as_str()) {
            Ok(h) => Some(h),
            Err(_) => None,
        },
        None => None,
    }
}

/// The policy a bucket is created with, from the creation form: empty
/// credentials count as absent, API keys are stored hashed, the signing key
/// is kept as given, the default TTL falls back to 7 days (an explicit `0`
/// meaning "no expiry"), and the generation starts at 0.
pub open spec fn spec_policy_from_form(
    default_ttl: Option<u64>,
    secret: Option<Seq<char>>,
    read: Option<Seq<char>>,
    write: Option<Seq<char>>,
    signing: Option<Seq<char>>,
    root_key: Seq<u8>,
) -> PolicyView {
    let s = spec_none_if_empty(secret);
    let r = spec_none_if_empty(read);
    let w = spec_none_if_empty(write);
    let g = spec_none_if_empty(signing);
    PolicyView {
        default_ttl_secs: Some(
            match default_ttl {
                Some(t) => t,
                None => DEFAULT_BUCKET_TTL_SECS,
            },
        ),
        anonymous_access: spec_anonymous_from_keys(s is Some, r is Some, w is Some),
        secret_key_hash: opt_text_hash(s, root_key),
        read_key_hash: opt_text_hash(r, root_key),
        write_key_hash: opt_text_hash(w, root_key),
        signing_key: match g {
            Some(v) => Some(encode_utf8(v)),
            None => None,
        },
        signing_key_generation: 0,
    }
}

/// Validates the creation form and builds the bucket policy.
/// An invalid e-mail is a `400`.
pub fn build_bucket_policy(form: CreateBucketForm, root_key: &SigningKey) -> (r: Result<BucketPolicy, ApiError>)
    ensures
        r is Err <==> !spec_valid_email(form.email@),
        r matches Err(e) ==> e == ApiError::BadRequest,
        r matches Ok(p) ==> p@ == spec_policy_from_form(
            form.default_ttl,
            opt_string(form.secret_key),
            opt_string(form.read_key),
            opt_string(form.write_key),
            opt_string(form.signing_key),
            root_key@,
        ),
{
    if !is_minimally_valid_email(form.email.as_str()) {
        return Err(ApiError::BadRequest);
    }
    let secret_key = none_if_empty(form.secret_key);
    let read_key = none_if_empty(form.read_key);
    let write_key = none_if_empty(form.write_key);
    let signing_key = none_if_empty(form.signing_key);
    let anonymous_access = Permission::anonymous_from_keys(
        secret_key.is_some(),
        read_key.is_some(),
        write_key.is_some(),
    );
    let secret_key_hash = hash_optional(&secret_key, root_key);
    let read_key_hash = hash_optional(&read_key, root_key);
    let write_key_hash = hash_optional(&write_key, root_key);
    let default_ttl_secs = Some(
        match form.default_ttl {
            Some(t) => t,
            None => DEFAULT_BUCKET_TTL_SECS,
        },
    );
    let signing = match signing_key {
        Some(s) => Some(SigningKey::new(crate::text::string_into_bytes(s))),
        None => None,
    };
    Ok(
        BucketPolicy {
            default_ttl_secs,
            anonymous_access,
            secret_key_hash,
            read_key_hash,
            write_key_hash,
            signing_key: signing,
            signing_key_generation: 0,
        },
    )
}

// ---------------------------------------------------------------- patching

/// JSON body of `PATCH /{bucket}`: for each field, absent (`None`) leaves it
/// as-is, `null` (`Some(None)`) clears it, a value (`Some(Some(v))`) sets it.
#[derive(Debug, Clone)]
pub struct UpdatePolicyJson {
    pub secret_key: Option<Option<String>>,
    pub read_key: Option<Option<String>>,
    pub write_key: Option<Option<String>>,
    pub signing_key: Option<Option<String>>,
    pub default_ttl: Option<Option<u64>>,
}

impl UpdatePolicyJson {
    /// The empty patch (every field absent).
    pub fn empty() -> (r: UpdatePolicyJson)
        ensures
            r.secret_key is None && r.read_key is None && r.write_key is None
                && r.signing_key is None && r.default_ttl is None,
    {
        UpdatePolicyJson {
            secret_key: None,
            read_key: None,
            write_key: None,
            signing_key: None,
            default_ttl: None,
        }
    }
}

pub open spec fn opt2_string(o: Option<Option<String>>) -> Option<Option<Seq<char>>> {
    match o {
        Some(Some(s)) => Some(Some(s@)),
        Some(None) => Some(None),
        None => None,
    }
}

/// Outcome of a nullable credential field: `null` clears, an empty text is a `400`.
pub open spec fn spec_nullable_hash(v: Option<Seq<char>>, root_key: Seq<u8>) -> Result<
    Option<Seq<u8>>,
    ApiError,
> {
    match v {
        None => Ok(None),
        Some(s) => if s.len() == 0 {
            Err(ApiError::BadRequest)
        } else {
            Ok(Some(text_hash(s, root_key)))
        },
    }
}

pub fn apply_nullable_hash(value: Option<String>, root_key: &SigningKey) -> (r: Result<
    Option<Vec<u8>>,
    ApiError,
>)
    ensures
        match (r, spec_nullable_hash(opt_string(value), root_key@)) {
            (Ok(a), Ok(b)) => opt_bytes(a) == b,
            (Err(a), Err(b)) => a == b,
            _ => false,
        },
{
    match value {
        None => Ok(None),
        Some(s) => {
            if s.as_str().is_empty() {
                Err(ApiError::BadRequest)
            } else {
                match hash_api_key_or_fail(root_key, s.as_str()) {
                    Ok(h) => Ok(Some(h)),
                    Err(e) => Err(e),
                }
            }
        },
    }
}

/// The patch applied field by field, in the order `secret_key`, `read_key`,
/// `write_key`, `signing_key`, `default_ttl`; the first refused field stops
/// it (the fields before it are already applied). `secret_key` can be
/// rotated but never cleared; empty texts are refused; the signing key
/// generation moves on exactly when the signing key material changes.
pub open spec fn spec_apply_patch(
    p: PolicyView,
    secret: Option<Option<Seq<char>>>,
    read: Option<Option<Seq<char>>>,
    write: Option<Option<Seq<char>>>,
    signing: Option<Option<Seq<char>>>,
    ttl: Option<Option<u64>>,
    root_key: Seq<u8>,
) -> (PolicyView, Result<(), ApiError>) {
    // secret_key
    let (p1, r1): (PolicyView, Result<(), ApiError>) = match secret {
        None => (p, Ok(())),
        Some(None) => (p, Err(ApiError::BadRequest)),
        Some(Some(s)) => if s.len() == 0 {
            (p, Err(ApiError::BadRequest))
        } else {
            (PolicyView { secret_key_hash: Some(text_hash(s, root_key)), ..p }, Ok(()))
        },
    };
    if r1 is Err {
        (p1, r1)
    } else {
        // read_key
        let (p2, r2): (PolicyView, Result<(), ApiError>) = match read {
            None => (p1, Ok(())),
            Some(v) => match spec_nullable_hash(v, root_key) {
                Ok(h) => (PolicyView { read_key_hash: h, ..p1 }, Ok(())),
                Err(e) => (p1, Err(e)),
            },
        };
        if r2 is Err {
            (p2, r2)
        } else {
            // write_key
            let (p3, r3): (PolicyView, Result<(), ApiError>) = match write {
                None => (p2, Ok(())),
                Some(v) => match spec_nullable_hash(v, root_key) {
                    Ok(h) => (PolicyView { write_key_hash: h, ..p2 }, Ok(())),
                    Err(e) => (p2, Err(e)),
                },
            };
            if r3 is Err {
                (p3, r3)
            } else {
                // signing_key
                let (p4, r4): (PolicyView, Result<(), ApiError>) = match signing {
                    None => (p3, Ok(())),
                    Some(v) => match v {
                        Some(s) if s.len() == 0 => (p3, Err(ApiError::BadRequest)),
                        _ => {
                            let new_key: Option<Seq<u8>> = match v {
                                Some(s) => Some(encode_utf8(s)),
                                None => None,
                            };
                            let generation = if p3.signing_key != new_key {
                                (p3.signing_key_generation + 1) as u64
                            } else {
                                p3.signing_key_generation
                            };
                            (
                                PolicyView {
                                    signing_key: new_key,
                                    signing_key_generation: generation,
                                    ..p3
                                },
                                Ok(()),
                            )
                        },
                    },
                };
                if r4 is Err {
                    (p4, r4)
                } else {
                    match ttl {
                        None => (p4, Ok(())),
                        Some(t) => (PolicyView { default_ttl_secs: t, ..p4 }, Ok(())),
                    }
                }
            }
        }
    }
}

/// Whether a patch gets as far as its `signing_key` field (every field before
/// it is accepted) and that field changes the key material, which moves the
/// key generation on.
pub open spec fn spec_patch_rotates_key(
    p: PolicyView,
    secret: Option<Option<Seq<char>>>,
    read: Option<Option<Seq<char>>>,
    write: Option<Option<Seq<char>>>,
    signing: Option<Option<Seq<char>>>,
) -> bool {
    &&& match secret {
        None => true,
        Some(None) => false,
        Some(Some(s)) => s.len() > 0,
    }
    &&& match read {
        Some(Some(s)) => s.len() > 0,
        _ => true,
    }
    &&& match write {
        Some(Some(s)) => s.len() > 0,
        _ => true,
    }
    &&& match signing {
        None => false,
        Some(None) => p.signing_key is Some,
        Some(Some(s)) => s.len() > 0 && p.signing_key != Some(encode_utf8(s)),
    }
}

fn accepted_text(v: &Option<Option<String>>, nullable: bool) -> (r: bool)
    ensures
        r == match opt2_string(*v) {
            None => true,
            Some(None) => nullable,
            Some(Some(s)) => s.len() > 0,
        },
{
    match v {
        None => true,
        Some(None) => nullable,
        Some(Some(s)) => !s.as_str().is_empty(),
    }
}

/// Whether applying `patch` to `policy` moves the signing key generation on
/// (see [`spec_patch_rotates_key`]).
pub fn patch_rotates_key(policy: &BucketPolicy, patch: &UpdatePolicyJson) -> (r: bool)
    ensures
        r == spec_patch_rotates_key(
            policy@,
            opt2_string(patch.secret_key),
            opt2_string(patch.read_key),
            opt2_string(patch.write_key),
            opt2_string(patch.signing_key),
        ),
{
    if !accepted_text(&patch.secret_key, false) || !accepted_text(&patch.read_key, true)
        || !accepted_text(&patch.write_key, true) {
        return false;
    }
    match &patch.signing_key {
        None => false,
        Some(None) => policy.signing_key.is_some(),
        Some(Some(s)) => {
            if s.as_str().is_empty() {
                false
            } else {
                let b = crate::text::string_into_bytes(s.clone());
                !same_key_material(&policy.signing_key, &Some(b))
            }
        },
    }
}

fn same_key_material(current: &Option<SigningKey>, new_bytes: &Option<Vec<u8>>) -> (r: bool)
    ensures
        r == (opt_key(*current) == opt_bytes(*new_bytes)),
{
    match (current, new_bytes) {
        (Some(k), Some(b)) => crate::text::bytes_eq(k.expose_secret(), b.as_slice()),
        (None, None) => true,
        _ => false,
    }
}

/// Mutates `policy` according to the JSON patch (see [`spec_apply_patch`]).
pub fn apply_policy_patch(policy: &mut BucketPolicy, patch: UpdatePolicyJson, root_key: &SigningKey) -> (r: Result<(), ApiError>)
    requires
        spec_patch_rotates_key(
            old(policy)@,
            opt2_string(patch.secret_key),
            opt2_string(patch.read_key),
            opt2_string(patch.write_key),
            opt2_string(patch.signing_key),
        ) ==> old(policy).signing_key_generation < u64::MAX,
    ensures
        (final(policy)@, r) == spec_apply_patch(
            old(policy)@,
            opt2_string(patch.secret_key),
            opt2_string(patch.read_key),
            opt2_string(patch.write_key),
            opt2_string(patch.signing_key),
            patch.default_ttl,
            root_key@,
        ),
{
    if let Some(inner) = patch.secret_key {
        match inner {
            None => {
                return Err(ApiError::BadRequest);
            },
            Some(s) => {
                if s.as_str().is_empty() {
                    return Err(ApiError::BadRequest);
                }
                match hash_api_key_or_fail(root_key, s.as_str()) {
                    Ok(h) => {
                        policy.secret_key_hash = Some(h);
                    },
                    Err(e) => {
                        return Err(e);
                    },
                }
            },
        }
    }
    if let Some(inner) = patch.read_key {
        match apply_nullable_hash(inner, root_key) {
            Ok(h) => {
                policy.read_key_hash = h;
            },
            Err(e) => {
                return Err(e);
            },
        }
    }
    if let Some(inner) = patch.write_key {
        match apply_nullable_hash(inner, root_key) {
            Ok(h) => {
                policy.write_key_hash = h;
            },
            Err(e) => {
                return Err(e);
            },
        }
    }
    if let Some(inner) = patch.signing_key {
        let new_bytes: Option<Vec<u8>> = match inner {
            None => None,
            Some(s) => {
                if s.as_str().is_empty() {
                    return Err(ApiError::BadRequest);
                }
                Some(crate::text::string_into_bytes(s))
            },
        };
        let changed = !same_key_material(&policy.signing_key, &new_bytes);
        if changed {
            policy.signing_key_generation = policy.signing_key_generation + 1;
        }
        policy.signing_key = match new_bytes {
            Some(b) => Some(SigningKey::new(b)),
            None => None,
        };
    }
    if let Some(inner) = patch.default_ttl {
        policy.default_ttl_secs = inner;
    }
    Ok(())
}

/// Clearing the admin credential is always refused, and a refused patch
/// never reports success.
pub proof fn lemma_secret_key_never_cleared(
    p: PolicyView,
    read: Option<Option<Seq<char>>>,
    write: Option<Option<Seq<char>>>,
    signing: Option<Option<Seq<char>>>,
    ttl: Option<Option<u64>>,
    root_key: Seq<u8>,
)
    ensures
        spec_apply_patch(p, Some(None), read, write, signing, ttl, root_key).1 == Err::<(), ApiError>(ApiError::BadRequest),
        spec_apply_patch(p, Some(None), read, write, signing, ttl, root_key).0 == p,
{
}

/// A successful patch keeps the admin credential whenever the bucket had
/// one, and leaves every absent field unchanged.
pub proof fn lemma_patch_keeps_absent_fields(
    p: PolicyView,
    secret: Option<Option<Seq<char>>>,
    read: Option<Option<Seq<char>>>,
    write: Option<Option<Seq<char>>>,
    signing: Option<Option<Seq<char>>>,
    ttl: Option<Option<u64>>,
    root_key: Seq<u8>,
)
    ensures
        ({
            let (q, r) = spec_apply_patch(p, secret, read, write, signing, ttl, root_key);
            &&& (r is Ok && p.secret_key_hash is Some) ==> q.secret_key_hash is Some
            &&& secret is None ==> q.secret_key_hash == p.secret_key_hash
            &&& read is None ==> q.read_key_hash == p.read_key_hash
            &&& write is None ==> q.write_key_hash == p.write_key_hash
            &&& signing is None ==> q.signing_key == p.signing_key && q.signing_key_generation
                == p.signing_key_generation
            &&& ttl is None ==> q.default_ttl_secs == p.default_ttl_secs
            &&& q.anonymous_access == p.anonymous_access
        }),
{
}

/// The signing key generation moves on by one exactly when a successful patch
/// changes the signing key material; replaying the same key is idempotent.
pub proof fn lemma_generation_tracks_rotation(
    p: PolicyView,
    secret: Option<Option<Seq<char>>>,
    read: Option<Option<Seq<char>>>,
    write: Option<Option<Seq<char>>>,
    signing: Option<Option<Seq<char>>>,
    ttl: Option<Option<u64>>,
    root_key: Seq<u8>,
)
    requires
        p.signing_key_generation < u64::MAX,
    ensures
        ({
            let (q, r) = spec_apply_patch(p, secret, read, write, signing, ttl, root_key);
            r is Ok ==> (q.signing_key_generation == if q.signing_key != p.signing_key {
                p.signing_key_generation + 1
            } else {
                p.signing_key_generation as int
            })
        }),
{
}

/// Whether a text field of a form is given (present and non-empty).
pub open spec fn given_text(o: Option<Seq<char>>) -> bool {
    o matches Some(s) && s.len() > 0
}

/// A bucket created from a form keeps what the form gives: the default TTL
/// it names (7 days, 604800 s, only when it names none; `0` stays `0`), the
/// hash of each credential it gives and no credential it leaves out or
/// leaves empty, the signing key as given, generation 0, and anonymous
/// access open exactly where no credential guards it.
pub proof fn lemma_policy_from_form_keeps_the_form(
    default_ttl: Option<u64>,
    secret: Option<Seq<char>>,
    read: Option<Seq<char>>,
    write: Option<Seq<char>>,
    signing: Option<Seq<char>>,
    root_key: Seq<u8>,
)
    ensures
        ({
            let q = spec_policy_from_form(default_ttl, secret, read, write, signing, root_key);
            &&& default_ttl matches Some(t) ==> q.default_ttl_secs == Some(t)
            &&& default_ttl is None ==> q.default_ttl_secs == Some(604800u64)
            &&& given_text(secret) ==> q.secret_key_hash == Some(text_hash(secret->0, root_key))
            &&& !given_text(secret) ==> q.secret_key_hash is None
            &&& given_text(read) ==> q.read_key_hash == Some(text_hash(read->0, root_key))
            &&& !given_text(read) ==> q.read_key_hash is None
            &&& given_text(write) ==> q.write_key_hash == Some(text_hash(write->0, root_key))
            &&& !given_text(write) ==> q.write_key_hash is None
            &&& given_text(signing) ==> q.signing_key == Some(encode_utf8(signing->0))
            &&& !given_text(signing) ==> q.signing_key is None
            &&& q.signing_key_generation == 0
            &&& q.anonymous_access.read == !given_text(read)
            &&& q.anonymous_access.enumerate == !given_text(read)
            &&& q.anonymous_access.write == !given_text(write)
            &&& q.anonymous_access.delete == (!given_text(secret) && !given_text(read) && !given_text(write))
        }),
{
}

/// A patch is refused exactly when it clears the admin credential or gives
/// an empty text for some field, and then with a `400`. A patch that goes
/// through sets each field it gives: a credential text to its hash, a `null`
/// credential (other than the admin one) to none, the signing key to the
/// bytes given or none, and the default TTL to the value given (`null`
/// clears it); fields it leaves out stay as they were.
pub proof fn lemma_patch_sets_given_fields(
    p: PolicyView,
    secret: Option<Option<Seq<char>>>,
    read: Option<Option<Seq<char>>>,
    write: Option<Option<Seq<char>>>,
    signing: Option<Option<Seq<char>>>,
    ttl: Option<Option<u64>>,
    root_key: Seq<u8>,
)
    ensures
        ({
            let (q, r) = spec_apply_patch(p, secret, read, write, signing, ttl, root_key);
            &&& r is Err <==> (secret == Some(None::<Seq<char>>) || secret == Some(Some(Seq::<char>::empty()))
                || read == Some(Some(Seq::<char>::empty())) || write == Some(Some(Seq::<char>::empty()))
                || signing == Some(Some(Seq::<char>::empty())))
            &&& r is Err ==> r == Err::<(), ApiError>(ApiError::BadRequest)
            &&& r is Ok ==> {
                &&& secret matches Some(Some(s)) ==> q.secret_key_hash == Some(text_hash(s, root_key))
                &&& read matches Some(Some(s)) ==> q.read_key_hash == Some(text_hash(s, root_key))
                &&& read == Some(None::<Seq<char>>) ==> q.read_key_hash is None
                &&& write matches Some(Some(s)) ==> q.write_key_hash == Some(text_hash(s, root_key))
                &&& write == Some(None::<Seq<char>>) ==> q.write_key_hash is None
                &&& signing matches Some(Some(s)) ==> q.signing_key == Some(encode_utf8(s))
                &&& signing == Some(None::<Seq<char>>) ==> q.signing_key is None
                &&& ttl matches Some(t) ==> q.default_ttl_secs == t
                &&& ttl is None ==> q.default_ttl_secs == p.default_ttl_secs
            }
        }),
{
    let (q, r) = spec_apply_patch(p, secret, read, write, signing, ttl, root_key);
    if let Some(Some(s)) = secret {
        if s.len() == 0 {
            assert(s =~= Seq::<char>::empty());
        }
    }
    if let Some(Some(s)) = read {
        if s.len() == 0 {
            assert(s =~= Seq::<char>::empty());
        }
    }
    if let Some(Some(s)) = write {
        if s.len() == 0 {
            assert(s =~= Seq::<char>::empty());
        }
    }
    if let Some(Some(s)) = signing {
        if s.len() == 0 {
            assert(s =~= Seq::<char>::empty());
        }
    }
}

} // verus!
