//! The bucket endpoints: creation, policy reads and updates, deletion and listing.
use vstd::prelude::*;

use crate::access::{spec_require_admin, spec_require_enumerate, BucketAuth};
use crate::domain::{BucketId, BucketPolicy, ListEntry, SigningKey};
use crate::error::{ApiError, UseCaseError};
use crate::keys::{opt_prefix, ListOptsInput};
use crate::listing::{list_scope, spec_list_scope, spec_resolve_list_format, resolve_list_format, ListFormat, ListScope};
use crate::policy::{
    apply_policy_patch, build_bucket_policy, opt2_string, opt_string, patch_rotates_key, public_policy_view,
    recompute_anonymous_access, spec_apply_patch, spec_policy_from_form, spec_public_policy_view,
    spec_patch_rotates_key, spec_recompute_anonymous, spec_valid_email, BucketPolicyPublic, CreateBucketForm, PolicyView,
    UpdatePolicyJson,
};

verus! {

// ---------------------------------------------------------------- creation

/// Calls `uuid::Uuid::new_v4()` and formats it with `to_string`, which gives
/// the hyphenated form. Claims only its length (36 characters, as the crate
/// documents for that form): the identifier is random.
#[verifier::external_body]
fn new_v4_text() -> (r: String)
    ensures
        r@.len() == 36,
{
    uuid::Uuid::new_v4().to_string()
}

/// The bucket a creation request asks the store to create: a fresh random
/// id (36 characters) and the policy [`build_bucket_policy`] makes of the
/// form. An invalid e-mail is a `400`, and then nothing is to be stored.
pub fn create_bucket(form: CreateBucketForm, root_key: &SigningKey) -> (r: Result<(BucketId, BucketPolicy), ApiError>)
    ensures
        r is Err <==> !spec_valid_email(form.email@),
        r matches Err(e) ==> e == ApiError::BadRequest,
        r matches Ok((id, p)) ==> id@.len() == 36 && p@ == spec_policy_from_form(
            form.default_ttl,
            opt_string(form.secret_key),
            opt_string(form.read_key),
            opt_string(form.write_key),
            opt_string(form.signing_key),
            root_key@,
        ),
{
    let policy = match build_bucket_policy(form, root_key) {
        Ok(p) => p,
        Err(e) => {
            return Err(e);
        },
    };
    let text = new_v4_text();
    match BucketId::new(text) {
        Ok(id) => Ok((id, policy)),
        Err(_) => Err(ApiError::BadRequest),
    }
}

/// The answer to a creation for what the store answered: the new bucket's
/// id as text, or a `500`.
pub fn create_bucket_answer(id: &BucketId, reply: Result<(), UseCaseError>) -> (r: Result<String, ApiError>)
    ensures
        match reply {
            Ok(()) => r matches Ok(s) && s@ == id@,
            Err(_) => r == Err::<String, ApiError>(ApiError::InternalError),
        },
{
    match reply {
        Ok(()) => Ok(id.as_str().to_owned()),
        Err(_) => Err(ApiError::InternalError),
    }
}

// ---------------------------------------------------------------- policy

/// The public view of a bucket's policy for what looking it up gave.
pub open spec fn spec_policy_answer(lookup: Result<Option<BucketPolicy>, UseCaseError>) -> Result<
    BucketPolicyPublic,
    ApiError,
> {
    match lookup {
        Err(_) => Err(ApiError::InternalError),
        Ok(None) => Err(ApiError::NotFound),
        Ok(Some(p)) => Ok(spec_public_policy_view(p@)),
    }
}

/// The public view of a bucket's policy for what looking it up gave.
pub fn policy_answer(lookup: Result<Option<BucketPolicy>, UseCaseError>) -> (r: Result<BucketPolicyPublic, ApiError>)
    ensures
        r == spec_policy_answer(lookup),
{
    match lookup {
        Err(_) => Err(ApiError::InternalError),
        Ok(None) => Err(ApiError::NotFound),
        Ok(Some(p)) => Ok(public_policy_view(&p)),
    }
}

/// The bucket whose policy `GET /{bucket}` asks the store for: admins only
/// (anyone else gets the admin check's error and the store is not asked);
/// the answer is then [`policy_answer`]'s for that lookup.
pub fn get_bucket_policy(auth: &BucketAuth) -> (r: Result<BucketId, ApiError>)
    ensures
        match spec_require_admin(*auth) {
            Err(e) => r == Err::<BucketId, ApiError>(e),
            Ok(()) => r matches Ok(b) && b@ == auth.bucket_id@,
        },
{
    match auth.require_admin() {
        Ok(()) => Ok(auth.bucket_id.clone()),
        Err(e) => Err(e),
    }
}

/// `HEAD /{bucket}`: succeeds exactly for admins (the bucket exists, or
/// authentication would have failed).
pub fn head_bucket(auth: &BucketAuth) -> (r: Result<(), ApiError>)
    ensures
        r == spec_require_admin(*auth),
{
    auth.require_admin()
}

/// The bucket `DELETE /{bucket}` asks the store to delete: admins only
/// (anyone else gets the admin check's error and the store is not asked);
/// the answer is then [`crate::handlers::write_answer`]'s.
pub fn delete_bucket(auth: &BucketAuth) -> (r: Result<BucketId, ApiError>)
    ensures
        match spec_require_admin(*auth) {
            Err(e) => r == Err::<BucketId, ApiError>(e),
            Ok(()) => r matches Ok(b) && b@ == auth.bucket_id@,
        },
{
    match auth.require_admin() {
        Ok(()) => Ok(auth.bucket_id.clone()),
        Err(e) => Err(e),
    }
}

/// The policy a patch leaves, for what looking the bucket up gave: a failed
/// lookup is a `500`, an unknown bucket a `404`; the patch is applied as
/// [`spec_apply_patch`] says (a refused field is that field's error) and the
/// anonymous capabilities are recomputed from the credentials left. A patch
/// that would rotate the signing key of a policy whose generation counter is
/// exhausted is a `500`.
pub open spec fn spec_policy_after_patch(
    lookup: Result<Option<BucketPolicy>, UseCaseError>,
    patch: UpdatePolicyJson,
    root_key: Seq<u8>,
) -> Result<PolicyView, ApiError> {
    match lookup {
        Err(_) => Err(ApiError::InternalError),
        Ok(None) => Err(ApiError::NotFound),
        Ok(Some(p)) => if spec_patch_rotates_key(
            p@,
            opt2_string(patch.secret_key),
            opt2_string(patch.read_key),
            opt2_string(patch.write_key),
            opt2_string(patch.signing_key),
        ) && p.signing_key_generation == u64::MAX {
            Err(ApiError::InternalError)
        } else {
            let (p2, res) = spec_apply_patch(
                p@,
                opt2_string(patch.secret_key),
                opt2_string(patch.read_key),
                opt2_string(patch.write_key),
                opt2_string(patch.signing_key),
                patch.default_ttl,
                root_key,
            );
            match res {
                Err(e) => Err(e),
                Ok(()) => Ok(PolicyView { anonymous_access: spec_recompute_anonymous(p2), ..p2 }),
            }
        },
    }
}

/// The policy a patch leaves (see [`spec_policy_after_patch`]).
pub fn policy_after_patch(
    lookup: Result<Option<BucketPolicy>, UseCaseError>,
    patch: UpdatePolicyJson,
    root_key: &SigningKey,
) -> (r: Result<BucketPolicy, ApiError>)
    ensures
        match (r, spec_policy_after_patch(lookup, patch, root_key@)) {
            (Ok(p), Ok(v)) => p@ == v,
            (Err(e), Err(f)) => e == f,
            _ => false,
        },
{
    let mut policy = match lookup {
        Err(_) => {
            return Err(ApiError::InternalError);
        },
        Ok(None) => {
            return Err(ApiError::NotFound);
        },
        Ok(Some(p)) => p,
    };
    if patch_rotates_key(&policy, &patch) && policy.signing_key_generation == u64::MAX {
        return Err(ApiError::InternalError);
    }
    match apply_policy_patch(&mut policy, patch, root_key) {
        Ok(()) => {},
        Err(e) => {
            return Err(e);
        },
    }
    policy.anonymous_access = recompute_anonymous_access(&policy);
    Ok(policy)
}

/// What `PATCH /{bucket}` asks of the store: admins only, then a body that
/// is not a well-formed patch (`None`) is a `400`; on either error the store
/// is not asked. Otherwise the bucket's policy is looked up, the patch is
/// applied by [`policy_after_patch`], and exactly its result is stored back
/// under the same bucket (a refused patch stores nothing).
pub fn update_policy(auth: &BucketAuth, patch: Option<UpdatePolicyJson>) -> (r: Result<
    (BucketId, UpdatePolicyJson),
    ApiError,
>)
    ensures
        match spec_require_admin(*auth) {
            Err(e) => r == Err::<(BucketId, UpdatePolicyJson), ApiError>(e),
            Ok(()) => match patch {
                None => r == Err::<(BucketId, UpdatePolicyJson), ApiError>(ApiError::BadRequest),
                Some(p) => r matches Ok((b, q)) && b@ == auth.bucket_id@ && q == p,
            },
        },
{
    match auth.require_admin() {
        Ok(()) => {},
        Err(e) => {
            return Err(e);
        },
    }
    match patch {
        Some(p) => Ok((auth.bucket_id.clone(), p)),
        None => Err(ApiError::BadRequest),
    }
}

// ---------------------------------------------------------------- listing

/// Query parameters of `GET /{bucket}/`.
pub struct ListBucketParams {
    /// Restrict listing to keys starting with this prefix.
    pub prefix: Option<String>,
    /// Maximum number of keys to return (default 10000).
    pub limit: Option<usize>,
    /// Number of keys to skip after ordering and expiry filtering (default 0).
    pub skip: Option<usize>,
    /// Iterate in reverse lexicographic order.
    pub reverse: Option<bool>,
    /// Include values in the response body.
    pub values: Option<bool>,
    /// Response format: `text`, `json` or `jsonl` (overrides `Accept`).
    pub format: Option<String>,
}

/// What a listing answers: the format to render, whether values are
/// included, and the rows.
pub struct ListAnswer {
    pub format: ListFormat,
    pub include_values: bool,
    pub entries: Vec<ListEntry>,
}

pub open spec fn opt_str_bytes(o: Option<String>) -> Option<Seq<u8>> {
    match o {
        Some(s) => Some(vstd::utf8::encode_utf8(s@)),
        None => None,
    }
}

/// What a listing does next: answer at once without asking the store, or
/// ask the store with these options and answer with [`list_bucket_answer`].
pub enum ListPlan {
    Answer(ListAnswer),
    Ask { format: ListFormat, include_values: bool, input: ListOptsInput },
}

/// `GET /{bucket}/`: the identity must be allowed to list, then the format
/// is chosen (`?format=` over `Accept`); on either error the store is not
/// asked. A token with a non-empty prefix lists only within its scope: a
/// requested prefix outside it gives an empty listing without asking the
/// store; otherwise the store is asked for the scope's prefix (the requested
/// one, narrowed to the token's), with the limit, skip and order requested.
/// [`KeyService::list`] then returns only rows within that prefix and limit.
pub fn list_bucket(auth: &BucketAuth, params: ListBucketParams, accept: Option<&str>) -> (r: Result<ListPlan, ApiError>)
    ensures
        spec_require_enumerate(*auth) matches Err(e) ==> r == Err::<ListPlan, ApiError>(e),
        spec_require_enumerate(*auth) is Ok ==> match spec_resolve_list_format(
            opt_string(params.format),
            match accept {
                Some(a) => Some(a@),
                None => None,
            },
        ) {
            Err(e) => r == Err::<ListPlan, ApiError>(e),
            Ok(f) => match spec_list_scope(auth.identity, opt_str_bytes(params.prefix)) {
                None => r matches Ok(ListPlan::Answer(a)) && a.format == f && a.include_values == (
                params.values == Some(true)) && a.entries@.len() == 0,
                Some(prefix) => r matches Ok(ListPlan::Ask { format, include_values, input })
                    && format == f && include_values == (params.values == Some(true))
                    && opt_prefix(input.prefix) == prefix && input.limit == params.limit
                    && input.skip == params.skip && input.reverse == params.reverse
                    && input.include_values == Some(include_values),
            },
        },
{
    match auth.require_enumerate() {
        Ok(()) => {},
        Err(e) => {
            return Err(e);
        },
    }
    let format = match &params.format {
        Some(f) => Some(f.as_str()),
        None => None,
    };
    let fmt = match resolve_list_format(format, accept) {
        Ok(f) => f,
        Err(e) => {
            return Err(e);
        },
    };
    let include_values = match params.values {
        Some(v) => v,
        None => false,
    };
    let requested: Option<&[u8]> = match &params.prefix {
        Some(p) => Some(p.as_str().as_bytes()),
        None => None,
    };
    let scope = list_scope(&auth.identity, requested);
    match scope {
        ListScope::Empty => Ok(ListPlan::Answer(ListAnswer { format: fmt, include_values, entries: Vec::new() })),
        ListScope::Prefix(prefix) => Ok(
            ListPlan::Ask {
                format: fmt,
                include_values,
                input: ListOptsInput {
                    prefix,
                    limit: params.limit,
                    skip: params.skip,
                    reverse: params.reverse,
                    include_values: Some(include_values),
                },
            },
        ),
    }
}

/// The answer to a listing for what the store answered: the rows as given,
/// or a `500`.
pub fn list_bucket_answer(format: ListFormat, include_values: bool, reply: Result<Vec<ListEntry>, UseCaseError>) -> (r: Result<
    ListAnswer,
    ApiError,
>)
    ensures
        match reply {
            Ok(rows) => r matches Ok(a) && a.format == format && a.include_values == include_values
                && a.entries@ == rows@,
            Err(_) => r is Err && r->Err_0 == ApiError::InternalError,
        },
{
    match reply {
        Ok(entries) => Ok(ListAnswer { format, include_values, entries }),
        Err(_) => Err(ApiError::InternalError),
    }
}

} // verus!
