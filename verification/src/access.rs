//! Bucket-scoped authorization: what a resolved identity may do on a bucket.
use vstd::prelude::*;

use crate::domain::{BucketId, BucketPolicy, Key, Permission, ResolvedIdentity};
use crate::error::ApiError;
use crate::text::{bytes_start_with, starts_with};

verus! {

/// Which API key hashes are configured for the bucket (no secret material).
#[derive(Debug, Clone, Copy, PartialEq, Eq, Structural)]
pub struct PolicyKeysPresence {
    pub has_read_key: bool,
    pub has_write_key: bool,
    pub has_secret_key: bool,
}

impl PolicyKeysPresence {
    /// Presence flags of a stored policy.
    pub fn from_policy(policy: &BucketPolicy) -> (r: PolicyKeysPresence)
        ensures
            r.has_read_key == policy.read_key_hash is Some,
            r.has_write_key == policy.write_key_hash is Some,
            r.has_secret_key == policy.secret_key_hash is Some,
    {
        PolicyKeysPresence {
            has_read_key: policy.read_key_hash.is_some(),
            has_write_key: policy.write_key_hash.is_some(),
            has_secret_key: policy.secret_key_hash.is_some(),
        }
    }
}

/// Resolved bucket identity and policy metadata for handler permission checks.
#[derive(Clone)]
pub struct BucketAuth {
    pub identity: ResolvedIdentity,
    pub bucket_id: BucketId,
    pub policy_presence: PolicyKeysPresence,
    pub anonymous_access: Permission,
    pub default_ttl_secs: Option<u64>,
}

/// A scoped prefix admits a key when it is empty or a prefix of the key.
pub open spec fn prefix_admits(prefix: Seq<u8>, key: Seq<u8>) -> bool {
    prefix.len() == 0 || starts_with(key, prefix)
}

/// Verdict for a scoped identity that needs capability `granted` on `key`.
pub open spec fn scoped_verdict(granted: bool, prefix: Seq<u8>, key: Seq<u8>) -> Result<(), ApiError> {
    if !granted {
        Err(ApiError::Forbidden)
    } else if !prefix_admits(prefix, key) {
        Err(ApiError::Forbidden)
    } else {
        Ok(())
    }
}

/// Admin-only operations.
pub open spec fn spec_require_admin(a: BucketAuth) -> Result<(), ApiError> {
    match a.identity {
        ResolvedIdentity::Admin => Ok(()),
        _ => Err(ApiError::Forbidden),
    }
}

/// Listing keys: admins, scoped identities with `enumerate`, and anonymous
/// callers while the bucket has no `read_key`.
pub open spec fn spec_require_enumerate(a: BucketAuth) -> Result<(), ApiError> {
    match a.identity {
        ResolvedIdentity::Admin => Ok(()),
        ResolvedIdentity::Scoped { permissions, .. } => if permissions.enumerate {
            Ok(())
        } else {
            Err(ApiError::Forbidden)
        },
        ResolvedIdentity::Anonymous => if a.policy_presence.has_read_key {
            Err(ApiError::Unauthorized)
        } else {
            Ok(())
        },
    }
}

/// Reading one key.
pub open spec fn spec_require_read(a: BucketAuth, key: Seq<u8>) -> Result<(), ApiError> {
    match a.identity {
        ResolvedIdentity::Admin => Ok(()),
        ResolvedIdentity::Scoped { permissions, key_prefix } => scoped_verdict(
            permissions.read,
            key_prefix@,
            key,
        ),
        ResolvedIdentity::Anonymous => if a.policy_presence.has_read_key {
            Err(ApiError::Unauthorized)
        } else {
            Ok(())
        },
    }
}

/// Writing one key.
pub open spec fn spec_require_write(a: BucketAuth, key: Seq<u8>) -> Result<(), ApiError> {
    match a.identity {
        ResolvedIdentity::Admin => Ok(()),
        ResolvedIdentity::Scoped { permissions, key_prefix } => scoped_verdict(
            permissions.write,
            key_prefix@,
            key,
        ),
        ResolvedIdentity::Anonymous => if a.policy_presence.has_write_key {
            Err(ApiError::Unauthorized)
        } else if a.anonymous_access.write {
            Ok(())
        } else {
            Err(ApiError::Forbidden)
        },
    }
}

/// Whether the bucket has any API key configured.
pub open spec fn spec_any_key_present(p: PolicyKeysPresence) -> bool {
    p.has_secret_key || p.has_write_key || p.has_read_key
}

/// Deleting one key.
pub open spec fn spec_require_delete(a: BucketAuth, key: Seq<u8>) -> Result<(), ApiError> {
    match a.identity {
        ResolvedIdentity::Admin => Ok(()),
        ResolvedIdentity::Scoped { permissions, key_prefix } => scoped_verdict(
            permissions.delete,
            key_prefix@,
            key,
        ),
        ResolvedIdentity::Anonymous => if spec_any_key_present(a.policy_presence) {
            Err(ApiError::Unauthorized)
        } else if a.anonymous_access.delete {
            Ok(())
        } else {
            Err(ApiError::Forbidden)
        },
    }
}

impl BucketAuth {
    pub fn require_admin(&self) -> (r: Result<(), ApiError>)
        ensures
            r == spec_require_admin(*self),
    {
        match &self.identity {
            ResolvedIdentity::Admin => Ok(()),
            _ => Err(ApiError::Forbidden),
        }
    }

    pub fn require_enumerate(&self) -> (r: Result<(), ApiError>)
        ensures
            r == spec_require_enumerate(*self),
    {
        match &self.identity {
            ResolvedIdentity::Admin => Ok(()),
            ResolvedIdentity::Scoped { permissions, .. } => {
                if permissions.enumerate {
                    Ok(())
                } else {
                    Err(ApiError::Forbidden)
                }
            },
            ResolvedIdentity::Anonymous => {
                if self.policy_presence.has_read_key {
                    Err(ApiError::Unauthorized)
                } else {
                    Ok(())
                }
            },
        }
    }

    pub fn require_read_on(&self, key: &Key) -> (r: Result<(), ApiError>)
        ensures
            r == spec_require_read(*self, key@),
    {
        match &self.identity {
            ResolvedIdentity::Admin => Ok(()),
            ResolvedIdentity::Scoped { permissions, key_prefix } => {
                if !permissions.read {
                    return Err(ApiError::Forbidden);
                }
                if !Self::is_prefix_ok(key_prefix.as_slice(), key) {
                    return Err(ApiError::Forbidden);
                }
                Ok(())
            },
            ResolvedIdentity::Anonymous => {
                if self.policy_presence.has_read_key {
                    Err(ApiError::Unauthorized)
                } else {
                    Ok(())
                }
            },
        }
    }

    pub fn require_write_on(&self, key: &Key) -> (r: Result<(), ApiError>)
        ensures
            r == spec_require_write(*self, key@),
    {
        match &self.identity {
            ResolvedIdentity::Admin => Ok(()),
            ResolvedIdentity::Scoped { permissions, key_prefix } => {
                if !permissions.write {
                    return Err(ApiError::Forbidden);
                }
                if !Self::is_prefix_ok(key_prefix.as_slice(), key) {
                    return Err(ApiError::Forbidden);
                }
                Ok(())
            },
            ResolvedIdentity::Anonymous => {
                if self.policy_presence.has_write_key {
                    Err(ApiError::Unauthorized)
                } else if self.anonymous_access.write {
                    Ok(())
                } else {
                    Err(ApiError::Forbidden)
                }
            },
        }
    }

    pub fn require_delete_on(&self, key: &Key) -> (r: Result<(), ApiError>)
        ensures
            r == spec_require_delete(*self, key@),
    {
        match &self.identity {
            ResolvedIdentity::Admin => Ok(()),
            ResolvedIdentity::Scoped { permissions, key_prefix } => {
                if !permissions.delete {
                    return Err(ApiError::Forbidden);
                }
                if !Self::is_prefix_ok(key_prefix.as_slice(), key) {
                    return Err(ApiError::Forbidden);
                }
                Ok(())
            },
            ResolvedIdentity::Anonymous => {
                if self.any_policy_key_present() {
                    Err(ApiError::Unauthorized)
                } else if self.anonymous_access.delete {
                    Ok(())
                } else {
                    Err(ApiError::Forbidden)
                }
            },
        }
    }

    /// Short label of the identity kind, for diagnostics.
    pub fn identity_kind(&self) -> (r: &'static str)
        ensures
            self.identity is Admin ==> r@ == "admin"@,
            self.identity is Scoped ==> r@ == "scoped"@,
            self.identity is Anonymous ==> r@ == "anonymous"@,
    {
        match &self.identity {
            ResolvedIdentity::Admin => "admin",
            ResolvedIdentity::Scoped { .. } => "scoped",
            ResolvedIdentity::Anonymous => "anonymous",
        }
    }

    fn any_policy_key_present(&self) -> (r: bool)
        ensures
            r == spec_any_key_present(self.policy_presence),
    {
        self.policy_presence.has_secret_key || self.policy_presence.has_write_key
            || self.policy_presence.has_read_key
    }

    fn is_prefix_ok(key_prefix: &[u8], key: &Key) -> (r: bool)
        ensures
            r == prefix_admits(key_prefix@, key@),
    {
        key_prefix.len() == 0 || bytes_start_with(key.as_bytes(), key_prefix)
    }
}

/// An admin passes every authorization check, on every key.
pub proof fn lemma_admin_is_always_allowed(a: BucketAuth, key: Seq<u8>)
    requires
        a.identity is Admin,
    ensures
        spec_require_admin(a) is Ok,
        spec_require_enumerate(a) is Ok,
        spec_require_read(a, key) is Ok,
        spec_require_write(a, key) is Ok,
        spec_require_delete(a, key) is Ok,
{
}

/// Only an admin passes the admin check.
pub proof fn lemma_only_admin_administers(a: BucketAuth)
    ensures
        spec_require_admin(a) is Ok <==> a.identity is Admin,
{
}

/// A scoped identity (a key credential or a temporary token) never reaches a
/// key outside its prefix, and never uses a capability it was not granted.
pub proof fn lemma_scoped_stays_in_prefix(a: BucketAuth, key: Seq<u8>)
    requires
        a.identity is Scoped,
    ensures
        spec_require_read(a, key) is Ok ==> a.identity->permissions.read && prefix_admits(
            a.identity->key_prefix@,
            key,
        ),
        spec_require_write(a, key) is Ok ==> a.identity->permissions.write && prefix_admits(
            a.identity->key_prefix@,
            key,
        ),
        spec_require_delete(a, key) is Ok ==> a.identity->permissions.delete && prefix_admits(
            a.identity->key_prefix@,
            key,
        ),
        spec_require_enumerate(a) is Ok ==> a.identity->permissions.enumerate,
{
}

/// Once a bucket has a `read_key`, anonymous reads and listings are refused
/// with 401; once it has a `write_key`, anonymous writes are; once it has any
/// key, anonymous deletes are.
pub proof fn lemma_anonymous_needs_credentials(a: BucketAuth, key: Seq<u8>)
    requires
        a.identity is Anonymous,
    ensures
        a.policy_presence.has_read_key ==> spec_require_read(a, key) == Err::<(), ApiError>(
            ApiError::Unauthorized,
        ) && spec_require_enumerate(a) == Err::<(), ApiError>(ApiError::Unauthorized),
        a.policy_presence.has_write_key ==> spec_require_write(a, key) == Err::<(), ApiError>(
            ApiError::Unauthorized,
        ),
        spec_any_key_present(a.policy_presence) ==> spec_require_delete(a, key) == Err::<
            (),
            ApiError,
        >(ApiError::Unauthorized),
{
}

/// A scoped identity is allowed exactly the capabilities it was granted, on
/// exactly the keys its prefix admits (every key when the prefix is empty),
/// and is refused with `403` otherwise.
pub proof fn lemma_scoped_allowed_exactly_as_granted(
    permissions: Permission,
    key_prefix: Vec<u8>,
    a: BucketAuth,
    key: Seq<u8>,
)
    requires
        a.identity == (ResolvedIdentity::Scoped { permissions, key_prefix }),
    ensures
        spec_require_read(a, key) is Ok <==> permissions.read && prefix_admits(key_prefix@, key),
        spec_require_write(a, key) is Ok <==> permissions.write && prefix_admits(key_prefix@, key),
        spec_require_delete(a, key) is Ok <==> permissions.delete && prefix_admits(key_prefix@, key),
        spec_require_enumerate(a) is Ok <==> permissions.enumerate,
        spec_require_read(a, key) is Err ==> spec_require_read(a, key) == Err::<(), ApiError>(ApiError::Forbidden),
        spec_require_write(a, key) is Err ==> spec_require_write(a, key) == Err::<(), ApiError>(ApiError::Forbidden),
        spec_require_delete(a, key) is Err ==> spec_require_delete(a, key) == Err::<(), ApiError>(
            ApiError::Forbidden,
        ),
{
}

/// An anonymous caller may read and list while the bucket has no `read_key`,
/// write while it has no `write_key` and its anonymous access allows writes,
/// and delete while it has no key at all and its anonymous access allows
/// deletes; nothing else.
pub proof fn lemma_anonymous_allowed_exactly(a: BucketAuth, key: Seq<u8>)
    requires
        a.identity is Anonymous,
    ensures
        spec_require_read(a, key) is Ok <==> !a.policy_presence.has_read_key,
        spec_require_enumerate(a) is Ok <==> !a.policy_presence.has_read_key,
        spec_require_write(a, key) is Ok <==> !a.policy_presence.has_write_key && a.anonymous_access.write,
        spec_require_delete(a, key) is Ok <==> !a.policy_presence.has_secret_key && !a.policy_presence.has_read_key
            && !a.policy_presence.has_write_key && a.anonymous_access.delete,
        spec_require_admin(a) == Err::<(), ApiError>(ApiError::Forbidden),
{
}

} // verus!
