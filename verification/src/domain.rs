//! Domain value types: bucket ids, keys, permissions, stored values and policies.
use vstd::prelude::*;

use crate::error::DomainError;

verus! {

/// Longest key accepted, in bytes.
pub const MAX_KEY_LEN: usize = 128;

/// Largest stored value accepted, in bytes (16 KiB).
pub const MAX_VALUE_LEN: usize = 16384;

/// Earliest representable instant, in nanoseconds since the unix epoch
/// (-9999-01-01T00:00:00Z).
pub const MIN_UNIX_NANOS: i128 = -377705116800000000000;

/// Latest representable instant, in nanoseconds since the unix epoch
/// (9999-12-31T23:59:59.999999999Z).
pub const MAX_UNIX_NANOS: i128 = 253402300799999999999;

/// Nanoseconds in a second.
pub const NANOS_PER_SECOND: i128 = 1000000000;

/// Identifier of a bucket (an isolated key namespace); never empty.
#[derive(Debug)]
pub struct BucketId {
    id: String,
}

impl View for BucketId {
    type V = Seq<char>;

    closed spec fn view(&self) -> Seq<char> {
        self.id@
    }
}

impl Clone for BucketId {
    fn clone(&self) -> (r: BucketId)
        ensures
            r@ == self@,
    {
        proof {
            use_type_invariant(self);
        }
        BucketId { id: self.id.clone() }
    }
}

impl BucketId {
    #[verifier::type_invariant]
    spec fn non_empty(self) -> bool {
        self.id@.len() > 0
    }

    /// Builds a bucket id; only the empty string is rejected.
    pub fn new(id: String) -> (r: Result<BucketId, DomainError>)
        ensures
            r is Ok <==> id@.len() > 0,
            r matches Ok(b) ==> b@ == id@,
            r matches Err(e) ==> e == DomainError::EmptyBucketId,
    {
        if id.as_str().is_empty() {
            Err(DomainError::EmptyBucketId)
        } else {
            Ok(BucketId { id })
        }
    }

    pub fn as_str(&self) -> (r: &str)
        ensures
            r@ == self@,
            r@.len() > 0,
    {
        proof {
            use_type_invariant(self);
        }
        self.id.as_str()
    }

    /// Equality of two bucket ids by their text.
    pub fn same_as(&self, other: &BucketId) -> (r: bool)
        ensures
            r == (self@ == other@),
    {
        self.id == other.id
    }
}

/// A key: an opaque byte string of 1 to 128 bytes.
#[derive(Debug, Clone)]
pub struct Key {
    bytes: Vec<u8>,
}

impl View for Key {
    type V = Seq<u8>;

    closed spec fn view(&self) -> Seq<u8> {
        self.bytes@
    }
}

/// Whether `b` may be used as a key.
pub open spec fn valid_key_bytes(b: Seq<u8>) -> bool {
    0 < b.len() <= MAX_KEY_LEN
}

impl Key {
    pub fn from_bytes(bytes: Vec<u8>) -> (r: Result<Key, DomainError>)
        ensures
            r is Ok <==> valid_key_bytes(bytes@),
            r matches Ok(k) ==> k@ == bytes@,
            r matches Err(e) ==> e == DomainError::InvalidKey,
    {
        if bytes.len() == 0 || bytes.len() > MAX_KEY_LEN {
            Err(DomainError::InvalidKey)
        } else {
            Ok(Key { bytes })
        }
    }

    pub fn as_bytes(&self) -> (r: &[u8])
        ensures
            r@ == self@,
    {
        self.bytes.as_slice()
    }
}

/// Capabilities granted on a bucket's data plane.
#[derive(Debug, Clone, Copy, PartialEq, Eq, Structural)]
pub struct Permission {
    pub read: bool,
    pub write: bool,
    pub enumerate: bool,
    pub delete: bool,
}

/// What an anonymous caller may do, given which credentials the bucket has:
/// reading and listing are open while no `read_key` exists, writing while no
/// `write_key` exists, and deleting only while the bucket has no key at all.
pub open spec fn spec_anonymous_from_keys(has_secret: bool, has_read: bool, has_write: bool) -> Permission {
    Permission {
        read: !has_read,
        write: !has_write,
        enumerate: !has_read,
        delete: !has_secret && !has_read && !has_write,
    }
}

impl Permission {
    /// No capability at all.
    pub fn none() -> (r: Permission)
        ensures
            r == (Permission { read: false, write: false, enumerate: false, delete: false }),
    {
        Permission { read: false, write: false, enumerate: false, delete: false }
    }

    /// Read only.
    pub fn read_only() -> (r: Permission)
        ensures
            r == (Permission { read: true, write: false, enumerate: false, delete: false }),
    {
        Permission { read: true, write: false, enumerate: false, delete: false }
    }

    /// Write only (what `write_key` grants).
    pub fn write_only() -> (r: Permission)
        ensures
            r == (Permission { read: false, write: true, enumerate: false, delete: false }),
    {
        Permission { read: false, write: true, enumerate: false, delete: false }
    }

    /// Read and list (what `read_key` grants).
    pub fn read_enumerate() -> (r: Permission)
        ensures
            r == (Permission { read: true, write: false, enumerate: true, delete: false }),
    {
        Permission { read: true, write: false, enumerate: true, delete: false }
    }

    /// Anonymous capabilities derived from which credentials are configured.
    pub fn anonymous_from_keys(has_secret: bool, has_read: bool, has_write: bool) -> (r: Permission)
        ensures
            r == spec_anonymous_from_keys(has_secret, has_read, has_write),
    {
        Permission {
            read: !has_read,
            write: !has_write,
            enumerate: !has_read,
            delete: !has_secret && !has_read && !has_write,
        }
    }
}

/// How a stored payload is interpreted.
#[derive(Debug, Clone, Copy, PartialEq, Eq, Structural)]
pub enum ValueKind {
    Json,
    Int64,
    Float64,
    Utf8,
    Raw,
}

/// A stored payload with its inferred kind; at most 16 KiB.
#[derive(Debug, Clone)]
pub struct StoredValue {
    pub payload: Vec<u8>,
    pub kind: ValueKind,
}

impl StoredValue {
    pub fn new(payload: Vec<u8>, kind: ValueKind) -> (r: Result<StoredValue, DomainError>)
        ensures
            r is Ok <==> payload@.len() <= MAX_VALUE_LEN,
            r matches Ok(v) ==> v.payload@ == payload@ && v.kind == kind,
            r matches Err(e) ==> e == DomainError::ValueTooLarge,
    {
        if payload.len() > MAX_VALUE_LEN {
            Err(DomainError::ValueTooLarge)
        } else {
            Ok(StoredValue { payload, kind })
        }
    }
}

/// Secret key material (bucket signing key or the service root key).
#[derive(Clone)]
pub struct SigningKey {
    bytes: Vec<u8>,
}

impl View for SigningKey {
    type V = Seq<u8>;

    closed spec fn view(&self) -> Seq<u8> {
        self.bytes@
    }
}

impl SigningKey {
    pub fn new(bytes: Vec<u8>) -> (r: SigningKey)
        ensures
            r@ == bytes@,
    {
        SigningKey { bytes }
    }

    pub fn expose_secret(&self) -> (r: &[u8])
        ensures
            r@ == self@,
    {
        self.bytes.as_slice()
    }
}

/// Per-bucket authentication and lifetime policy (credentials are stored hashed).
#[derive(Clone)]
pub struct BucketPolicy {
    pub default_ttl_secs: Option<u64>,
    pub anonymous_access: Permission,
    pub secret_key_hash: Option<Vec<u8>>,
    pub read_key_hash: Option<Vec<u8>>,
    pub write_key_hash: Option<Vec<u8>>,
    pub signing_key: Option<SigningKey>,
    pub signing_key_generation: u64,
}

/// Identity after resolving HTTP credentials against a bucket policy.
#[derive(Debug, Clone, PartialEq, Eq)]
pub enum ResolvedIdentity {
    Anonymous,
    Admin,
    Scoped { permissions: Permission, key_prefix: Vec<u8> },
}

/// Stored key payload plus optional expiry (nanoseconds since the unix epoch).
#[derive(Debug, Clone)]
pub struct StoredEntry {
    pub value: StoredValue,
    pub expires_at: Option<i128>,
}

/// One row of a bucket listing.
#[derive(Debug, Clone)]
pub struct ListEntry {
    pub key: Key,
    pub value: Option<StoredValue>,
}

/// One operation of an atomic batch.
#[derive(Debug, Clone)]
pub enum TxnOp {
    Store { key: Key, value: StoredValue, expires_at: Option<i128> },
    Delete { key: Key },
}

/// Claims carried by a signed temporary token.
#[derive(Debug, Clone)]
pub struct TemporaryTokenClaims {
    pub version: u8,
    pub bucket: BucketId,
    pub bucket_generation: u64,
    pub allowed_prefix: Vec<u8>,
    pub permissions: Permission,
    /// Issued-at, nanoseconds since the unix epoch.
    pub iat: i128,
    /// Expiry, nanoseconds since the unix epoch.
    pub exp: i128,
}

} // verus!
