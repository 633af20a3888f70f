use axum::http::StatusCode;
use keydock::access::{BucketAuth, PolicyKeysPresence};
use keydock::domain::{BucketId, Key, Permission, ResolvedIdentity};

fn sample_key(name: &[u8]) -> Key {
    Key::from_bytes(name.to_vec()).expect("key")
}

fn presence(read: bool, write: bool, secret: bool) -> PolicyKeysPresence {
    PolicyKeysPresence { has_read_key: read, has_write_key: write, has_secret_key: secret }
}

fn auth(identity: ResolvedIdentity, presence: PolicyKeysPresence, anonymous: Permission) -> BucketAuth {
    BucketAuth {
        identity,
        bucket_id: BucketId::new("b".to_string()).expect("id"),
        policy_presence: presence,
        anonymous_access: anonymous,
        default_ttl_secs: None,
    }
}

#[test]
fn require_read_admin_ok() {
    let a = auth(ResolvedIdentity::Admin, presence(true, false, true), Permission::none());
    assert_eq!(a.require_read_on(&sample_key(b"k")).is_ok(), true);
}

#[test]
fn require_read_scoped_empty_prefix_ok() {
    let a = auth(
        ResolvedIdentity::Scoped { permissions: Permission::read_only(), key_prefix: Vec::new() },
        presence(true, false, false),
        Permission::none(),
    );
    assert_eq!(a.require_read_on(&sample_key(b"any")).is_ok(), true);
}

#[test]
fn require_read_scoped_prefix_match_ok() {
    let a = auth(
        ResolvedIdentity::Scoped { permissions: Permission::read_only(), key_prefix: b"user:42:".to_vec() },
        presence(true, false, false),
        Permission::none(),
    );
    assert_eq!(a.require_read_on(&sample_key(b"user:42:name")).is_ok(), true);
}

#[test]
fn require_read_scoped_prefix_mismatch_forbidden() {
    let a = auth(
        ResolvedIdentity::Scoped { permissions: Permission::read_only(), key_prefix: b"user:42:".to_vec() },
        presence(true, false, false),
        Permission::none(),
    );
    let err = a.require_read_on(&sample_key(b"admin:config")).unwrap_err();
    assert_eq!(err.status(), StatusCode::FORBIDDEN.as_u16());
}

#[test]
fn require_read_anonymous_public_ok() {
    let a = auth(ResolvedIdentity::Anonymous, presence(false, false, false), Permission::none());
    assert_eq!(a.require_read_on(&sample_key(b"k")).is_ok(), true);
}

#[test]
fn require_read_anonymous_restricted_unauthorized() {
    let a = auth(ResolvedIdentity::Anonymous, presence(true, false, false), Permission::none());
    let err = a.require_read_on(&sample_key(b"k")).unwrap_err();
    assert_eq!(err.status(), StatusCode::UNAUTHORIZED.as_u16());
}

#[test]
fn require_enumerate_anonymous_no_read_key_ok() {
    let a = auth(ResolvedIdentity::Anonymous, presence(false, false, false), Permission::none());
    assert_eq!(a.require_enumerate().is_ok(), true);
}

#[test]
fn require_enumerate_anonymous_has_read_key_unauthorized() {
    let a = auth(ResolvedIdentity::Anonymous, presence(true, false, false), Permission::none());
    let err = a.require_enumerate().unwrap_err();
    assert_eq!(err.status(), StatusCode::UNAUTHORIZED.as_u16());
}

#[test]
fn require_write_anonymous_has_write_key_unauthorized() {
    let a = auth(ResolvedIdentity::Anonymous, presence(false, true, false), Permission::none());
    let err = a.require_write_on(&sample_key(b"k")).unwrap_err();
    assert_eq!(err.status(), StatusCode::UNAUTHORIZED.as_u16());
}

#[test]
fn require_write_anonymous_public_ok() {
    let a = auth(
        ResolvedIdentity::Anonymous,
        presence(false, false, false),
        Permission::anonymous_from_keys(false, false, false),
    );
    assert_eq!(a.require_write_on(&sample_key(b"k")).is_ok(), true);
}

#[test]
fn require_delete_anonymous_any_key_present_unauthorized() {
    let a = auth(
        ResolvedIdentity::Anonymous,
        presence(true, false, false),
        Permission::anonymous_from_keys(false, true, false),
    );
    let err = a.require_delete_on(&sample_key(b"k")).unwrap_err();
    assert_eq!(err.status(), StatusCode::UNAUTHORIZED.as_u16());
}

#[test]
fn require_delete_anonymous_no_keys_ok() {
    let a = auth(
        ResolvedIdentity::Anonymous,
        presence(false, false, false),
        Permission::anonymous_from_keys(false, false, false),
    );
    assert_eq!(a.require_delete_on(&sample_key(b"k")).is_ok(), true);
}

#[test]
fn admin_is_always_allowed_on_any_key() {
    let a = auth(ResolvedIdentity::Admin, presence(true, true, true), Permission::none());
    let k = sample_key(b"anything");
    assert!(a.require_admin().is_ok());
    assert!(a.require_enumerate().is_ok());
    assert!(a.require_read_on(&k).is_ok());
    assert!(a.require_write_on(&k).is_ok());
    assert!(a.require_delete_on(&k).is_ok());
    assert_eq!(a.identity_kind(), "admin");
}

#[test]
fn only_admin_administers() {
    let scoped = auth(
        ResolvedIdentity::Scoped {
            permissions: Permission { read: true, write: true, enumerate: true, delete: true },
            key_prefix: Vec::new(),
        },
        presence(false, false, true),
        Permission::none(),
    );
    assert_eq!(scoped.require_admin().unwrap_err().status(), 403);
    let anon = auth(ResolvedIdentity::Anonymous, presence(false, false, false), Permission::none());
    assert_eq!(anon.require_admin().unwrap_err().status(), 403);
    assert_eq!(anon.identity_kind(), "anonymous");
}

#[test]
fn scoped_without_permission_is_forbidden_inside_prefix() {
    let a = auth(
        ResolvedIdentity::Scoped { permissions: Permission::read_only(), key_prefix: b"p:".to_vec() },
        presence(false, false, true),
        Permission::none(),
    );
    assert_eq!(a.require_write_on(&sample_key(b"p:x")).unwrap_err().status(), 403);
    assert_eq!(a.require_delete_on(&sample_key(b"p:x")).unwrap_err().status(), 403);
    assert_eq!(a.require_enumerate().unwrap_err().status(), 403);
    assert_eq!(a.identity_kind(), "scoped");
}

#[test]
fn anonymous_delete_needs_every_key_absent() {
    let a = auth(ResolvedIdentity::Anonymous, presence(false, false, true), Permission::none());
    assert_eq!(a.require_delete_on(&sample_key(b"k")).unwrap_err().status(), 401);
    assert!(a.require_read_on(&sample_key(b"k")).is_ok());
}
