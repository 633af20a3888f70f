use keydock::domain::{BucketId, BucketPolicy, Permission, ResolvedIdentity, SigningKey, TemporaryTokenClaims};
use keydock::error::AuthError;
use keydock::identity::{hash_credential, resolve, verify_credential};
use keydock::keys::{Clock, SystemClock};
use keydock::tokens::mint;

fn root_key() -> SigningKey {
    SigningKey::new(b"root-key-test-32-bytes-min!!".to_vec())
}

fn policy_with_hashes(secret: Option<&str>, write: Option<&str>, read: Option<&str>) -> BucketPolicy {
    let rk = root_key();
    BucketPolicy {
        default_ttl_secs: None,
        anonymous_access: Permission::none(),
        secret_key_hash: secret.map(|s| hash_credential(s, &rk).unwrap()),
        write_key_hash: write.map(|s| hash_credential(s, &rk).unwrap()),
        read_key_hash: read.map(|s| hash_credential(s, &rk).unwrap()),
        signing_key: None,
        signing_key_generation: 0,
    }
}

fn now() -> i128 {
    SystemClock.now_utc()
}

#[test]
fn hash_verify_roundtrip() {
    let rk = root_key();
    let h = hash_credential("my-secret", &rk).unwrap();
    assert_eq!(verify_credential("my-secret", &h, &rk), true);
    assert_eq!(verify_credential("wrong", &h, &rk), false);
}

#[test]
fn resolve_admin() {
    let bucket = BucketId::new("b".to_string()).unwrap();
    let p = policy_with_hashes(Some("adm"), None, None);
    let rk = root_key();
    let id = resolve(Some("adm"), &p, &bucket, &rk, now()).unwrap();
    assert_eq!(id, ResolvedIdentity::Admin);
}

#[test]
fn resolve_write_scoped() {
    let bucket = BucketId::new("b".to_string()).unwrap();
    let p = policy_with_hashes(None, Some("w"), None);
    let rk = root_key();
    let id = resolve(Some("w"), &p, &bucket, &rk, now()).unwrap();
    if let ResolvedIdentity::Scoped { permissions, key_prefix } = id {
        assert_eq!(permissions, Permission::write_only());
        assert_eq!(key_prefix.len(), 0);
    } else {
        assert_eq!(false, true, "expected Scoped identity");
    }
}

#[test]
fn resolve_read_key_grants_read_and_enumerate() {
    let bucket = BucketId::new("b".to_string()).unwrap();
    let p = policy_with_hashes(None, None, Some("r"));
    let rk = root_key();
    let id = resolve(Some("r"), &p, &bucket, &rk, now()).unwrap();
    if let ResolvedIdentity::Scoped { permissions, key_prefix } = id {
        assert_eq!(permissions, Permission::read_enumerate());
        assert_eq!(key_prefix.len(), 0);
    } else {
        assert_eq!(false, true, "expected Scoped identity");
    }
}

#[test]
fn resolve_anonymous() {
    let bucket = BucketId::new("b".to_string()).unwrap();
    let p = policy_with_hashes(None, None, None);
    let rk = root_key();
    let id = resolve(None, &p, &bucket, &rk, now()).unwrap();
    assert_eq!(id, ResolvedIdentity::Anonymous);
}

#[test]
fn resolve_invalid_returns_err() {
    let bucket = BucketId::new("b".to_string()).unwrap();
    let p = policy_with_hashes(Some("adm"), None, None);
    let rk = root_key();
    let err = resolve(Some("nope"), &p, &bucket, &rk, now()).unwrap_err();
    assert_eq!(matches!(err, AuthError::InvalidCredential), true, "expected InvalidCredential");
}

#[test]
fn hash_depends_on_root_key() {
    let a = hash_credential("same", &root_key()).unwrap();
    let b = hash_credential("same", &SigningKey::new(b"another-root-key".to_vec())).unwrap();
    assert_eq!(a.len(), 32);
    assert_ne!(a, b);
    assert_ne!(a, b"same".to_vec());
}

#[test]
fn secret_key_wins_over_other_hashes() {
    let bucket = BucketId::new("b".to_string()).unwrap();
    let p = policy_with_hashes(Some("k"), Some("k"), Some("k"));
    let id = resolve(Some("k"), &p, &bucket, &root_key(), now()).unwrap();
    assert_eq!(id, ResolvedIdentity::Admin);
}

#[test]
fn write_key_wins_over_read_key() {
    let bucket = BucketId::new("b".to_string()).unwrap();
    let p = policy_with_hashes(None, Some("k"), Some("k"));
    let id = resolve(Some("k"), &p, &bucket, &root_key(), now()).unwrap();
    assert_eq!(
        id,
        ResolvedIdentity::Scoped { permissions: Permission::write_only(), key_prefix: Vec::new() }
    );
}

#[test]
fn token_resolves_to_its_scope_and_signing_key_is_not_a_credential() {
    let bucket = BucketId::new("b".to_string()).unwrap();
    let signing = SigningKey::new(b"sign".to_vec());
    let mut p = policy_with_hashes(Some("adm"), None, None);
    p.signing_key = Some(signing.clone());
    let t = now();
    let claims = TemporaryTokenClaims {
        version: 1,
        bucket: bucket.clone(),
        bucket_generation: 0,
        allowed_prefix: b"user:".to_vec(),
        permissions: Permission { read: true, write: false, enumerate: true, delete: false },
        iat: t,
        exp: t + 3600 * 1_000_000_000,
    };
    let token = mint(&claims, &signing).unwrap();
    let id = resolve(Some(token.as_str()), &p, &bucket, &root_key(), t).unwrap();
    assert_eq!(
        id,
        ResolvedIdentity::Scoped {
            permissions: Permission { read: true, write: false, enumerate: true, delete: false },
            key_prefix: b"user:".to_vec(),
        }
    );
    assert_eq!(resolve(Some("sign"), &p, &bucket, &root_key(), t).unwrap_err(), AuthError::InvalidCredential);
}
