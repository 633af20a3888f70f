use std::sync::Arc;

use keydock::buckets::{create_bucket, create_bucket_answer};
use keydock::context::RequestContext;
use keydock::domain::{BucketId, BucketPolicy, ResolvedIdentity, SigningKey};
use keydock::error::UseCaseError;
use keydock::fixtures::{BucketSetup, PolicyPatch, TokenSetup};
use keydock::keys::{BucketRepository, Clock, KeyService, SystemClock};
use keydock::policy::{build_bucket_policy, CreateBucketForm};

fn form(s: BucketSetup) -> CreateBucketForm {
    CreateBucketForm {
        email: s.email,
        secret_key: s.secret_key,
        read_key: s.read_key,
        write_key: s.write_key,
        signing_key: s.signing_key,
        default_ttl: s.default_ttl,
    }
}

#[test]
fn bucket_setups_fill_the_right_fields() {
    let p = BucketSetup::public();
    assert_eq!(p.email, "o@example.com");
    assert!(p.secret_key.is_none() && p.read_key.is_none() && p.write_key.is_none() && p.signing_key.is_none());
    assert_eq!(BucketSetup::admin("a".into()).secret_key, Some("a".to_string()));
    assert_eq!(BucketSetup::read_only("r".into()).read_key, Some("r".to_string()));
    assert_eq!(BucketSetup::write_only("w".into()).write_key, Some("w".to_string()));
    let r = BucketSetup::restricted("r".into(), "w".into());
    assert_eq!((r.read_key, r.write_key), (Some("r".to_string()), Some("w".to_string())));
    let s = BucketSetup::signed("a".into(), "k".into());
    assert_eq!((s.secret_key, s.signing_key), (Some("a".to_string()), Some("k".to_string())));
    let o = BucketSetup::signing_only("k".into());
    assert_eq!(o.signing_key, Some("k".to_string()));
    assert!(o.secret_key.is_none());
}

#[test]
fn signing_only_bucket_stays_public() {
    let root = SigningKey::new(b"root".to_vec());
    let p = build_bucket_policy(form(BucketSetup::signing_only("k".into())), &root).ok().unwrap();
    assert!(p.anonymous_access.read && p.anonymous_access.write && p.anonymous_access.delete);
    assert_eq!(p.signing_key_generation, 0);
    let admin = build_bucket_policy(form(BucketSetup::admin("a".into())), &root).ok().unwrap();
    assert!(!admin.anonymous_access.delete);
}

#[test]
fn token_setup_and_patches() {
    let t = TokenSetup::read("user:".into(), 60);
    assert_eq!((t.prefix.as_str(), t.permissions.as_str(), t.ttl), ("user:", "read", 60));
    let r = PolicyPatch::rotate_signing_key("n".into());
    assert_eq!(r.signing_key, Some(Some("n".to_string())));
    assert!(r.secret_key.is_none() && r.read_key.is_none() && r.write_key.is_none() && r.default_ttl.is_none());
    assert_eq!(PolicyPatch::clear_signing_key().signing_key, Some(None));
    assert_eq!(PolicyPatch::clear_read_key().read_key, Some(None));
    assert_eq!(PolicyPatch::clear_write_key().write_key, Some(None));
}

#[test]
fn request_context_carries_identity() {
    let clock: Arc<dyn Clock> = Arc::new(SystemClock);
    let anon = RequestContext::new(clock.clone());
    assert_eq!(anon.identity, ResolvedIdentity::Anonymous);
    let admin = RequestContext::with_identity(clock, ResolvedIdentity::Admin);
    assert_eq!(admin.identity, ResolvedIdentity::Admin);
    assert!(admin.clock.now_utc() > 0);
}

#[test]
fn resolve_ttl_reads_the_clock() {
    let e = KeyService::resolve_ttl(&SystemClock, Some(60), None).unwrap().unwrap();
    let now = SystemClock.now_utc();
    assert!(e > now && e <= now + 60 * 1_000_000_000);
    assert_eq!(KeyService::resolve_ttl(&SystemClock, None, None).unwrap(), None);
}

struct NoStore;

impl BucketRepository for NoStore {
    fn ping_metadata(&self) -> Result<(), UseCaseError> {
        Ok(())
    }

    fn get_policy(&self, _bucket: &BucketId) -> Result<Option<BucketPolicy>, UseCaseError> {
        Ok(None)
    }

    fn create_bucket(&self, _id: &BucketId, _policy: BucketPolicy) -> Result<(), UseCaseError> {
        Err(UseCaseError::Storage("read-only".to_string()))
    }

    fn delete_bucket(&self, _id: &BucketId) -> Result<(), UseCaseError> {
        Ok(())
    }
}

#[test]
fn create_bucket_store_failure_is_internal_error() {
    let root = SigningKey::new(b"root".to_vec());
    let (id, policy) = create_bucket(form(BucketSetup::public()), &root).ok().unwrap();
    assert_eq!(id.as_str().len(), 36);
    let r = create_bucket_answer(&id, NoStore.create_bucket(&id, policy));
    assert_eq!(r, Err(keydock::error::ApiError::InternalError));
}
