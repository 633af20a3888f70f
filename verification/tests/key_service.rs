use std::sync::Mutex;

use keydock::domain::{BucketId, Key, ListEntry, StoredEntry, StoredValue, TxnOp, ValueKind};
use keydock::error::UseCaseError;
use keydock::keys::{Clock, KeyRepository, KeyService, ListOpts, ListOptsInput, SystemClock, TxnService};

struct MockRepo {
    last_expires: Mutex<Option<Option<i128>>>,
}

impl KeyRepository for MockRepo {
    fn get(&self, _bucket: &BucketId, _key: &Key) -> Result<Option<StoredEntry>, UseCaseError> {
        Ok(None)
    }

    fn set(&self, _bucket: &BucketId, _key: &Key, _value: StoredValue, expires_at: Option<i128>) -> Result<(), UseCaseError> {
        *self.last_expires.lock().expect("lock") = Some(expires_at);
        Ok(())
    }

    fn delete(&self, _bucket: &BucketId, _key: &Key) -> Result<bool, UseCaseError> {
        Ok(false)
    }

    fn list(&self, _bucket: &BucketId, _opts: &ListOpts) -> Result<Vec<ListEntry>, UseCaseError> {
        Ok(vec![])
    }

    fn apply_batch(&self, _bucket: &BucketId, _ops: &[TxnOp]) -> Result<(), UseCaseError> {
        Ok(())
    }
}

fn bucket() -> BucketId {
    BucketId::new("b".to_string()).expect("id")
}

fn key() -> Key {
    Key::from_bytes(b"k".to_vec()).expect("key")
}

#[test]
fn set_empty_body_is_utf8() {
    let repo = MockRepo { last_expires: Mutex::new(None) };
    let clock = SystemClock;
    let bid = bucket();
    let k = key();
    let v = KeyService::set(&repo, &clock, &bid, &k, Vec::new(), None, None, None).expect("set");
    assert_eq!(v.kind, ValueKind::Utf8);
    assert_eq!(v.payload.as_slice(), b"");
    assert_eq!(*repo.last_expires.lock().expect("lock"), Some(None));
}

#[test]
fn set_ttl_override_over_default() {
    let repo = MockRepo { last_expires: Mutex::new(None) };
    let clock = SystemClock;
    let bid = bucket();
    let k = key();
    let v = KeyService::set(&repo, &clock, &bid, &k, b"1".to_vec(), None, Some(60), Some(3600)).expect("set");
    assert_eq!(v.kind, ValueKind::Int64);
    let exp = (*repo.last_expires.lock().expect("lock")).expect("set called");
    assert!(exp.is_some());
}

const SEC: i128 = 1_000_000_000;

struct FixedClock(i128);

impl Clock for FixedClock {
    fn now_utc(&self) -> i128 {
        self.0
    }
}

#[test]
fn set_expiry_is_ttl_seconds_after_now() {
    let repo = MockRepo { last_expires: Mutex::new(None) };
    let clock = FixedClock(1_000 * SEC);
    KeyService::set(&repo, &clock, &bucket(), &key(), b"x".to_vec(), None, Some(60), Some(3600)).expect("set");
    assert_eq!(*repo.last_expires.lock().unwrap(), Some(Some(1_060 * SEC)));
    KeyService::set(&repo, &clock, &bucket(), &key(), b"x".to_vec(), None, None, Some(3600)).expect("set");
    assert_eq!(*repo.last_expires.lock().unwrap(), Some(Some(4_600 * SEC)));
    KeyService::set(&repo, &clock, &bucket(), &key(), b"x".to_vec(), None, Some(0), Some(3600)).expect("set");
    assert_eq!(*repo.last_expires.lock().unwrap(), Some(None));
}

#[test]
fn set_refuses_oversized_values() {
    let repo = MockRepo { last_expires: Mutex::new(None) };
    let big = vec![b'a'; 16 * 1024 + 1];
    let r = KeyService::set(&repo, &SystemClock, &bucket(), &key(), big, None, None, None);
    assert!(matches!(r, Err(UseCaseError::Domain(_))));
    assert_eq!(*repo.last_expires.lock().unwrap(), None);
}

#[test]
fn set_refuses_unrepresentable_expiry() {
    let repo = MockRepo { last_expires: Mutex::new(None) };
    let r = KeyService::set(&repo, &FixedClock(0), &bucket(), &key(), b"x".to_vec(), None, Some(u64::MAX / 2), None);
    assert!(matches!(r, Err(UseCaseError::Domain(_))));
}

#[test]
fn read_of_expired_entry_is_not_found() {
    let v = StoredValue::new(b"v".to_vec(), ValueKind::Utf8).unwrap();
    let live = StoredEntry { value: v.clone(), expires_at: Some(101) };
    let dead = StoredEntry { value: v, expires_at: Some(100) };
    assert!(KeyService::entry_from_lookup(Ok(Some(live)), 100).is_ok());
    assert!(matches!(KeyService::entry_from_lookup(Ok(Some(dead)), 100), Err(UseCaseError::NotFound)));
    assert!(matches!(KeyService::entry_from_lookup(Ok(None), 100), Err(UseCaseError::NotFound)));
}

#[test]
fn delete_of_missing_key_is_not_found() {
    let repo = MockRepo { last_expires: Mutex::new(None) };
    assert!(matches!(KeyService::delete(&repo, &bucket(), &key()), Err(UseCaseError::NotFound)));
    assert!(KeyService::delete_outcome(Ok(true)).is_ok());
}

#[test]
fn list_defaults_are_applied() {
    let opts = KeyService::list_opts(
        ListOptsInput { prefix: None, limit: None, skip: None, reverse: None, include_values: None },
        7,
    );
    assert_eq!(opts.limit, 10000);
    assert_eq!(opts.skip, 0);
    assert!(!opts.reverse);
    assert!(!opts.include_values);
    assert_eq!(opts.now, 7);
}

#[test]
fn transaction_ttl_zero_means_bucket_default() {
    assert_eq!(KeyService::resolve_ttl_at(10 * SEC, Some(0), Some(5)).unwrap(), Some(15 * SEC));
    assert_eq!(KeyService::resolve_ttl_at(10 * SEC, Some(0), None).unwrap(), None);
    assert_eq!(KeyService::resolve_ttl_at(10 * SEC, Some(3), Some(5)).unwrap(), Some(13 * SEC));
    assert_eq!(KeyService::resolve_ttl_at(10 * SEC, None, Some(0)).unwrap(), None);
}

struct OkBatchRepo;

impl KeyRepository for OkBatchRepo {
    fn get(&self, _bucket: &BucketId, _key: &Key) -> Result<Option<StoredEntry>, UseCaseError> {
        Ok(None)
    }

    fn set(&self, _bucket: &BucketId, _key: &Key, _value: StoredValue, _expires_at: Option<i128>) -> Result<(), UseCaseError> {
        Ok(())
    }

    fn delete(&self, _bucket: &BucketId, _key: &Key) -> Result<bool, UseCaseError> {
        Ok(false)
    }

    fn list(&self, _bucket: &BucketId, _opts: &ListOpts) -> Result<Vec<ListEntry>, UseCaseError> {
        Ok(vec![])
    }

    fn apply_batch(&self, _bucket: &BucketId, _ops: &[TxnOp]) -> Result<(), UseCaseError> {
        Ok(())
    }
}

#[test]
fn execute_delegates_to_apply_batch() {
    let repo = OkBatchRepo;
    let bid = BucketId::new("aaaaaaaa-bbbb-cccc-dddd-eeeeeeeeeeee".to_string()).expect("id");
    let k = Key::from_bytes(b"k".to_vec()).expect("key");
    let v = StoredValue::new(b"v".to_vec(), ValueKind::Utf8).expect("v");
    let ops = vec![TxnOp::Store { key: k, value: v, expires_at: None }];
    assert_eq!(TxnService::execute(&repo, &bid, &ops).is_ok(), true);
}

#[test]
fn system_clock_is_monotonic() {
    let c = SystemClock;
    let a = c.now_utc();
    let b = c.now_utc();
    assert!(b >= a);
}
