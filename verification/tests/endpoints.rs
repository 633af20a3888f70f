use std::cell::RefCell;

use base64::Engine;
use keydock::access::{BucketAuth, PolicyKeysPresence};
use keydock::buckets::{
    create_bucket, create_bucket_answer, delete_bucket, get_bucket_policy, head_bucket, list_bucket, list_bucket_answer,
    policy_after_patch, policy_answer, update_policy, ListAnswer, ListBucketParams, ListPlan,
};
use keydock::domain::{
    BucketId, BucketPolicy, Key, ListEntry, Permission, ResolvedIdentity, SigningKey, StoredEntry, StoredValue,
    TxnOp, ValueKind,
};
use keydock::error::{ApiError, UseCaseError};
use keydock::handlers::{
    auth_from_lookup, authenticate, bucket_id_from_path, delete_key, delete_key_answer, first_path_segment, get_key,
    head_key, parse_percent_encoded_key, put_key, put_key_answer, read_key_answer, write_answer, KeyResponse,
};
use keydock::health::{health_check, readiness_check};
use keydock::identity::hash_credential;
use keydock::keys::{BucketRepository, Clock, KeyRepository, KeyService, ListOpts, TxnService};
use keydock::listing::ListFormat;
use keydock::policy::{BucketPolicyPublic, CreateBucketForm, UpdatePolicyJson};
use keydock::token_endpoint::{create_token, parse_permissions, token_answer, AccessTokenResponse, CreateTokenForm};
use keydock::tokens::verify;
use keydock::txn::{build_txn_ops, execute_txn, json_value_to_body, TxnDelete, TxnItem, TxnRequest, TxnSet, TxnValue};

fn root_key() -> SigningKey {
    SigningKey::new(b"test-root-key-32-bytes-minimum!!".to_vec())
}

struct Buckets {
    policy: RefCell<Option<BucketPolicy>>,
    fail: bool,
    stored: RefCell<Vec<(String, BucketPolicy)>>,
}

impl Buckets {
    fn with(policy: Option<BucketPolicy>) -> Buckets {
        Buckets { policy: RefCell::new(policy), fail: false, stored: RefCell::new(Vec::new()) }
    }
}

impl BucketRepository for Buckets {
    fn ping_metadata(&self) -> Result<(), UseCaseError> {
        if self.fail { Err(UseCaseError::Storage("down".to_string())) } else { Ok(()) }
    }

    fn get_policy(&self, _bucket: &BucketId) -> Result<Option<BucketPolicy>, UseCaseError> {
        if self.fail {
            return Err(UseCaseError::Storage("down".to_string()));
        }
        Ok(self.policy.borrow().clone())
    }

    fn create_bucket(&self, id: &BucketId, policy: BucketPolicy) -> Result<(), UseCaseError> {
        if self.fail {
            return Err(UseCaseError::Storage("down".to_string()));
        }
        self.stored.borrow_mut().push((id.as_str().to_string(), policy.clone()));
        *self.policy.borrow_mut() = Some(policy);
        Ok(())
    }

    fn delete_bucket(&self, _id: &BucketId) -> Result<(), UseCaseError> {
        if self.fail { Err(UseCaseError::Storage("down".to_string())) } else { Ok(()) }
    }
}

#[derive(Default)]
struct Keys {
    entries: RefCell<Vec<(Vec<u8>, StoredEntry)>>,
    batches: RefCell<Vec<usize>>,
    last_list: RefCell<Option<ListOpts>>,
}

impl KeyRepository for Keys {
    fn get(&self, _bucket: &BucketId, key: &Key) -> Result<Option<StoredEntry>, UseCaseError> {
        Ok(self.entries.borrow().iter().find(|(k, _)| k.as_slice() == key.as_bytes()).map(|(_, e)| e.clone()))
    }

    fn set(&self, _bucket: &BucketId, key: &Key, value: StoredValue, expires_at: Option<i128>) -> Result<(), UseCaseError> {
        let mut entries = self.entries.borrow_mut();
        entries.retain(|(k, _)| k.as_slice() != key.as_bytes());
        entries.push((key.as_bytes().to_vec(), StoredEntry { value, expires_at }));
        Ok(())
    }

    fn delete(&self, _bucket: &BucketId, key: &Key) -> Result<bool, UseCaseError> {
        let mut entries = self.entries.borrow_mut();
        let before = entries.len();
        entries.retain(|(k, _)| k.as_slice() != key.as_bytes());
        Ok(entries.len() != before)
    }

    fn list(&self, _bucket: &BucketId, opts: &ListOpts) -> Result<Vec<ListEntry>, UseCaseError> {
        *self.last_list.borrow_mut() = Some(opts.clone());
        Ok(self
            .entries
            .borrow()
            .iter()
            .filter(|(k, _)| opts.prefix.as_ref().map_or(true, |p| k.starts_with(p)))
            .take(opts.limit)
            .map(|(k, _)| ListEntry { key: Key::from_bytes(k.clone()).unwrap(), value: None })
            .collect())
    }

    fn apply_batch(&self, _bucket: &BucketId, ops: &[TxnOp]) -> Result<(), UseCaseError> {
        self.batches.borrow_mut().push(ops.len());
        Ok(())
    }
}

const SEC: i128 = 1_000_000_000;

struct FixedClock(i128);

impl Clock for FixedClock {
    fn now_utc(&self) -> i128 {
        self.0
    }
}

fn auth(identity: ResolvedIdentity, read: bool, write: bool, secret: bool) -> BucketAuth {
    BucketAuth {
        identity,
        bucket_id: BucketId::new("b1".to_string()).unwrap(),
        policy_presence: PolicyKeysPresence { has_read_key: read, has_write_key: write, has_secret_key: secret },
        anonymous_access: Permission::none(),
        default_ttl_secs: None,
    }
}

fn admin() -> BucketAuth {
    auth(ResolvedIdentity::Admin, false, false, true)
}

fn policy(secret: Option<&str>, signing: Option<&str>) -> BucketPolicy {
    BucketPolicy {
        default_ttl_secs: Some(3600),
        anonymous_access: Permission::none(),
        secret_key_hash: secret.map(|s| hash_credential(s, &root_key()).unwrap()),
        read_key_hash: None,
        write_key_hash: None,
        signing_key: signing.map(|s| SigningKey::new(s.as_bytes().to_vec())),
        signing_key_generation: 0,
    }
}

// ------------------------------------------------------------ the server's sequencing, as app/ does it

fn do_authenticate(
    buckets: &Buckets,
    path: &str,
    authorization: Option<&[u8]>,
    query: Option<&str>,
    root: &SigningKey,
    now: i128,
) -> Result<BucketAuth, ApiError> {
    let req = authenticate(path, authorization, query)?;
    let lookup = buckets.get_policy(&req.bucket);
    auth_from_lookup(req.bucket.clone(), req.credential.as_ref().map(|c| c.as_str()), lookup, root, now)
}

fn do_get_key(keys: &Keys, clock: &FixedClock, auth: &BucketAuth, raw: &str, with_body: bool) -> Result<KeyResponse, ApiError> {
    let key = if with_body { get_key(auth, raw)? } else { head_key(auth, raw)? };
    read_key_answer(keys.get(&auth.bucket_id, &key), clock.now_utc(), with_body)
}

fn do_put_key(
    keys: &Keys,
    clock: &FixedClock,
    auth: &BucketAuth,
    raw: &str,
    ttl: Option<u64>,
    ct: Option<&str>,
    body: Vec<u8>,
) -> Result<KeyResponse, ApiError> {
    let w = put_key(auth, raw, ttl, ct, body, clock.now_utc())?;
    put_key_answer(&w.value, keys.set(&auth.bucket_id, &w.key, w.value.clone(), w.expires_at))
}

fn do_delete_key(keys: &Keys, auth: &BucketAuth, raw: &str) -> Result<(), ApiError> {
    let key = delete_key(auth, raw)?;
    delete_key_answer(keys.delete(&auth.bucket_id, &key))
}

fn do_create_bucket<B: BucketRepository>(buckets: &B, form: CreateBucketForm, root: &SigningKey) -> Result<String, ApiError> {
    let (id, policy) = create_bucket(form, root)?;
    create_bucket_answer(&id, buckets.create_bucket(&id, policy))
}

fn do_get_bucket_policy(buckets: &Buckets, auth: &BucketAuth) -> Result<BucketPolicyPublic, ApiError> {
    let b = get_bucket_policy(auth)?;
    policy_answer(buckets.get_policy(&b))
}

fn do_delete_bucket(buckets: &Buckets, auth: &BucketAuth) -> Result<(), ApiError> {
    let b = delete_bucket(auth)?;
    write_answer(buckets.delete_bucket(&b))
}

fn do_update_policy(buckets: &Buckets, auth: &BucketAuth, patch: Option<UpdatePolicyJson>, root: &SigningKey) -> Result<(), ApiError> {
    let (b, patch) = update_policy(auth, patch)?;
    let policy = policy_after_patch(buckets.get_policy(&b), patch, root)?;
    write_answer(buckets.create_bucket(&b, policy))
}

fn do_list_bucket(
    keys: &Keys,
    clock: &FixedClock,
    auth: &BucketAuth,
    params: ListBucketParams,
    accept: Option<&str>,
) -> Result<ListAnswer, ApiError> {
    match list_bucket(auth, params, accept)? {
        ListPlan::Answer(a) => Ok(a),
        ListPlan::Ask { format, include_values, input } => {
            list_bucket_answer(format, include_values, KeyService::list(keys, clock, &auth.bucket_id, input))
        }
    }
}

fn do_create_token(buckets: &Buckets, clock: &FixedClock, auth: &BucketAuth, form: CreateTokenForm) -> Result<AccessTokenResponse, ApiError> {
    let b = create_token(auth)?;
    token_answer(&b, buckets.get_policy(&b), form, clock.now_utc())
}

fn do_execute_txn(keys: &Keys, clock: &FixedClock, auth: &BucketAuth, request: TxnRequest) -> Result<(), ApiError> {
    let ops = execute_txn(auth, request, clock.now_utc())?;
    write_answer(TxnService::execute(keys, &auth.bucket_id, &ops))
}

// ------------------------------------------------------------ paths and authentication

#[test]
fn first_path_segment_skips_empty_pieces() {
    assert_eq!(first_path_segment("/b1/key"), Some("b1".to_string()));
    assert_eq!(first_path_segment("//b1"), Some("b1".to_string()));
    assert_eq!(first_path_segment("/"), None);
    assert_eq!(first_path_segment(""), None);
    assert_eq!(bucket_id_from_path("///").is_none(), true);
    assert_eq!(bucket_id_from_path("/x/y").unwrap().as_str(), "x");
}

#[test]
fn authenticate_outcomes() {
    let buckets = Buckets::with(Some(policy(Some("adm"), None)));
    let header = b"Bearer adm".to_vec();
    let a = do_authenticate(&buckets, "/b1/k", Some(header.as_slice()), None, &root_key(), 0).unwrap();
    assert_eq!(a.identity, ResolvedIdentity::Admin);
    assert_eq!(a.bucket_id.as_str(), "b1");
    assert!(a.policy_presence.has_secret_key);
    assert_eq!(a.default_ttl_secs, Some(3600));

    let bad = b"Bearer wrong".to_vec();
    assert_eq!(do_authenticate(&buckets, "/b1", Some(bad.as_slice()), None, &root_key(), 0).err(), Some(ApiError::Unauthorized));
    assert_eq!(do_authenticate(&buckets, "/", None, None, &root_key(), 0).err(), Some(ApiError::BadRequest));
    let anon = do_authenticate(&buckets, "/b1", None, None, &root_key(), 0).unwrap();
    assert_eq!(anon.identity, ResolvedIdentity::Anonymous);

    let missing = Buckets::with(None);
    assert_eq!(do_authenticate(&missing, "/b1", None, None, &root_key(), 0).err(), Some(ApiError::NotFound));
    let failing = Buckets { policy: RefCell::new(None), fail: true, stored: RefCell::new(Vec::new()) };
    assert_eq!(do_authenticate(&failing, "/b1", None, None, &root_key(), 0).err(), Some(ApiError::InternalError));
}

#[test]
fn authenticate_reads_query_credentials() {
    let buckets = Buckets::with(Some(policy(Some("adm"), None)));
    let a = do_authenticate(&buckets, "/b1", None, Some("access_token=adm"), &root_key(), 0).unwrap();
    assert_eq!(a.identity, ResolvedIdentity::Admin);
}

// ------------------------------------------------------------ keys

#[test]
fn key_round_trip_through_endpoints() {
    let keys = Keys::default();
    let clock = FixedClock(100);
    let a = admin();
    let put = do_put_key(&keys, &clock, &a, "greeting", None, None, b"hello".to_vec()).unwrap();
    assert_eq!(put.content_type, "text/plain; charset=utf-8");
    assert_eq!(put.body, b"hello".to_vec());
    let got = do_get_key(&keys, &clock, &a, "greeting", true).unwrap();
    assert_eq!(got.body, b"hello".to_vec());
    let head = do_get_key(&keys, &clock, &a, "greeting", false).unwrap();
    assert_eq!(head.body.len(), 0);
    assert_eq!(head.content_type, "text/plain; charset=utf-8");
    assert_eq!(do_delete_key(&keys, &a, "greeting"), Ok(()));
    assert_eq!(do_get_key(&keys, &clock, &a, "greeting", true).err(), Some(ApiError::NotFound));
    assert_eq!(do_delete_key(&keys, &a, "greeting"), Err(ApiError::NotFound));
}

#[test]
fn key_endpoints_gate_before_storage() {
    let keys = Keys::default();
    let clock = FixedClock(100);
    let anon = auth(ResolvedIdentity::Anonymous, true, true, true);
    assert_eq!(do_get_key(&keys, &clock, &anon, "k", true).err(), Some(ApiError::Unauthorized));
    assert_eq!(do_put_key(&keys, &clock, &anon, "k", None, None, b"v".to_vec()).err(), Some(ApiError::Unauthorized));
    assert_eq!(keys.entries.borrow().len(), 0);
    assert_eq!(do_get_key(&keys, &clock, &admin(), "", true).err(), Some(ApiError::BadRequest));
    let long = "x".repeat(129);
    assert_eq!(do_put_key(&keys, &clock, &admin(), &long, None, None, b"v".to_vec()).err(), Some(ApiError::BadRequest));
}

#[test]
fn key_expires_at_its_ttl() {
    let keys = Keys::default();
    let a = admin();
    do_put_key(&keys, &FixedClock(100 * SEC), &a, "k", Some(10), None, b"v".to_vec()).unwrap();
    assert!(do_get_key(&keys, &FixedClock(109 * SEC), &a, "k", true).is_ok());
    assert_eq!(do_get_key(&keys, &FixedClock(110 * SEC), &a, "k", true).err(), Some(ApiError::NotFound));
    // Expiry is kept below the second: written at 99.7 s for 1 s, alive at 100.2 s.
    do_put_key(&keys, &FixedClock(99 * SEC + 700_000_000), &a, "s", Some(1), None, b"v".to_vec()).unwrap();
    assert!(do_get_key(&keys, &FixedClock(100 * SEC + 200_000_000), &a, "s", true).is_ok());
    assert_eq!(do_get_key(&keys, &FixedClock(100 * SEC + 700_000_000), &a, "s", true).err(), Some(ApiError::NotFound));
}

#[test]
fn json_content_type_and_percent_decoding() {
    let keys = Keys::default();
    let a = admin();
    let r = do_put_key(&keys, &FixedClock(1), &a, "a%20b", None, Some("application/json"), b"{}".to_vec()).unwrap();
    assert_eq!(r.content_type, "application/json");
    assert_eq!(parse_percent_encoded_key("a%20b").unwrap().as_bytes(), b"a b");
    assert!(do_get_key(&keys, &FixedClock(1), &a, "a b", true).is_ok());
    let raw = do_put_key(&keys, &FixedClock(1), &a, "bin", None, None, vec![0xff, 0xfe]).unwrap();
    assert_eq!(raw.content_type, "application/octet-stream");
}

#[test]
fn oversized_put_is_internal_error() {
    let keys = Keys::default();
    let big = vec![b'a'; 16385];
    assert_eq!(do_put_key(&keys, &FixedClock(1), &admin(), "k", None, None, big).err(), Some(ApiError::InternalError));
}

// ------------------------------------------------------------ buckets

#[test]
fn create_bucket_stores_hashed_policy() {
    let buckets = Buckets::with(None);
    let form = CreateBucketForm {
        email: "o@example.com".to_string(),
        secret_key: Some("adm".to_string()),
        read_key: Some(String::new()),
        write_key: None,
        signing_key: Some("sig".to_string()),
        default_ttl: None,
    };
    let id = do_create_bucket(&buckets, form, &root_key()).unwrap();
    assert_eq!(id.len(), 36);
    let stored = buckets.stored.borrow();
    assert_eq!(stored[0].0, id);
    let p = &stored[0].1;
    assert_eq!(p.secret_key_hash, Some(hash_credential("adm", &root_key()).unwrap()));
    assert_eq!(p.read_key_hash, None);
    assert_eq!(p.default_ttl_secs, Some(604800));
    assert_eq!(p.signing_key.as_ref().map(|k| k.expose_secret().to_vec()), Some(b"sig".to_vec()));
    assert_eq!(p.anonymous_access, Permission { read: true, write: true, enumerate: true, delete: false });
}

#[test]
fn create_bucket_rejects_bad_email() {
    let buckets = Buckets::with(None);
    let form = CreateBucketForm {
        email: "no-at-sign".to_string(),
        secret_key: None,
        read_key: None,
        write_key: None,
        signing_key: None,
        default_ttl: Some(0),
    };
    assert_eq!(do_create_bucket(&buckets, form, &root_key()), Err(ApiError::BadRequest));
    assert_eq!(buckets.stored.borrow().len(), 0);
}

#[test]
fn policy_endpoints_are_admin_only() {
    let buckets = Buckets::with(Some(policy(Some("adm"), Some("sig"))));
    let reader = auth(
        ResolvedIdentity::Scoped { permissions: Permission::read_enumerate(), key_prefix: Vec::new() },
        true,
        false,
        true,
    );
    assert_eq!(do_get_bucket_policy(&buckets, &reader).err(), Some(ApiError::Forbidden));
    assert_eq!(head_bucket(&reader), Err(ApiError::Forbidden));
    assert_eq!(do_delete_bucket(&buckets, &reader), Err(ApiError::Forbidden));
    let view = do_get_bucket_policy(&buckets, &admin()).unwrap();
    assert!(view.has_secret_key);
    assert!(view.has_signing_key);
    assert!(!view.has_read_key);
    assert_eq!(view.default_ttl, Some(3600));
    assert_eq!(head_bucket(&admin()), Ok(()));
    assert_eq!(do_delete_bucket(&buckets, &admin()), Ok(()));
}

#[test]
fn update_policy_rotates_and_recomputes_anonymous_access() {
    let buckets = Buckets::with(Some(policy(Some("adm"), Some("sig"))));
    let patch = UpdatePolicyJson {
        secret_key: None,
        read_key: Some(Some("r".to_string())),
        write_key: None,
        signing_key: Some(Some("sig2".to_string())),
        default_ttl: Some(None),
    };
    assert_eq!(do_update_policy(&buckets, &admin(), Some(patch), &root_key()), Ok(()));
    let p = buckets.policy.borrow().clone().unwrap();
    assert_eq!(p.signing_key_generation, 1);
    assert_eq!(p.default_ttl_secs, None);
    assert_eq!(p.read_key_hash, Some(hash_credential("r", &root_key()).unwrap()));
    assert_eq!(p.anonymous_access, Permission { read: false, write: true, enumerate: false, delete: false });
    assert_eq!(do_update_policy(&buckets, &admin(), None, &root_key()), Err(ApiError::BadRequest));
}

#[test]
fn update_policy_refuses_clearing_secret_key() {
    let lookup = Ok(Some(policy(Some("adm"), None)));
    let patch = UpdatePolicyJson { secret_key: Some(None), read_key: None, write_key: None, signing_key: None, default_ttl: None };
    assert_eq!(policy_after_patch(lookup, patch, &root_key()).err(), Some(ApiError::BadRequest));
    let same = UpdatePolicyJson {
        secret_key: None,
        read_key: None,
        write_key: None,
        signing_key: Some(Some("sig".to_string())),
        default_ttl: None,
    };
    let p = policy_after_patch(Ok(Some(policy(Some("adm"), Some("sig")))), same, &root_key()).unwrap();
    assert_eq!(p.signing_key_generation, 0);
    assert_eq!(policy_after_patch(Ok(None), UpdatePolicyJson::empty(), &root_key()).err(), Some(ApiError::NotFound));
}

#[test]
fn list_bucket_respects_token_scope() {
    let keys = Keys::default();
    let clock = FixedClock(5);
    do_put_key(&keys, &clock, &admin(), "user:1", None, None, b"a".to_vec()).unwrap();
    let scoped = auth(
        ResolvedIdentity::Scoped { permissions: Permission { read: false, write: false, enumerate: true, delete: false }, key_prefix: b"user:".to_vec() },
        false,
        false,
        true,
    );
    let params = |prefix: Option<&str>, format: Option<&str>| ListBucketParams {
        prefix: prefix.map(|s| s.to_string()),
        limit: None,
        skip: None,
        reverse: None,
        values: None,
        format: format.map(|s| s.to_string()),
    };
    let empty = do_list_bucket(&keys, &clock, &scoped, params(Some("admin:"), None), None).unwrap();
    assert_eq!(empty.entries.len(), 0);
    assert!(keys.last_list.borrow().is_none());
    let within = do_list_bucket(&keys, &clock, &scoped, params(Some("user:1"), Some("JSON")), None).unwrap();
    assert_eq!(within.format, ListFormat::Json);
    assert_eq!(keys.last_list.borrow().as_ref().unwrap().prefix, Some(b"user:1".to_vec()));
    do_list_bucket(&keys, &clock, &scoped, params(None, None), Some("application/x-ndjson")).unwrap();
    assert_eq!(keys.last_list.borrow().as_ref().unwrap().prefix, Some(b"user:".to_vec()));
    assert_eq!(do_list_bucket(&keys, &clock, &scoped, params(None, Some("xml")), None).err(), Some(ApiError::NotAcceptable));
    let reader = auth(ResolvedIdentity::Anonymous, true, false, false);
    assert_eq!(do_list_bucket(&keys, &clock, &reader, params(None, None), None).err(), Some(ApiError::Unauthorized));
}

// ------------------------------------------------------------ tokens

#[test]
fn parse_permissions_cases() {
    assert_eq!(parse_permissions("read, write ,,enumerate"), Ok(Permission { read: true, write: true, enumerate: true, delete: false }));
    assert_eq!(parse_permissions(""), Ok(Permission::none()));
    assert_eq!(parse_permissions("delete"), Ok(Permission { read: false, write: false, enumerate: false, delete: true }));
    assert_eq!(parse_permissions("read,admin"), Err(ApiError::BadRequest));
    assert_eq!(parse_permissions("READ"), Err(ApiError::BadRequest));
}

fn token_form(prefix: &str, permissions: &str, ttl: i64) -> CreateTokenForm {
    CreateTokenForm { prefix: prefix.to_string(), permissions: permissions.to_string(), ttl }
}

#[test]
fn create_token_issues_verifiable_scoped_tokens() {
    let p = policy(Some("adm"), Some("sig"));
    let buckets = Buckets::with(Some(p.clone()));
    let clock = FixedClock(1_000 * SEC);
    let t = do_create_token(&buckets, &clock, &admin(), token_form("user:42:", "read,write", 60)).unwrap();
    let claims = verify(&t.access_token, &p, &BucketId::new("b1".to_string()).unwrap(), 1_059 * SEC).unwrap();
    assert_eq!(claims.allowed_prefix, b"user:42:".to_vec());
    assert_eq!(claims.permissions, Permission { read: true, write: true, enumerate: false, delete: false });
    assert_eq!(claims.iat, 1_000 * SEC);
    assert_eq!(claims.exp, 1_060 * SEC);
    assert!(verify(&t.access_token, &p, &BucketId::new("b1".to_string()).unwrap(), 1_060 * SEC).is_err());
    // A one-second token minted at 99.7 s is still valid at 100.2 s.
    let early = FixedClock(99 * SEC + 700_000_000);
    let t = do_create_token(&buckets, &early, &admin(), token_form("p", "read", 1)).unwrap();
    let b1 = BucketId::new("b1".to_string()).unwrap();
    assert!(verify(&t.access_token, &p, &b1, 100 * SEC + 200_000_000).is_ok());
    assert!(verify(&t.access_token, &p, &b1, 100 * SEC + 700_000_000).is_err());
}

#[test]
fn create_token_errors() {
    let clock = FixedClock(1_000);
    let signed = Buckets::with(Some(policy(Some("adm"), Some("sig"))));
    let unsigned = Buckets::with(Some(policy(Some("adm"), None)));
    let missing = Buckets::with(None);
    assert_eq!(do_create_token(&unsigned, &clock, &admin(), token_form("p", "read", 60)).err(), Some(ApiError::ServiceUnavailable));
    assert_eq!(do_create_token(&missing, &clock, &admin(), token_form("p", "read", 60)).err(), Some(ApiError::NotFound));
    assert_eq!(do_create_token(&signed, &clock, &admin(), token_form("p", "read", 0)).err(), Some(ApiError::BadRequest));
    assert_eq!(do_create_token(&signed, &clock, &admin(), token_form("", "read", 60)).err(), Some(ApiError::BadRequest));
    assert_eq!(do_create_token(&signed, &clock, &admin(), token_form("p", "root", 60)).err(), Some(ApiError::BadRequest));
    assert_eq!(do_create_token(&signed, &clock, &admin(), token_form("p", "read", i64::MAX)).err(), Some(ApiError::BadRequest));
    let anon = auth(ResolvedIdentity::Anonymous, false, false, true);
    assert_eq!(do_create_token(&signed, &clock, &anon, token_form("p", "read", 60)).err(), Some(ApiError::Forbidden));
}

// ------------------------------------------------------------ transactions

#[test]
fn json_value_to_body_string_keeps_bytes_and_no_content_type() {
    let (body, ct) = json_value_to_body(TxnValue::Text("olá".into())).expect("ok");
    assert_eq!(body.as_slice(), "olá".as_bytes());
    assert_eq!(ct, None);
}

#[test]
fn json_value_to_body_non_string_uses_json_content_type() {
    let (body, ct) = json_value_to_body(TxnValue::Json(b"[1,2,3]".to_vec())).expect("ok");
    assert_eq!(body.as_slice(), b"[1,2,3]");
    assert_eq!(ct, Some("application/json"));
}

#[test]
fn json_value_to_body_rejects_null() {
    let err = json_value_to_body(TxnValue::Null).expect_err("null must fail");
    assert_eq!(err.status(), axum::http::StatusCode::BAD_REQUEST.as_u16());
}

fn set_item(key: &str, value: TxnValue, ttl: Option<u64>) -> TxnItem {
    TxnItem::Store(TxnSet { set: key.to_string(), value, ttl })
}

fn delete_item(key: &str) -> TxnItem {
    TxnItem::Delete(TxnDelete { delete: key.to_string() })
}

#[test]
fn transaction_builds_operations_in_order() {
    let ops = build_txn_ops(
        &admin(),
        vec![set_item("a", TxnValue::Text("1".into()), Some(60)), delete_item("b"), set_item("c", TxnValue::Json(b"{}".to_vec()), None)],
        100 * SEC,
    )
    .unwrap();
    assert_eq!(ops.len(), 3);
    match &ops[0] {
        TxnOp::Store { key, value, expires_at } => {
            assert_eq!(key.as_bytes(), b"a");
            assert_eq!(value.kind, ValueKind::Int64);
            assert_eq!(*expires_at, Some(160 * SEC));
        }
        TxnOp::Delete { .. } => panic!("expected a write"),
    }
    assert!(matches!(&ops[1], TxnOp::Delete { key } if key.as_bytes() == b"b"));
    assert!(matches!(&ops[2], TxnOp::Store { value, .. } if value.kind == ValueKind::Json));
}

#[test]
fn transaction_is_refused_as_a_whole() {
    let keys = Keys::default();
    let writer = auth(
        ResolvedIdentity::Scoped { permissions: Permission::write_only(), key_prefix: b"p:".to_vec() },
        false,
        true,
        true,
    );
    let request = TxnRequest { txn: vec![set_item("p:1", TxnValue::Text("x".into()), None), set_item("q:1", TxnValue::Text("y".into()), None)] };
    assert_eq!(do_execute_txn(&keys, &FixedClock(1), &writer, request), Err(ApiError::Forbidden));
    let request = TxnRequest { txn: vec![set_item("p:1", TxnValue::Null, None)] };
    assert_eq!(do_execute_txn(&keys, &FixedClock(1), &writer, request), Err(ApiError::BadRequest));
    let request = TxnRequest { txn: vec![delete_item("p:1")] };
    assert_eq!(do_execute_txn(&keys, &FixedClock(1), &writer, request), Err(ApiError::Forbidden));
    assert_eq!(keys.batches.borrow().len(), 0);
    let request = TxnRequest { txn: vec![set_item("p:1", TxnValue::Text("x".into()), None)] };
    assert_eq!(do_execute_txn(&keys, &FixedClock(1), &writer, request), Ok(()));
    assert_eq!(*keys.batches.borrow(), vec![1]);
}

// ------------------------------------------------------------ health

#[test]
fn readiness_returns_503_when_storage_ping_fails() {
    let failing = Buckets { policy: RefCell::new(None), fail: true, stored: RefCell::new(Vec::new()) };
    let (status, body) = readiness_check(failing.ping_metadata(), "0.1.0-test");
    assert_eq!(status, 503);
    assert_eq!(body.status, "degraded");
    assert_eq!(body.storage, "error");
    assert_eq!(body.version, "0.1.0-test");
    let (ok, body) = readiness_check(Ok(()), "v");
    assert_eq!(ok, 200);
    assert_eq!(body.status, "ok");
    let h = health_check("v");
    assert_eq!((h.status, h.storage, h.version), ("ok", "ok", "v"));
}

#[test]
fn basic_credentials_authenticate() {
    let buckets = Buckets::with(Some(policy(Some("adm"), None)));
    let header = format!("Basic {}", base64::engine::general_purpose::STANDARD.encode(b"adm:whatever"));
    let a = do_authenticate(&buckets, "/b1", Some(header.as_bytes()), None, &root_key(), 0).unwrap();
    assert_eq!(a.identity, ResolvedIdentity::Admin);
}
