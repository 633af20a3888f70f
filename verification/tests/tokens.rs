use base64::Engine;
use hmac::Mac;
use keydock::domain::{BucketId, BucketPolicy, Permission, SigningKey, TemporaryTokenClaims};
use keydock::error::TokenError;
use keydock::tokens::{mint, verify};

const SEC: i128 = 1_000_000_000;

fn test_signing_key() -> SigningKey {
    SigningKey::new(b"test-signing-key-bytes!!".to_vec())
}

fn sample_claims(bucket: BucketId, generation: u64) -> TemporaryTokenClaims {
    TemporaryTokenClaims {
        version: 1,
        bucket,
        bucket_generation: generation,
        allowed_prefix: b"user:".to_vec(),
        permissions: Permission::read_only(),
        iat: 1_700_000_000 * SEC,
        exp: 2_000_000_000 * SEC,
    }
}

fn policy_with_key(generation: u64) -> BucketPolicy {
    BucketPolicy {
        default_ttl_secs: None,
        anonymous_access: Permission::none(),
        secret_key_hash: None,
        read_key_hash: None,
        write_key_hash: None,
        signing_key: Some(test_signing_key()),
        signing_key_generation: generation,
    }
}

#[test]
fn mint_verify_roundtrip() {
    let bucket = BucketId::new("b1".to_string()).unwrap();
    let claims = sample_claims(bucket.clone(), 0);
    let key = test_signing_key();
    let raw = mint(&claims, &key).unwrap();
    let policy = policy_with_key(0);
    let now = 1_800_000_000 * SEC;
    let out = verify(&raw, &policy, &bucket, now).unwrap();
    assert_eq!(out.bucket.as_str(), claims.bucket.as_str());
    assert_eq!(out.bucket_generation, claims.bucket_generation);
    assert_eq!(out.allowed_prefix, claims.allowed_prefix);
    assert_eq!(out.permissions, claims.permissions);
}

fn minted() -> (String, BucketId) {
    let bucket = BucketId::new("b1".to_string()).unwrap();
    let raw = mint(&sample_claims(bucket.clone(), 0), &test_signing_key()).unwrap();
    (raw, bucket)
}

#[test]
fn verify_rejects_tampered_signature() {
    let (raw, bucket) = minted();
    let (payload_b64, _) = raw.split_once('.').unwrap();
    let wrong_sig = base64::engine::general_purpose::URL_SAFE_NO_PAD.encode([0u8; 32]);
    let tampered = format!("{payload_b64}.{wrong_sig}");
    assert_eq!(verify(&tampered, &policy_with_key(0), &bucket, 1_800_000_000 * SEC).unwrap_err(), TokenError::InvalidSignature);
}

#[test]
fn verify_rejects_expired() {
    let (raw, bucket) = minted();
    assert_eq!(verify(&raw, &policy_with_key(0), &bucket, 2_100_000_000 * SEC).unwrap_err(), TokenError::Expired);
    assert_eq!(verify(&raw, &policy_with_key(0), &bucket, 2_000_000_000 * SEC).unwrap_err(), TokenError::Expired);
    assert!(verify(&raw, &policy_with_key(0), &bucket, 1_999_999_999 * SEC).is_ok());
}

#[test]
fn verify_rejects_wrong_bucket() {
    let (raw, _) = minted();
    let other = BucketId::new("b2".to_string()).unwrap();
    assert_eq!(verify(&raw, &policy_with_key(0), &other, 1_800_000_000 * SEC).unwrap_err(), TokenError::BucketMismatch);
}

#[test]
fn verify_rejects_generation_mismatch() {
    let (raw, bucket) = minted();
    assert_eq!(verify(&raw, &policy_with_key(1), &bucket, 1_800_000_000 * SEC).unwrap_err(), TokenError::GenerationMismatch);
}

#[test]
fn verify_rejects_without_signing_key() {
    let bucket = BucketId::new("b1".to_string()).unwrap();
    let mut policy = policy_with_key(0);
    policy.signing_key = None;
    assert_eq!(verify("x.y", &policy, &bucket, 0).unwrap_err(), TokenError::NoSigningKey);
}

#[test]
fn verify_rejects_malformed_text() {
    let bucket = BucketId::new("b1".to_string()).unwrap();
    let policy = policy_with_key(0);
    assert_eq!(verify("no-dot-here", &policy, &bucket, 0).unwrap_err(), TokenError::InvalidFormat);
    assert_eq!(verify("!!.!!", &policy, &bucket, 0).unwrap_err(), TokenError::InvalidFormat);
}

#[test]
fn verify_rejects_signed_garbage_payload() {
    let bucket = BucketId::new("b1".to_string()).unwrap();
    let payload = b"{\"not\":\"claims\"}";
    let sig = {
        let mut mac = <hmac::Hmac<sha2::Sha256> as Mac>::new_from_slice(b"test-signing-key-bytes!!").unwrap();
        mac.update(payload);
        mac.finalize().into_bytes().to_vec()
    };
    let e = base64::engine::general_purpose::URL_SAFE_NO_PAD;
    let raw = format!("{}.{}", e.encode(payload), e.encode(sig));
    assert_eq!(verify(&raw, &policy_with_key(0), &bucket, 0).unwrap_err(), TokenError::InvalidFormat);
}

#[test]
fn token_halves_are_base64url_of_payload_and_hmac() {
    let (raw, _) = minted();
    let (p, s) = raw.split_once('.').unwrap();
    let e = base64::engine::general_purpose::URL_SAFE_NO_PAD;
    let payload = e.decode(p).unwrap();
    let sig = e.decode(s).unwrap();
    let mut mac = <hmac::Hmac<sha2::Sha256> as Mac>::new_from_slice(b"test-signing-key-bytes!!").unwrap();
    mac.update(&payload);
    assert_eq!(sig, mac.finalize().into_bytes().to_vec());
    let text = String::from_utf8(payload).unwrap();
    assert!(text.starts_with("{\"version\":\"01\",\"bucket\":\"6231\","));
    assert!(text.ends_with("\"}"));
}
