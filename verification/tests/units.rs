use keydock::claims::{encode_claims, parse_claims, parse_fields};
use keydock::domain::{BucketId, Key, ListEntry, Permission, SigningKey, StoredValue, TemporaryTokenClaims, ValueKind};
use keydock::encoding::percent_decode_bytes;
use keydock::error::ApiError;
use keydock::listing::{combine_scoped_prefix, escape_text_segment, list_content_type, render_list_text, resolve_list_format, ListFormat};
use keydock::policy::{apply_policy_patch, is_minimally_valid_email, none_if_empty, UpdatePolicyJson};
use keydock::ratelimit::{decide, limiter_tokens, RateLimitDecision, RateWindow};
use keydock::values::{content_type_is_json, expiry_after, infer_value_kind};

fn claims() -> TemporaryTokenClaims {
    TemporaryTokenClaims {
        version: 1,
        bucket: BucketId::new("bü".to_string()).unwrap(),
        bucket_generation: 0x0102030405060708,
        allowed_prefix: vec![0x00, b'"', 0xff],
        permissions: Permission { read: true, write: false, enumerate: true, delete: true },
        iat: -5,
        exp: 1_700_000_000,
    }
}

#[test]
fn claims_payload_round_trips_exactly() {
    let c = claims();
    let json = encode_claims(&c);
    let text = String::from_utf8(json.clone()).unwrap();
    assert_eq!(
        text,
        "{\"version\":\"01\",\"bucket\":\"62c3bc\",\"bucket_generation\":\"0102030405060708\",\
         \"allowed_prefix\":\"0022ff\",\"permissions\":\"0d\",\"iat\":\"fffffffffffffffffffffffffffffffb\",\
         \"exp\":\"0000000000000000000000006553f100\"}"
    );
    let back = parse_claims(&json).unwrap();
    assert_eq!(back.version, 1);
    assert_eq!(back.bucket.as_str(), "bü");
    assert_eq!(back.bucket_generation, 0x0102030405060708);
    assert_eq!(back.allowed_prefix, vec![0x00, b'"', 0xff]);
    assert_eq!(back.permissions, c.permissions);
    assert_eq!(back.iat, -5);
    assert_eq!(back.exp, 1_700_000_000);
}

#[test]
fn claims_parser_refuses_what_no_claims_encode_to() {
    let good = String::from_utf8(encode_claims(&claims())).unwrap();
    let upper = good.replace("62c3bc", "62C3BC");
    assert!(parse_claims(upper.as_bytes()).is_none());
    let odd = good.replace("62c3bc", "62c3b");
    assert!(parse_claims(odd.as_bytes()).is_none());
    let empty_bucket = good.replace("62c3bc", "");
    assert!(parse_fields(empty_bucket.as_bytes()).is_some());
    assert!(parse_claims(empty_bucket.as_bytes()).is_none());
    let bad_perm = good.replace("\"permissions\":\"0d\"", "\"permissions\":\"10\"");
    assert!(parse_claims(bad_perm.as_bytes()).is_none());
    let trailing = format!("{good} ");
    assert!(parse_claims(trailing.as_bytes()).is_none());
    assert!(parse_claims(b"{}").is_none());
    let bad_utf8 = good.replace("62c3bc", "ff");
    assert!(parse_claims(bad_utf8.as_bytes()).is_none());
}

#[test]
fn email_validation_cases() {
    assert!(is_minimally_valid_email("  a@b.c "));
    assert!(!is_minimally_valid_email(""));
    assert!(!is_minimally_valid_email("a@b"));
    assert!(!is_minimally_valid_email("@b.c"));
    assert!(!is_minimally_valid_email("a@b@c.d"));
    assert!(!is_minimally_valid_email("a@.bc"));
    assert!(!is_minimally_valid_email("a@bc."));
    assert_eq!(none_if_empty(Some(String::new())), None);
    assert_eq!(none_if_empty(Some("x".to_string())), Some("x".to_string()));
}

#[test]
fn patch_refusals_keep_earlier_fields_applied() {
    let root = SigningKey::new(b"root".to_vec());
    let mut p = keydock::domain::BucketPolicy {
        default_ttl_secs: Some(1),
        anonymous_access: Permission::none(),
        secret_key_hash: None,
        read_key_hash: None,
        write_key_hash: None,
        signing_key: None,
        signing_key_generation: 7,
    };
    let patch = UpdatePolicyJson {
        secret_key: Some(Some("s".to_string())),
        read_key: Some(Some(String::new())),
        write_key: None,
        signing_key: None,
        default_ttl: Some(Some(9)),
    };
    assert_eq!(apply_policy_patch(&mut p, patch, &root), Err(ApiError::BadRequest));
    assert!(p.secret_key_hash.is_some());
    assert_eq!(p.default_ttl_secs, Some(1));
    let clear = UpdatePolicyJson { secret_key: None, read_key: None, write_key: None, signing_key: Some(None), default_ttl: None };
    assert_eq!(apply_policy_patch(&mut p, clear, &root), Ok(()));
    assert_eq!(p.signing_key_generation, 7);
}

#[test]
fn list_format_resolution() {
    assert_eq!(resolve_list_format(Some("Jsonl"), Some("application/json")), Ok(ListFormat::Jsonl));
    assert_eq!(resolve_list_format(None, Some("text/html, application/json")), Ok(ListFormat::Json));
    assert_eq!(resolve_list_format(None, Some("application/ndjson")), Ok(ListFormat::Jsonl));
    assert_eq!(resolve_list_format(None, None), Ok(ListFormat::Text));
    assert_eq!(resolve_list_format(Some("csv"), None), Err(ApiError::NotAcceptable));
    assert_eq!(list_content_type(ListFormat::Jsonl), "application/x-ndjson");
    assert_eq!(list_content_type(ListFormat::Text), "text/plain; charset=utf-8");
}

#[test]
fn scoped_prefix_combination() {
    assert_eq!(combine_scoped_prefix(b"user:", None), Some(b"user:".to_vec()));
    assert_eq!(combine_scoped_prefix(b"user:", Some(b"user:42")), Some(b"user:42".to_vec()));
    assert_eq!(combine_scoped_prefix(b"user:", Some(b"us")), Some(b"user:".to_vec()));
    assert_eq!(combine_scoped_prefix(b"user:", Some(b"admin")), None);
}

#[test]
fn text_listing_escapes_line_breaks() {
    assert_eq!(escape_text_segment(b"a\nb\rc"), b"a\\nb\\rc".to_vec());
    let rows = vec![
        ListEntry { key: Key::from_bytes(b"k\n1".to_vec()).unwrap(), value: Some(StoredValue::new(b"v".to_vec(), ValueKind::Utf8).unwrap()) },
        ListEntry { key: Key::from_bytes(b"k2".to_vec()).unwrap(), value: Some(StoredValue::new(vec![0xff], ValueKind::Raw).unwrap()) },
    ];
    assert_eq!(render_list_text(&rows, false).unwrap(), b"k\\n1\nk2".to_vec());
    assert_eq!(render_list_text(&rows, true).unwrap(), "k\\n1=v\nk2=\u{fffd}".as_bytes().to_vec());
    let missing = vec![ListEntry { key: Key::from_bytes(b"k".to_vec()).unwrap(), value: None }];
    assert_eq!(render_list_text(&missing, true), Err(ApiError::InternalError));
    assert_eq!(render_list_text(&[], true).unwrap(), Vec::<u8>::new());
}

#[test]
fn infer_value_kind_cases() {
    assert_eq!(infer_value_kind(b"hello", None), ValueKind::Utf8);
    assert_eq!(infer_value_kind(b"42", None), ValueKind::Int64);
    assert_eq!(infer_value_kind(b"3.14", None), ValueKind::Float64);
    assert_eq!(infer_value_kind(br#"{"a":1}"#, None), ValueKind::Json);
    assert_eq!(infer_value_kind(br#"x"#, Some("application/json")), ValueKind::Json);
    assert_eq!(infer_value_kind(br#"not-json"#, Some("application/json; charset=utf-8")), ValueKind::Json);
    assert_eq!(infer_value_kind(b"true", None), ValueKind::Json);
    assert_eq!(infer_value_kind(b"", None), ValueKind::Utf8);
    assert_eq!(infer_value_kind(b"\xff\xfe", None), ValueKind::Raw);
    assert_eq!(infer_value_kind(b" -7 ", None), ValueKind::Int64);
    assert_eq!(infer_value_kind(b"1e5", None), ValueKind::Float64);
    assert_eq!(infer_value_kind(b"inf", None), ValueKind::Float64);
    assert!(content_type_is_json("Application/JSON"));
    assert!(!content_type_is_json("text/plain"));
}

#[test]
fn expiry_is_range_checked() {
    let sec: i128 = 1_000_000_000;
    assert_eq!(expiry_after(10 * sec + 7, 5), Some(15 * sec + 7));
    assert_eq!(expiry_after(253402300799 * sec, 1), None);
    assert_eq!(expiry_after(253402300798 * sec + 999_999_999, 1), Some(253402300799 * sec + 999_999_999));
    assert_eq!(expiry_after(0, u64::MAX), Some(-sec));
}

#[test]
fn rate_limit_window_counts_down() {
    let (w, d) = decide(None, false, 100, 2);
    assert_eq!(d, RateLimitDecision::Allow { limit: 2, remaining: 1, reset_ts: 3700 });
    let (w, d) = decide(Some(w), false, 101, 2);
    assert_eq!(d, RateLimitDecision::Allow { limit: 2, remaining: 0, reset_ts: 3700 });
    let (w, d) = decide(Some(w), false, 102, 2);
    assert_eq!(d, RateLimitDecision::Deny { limit: 2, reset_ts: 3700 });
    assert_eq!(w.count, 2);
    let (w2, d) = decide(Some(w), true, 4000, 2);
    assert_eq!(d, RateLimitDecision::Allow { limit: 2, remaining: 1, reset_ts: 7600 });
    assert_eq!(w2, RateWindow { count: 1, window_start_unix: 4000 });
    assert_eq!(limiter_tokens(u64::MAX), u32::MAX);
    assert_eq!(limiter_tokens(60), 60);
}

#[test]
fn error_envelope() {
    let b = ApiError::NotFound.body();
    assert_eq!(b.error.code, 404);
    assert_eq!(b.error.message, "not_found");
    assert_eq!(ApiError::RateLimitExceeded.status(), 429);
    assert_eq!(ApiError::ServiceUnavailable.message(), "service_unavailable");
}

#[test]
fn percent_decoding_keeps_malformed_escapes() {
    assert_eq!(percent_decode_bytes(b"%41%2f%zz%4"), b"A/%zz%4".to_vec());
    assert_eq!(percent_decode_bytes(b"a+b%20c%"), b"a+b c%".to_vec());
}
