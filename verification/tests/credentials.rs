use base64::Engine;
use keydock::credential::{extract, RawCredential};
use keydock::fixtures::{basic_auth_header, basic_authorization};

fn header(value: &str) -> Vec<u8> {
    value.as_bytes().to_vec()
}

#[test]
fn extract_bearer() {
    let h = header("Bearer secret-token");
    let c = extract(Some(h.as_slice()), Some("access_token=ignored")).expect("credential");
    assert_eq!(c.as_str(), "secret-token");
}

#[test]
fn extract_bearer_priority_over_query() {
    let h = header("Bearer from-header");
    let c = extract(Some(h.as_slice()), Some("access_token=from-query")).expect("credential");
    assert_eq!(c.as_str(), "from-header");
}

#[test]
fn extract_basic_username() {
    let encoded = base64::engine::general_purpose::STANDARD.encode(b"alice:secret");
    let h = header(&format!("Basic {encoded}"));
    let c = extract(Some(h.as_slice()), None).expect("credential");
    assert_eq!(c.as_str(), "alice");
}

#[test]
fn extract_missing_returns_none() {
    assert_eq!(extract(None, None).is_none(), true);
    assert_eq!(extract(None, Some("other=1")).is_none(), true);
}

#[test]
fn extract_query_access_token() {
    let c = extract(None, Some("access_token=qp-token")).expect("credential");
    assert_eq!(c.as_str(), "qp-token");
}

#[test]
fn extract_query_key_alias() {
    let c = extract(None, Some("key=key-alias")).expect("credential");
    assert_eq!(c.as_str(), "key-alias");
}

#[test]
fn extract_query_access_token_wins_over_key() {
    let c = extract(None, Some("key=first&access_token=second")).expect("credential");
    assert_eq!(c.as_str(), "second");
}

#[test]
fn extract_query_percent_encoded() {
    let c = extract(None, Some("access_token=hello%20world")).expect("credential");
    assert_eq!(c.as_str(), "hello world");
}

#[test]
fn extract_kinds_are_reported() {
    let h = header("Bearer t");
    assert!(matches!(extract(Some(h.as_slice()), None), Some(RawCredential::Bearer(_))));
    assert!(matches!(extract(None, Some("key=k")), Some(RawCredential::QueryParam(_))));
}

#[test]
fn extract_empty_bearer_falls_back_to_query() {
    let h = header("Bearer   ");
    let c = extract(Some(h.as_slice()), Some("access_token=q")).expect("credential");
    assert_eq!(c.as_str(), "q");
}

#[test]
fn basic_auth_header_round_trips_through_extract() {
    let v = basic_auth_header("reader");
    assert_eq!(v, format!("Basic {}", base64::engine::general_purpose::STANDARD.encode(b"reader:ignored")));
    let c = extract(Some(v.as_bytes()), None).expect("credential");
    assert!(matches!(c, RawCredential::Basic(_)));
    assert_eq!(c.as_str(), "reader");
}

#[test]
fn basic_authorization_yields_user_whatever_the_query() {
    let h = basic_authorization("alice", "pw:with:colons");
    assert_eq!(h, "Basic YWxpY2U6cHc6d2l0aDpjb2xvbnM=");
    for q in [None, Some("access_token=tok"), Some("key=other")] {
        let c = extract(Some(h.as_bytes()), q).expect("credential");
        assert!(matches!(c, RawCredential::Basic(_)));
        assert_eq!(c.as_str(), "alice");
    }
}
