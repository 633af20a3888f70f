use keydock::domain::{Key, ListEntry, StoredValue, ValueKind};
use keydock::error::ApiError;
use keydock::openapi::api_doc_path;
use keydock::listing::{key_json, render_list_body, render_list_json, render_list_jsonl, stored_value_json, ListFormat};

fn entry(key: &[u8], payload: &[u8], kind: ValueKind) -> ListEntry {
    ListEntry { key: Key::from_bytes(key.to_vec()).unwrap(), value: Some(StoredValue::new(payload.to_vec(), kind).unwrap()) }
}

fn float_text(x: f64) -> Vec<u8> {
    serde_json::to_vec(&serde_json::Value::Number(serde_json::Number::from_f64(x).unwrap())).unwrap()
}

#[test]
fn json_listing_of_keys_only() {
    let rows = vec![entry(b"a", b"1", ValueKind::Int64), entry(b"q\"x", b"v", ValueKind::Utf8)];
    assert_eq!(render_list_json(&rows, false, &[]).unwrap(), br#"["a","q\"x"]"#.to_vec());
    assert_eq!(render_list_json(&[], false, &[]).unwrap(), b"[]".to_vec());
    assert_eq!(render_list_jsonl(&rows, false, &[]).unwrap(), b"\"a\"\n\"q\\\"x\"\n".to_vec());
    assert_eq!(render_list_jsonl(&[], true, &[]).unwrap(), Vec::<u8>::new());
}

#[test]
fn json_listing_with_values_of_each_kind() {
    let rows = vec![
        entry(b"j", br#"{ "b": 1, "a": [true, null] }"#, ValueKind::Json),
        entry(b"i", b" +007 ", ValueKind::Int64),
        entry(b"n", b"-9223372036854775808", ValueKind::Int64),
        entry(b"f", b"2.50", ValueKind::Float64),
        entry(b"s", "h\u{e9}\n".as_bytes(), ValueKind::Utf8),
        entry(b"r", &[0, 10, 255], ValueKind::Raw),
    ];
    let floats = vec![None, None, None, Some(float_text(2.5)), None, None];
    let body = render_list_json(&rows, true, &floats).unwrap();
    assert_eq!(
        String::from_utf8(body).unwrap(),
        "[[\"j\",{\"a\":[true,null],\"b\":1}],[\"i\",7],[\"n\",-9223372036854775808],[\"f\",2.5],[\"s\",\"h\u{e9}\\n\"],[\"r\",[0,10,255]]]"
    );
    let lines = render_list_jsonl(&rows[..2], true, &floats).unwrap();
    assert_eq!(String::from_utf8(lines).unwrap(), "[\"j\",{\"a\":[true,null],\"b\":1}]\n[\"i\",7]\n");
}

#[test]
fn json_listing_errors_are_internal() {
    let missing = vec![ListEntry { key: Key::from_bytes(b"k".to_vec()).unwrap(), value: None }];
    assert_eq!(render_list_json(&missing, true, &[]), Err(ApiError::InternalError));
    let bad_json = vec![entry(b"k", b"{", ValueKind::Json)];
    assert_eq!(render_list_jsonl(&bad_json, true, &[]), Err(ApiError::InternalError));
    let bad_int = vec![entry(b"k", b"12x", ValueKind::Int64)];
    assert_eq!(render_list_json(&bad_int, true, &[]), Err(ApiError::InternalError));
    let float_without_number = vec![entry(b"k", b"1.5", ValueKind::Float64)];
    assert_eq!(render_list_json(&float_without_number, true, &[]), Err(ApiError::InternalError));
    let bad_text = vec![entry(b"k", &[0xff], ValueKind::Utf8)];
    assert_eq!(render_list_json(&bad_text, true, &[]), Err(ApiError::InternalError));
}

#[test]
fn json_value_and_key_pieces() {
    let v = StoredValue::new(b"[ 1 ,2 ]".to_vec(), ValueKind::Json).unwrap();
    assert_eq!(stored_value_json(&v, None).unwrap(), b"[1,2]".to_vec());
    let r = StoredValue::new(Vec::new(), ValueKind::Raw).unwrap();
    assert_eq!(stored_value_json(&r, None).unwrap(), b"[]".to_vec());
    assert_eq!(key_json(&Key::from_bytes(vec![b'a', 0xff]).unwrap()), "\"a\u{fffd}\"".as_bytes().to_vec());
}

#[test]
fn listing_body_follows_format() {
    let rows = vec![entry(b"k", b"v", ValueKind::Utf8)];
    assert_eq!(render_list_body(ListFormat::Text, &rows, true, &[]).unwrap(), b"k=v".to_vec());
    assert_eq!(render_list_body(ListFormat::Json, &rows, true, &[]).unwrap(), br#"[["k","v"]]"#.to_vec());
    assert_eq!(render_list_body(ListFormat::Jsonl, &rows, false, &[]).unwrap(), b"\"k\"\n".to_vec());
}

#[test]
fn documented_paths_are_placed_under_the_api_prefix() {
    assert_eq!(api_doc_path("/health"), "/health");
    assert_eq!(api_doc_path("/ready"), "/ready");
    assert_eq!(api_doc_path("/"), "/api/v1");
    assert_eq!(api_doc_path("/{bucket}/{key}"), "/api/v1/{bucket}/{key}");
    assert_eq!(api_doc_path("/healthz"), "/api/v1/healthz");
}
