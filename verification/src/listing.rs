//! Bucket listing: response format negotiation, prefix scoping, and the
//! text, JSON and JSON-lines bodies.
use vstd::prelude::*;
use vstd::utf8::{decode_utf8, valid_utf8};

use crate::domain::{Key, ListEntry, ResolvedIdentity, StoredValue, ValueKind};
use crate::error::ApiError;
use crate::json::{
    append_bytes, decimal_i64, json_byte_array, json_compact, json_string_bytes, spec_decimal_i64,
    spec_json_byte_array, spec_json_compact, spec_json_string, opt_bytes,
};
use crate::text::{
    ascii_lower, bytes_start_with, chars_contain, chars_eq, chars_to_string, contains_seq,
    starts_with, str_chars, sub_bytes, to_ascii_lower, trim, trim_chars, utf8_to_string,
};
use crate::values::{parse_i64, spec_parse_i64};
use crate::words::{
    lit_application_json, lit_application_ndjson, lit_application_x_ndjson, lit_json, lit_jsonl,
    lit_text, lit_text_plain, LIT_APPLICATION_JSON, LIT_APPLICATION_NDJSON,
    LIT_APPLICATION_X_NDJSON, LIT_JSON, LIT_JSONL, LIT_TEXT, LIT_TEXT_PLAIN,
};

verus! {

/// Response format of a listing.
#[derive(Debug, Clone, Copy, PartialEq, Eq, Structural)]
pub enum ListFormat {
    Text,
    Json,
    Jsonl,
}

/// The format: `?format=` (ASCII case-insensitive `text`, `json`, `jsonl`;
/// anything else is `406`) wins over `Accept`, which is searched for JSON,
/// then NDJSON, then plain text; text is the default.
pub open spec fn spec_resolve_list_format(format: Option<Seq<char>>, accept: Option<Seq<char>>) -> Result<
    ListFormat,
    ApiError,
> {
    match format {
        Some(f) => {
            let l = ascii_lower(f);
            if l == LIT_TEXT() {
                Ok(ListFormat::Text)
            } else if l == LIT_JSON() {
                Ok(ListFormat::Json)
            } else if l == LIT_JSONL() {
                Ok(ListFormat::Jsonl)
            } else {
                Err(ApiError::NotAcceptable)
            }
        },
        None => match accept {
            Some(a) => if contains_seq(a, LIT_APPLICATION_JSON()) {
                Ok(ListFormat::Json)
            } else if contains_seq(a, LIT_APPLICATION_X_NDJSON()) || contains_seq(
                a,
                LIT_APPLICATION_NDJSON(),
            ) {
                Ok(ListFormat::Jsonl)
            } else {
                Ok(ListFormat::Text)
            },
            None => Ok(ListFormat::Text),
        },
    }
}

/// `?format=` decides alone whenever it is given, whatever `Accept` says;
/// `Accept` decides only without it, and with neither the listing is text.
pub proof fn lemma_format_parameter_wins(f: Seq<char>, a: Option<Seq<char>>, b: Option<Seq<char>>)
    ensures
        spec_resolve_list_format(Some(f), a) == spec_resolve_list_format(Some(f), b),
        spec_resolve_list_format(None, None) == Ok::<ListFormat, ApiError>(ListFormat::Text),
        ascii_lower(f) == LIT_JSON() ==> spec_resolve_list_format(Some(f), a) == Ok::<ListFormat, ApiError>(
            ListFormat::Json,
        ),
        ascii_lower(f) == LIT_JSONL() ==> spec_resolve_list_format(Some(f), a) == Ok::<ListFormat, ApiError>(
            ListFormat::Jsonl,
        ),
        ascii_lower(f) == LIT_TEXT() ==> spec_resolve_list_format(Some(f), a) == Ok::<ListFormat, ApiError>(
            ListFormat::Text,
        ),
{
    assert(LIT_JSON() != LIT_TEXT()) by {
        assert(LIT_JSON().len() != LIT_TEXT().len() || LIT_JSON()[0] != LIT_TEXT()[0]);
    }
    assert(LIT_JSONL() != LIT_TEXT()) by {
        assert(LIT_JSONL().len() != LIT_TEXT().len());
    }
    assert(LIT_JSONL() != LIT_JSON()) by {
        assert(LIT_JSONL().len() != LIT_JSON().len());
    }
}

pub fn resolve_list_format(format: Option<&str>, accept: Option<&str>) -> (r: Result<ListFormat, ApiError>)
    ensures
        r == spec_resolve_list_format(
            match format {
                Some(f) => Some(f@),
                None => None,
            },
            match accept {
                Some(a) => Some(a@),
                None => None,
            },
        ),
{
    if let Some(f) = format {
        let chars = str_chars(f);
        let l = to_ascii_lower(chars.as_slice());
        if chars_eq(l.as_slice(), lit_text().as_slice()) {
            return Ok(ListFormat::Text);
        }
        if chars_eq(l.as_slice(), lit_json().as_slice()) {
            return Ok(ListFormat::Json);
        }
        if chars_eq(l.as_slice(), lit_jsonl().as_slice()) {
            return Ok(ListFormat::Jsonl);
        }
        return Err(ApiError::NotAcceptable);
    }
    if let Some(a) = accept {
        let chars = str_chars(a);
        if chars_contain(chars.as_slice(), lit_application_json().as_slice()) {
            return Ok(ListFormat::Json);
        }
        if chars_contain(chars.as_slice(), lit_application_x_ndjson().as_slice()) || chars_contain(
            chars.as_slice(),
            lit_application_ndjson().as_slice(),
        ) {
            return Ok(ListFormat::Jsonl);
        }
        if chars_contain(chars.as_slice(), lit_text_plain().as_slice()) {
            return Ok(ListFormat::Text);
        }
    }
    Ok(ListFormat::Text)
}

pub open spec fn spec_list_content_type(f: ListFormat) -> Seq<char> {
    match f {
        ListFormat::Text => "text/plain; charset=utf-8"@,
        ListFormat::Json => "application/json"@,
        ListFormat::Jsonl => "application/x-ndjson"@,
    }
}

/// The `Content-Type` of a listing in format `f`.
pub fn list_content_type(f: ListFormat) -> (r: &'static str)
    ensures
        r@ == spec_list_content_type(f),
{
    match f {
        ListFormat::Text => "text/plain; charset=utf-8",
        ListFormat::Json => "application/json",
        ListFormat::Jsonl => "application/x-ndjson",
    }
}

// ---------------------------------------------------------------- prefixes

/// Intersection of a token's scope prefix with an optional requested prefix:
/// the longer one when one extends the other, `None` when they are incompatible.
pub open spec fn spec_combine_scoped_prefix(scope: Seq<u8>, requested: Option<Seq<u8>>) -> Option<Seq<u8>> {
    match requested {
        None => Some(scope),
        Some(req) => if starts_with(req, scope) {
            Some(req)
        } else if starts_with(scope, req) {
            Some(scope)
        } else {
            None
        },
    }
}

pub fn combine_scoped_prefix(scope: &[u8], requested: Option<&[u8]>) -> (r: Option<Vec<u8>>)
    ensures
        match (r, spec_combine_scoped_prefix(
            scope@,
            match requested {
                Some(q) => Some(q@),
                None => None,
            },
        )) {
            (Some(a), Some(b)) => a@ == b,
            (None, None) => true,
            _ => false,
        },
{
    match requested {
        None => Some(sub_bytes(scope, 0, scope.len())),
        Some(req) => {
            if bytes_start_with(req, scope) {
                Some(sub_bytes(req, 0, req.len()))
            } else if bytes_start_with(scope, req) {
                Some(sub_bytes(scope, 0, scope.len()))
            } else {
                None
            }
        },
    }
}

proof fn lemma_starts_with_trans(a: Seq<u8>, b: Seq<u8>, c: Seq<u8>)
    requires
        starts_with(a, b),
        starts_with(b, c),
    ensures
        starts_with(a, c),
{
    assert(a.subrange(0, c.len() as int) =~= b.subrange(0, c.len() as int));
}

/// A combined prefix keeps the listing inside the token's scope and inside
/// the requested prefix: every key that starts with it starts with both.
pub proof fn lemma_combined_prefix_within_both(scope: Seq<u8>, requested: Seq<u8>, key: Seq<u8>)
    requires
        spec_combine_scoped_prefix(scope, Some(requested)) is Some,
        starts_with(key, spec_combine_scoped_prefix(scope, Some(requested))->0),
    ensures
        starts_with(key, scope),
        starts_with(key, requested),
{
    let p = spec_combine_scoped_prefix(scope, Some(requested))->0;
    if starts_with(requested, scope) {
        lemma_starts_with_trans(key, requested, scope);
    } else {
        lemma_starts_with_trans(key, scope, requested);
    }
}

/// Which prefix a listing uses.
#[derive(Debug, Clone)]
pub enum ListScope {
    /// List with this optional prefix.
    Prefix(Option<Vec<u8>>),
    /// The requested prefix is incompatible with the token's scope: answer an empty listing.
    Empty,
}

/// A scoped identity with a non-empty prefix lists within that scope; any
/// other identity lists with the requested prefix.
pub open spec fn spec_list_scope(identity: ResolvedIdentity, requested: Option<Seq<u8>>) -> Option<Option<Seq<u8>>> {
    match identity {
        ResolvedIdentity::Scoped { key_prefix, .. } if key_prefix@.len() > 0 => match spec_combine_scoped_prefix(
            key_prefix@,
            requested,
        ) {
            Some(p) => Some(Some(p)),
            None => None,
        },
        _ => Some(requested),
    }
}

proof fn lemma_common_prefixes_comparable(k: Seq<u8>, a: Seq<u8>, b: Seq<u8>)
    requires
        starts_with(k, a),
        starts_with(k, b),
    ensures
        starts_with(a, b) || starts_with(b, a),
{
    if b.len() <= a.len() {
        assert(a.subrange(0, b.len() as int) =~= k.subrange(0, b.len() as int));
    } else {
        assert(b.subrange(0, a.len() as int) =~= k.subrange(0, a.len() as int));
    }
}

/// The non-empty key prefix a token is scoped to, if the identity is such a token.
pub open spec fn token_scope(identity: ResolvedIdentity) -> Option<Seq<u8>> {
    match identity {
        ResolvedIdentity::Scoped { key_prefix, .. } => if key_prefix@.len() > 0 {
            Some(key_prefix@)
        } else {
            None
        },
        _ => None,
    }
}

/// What a listing covers, key by key. An identity other than a token with a
/// non-empty prefix lists exactly with the prefix it asks for (every key of
/// the bucket when it asks for none). A token with a non-empty prefix `p`
/// lists with a prefix `q` such that a key starts with `q` exactly when it
/// starts with `p` and with the requested prefix; the listing is empty
/// (no prefix at all) exactly when no key can start with both.
pub proof fn lemma_list_scope_covers_exactly(identity: ResolvedIdentity, requested: Option<Seq<u8>>, key: Seq<u8>)
    ensures
        token_scope(identity) is None ==> spec_list_scope(identity, requested) == Some(requested),
        token_scope(identity) matches Some(p) ==> match spec_list_scope(identity, requested) {
            Some(Some(q)) => (starts_with(key, q) <==> (starts_with(key, p) && (requested matches Some(r)
                ==> starts_with(key, r)))),
            Some(None) => false,
            None => requested matches Some(r) && !(starts_with(key, p) && starts_with(key, r)),
        },
{
    if let ResolvedIdentity::Scoped { key_prefix, .. } = identity {
        if key_prefix@.len() > 0 {
            let p = key_prefix@;
            match requested {
                None => {},
                Some(r) => {
                    if starts_with(r, p) {
                        if starts_with(key, r) {
                            lemma_starts_with_trans(key, r, p);
                        }
                    } else if starts_with(p, r) {
                        if starts_with(key, p) {
                            lemma_starts_with_trans(key, p, r);
                        }
                    } else {
                        if starts_with(key, p) && starts_with(key, r) {
                            lemma_common_prefixes_comparable(key, p, r);
                        }
                    }
                },
            }
        }
    }
}

pub open spec fn list_scope_view(s: ListScope) -> Option<Option<Seq<u8>>> {
    match s {
        ListScope::Prefix(Some(p)) => Some(Some(p@)),
        ListScope::Prefix(None) => Some(None),
        ListScope::Empty => None,
    }
}

pub fn list_scope(identity: &ResolvedIdentity, requested: Option<&[u8]>) -> (r: ListScope)
    ensures
        list_scope_view(r) == spec_list_scope(
            *identity,
            match requested {
                Some(q) => Some(q@),
                None => None,
            },
        ),
{
    match identity {
        ResolvedIdentity::Scoped { key_prefix, .. } => {
            if key_prefix.len() > 0 {
                return match combine_scoped_prefix(key_prefix.as_slice(), requested) {
                    Some(p) => ListScope::Prefix(Some(p)),
                    None => ListScope::Empty,
                };
            }
        },
        _ => {},
    }
    match requested {
        Some(q) => ListScope::Prefix(Some(sub_bytes(q, 0, q.len()))),
        None => ListScope::Prefix(None),
    }
}

// ---------------------------------------------------------------- text rendering

/// The UTF-8 bytes of `String::from_utf8_lossy(b)` (invalid sequences become U+FFFD).
pub uninterp spec fn spec_utf8_lossy(b: Seq<u8>) -> Seq<u8>;

/// Calls `String::from_utf8_lossy` and takes the bytes of the result.
/// Claims: the bytes are `spec_utf8_lossy(b)`, they are well-formed UTF-8
/// (the result is a string), and, as its documentation states, well-formed
/// UTF-8 is returned unchanged.
#[verifier::external_body]
pub(crate) fn utf8_lossy_bytes(b: &[u8]) -> (r: Vec<u8>)
    ensures
        r@ == spec_utf8_lossy(b@),
        valid_utf8(r@),
        valid_utf8(b@) ==> r@ == b@,
{
    String::from_utf8_lossy(b).into_owned().into_bytes()
}

/// Escapes newline as `\n` and carriage return as `\r` (backslash emitted literally).
pub open spec fn spec_escape_text(s: Seq<u8>) -> Seq<u8>
    decreases s.len(),
{
    if s.len() == 0 {
        Seq::empty()
    } else {
        spec_escape_text(s.drop_last()) + if s.last() == 10 {
            seq![92u8, 110u8]
        } else if s.last() == 13 {
            seq![92u8, 114u8]
        } else {
            seq![s.last()]
        }
    }
}

pub fn escape_text_segment(s: &[u8]) -> (r: Vec<u8>)
    ensures
        r@ == spec_escape_text(s@),
{
    let mut out: Vec<u8> = Vec::new();
    let mut i: usize = 0;
    while i < s.len()
        invariant
            i <= s@.len(),
            out@ == spec_escape_text(s@.subrange(0, i as int)),
        decreases s@.len() - i,
    {
        let b = s[i];
        if b == 10 {
            out.push(92);
            out.push(110);
        } else if b == 13 {
            out.push(92);
            out.push(114);
        } else {
            out.push(b);
        }
        i += 1;
        assert(s@.subrange(0, i as int).drop_last() =~= s@.subrange(0, i - 1));
        assert(out@ =~= spec_escape_text(s@.subrange(0, i as int)));
    }
    assert(s@.subrange(0, s@.len() as int) =~= s@);
    out
}

/// A listing row as plain values: the key bytes and the payload, if loaded.
pub open spec fn row_view(e: ListEntry) -> (Seq<u8>, Option<Seq<u8>>) {
    (
        e.key@,
        match e.value {
            Some(v) => Some(v.payload@),
            None => None,
        },
    )
}

/// One text line: the escaped key, and `=` and the escaped value when values are shown.
pub open spec fn text_line(row: (Seq<u8>, Option<Seq<u8>>), include_values: bool) -> Seq<u8> {
    let k = spec_escape_text(spec_utf8_lossy(row.0));
    if include_values {
        k + seq![61u8] + spec_escape_text(spec_utf8_lossy(row.1->0))
    } else {
        k
    }
}

/// The lines of a text listing, separated by `\n`.
pub open spec fn text_lines(rows: Seq<(Seq<u8>, Option<Seq<u8>>)>, include_values: bool) -> Seq<u8>
    decreases rows.len(),
{
    if rows.len() == 0 {
        Seq::empty()
    } else if rows.len() == 1 {
        text_line(rows[0], include_values)
    } else {
        text_lines(rows.drop_last(), include_values) + seq![10u8] + text_line(rows.last(), include_values)
    }
}

/// The text listing, or `500` when values are requested and a row lacks one.
pub open spec fn spec_render_list_text(rows: Seq<(Seq<u8>, Option<Seq<u8>>)>, include_values: bool) -> Result<
    Seq<u8>,
    ApiError,
> {
    if include_values && exists|i: int| 0 <= i < rows.len() && (#[trigger] rows[i]).1 is None {
        Err(ApiError::InternalError)
    } else {
        Ok(text_lines(rows, include_values))
    }
}

pub fn render_list_text(entries: &[ListEntry], include_values: bool) -> (r: Result<Vec<u8>, ApiError>)
    ensures
        match (r, spec_render_list_text(entries@.map_values(|e: ListEntry| row_view(e)), include_values)) {
            (Ok(a), Ok(b)) => a@ == b,
            (Err(a), Err(b)) => a == b,
            _ => false,
        },
{
    let ghost rows = entries@.map_values(|e: ListEntry| row_view(e));
    let mut out: Vec<u8> = Vec::new();
    let mut i: usize = 0;
    while i < entries.len()
        invariant
            i <= entries@.len(),
            rows == entries@.map_values(|e: ListEntry| row_view(e)),
            out@ == text_lines(rows.subrange(0, i as int), include_values),
            include_values ==> forall|j: int| 0 <= j < i ==> (#[trigger] rows[j]).1 is Some,
        decreases entries@.len() - i,
    {
        let row = &entries[i];
        assert(rows[i as int] == row_view(*row));
        if i > 0 {
            out.push(10);
        }
        let key_text = utf8_lossy_bytes(row.key.as_bytes());
        let esc_key = escape_text_segment(key_text.as_slice());
        let mut line = esc_key;
        if include_values {
            match &row.value {
                Some(v) => {
                    let val_text = utf8_lossy_bytes(v.payload.as_slice());
                    let esc_val = escape_text_segment(val_text.as_slice());
                    line.push(61);
                    let mut k: usize = 0;
                    let ghost before = line@;
                    while k < esc_val.len()
                        invariant
                            k <= esc_val@.len(),
                            line@ == before + esc_val@.subrange(0, k as int),
                        decreases esc_val@.len() - k,
                    {
                        line.push(esc_val[k]);
                        k += 1;
                        assert(line@ =~= before + esc_val@.subrange(0, k as int));
                    }
                    assert(esc_val@.subrange(0, esc_val@.len() as int) =~= esc_val@);
                },
                None => {
                    assert(rows[i as int].1 is None);
                    return Err(ApiError::InternalError);
                },
            }
        }
        assert(line@ == text_line(rows[i as int], include_values));
        let ghost before_out = out@;
        let mut k: usize = 0;
        while k < line.len()
            invariant
                k <= line@.len(),
                out@ == before_out + line@.subrange(0, k as int),
            decreases line@.len() - k,
        {
            out.push(line[k]);
            k += 1;
            assert(out@ =~= before_out + line@.subrange(0, k as int));
        }
        assert(line@.subrange(0, line@.len() as int) =~= line@);
        proof {
            let pre = rows.subrange(0, i + 1);
            assert(pre.drop_last() =~= rows.subrange(0, i as int));
            assert(pre.last() == rows[i as int]);
            if i == 0 {
                assert(pre.len() == 1);
                assert(out@ =~= text_line(rows[0], include_values));
            } else {
                assert(out@ =~= text_lines(rows.subrange(0, i as int), include_values) + seq![10u8] + text_line(rows[i as int], include_values));
            }
        }
        i += 1;
    }
    assert(rows.subrange(0, rows.len() as int) =~= rows);
    Ok(out)
}


// ---------------------------------------------------------------- JSON rendering

pub open spec fn same_result(r: Result<Vec<u8>, ApiError>, s: Result<Seq<u8>, ApiError>) -> bool {
    match (r, s) {
        (Ok(a), Ok(b)) => a@ == b,
        (Err(a), Err(b)) => a == b,
        _ => false,
    }
}

pub open spec fn opt_slice(o: Option<&[u8]>) -> Option<Seq<u8>> {
    match o {
        Some(b) => Some(b@),
        None => None,
    }
}

/// A key as a JSON string: its bytes read as UTF-8, invalid sequences
/// replaced by U+FFFD.
pub open spec fn spec_key_json(k: Seq<u8>) -> Seq<u8> {
    spec_json_string(decode_utf8(spec_utf8_lossy(k)))
}

/// The JSON value of a stored value, by its kind:
/// - `Json`: the document, written back compactly (`500` if it does not parse);
/// - `Int64`: the trimmed text read as an integer and written in decimal;
/// - `Float64`: the JSON number made of it by the caller (`None`: `500`);
/// - `Utf8`: the text as a JSON string;
/// - `Raw`: the bytes as an array of numbers.
/// Text that is not UTF-8, or not an integer for `Int64`, is a `500`.
pub open spec fn spec_stored_value_json(payload: Seq<u8>, kind: ValueKind, float_json: Option<Seq<u8>>) -> Result<
    Seq<u8>,
    ApiError,
> {
    match kind {
        ValueKind::Json => match spec_json_compact(payload) {
            Some(b) => Ok(b),
            None => Err(ApiError::InternalError),
        },
        ValueKind::Int64 => if !valid_utf8(payload) {
            Err(ApiError::InternalError)
        } else {
            match spec_parse_i64(trim(decode_utf8(payload))) {
                Some(n) => Ok(spec_decimal_i64(n)),
                None => Err(ApiError::InternalError),
            }
        },
        ValueKind::Float64 => match float_json {
            Some(b) => Ok(b),
            None => Err(ApiError::InternalError),
        },
        ValueKind::Utf8 => if valid_utf8(payload) {
            Ok(spec_json_string(decode_utf8(payload)))
        } else {
            Err(ApiError::InternalError)
        },
        ValueKind::Raw => Ok(spec_json_byte_array(payload)),
    }
}

/// An integer value is shown in JSON as a number that reads back as the
/// integer its trimmed text denotes; a value of a text kind that is not
/// UTF-8 has no JSON form (a `500`); a float is shown as the number the
/// caller made of it, and has no JSON form without one.
pub proof fn lemma_value_json_forms(payload: Seq<u8>, float_json: Option<Seq<u8>>)
    ensures
        valid_utf8(payload) ==> (spec_parse_i64(trim(decode_utf8(payload))) matches Some(n) ==> (
        spec_stored_value_json(payload, ValueKind::Int64, float_json) matches Ok(b) && if n < 0 {
            b[0] == 45u8 && -crate::json::decimal_value(b.drop_first()) == n
        } else {
            b[0] != 45u8 && crate::json::decimal_value(b) == n
        })),
        !valid_utf8(payload) ==> spec_stored_value_json(payload, ValueKind::Int64, float_json) == Err::<
            Seq<u8>,
            ApiError,
        >(ApiError::InternalError) && spec_stored_value_json(payload, ValueKind::Utf8, float_json) == Err::<
            Seq<u8>,
            ApiError,
        >(ApiError::InternalError),
        spec_stored_value_json(payload, ValueKind::Float64, float_json) == match float_json {
            Some(b) => Ok::<Seq<u8>, ApiError>(b),
            None => Err::<Seq<u8>, ApiError>(ApiError::InternalError),
        },
{
    if valid_utf8(payload) {
        if let Some(n) = spec_parse_i64(trim(decode_utf8(payload))) {
            crate::json::lemma_integer_json_reads_back(n);
        }
    }
}

pub fn key_json(k: &Key) -> (r: Vec<u8>)
    ensures
        r@ == spec_key_json(k@),
{
    let text = utf8_lossy_bytes(k.as_bytes());
    match utf8_to_string(text) {
        Some(s) => json_string_bytes(s.as_str()),
        None => Vec::new(),
    }
}

fn slice_to_vec(b: &[u8]) -> (r: Vec<u8>)
    ensures
        r@ == b@,
{
    let mut out: Vec<u8> = Vec::new();
    append_bytes(&mut out, b);
    assert(out@ =~= b@);
    out
}

/// The JSON value of `v`; for a `Float64` value, `float_json` is the JSON
/// number the caller made of its text.
pub fn stored_value_json(v: &StoredValue, float_json: Option<&[u8]>) -> (r: Result<Vec<u8>, ApiError>)
    ensures
        same_result(r, spec_stored_value_json(v.payload@, v.kind, opt_slice(float_json))),
{
    match v.kind {
        ValueKind::Json => match json_compact(v.payload.as_slice()) {
            Some(b) => Ok(b),
            None => Err(ApiError::InternalError),
        },
        ValueKind::Int64 => {
            let copy = slice_to_vec(v.payload.as_slice());
            match utf8_to_string(copy) {
                Some(s) => {
                    let cs = str_chars(s.as_str());
                    let t = trim_chars(cs.as_slice());
                    let ts = chars_to_string(t.as_slice());
                    match parse_i64(ts.as_str()) {
                        Some(n) => Ok(decimal_i64(n)),
                        None => Err(ApiError::InternalError),
                    }
                },
                None => Err(ApiError::InternalError),
            }
        },
        ValueKind::Float64 => match float_json {
            Some(b) => Ok(slice_to_vec(b)),
            None => Err(ApiError::InternalError),
        },
        ValueKind::Utf8 => {
            let copy = slice_to_vec(v.payload.as_slice());
            match utf8_to_string(copy) {
                Some(s) => Ok(json_string_bytes(s.as_str())),
                None => Err(ApiError::InternalError),
            }
        },
        ValueKind::Raw => Ok(json_byte_array(v.payload.as_slice())),
    }
}

/// A listing row as plain values: the key bytes and, if loaded, the payload
/// with its kind.
pub open spec fn row_full(e: ListEntry) -> (Seq<u8>, Option<(Seq<u8>, ValueKind)>) {
    (
        e.key@,
        match e.value {
            Some(v) => Some((v.payload@, v.kind)),
            None => None,
        },
    )
}

/// One row in JSON: the key string, or `[key, value]` when values are shown
/// (`500` when the row has no value or the value has no JSON form).
pub open spec fn spec_row_json(
    row: (Seq<u8>, Option<(Seq<u8>, ValueKind)>),
    include_values: bool,
    float_json: Option<Seq<u8>>,
) -> Result<Seq<u8>, ApiError> {
    if include_values {
        match row.1 {
            None => Err(ApiError::InternalError),
            Some((p, k)) => match spec_stored_value_json(p, k, float_json) {
                Ok(v) => Ok(seq![91u8] + spec_key_json(row.0) + seq![44u8] + v + seq![93u8]),
                Err(e) => Err(e),
            },
        }
    } else {
        Ok(spec_key_json(row.0))
    }
}

pub fn row_json(row: &ListEntry, include_values: bool, float_json: Option<&[u8]>) -> (r: Result<Vec<u8>, ApiError>)
    ensures
        same_result(r, spec_row_json(row_full(*row), include_values, opt_slice(float_json))),
{
    let k = key_json(&row.key);
    if include_values {
        match &row.value {
            None => Err(ApiError::InternalError),
            Some(v) => match stored_value_json(v, float_json) {
                Ok(jv) => {
                    let mut out: Vec<u8> = Vec::new();
                    out.push(91);
                    append_bytes(&mut out, k.as_slice());
                    out.push(44);
                    append_bytes(&mut out, jv.as_slice());
                    out.push(93);
                    assert(out@ =~= seq![91u8] + k@ + seq![44u8] + jv@ + seq![93u8]);
                    Ok(out)
                },
                Err(e) => Err(e),
            },
        }
    } else {
        Ok(k)
    }
}

/// The JSON number made for row `i`, if the caller gave one.
pub open spec fn float_at(float_json: Seq<Option<Vec<u8>>>, i: int) -> Option<Seq<u8>> {
    if 0 <= i < float_json.len() {
        opt_bytes(float_json[i])
    } else {
        None
    }
}

/// The first `n` rows in JSON, joined by `sep_between` (between rows) and
/// followed each by `sep_after`.
pub open spec fn json_rows(
    rows: Seq<(Seq<u8>, Option<(Seq<u8>, ValueKind)>)>,
    include_values: bool,
    float_json: Seq<Option<Vec<u8>>>,
    lines: bool,
    n: nat,
) -> Result<Seq<u8>, ApiError>
    decreases n,
{
    if n == 0 {
        Ok(Seq::empty())
    } else {
        match (
            json_rows(rows, include_values, float_json, lines, (n - 1) as nat),
            spec_row_json(rows[n - 1], include_values, float_at(float_json, n - 1)),
        ) {
            (Ok(a), Ok(b)) => Ok(
                if lines {
                    a + b + seq![10u8]
                } else if n == 1 {
                    b
                } else {
                    a + seq![44u8] + b
                },
            ),
            _ => Err(ApiError::InternalError),
        }
    }
}

/// The JSON listing: an array of the rows.
pub open spec fn spec_render_list_json(
    rows: Seq<(Seq<u8>, Option<(Seq<u8>, ValueKind)>)>,
    include_values: bool,
    float_json: Seq<Option<Vec<u8>>>,
) -> Result<Seq<u8>, ApiError> {
    match json_rows(rows, include_values, float_json, false, rows.len()) {
        Ok(a) => Ok(seq![91u8] + a + seq![93u8]),
        Err(e) => Err(e),
    }
}

/// The JSON-lines listing: each row on a line of its own, ended by `\n`.
pub open spec fn spec_render_list_jsonl(
    rows: Seq<(Seq<u8>, Option<(Seq<u8>, ValueKind)>)>,
    include_values: bool,
    float_json: Seq<Option<Vec<u8>>>,
) -> Result<Seq<u8>, ApiError> {
    json_rows(rows, include_values, float_json, true, rows.len())
}

proof fn lemma_json_rows_err(
    rows: Seq<(Seq<u8>, Option<(Seq<u8>, ValueKind)>)>,
    include_values: bool,
    float_json: Seq<Option<Vec<u8>>>,
    lines: bool,
    i: nat,
    n: nat,
)
    requires
        i <= n,
        json_rows(rows, include_values, float_json, lines, i) is Err,
    ensures
        json_rows(rows, include_values, float_json, lines, n) == Err::<Seq<u8>, ApiError>(
            ApiError::InternalError,
        ),
    decreases n - i,
{
    if i == n {
        if n > 0 {
            assert(json_rows(rows, include_values, float_json, lines, n) is Err);
        }
    } else {
        lemma_json_rows_err(rows, include_values, float_json, lines, i, (n - 1) as nat);
    }
}

fn render_rows(entries: &[ListEntry], include_values: bool, float_json: &[Option<Vec<u8>>], lines: bool) -> (r:
    Result<Vec<u8>, ApiError>)
    ensures
        same_result(
            r,
            json_rows(
                entries@.map_values(|e: ListEntry| row_full(e)),
                include_values,
                float_json@,
                lines,
                entries@.len(),
            ),
        ),
{
    let ghost rows = entries@.map_values(|e: ListEntry| row_full(e));
    let mut out: Vec<u8> = Vec::new();
    let mut i: usize = 0;
    while i < entries.len()
        invariant
            i <= entries@.len(),
            rows == entries@.map_values(|e: ListEntry| row_full(e)),
            json_rows(rows, include_values, float_json@, lines, i as nat) == Ok::<Seq<u8>, ApiError>(out@),
        decreases entries@.len() - i,
    {
        let row = &entries[i];
        assert(rows[i as int] == row_full(*row));
        let fj: Option<&[u8]> = if i < float_json.len() {
            match &float_json[i] {
                Some(b) => Some(b.as_slice()),
                None => None,
            }
        } else {
            None
        };
        assert(opt_slice(fj) == float_at(float_json@, i as int));
        match row_json(row, include_values, fj) {
            Ok(line) => {
                let ghost before = out@;
                if lines {
                    append_bytes(&mut out, line.as_slice());
                    out.push(10);
                } else {
                    if i > 0 {
                        out.push(44);
                    }
                    append_bytes(&mut out, line.as_slice());
                }
                proof {
                    if lines {
                        assert(out@ =~= before + line@ + seq![10u8]);
                    } else if i == 0 {
                        assert(out@ =~= line@);
                    } else {
                        assert(out@ =~= before + seq![44u8] + line@);
                    }
                    assert(json_rows(rows, include_values, float_json@, lines, (i + 1) as nat) == Ok::<
                        Seq<u8>,
                        ApiError,
                    >(out@));
                }
            },
            Err(_) => {
                proof {
                    assert(json_rows(rows, include_values, float_json@, lines, (i + 1) as nat) is Err);
                    lemma_json_rows_err(
                        rows,
                        include_values,
                        float_json@,
                        lines,
                        (i + 1) as nat,
                        entries@.len() as nat,
                    );
                }
                return Err(ApiError::InternalError);
            },
        }
        i += 1;
    }
    Ok(out)
}

/// The JSON listing body; `float_json[i]` is the JSON number the caller made
/// of row `i`'s value where that value is a `Float64`.
pub fn render_list_json(entries: &[ListEntry], include_values: bool, float_json: &[Option<Vec<u8>>]) -> (r:
    Result<Vec<u8>, ApiError>)
    ensures
        same_result(
            r,
            spec_render_list_json(entries@.map_values(|e: ListEntry| row_full(e)), include_values, float_json@),
        ),
{
    match render_rows(entries, include_values, float_json, false) {
        Ok(items) => {
            let mut out: Vec<u8> = Vec::new();
            out.push(91);
            append_bytes(&mut out, items.as_slice());
            out.push(93);
            assert(out@ =~= seq![91u8] + items@ + seq![93u8]);
            Ok(out)
        },
        Err(e) => Err(e),
    }
}

/// The JSON-lines listing body, with `float_json` as for [`render_list_json`].
pub fn render_list_jsonl(entries: &[ListEntry], include_values: bool, float_json: &[Option<Vec<u8>>]) -> (r:
    Result<Vec<u8>, ApiError>)
    ensures
        same_result(
            r,
            spec_render_list_jsonl(entries@.map_values(|e: ListEntry| row_full(e)), include_values, float_json@),
        ),
{
    render_rows(entries, include_values, float_json, true)
}

/// The listing body in the chosen format.
pub fn render_list_body(fmt: ListFormat, entries: &[ListEntry], include_values: bool, float_json: &[Option<Vec<u8>>]) -> (r:
    Result<Vec<u8>, ApiError>)
    ensures
        same_result(
            r,
            match fmt {
                ListFormat::Text => spec_render_list_text(entries@.map_values(|e: ListEntry| row_view(e)), include_values),
                ListFormat::Json => spec_render_list_json(
                    entries@.map_values(|e: ListEntry| row_full(e)),
                    include_values,
                    float_json@,
                ),
                ListFormat::Jsonl => spec_render_list_jsonl(
                    entries@.map_values(|e: ListEntry| row_full(e)),
                    include_values,
                    float_json@,
                ),
            },
        ),
{
    match fmt {
        ListFormat::Text => render_list_text(entries, include_values),
        ListFormat::Json => render_list_json(entries, include_values, float_json),
        ListFormat::Jsonl => render_list_jsonl(entries, include_values, float_json),
    }
}

} // verus!
