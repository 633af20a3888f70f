//! Value kind inference for written payloads, and expiry computation.
use vstd::prelude::*;
use vstd::utf8::{decode_utf8, valid_utf8};

use crate::domain::{MAX_UNIX_NANOS, MIN_UNIX_NANOS, NANOS_PER_SECOND, ValueKind};
use crate::text::{
    ascii_lower, chars_contain, chars_eq, chars_to_string, contains_seq, index_of,
    lemma_index_of_bounds, str_chars, sub_chars, to_ascii_lower, trim, trim_chars, utf8_to_string,
    find_char,
};
use crate::words::{lit_application_json, LIT_APPLICATION_JSON};

verus! {

// ---------------------------------------------------------------- integers

pub open spec fn is_digit(c: char) -> bool {
    '0' <= c && c <= '9'
}

pub open spec fn all_digits(s: Seq<char>) -> bool {
    forall|i: int| 0 <= i < s.len() ==> is_digit(#[trigger] s[i])
}

/// Decimal value of a digit string.
pub open spec fn digits_value(s: Seq<char>) -> int
    decreases s.len(),
{
    if s.len() == 0 {
        0
    } else {
        digits_value(s.drop_last()) * 10 + (s.last() as int - '0' as int)
    }
}

/// `str::parse::<i64>`: an optional `+` or `-`, then at least one ASCII
/// digit, with the value in range.
pub open spec fn spec_parse_i64(s: Seq<char>) -> Option<i64> {
    let signed = s.len() > 0 && (s[0] == '-' || s[0] == '+');
    let neg = s.len() > 0 && s[0] == '-';
    let d = if signed {
        s.drop_first()
    } else {
        s
    };
    let v = if neg {
        -digits_value(d)
    } else {
        digits_value(d)
    };
    if d.len() > 0 && all_digits(d) && i64::MIN <= v && v <= i64::MAX {
        Some(v as i64)
    } else {
        None
    }
}

/// Calls `str::parse::<i64>` and keeps the value. Claims: the result is
/// `spec_parse_i64(s)`, the grammar and range that `i64::from_str` documents.
#[verifier::external_body]
pub(crate) fn parse_i64(s: &str) -> (r: Option<i64>)
    ensures
        r == spec_parse_i64(s@),
{
    s.parse::<i64>().ok()
}

// ---------------------------------------------------------------- floats

/// Digits, optionally around one `.`, with at least one digit.
pub open spec fn is_mantissa(m: Seq<char>) -> bool {
    let d = index_of(m, '.');
    if d >= m.len() {
        m.len() > 0 && all_digits(m)
    } else {
        let a = m.subrange(0, d);
        let b = m.subrange(d + 1, m.len() as int);
        all_digits(a) && all_digits(b) && (a.len() > 0 || b.len() > 0)
    }
}

/// An optional sign, then at least one digit.
pub open spec fn is_exponent(x: Seq<char>) -> bool {
    let y = if x.len() > 0 && (x[0] == '+' || x[0] == '-') {
        x.drop_first()
    } else {
        x
    };
    y.len() > 0 && all_digits(y)
}

/// `Number ::= ( Digit+ | Digit+ '.' Digit* | Digit* '.' Digit+ ) Exp?`, `Exp ::= 'e' Sign? Digit+`.
pub open spec fn is_float_number(u: Seq<char>) -> bool {
    let e = index_of(u, 'e');
    if e >= u.len() {
        is_mantissa(u)
    } else {
        is_mantissa(u.subrange(0, e)) && is_exponent(u.subrange(e + 1, u.len() as int))
    }
}

pub open spec fn INF() -> Seq<char> {
    seq!['i', 'n', 'f']
}

pub open spec fn INFINITY() -> Seq<char> {
    seq!['i', 'n', 'f', 'i', 'n', 'i', 't', 'y']
}

pub open spec fn NAN() -> Seq<char> {
    seq!['n', 'a', 'n']
}

/// What `f64::from_str` accepts: once lowercased,
/// `Sign? ( 'inf' | 'infinity' | 'nan' | Number )` (the grammar of its documentation).
pub open spec fn is_float_literal(s: Seq<char>) -> bool {
    let t = ascii_lower(s);
    let u = if t.len() > 0 && (t[0] == '+' || t[0] == '-') {
        t.drop_first()
    } else {
        t
    };
    u == INF() || u == INFINITY() || u == NAN() || is_float_number(u)
}

fn all_digits_exec(v: &[char]) -> (r: bool)
    ensures
        r == all_digits(v@),
{
    let mut i: usize = 0;
    while i < v.len()
        invariant
            i <= v@.len(),
            forall|j: int| 0 <= j < i ==> is_digit(#[trigger] v@[j]),
        decreases v@.len() - i,
    {
        if !('0' <= v[i] && v[i] <= '9') {
            return false;
        }
        i += 1;
    }
    true
}

fn is_mantissa_exec(m: &[char]) -> (r: bool)
    ensures
        r == is_mantissa(m@),
{
    let d = find_char(m, '.');
    proof {
        lemma_index_of_bounds(m@, '.');
    }
    if d == m.len() {
        m.len() > 0 && all_digits_exec(m)
    } else {
        let a = sub_chars(m, 0, d);
        let b = sub_chars(m, d + 1, m.len());
        all_digits_exec(a.as_slice()) && all_digits_exec(b.as_slice()) && (a.len() > 0 || b.len()
            > 0)
    }
}

fn is_exponent_exec(x: &[char]) -> (r: bool)
    ensures
        r == is_exponent(x@),
{
    let y = if x.len() > 0 && (x[0] == '+' || x[0] == '-') {
        sub_chars(x, 1, x.len())
    } else {
        sub_chars(x, 0, x.len())
    };
    assert(x@.subrange(0, x@.len() as int) =~= x@);
    assert(x@.len() > 0 ==> x@.subrange(1, x@.len() as int) =~= x@.drop_first());
    y.len() > 0 && all_digits_exec(y.as_slice())
}

fn is_float_number_exec(u: &[char]) -> (r: bool)
    ensures
        r == is_float_number(u@),
{
    let e = find_char(u, 'e');
    proof {
        lemma_index_of_bounds(u@, 'e');
    }
    if e == u.len() {
        is_mantissa_exec(u)
    } else {
        let m = sub_chars(u, 0, e);
        let x = sub_chars(u, e + 1, u.len());
        is_mantissa_exec(m.as_slice()) && is_exponent_exec(x.as_slice())
    }
}

/// Whether `f64::from_str` would accept `s`.
pub fn is_float_literal_exec(s: &[char]) -> (r: bool)
    ensures
        r == is_float_literal(s@),
{
    let t = to_ascii_lower(s);
    let u = if t.len() > 0 && (t[0] == '+' || t[0] == '-') {
        sub_chars(t.as_slice(), 1, t.len())
    } else {
        sub_chars(t.as_slice(), 0, t.len())
    };
    assert(t@.subrange(0, t@.len() as int) =~= t@);
    assert(t@.len() > 0 ==> t@.subrange(1, t@.len() as int) =~= t@.drop_first());
    let inf = vec!['i', 'n', 'f'];
    let infinity = vec!['i', 'n', 'f', 'i', 'n', 'i', 't', 'y'];
    let nan = vec!['n', 'a', 'n'];
    assert(inf@ =~= INF());
    assert(infinity@ =~= INFINITY());
    assert(nan@ =~= NAN());
    chars_eq(u.as_slice(), inf.as_slice()) || chars_eq(u.as_slice(), infinity.as_slice())
        || chars_eq(u.as_slice(), nan.as_slice()) || is_float_number_exec(u.as_slice())
}

// ---------------------------------------------------------------- JSON

/// Whether `serde_json::from_str::<serde_json::Value>` accepts `s` (a
/// function of the text alone).
pub uninterp spec fn spec_is_json_text(s: Seq<char>) -> bool;

/// Calls `serde_json::from_str::<serde_json::Value>` and keeps only whether it
/// succeeded. Claims: the answer is `spec_is_json_text(s)`.
#[verifier::external_body]
pub(crate) fn is_json_text(s: &str) -> (r: bool)
    ensures
        r == spec_is_json_text(s@),
{
    serde_json::from_str::<serde_json::Value>(s).is_ok()
}

// ---------------------------------------------------------------- inference

/// A `Content-Type` that names JSON (ASCII case-insensitive).
pub open spec fn spec_content_type_is_json(ct: Seq<char>) -> bool {
    contains_seq(ascii_lower(ct), LIT_APPLICATION_JSON())
}

pub fn content_type_is_json(ct: &str) -> (r: bool)
    ensures
        r == spec_content_type_is_json(ct@),
{
    let chars = str_chars(ct);
    let lower = to_ascii_lower(chars.as_slice());
    let needle = lit_application_json();
    chars_contain(lower.as_slice(), needle.as_slice())
}

/// The kind a written payload is stored with: JSON when the content type
/// says so; otherwise, for UTF-8 text, by the trimmed text: an `i64`, else a
/// float literal, else any JSON text, else plain text; raw bytes otherwise.
pub open spec fn spec_infer_value_kind(body: Seq<u8>, content_type: Option<Seq<char>>) -> ValueKind {
    if content_type is Some && spec_content_type_is_json(content_type->0) {
        ValueKind::Json
    } else if valid_utf8(body) {
        let t = trim(decode_utf8(body));
        if spec_parse_i64(t) is Some {
            ValueKind::Int64
        } else if is_float_literal(t) {
            ValueKind::Float64
        } else if spec_is_json_text(t) {
            ValueKind::Json
        } else {
            ValueKind::Utf8
        }
    } else {
        ValueKind::Raw
    }
}

/// How a write's kind is chosen: a JSON content type always makes it JSON;
/// without one, bytes that are not UTF-8 are raw, and text whose trimmed
/// form is an `i64` is an integer; text that is neither a number nor JSON
/// is plain text.
pub proof fn lemma_value_kind_choice(body: Seq<u8>, content_type: Option<Seq<char>>)
    ensures
        content_type matches Some(ct) && spec_content_type_is_json(ct) ==> spec_infer_value_kind(body, content_type)
            == ValueKind::Json,
        !(content_type matches Some(ct) && spec_content_type_is_json(ct)) ==> {
            &&& !valid_utf8(body) ==> spec_infer_value_kind(body, content_type) == ValueKind::Raw
            &&& valid_utf8(body) && spec_parse_i64(trim(decode_utf8(body))) is Some ==> spec_infer_value_kind(
                body,
                content_type,
            ) == ValueKind::Int64
            &&& valid_utf8(body) && spec_parse_i64(trim(decode_utf8(body))) is None && !is_float_literal(
                trim(decode_utf8(body)),
            ) && !spec_is_json_text(trim(decode_utf8(body))) ==> spec_infer_value_kind(body, content_type)
                == ValueKind::Utf8
        },
{
}

pub open spec fn opt_text(o: Option<&str>) -> Option<Seq<char>> {
    match o {
        Some(s) => Some(s@),
        None => None,
    }
}

pub fn infer_value_kind(body: &[u8], content_type: Option<&str>) -> (r: ValueKind)
    ensures
        r == spec_infer_value_kind(body@, opt_text(content_type)),
{
    if let Some(ct) = content_type {
        if content_type_is_json(ct) {
            return ValueKind::Json;
        }
    }
    let copy = crate::text::sub_bytes(body, 0, body.len());
    assert(body@.subrange(0, body@.len() as int) =~= body@);
    match utf8_to_string(copy) {
        Some(s) => {
            let chars = str_chars(s.as_str());
            let t = trim_chars(chars.as_slice());
            let ts = chars_to_string(t.as_slice());
            if parse_i64(ts.as_str()).is_some() {
                return ValueKind::Int64;
            }
            if is_float_literal_exec(t.as_slice()) {
                return ValueKind::Float64;
            }
            if is_json_text(ts.as_str()) {
                return ValueKind::Json;
            }
            ValueKind::Utf8
        },
        None => ValueKind::Raw,
    }
}

// ---------------------------------------------------------------- expiry

/// The expiry `secs` seconds after the instant `now` (in nanoseconds), when
/// it is representable. The seconds are taken as a signed count
/// (`secs as i64`), as a `time::Duration::seconds(secs as i64)` offset would be.
pub open spec fn spec_expiry(now: i128, secs: u64) -> Option<i128> {
    let e = now + (secs as i64) * NANOS_PER_SECOND;
    if MIN_UNIX_NANOS <= e && e <= MAX_UNIX_NANOS {
        Some(e as i128)
    } else {
        None
    }
}

pub fn expiry_after(now: i128, secs: u64) -> (r: Option<i128>)
    ensures
        r == spec_expiry(now, secs),
{
    let delta = secs as i64;
    assert(-9223372036854775808 * 1000000000 <= delta * 1000000000 <= 9223372036854775807 * 1000000000) by (nonlinear_arith)
        requires
            -9223372036854775808 <= delta <= 9223372036854775807,
    ;
    let d: i128 = delta as i128 * NANOS_PER_SECOND;
    match now.checked_add(d) {
        Some(e) => if MIN_UNIX_NANOS <= e && e <= MAX_UNIX_NANOS {
            Some(e)
        } else {
            None
        },
        None => None,
    }
}

} // verus!
