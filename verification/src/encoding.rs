//! Base64 and percent-decoding of wire text.
use vstd::prelude::*;

use base64::Engine;

verus! {

/// Unpadded URL-safe base64 (`base64::engine::general_purpose::URL_SAFE_NO_PAD`) of `data`.
pub uninterp spec fn b64url_encode(data: Seq<u8>) -> Seq<u8>;

/// Decoding of `text` with `URL_SAFE_NO_PAD`; `None` when the engine rejects it.
pub uninterp spec fn b64url_decode(text: Seq<u8>) -> Option<Seq<u8>>;

/// Padded standard base64 (`base64::engine::general_purpose::STANDARD`) of `data`.
pub uninterp spec fn b64std_encode(data: Seq<u8>) -> Seq<u8>;

/// Decoding of `text` with `STANDARD`; `None` when the engine rejects it.
pub uninterp spec fn b64std_decode(text: Seq<u8>) -> Option<Seq<u8>>;

/// A character of the URL-safe base64 alphabet.
pub open spec fn is_b64url_byte(b: u8) -> bool {
    (65u8 <= b && b <= 90u8) || (97u8 <= b && b <= 122u8) || (48u8 <= b && b <= 57u8) || b == 45u8
        || b == 95u8
}

/// Calls `URL_SAFE_NO_PAD.encode` and takes the bytes of the resulting string.
/// Claims: the text is `b64url_encode(data)`, uses only the URL-safe alphabet
/// (no padding), and decodes back to `data` with the same engine. `encode`
/// panics only when the encoded length overflows `usize`, which `requires` rules out.
#[verifier::external_body]
pub(crate) fn b64url_encode_bytes(data: &[u8]) -> (r: Vec<u8>)
    requires
        data@.len() <= usize::MAX / 2,
    ensures
        r@ == b64url_encode(data@),
        b64url_decode(r@) == Some(data@),
        forall|i: int| 0 <= i < r@.len() ==> is_b64url_byte(#[trigger] r@[i]),
{
    base64::engine::general_purpose::URL_SAFE_NO_PAD.encode(data).into_bytes()
}

/// Calls `URL_SAFE_NO_PAD.decode`. Claims: the result is `b64url_decode(text)`,
/// with any `DecodeError` mapped to `None`.
#[verifier::external_body]
pub(crate) fn b64url_decode_bytes(text: &[u8]) -> (r: Option<Vec<u8>>)
    ensures
        r matches Some(v) ==> b64url_decode(text@) == Some(v@),
        r is None ==> b64url_decode(text@) is None,
{
    base64::engine::general_purpose::URL_SAFE_NO_PAD.decode(text).ok()
}

/// A character of the standard base64 alphabet, or its padding `=`.
pub open spec fn is_b64std_byte(b: u8) -> bool {
    (65u8 <= b && b <= 90u8) || (97u8 <= b && b <= 122u8) || (48u8 <= b && b <= 57u8) || b == 43u8
        || b == 47u8 || b == 61u8
}

/// Calls `STANDARD.encode` and takes the bytes of the resulting string.
/// Claims: the text is `b64std_encode(data)`, uses only the standard alphabet
/// and `=` padding, and decodes back to `data` with `STANDARD`; `requires`
/// rules out the length overflow on which `encode` panics.
#[verifier::external_body]
pub(crate) fn b64std_encode_bytes(data: &[u8]) -> (r: Vec<u8>)
    requires
        data@.len() <= usize::MAX / 2,
    ensures
        r@ == b64std_encode(data@),
        b64std_decode(r@) == Some(data@),
        forall|i: int| 0 <= i < r@.len() ==> is_b64std_byte(#[trigger] r@[i]),
{
    base64::engine::general_purpose::STANDARD.encode(data).into_bytes()
}

/// Calls `STANDARD.decode`. Claims: the result is `b64std_decode(text)`,
/// with any `DecodeError` mapped to `None`.
#[verifier::external_body]
pub(crate) fn b64std_decode_bytes(text: &[u8]) -> (r: Option<Vec<u8>>)
    ensures
        r matches Some(v) ==> b64std_decode(text@) == Some(v@),
        r is None ==> b64std_decode(text@) is None,
{
    base64::engine::general_purpose::STANDARD.decode(text).ok()
}

/// Value of an ASCII hexadecimal digit (`char::to_digit(16)`), if it is one.
pub open spec fn hex_value(b: u8) -> Option<u8> {
    if 48u8 <= b && b <= 57u8 {
        Some((b - 48u8) as u8)
    } else if 97u8 <= b && b <= 102u8 {
        Some((b - 97u8 + 10) as u8)
    } else if 65u8 <= b && b <= 70u8 {
        Some((b - 65u8 + 10) as u8)
    } else {
        None
    }
}

/// Percent-decoding (WHATWG URL "percent-decode"): every `%` followed by two
/// hexadecimal digits becomes the byte they denote; every other byte, a lone
/// `%` included, is kept.
pub open spec fn percent_decode(s: Seq<u8>) -> Seq<u8>
    decreases s.len(),
{
    if s.len() == 0 {
        Seq::empty()
    } else if s[0] == 37u8 && s.len() >= 3 && hex_value(s[1]) is Some && hex_value(s[2]) is Some {
        seq![(hex_value(s[1])->0 * 16 + hex_value(s[2])->0) as u8] + percent_decode(
            s.subrange(3, s.len() as int),
        )
    } else {
        seq![s[0]] + percent_decode(s.drop_first())
    }
}

fn hex_value_of(b: u8) -> (r: Option<u8>)
    ensures
        r == hex_value(b),
        r matches Some(v) ==> v < 16,
{
    if 48u8 <= b && b <= 57u8 {
        Some(b - 48u8)
    } else if 97u8 <= b && b <= 102u8 {
        Some(b - 97u8 + 10)
    } else if 65u8 <= b && b <= 70u8 {
        Some(b - 65u8 + 10)
    } else {
        None
    }
}

/// Percent-decodes `input` (what `percent_encoding::percent_decode` does).
pub fn percent_decode_bytes(input: &[u8]) -> (r: Vec<u8>)
    ensures
        r@ == percent_decode(input@),
{
    let n = input.len();
    let mut out: Vec<u8> = Vec::new();
    let mut i: usize = 0;
    assert(input@.subrange(0, n as int) =~= input@);
    assert(out@ + percent_decode(input@) =~= percent_decode(input@));
    while i < n
        invariant
            i <= n == input@.len(),
            out@ + percent_decode(input@.subrange(i as int, n as int)) == percent_decode(input@),
        decreases n - i,
    {
        let ghost rest = input@.subrange(i as int, n as int);
        let ghost before = out@;
        let b = input[i];
        let mut pair: Option<u8> = None;
        if b == 37 && n - i >= 3 {
            let hi = hex_value_of(input[i + 1]);
            let lo = hex_value_of(input[i + 2]);
            match (hi, lo) {
                (Some(h), Some(l)) => {
                    pair = Some(h * 16 + l);
                },
                _ => {},
            }
        }
        match pair {
            Some(v) => {
                out.push(v);
                proof {
                    assert(rest[0] == b && rest[1] == input@[i + 1] && rest[2] == input@[i + 2]);
                    assert(rest.subrange(3, rest.len() as int) =~= input@.subrange(i + 3, n as int));
                    assert(percent_decode(rest) == seq![v] + percent_decode(input@.subrange(i + 3, n as int)));
                    assert(out@ + percent_decode(input@.subrange(i + 3, n as int)) =~= before + percent_decode(rest));
                }
                i += 3;
            },
            None => {
                out.push(b);
                proof {
                    assert(rest[0] == b);
                    assert(rest.len() >= 3 ==> rest[1] == input@[i + 1] && rest[2] == input@[i + 2]);
                    assert(rest.drop_first() =~= input@.subrange(i + 1, n as int));
                    assert(percent_decode(rest) == seq![b] + percent_decode(input@.subrange(i + 1, n as int)));
                    assert(out@ + percent_decode(input@.subrange(i + 1, n as int)) =~= before + percent_decode(rest));
                }
                i += 1;
            },
        }
    }
    assert(out@ + percent_decode(input@.subrange(n as int, n as int)) =~= out@);
    out
}

} // verus!
