//! HMAC-SHA256 signed temporary bucket tokens: `base64url(payload).base64url(sig)`.
use vstd::prelude::*;
use vstd::utf8::{decode_utf8, encode_utf8};

use crate::claims::{claims_json, decode_claims, encode_claims, parse_claims, ClaimsView};
use crate::credential::lemma_ascii_valid_utf8;
use crate::crypto::{eq_bytes, hmac_sha256, spec_hmac_sha256};
use crate::domain::{BucketId, BucketPolicy, SigningKey, TemporaryTokenClaims};
use crate::encoding::{b64url_decode, b64url_decode_bytes, b64url_encode, b64url_encode_bytes, is_b64url_byte};
use crate::error::TokenError;
use crate::text::{index_of, lemma_index_of_bytes, sub_bytes, find_byte, utf8_to_string};

verus! {

/// The `.` between the two halves of a token.
pub open spec fn token_dot() -> u8 {
    46u8
}

/// Whether claims are small enough to be written into a token.
pub open spec fn claims_fit(c: ClaimsView) -> bool {
    encode_utf8(c.bucket).len() + c.allowed_prefix.len() <= usize::MAX / 16
}

/// The token for claims `c` signed with `key`.
pub open spec fn token_text(c: ClaimsView, key: Seq<u8>) -> Seq<u8> {
    b64url_encode(claims_json(c)) + seq![token_dot()] + b64url_encode(
        spec_hmac_sha256(key, claims_json(c)),
    )
}

/// What verifying token text `raw` gives, for a bucket whose signing key is
/// `signing_key` at generation `generation`, asked for `bucket` at instant `now` (nanoseconds since the unix epoch):
/// the text splits at its first `.`, both halves must be base64url, the
/// signature must be the HMAC of the payload under the key, the payload must
/// be well-formed claims, and those must be unexpired and for this bucket and
/// key generation, checked in that order.
pub open spec fn spec_verify(
    raw: Seq<u8>,
    signing_key: Option<Seq<u8>>,
    generation: u64,
    bucket: Seq<char>,
    now: i128,
) -> Result<ClaimsView, TokenError> {
    match signing_key {
        None => Err(TokenError::NoSigningKey),
        Some(key) => {
            let dot = index_of(raw, token_dot());
            if dot >= raw.len() {
                Err(TokenError::InvalidFormat)
            } else {
                let payload = b64url_decode(raw.subrange(0, dot));
                let sig = b64url_decode(raw.subrange(dot + 1, raw.len() as int));
                if payload is None || sig is None {
                    Err(TokenError::InvalidFormat)
                } else if spec_hmac_sha256(key, payload->0) != sig->0 {
                    Err(TokenError::InvalidSignature)
                } else {
                    match decode_claims(payload->0) {
                        None => Err(TokenError::InvalidFormat),
                        Some(c) => {
                            if c.exp <= now {
                                Err(TokenError::Expired)
                            } else if c.bucket != bucket {
                                Err(TokenError::BucketMismatch)
                            } else if c.bucket_generation != generation {
                                Err(TokenError::GenerationMismatch)
                            } else {
                                Ok(c)
                            }
                        },
                    }
                }
            }
        },
    }
}

/// The signing key of a policy, as plain bytes.
pub open spec fn policy_signing_key(policy: &BucketPolicy) -> Option<Seq<u8>> {
    match policy.signing_key {
        Some(k) => Some(k@),
        None => None,
    }
}

/// Signs the claims with the bucket `signing_key`. Format: `base64url(payload).base64url(sig)`.
///
/// Fails with `Serialize` only when the claims are too large to be written.
/// The token it returns verifies, under the same key, to the same claims
/// whenever they are unexpired and name the bucket and key generation asked for.
pub fn mint(claims: &TemporaryTokenClaims, signing_key: &SigningKey) -> (r: Result<
    String,
    TokenError,
>)
    ensures
        r is Ok <==> claims_fit(claims@),
        r matches Err(e) ==> e == TokenError::Serialize,
        r matches Ok(t) ==> encode_utf8(t@) == token_text(claims@, signing_key@),
        r matches Ok(t) ==> forall|generation: u64, bucket: Seq<char>, now: i128|
            #[trigger] spec_verify(encode_utf8(t@), Some(signing_key@), generation, bucket, now) == (
            if claims@.exp <= now {
                Err(TokenError::Expired)
            } else if claims@.bucket != bucket {
                Err(TokenError::BucketMismatch)
            } else if claims@.bucket_generation != generation {
                Err(TokenError::GenerationMismatch)
            } else {
                Ok(claims@)
            }),
{
    let bucket_len = claims.bucket.as_str().as_bytes().len();
    let prefix_len = claims.allowed_prefix.len();
    if bucket_len > usize::MAX / 16 || prefix_len > usize::MAX / 16 - bucket_len {
        return Err(TokenError::Serialize);
    }
    let json = encode_claims(claims);
    let sig = hmac_sha256(signing_key.expose_secret(), json.as_slice());
    let mut token = b64url_encode_bytes(json.as_slice());
    let ghost payload_b64 = token@;
    let sig_b64 = b64url_encode_bytes(sig.as_slice());
    token.push(46u8);
    token.extend_from_slice(sig_b64.as_slice());
    let ghost key = signing_key@;
    let ghost c = claims@;
    proof {
        let t = token@;
        assert(t =~= token_text(c, key));
        assert forall|i: int| 0 <= i < t.len() implies #[trigger] t[i] < 128 by {
            if i < payload_b64.len() {
                assert(is_b64url_byte(payload_b64[i]));
            } else if i > payload_b64.len() {
                assert(t[i] == sig_b64@[i - payload_b64.len() - 1]);
                assert(is_b64url_byte(sig_b64@[i - payload_b64.len() - 1]));
            }
        }
        lemma_ascii_valid_utf8(t);
        vstd::utf8::decode_utf8_encode_utf8(t);
        assert forall|i: int| 0 <= i < payload_b64.len() implies #[trigger] t[i] != 46u8 by {
            assert(is_b64url_byte(payload_b64[i]));
        }
        lemma_index_of_bytes(t, 46u8, payload_b64.len() as int);
        assert(t.subrange(0, payload_b64.len() as int) =~= payload_b64);
        assert(t.subrange((payload_b64.len() + 1) as int, t.len() as int) =~= sig_b64@);
        crate::claims::lemma_decode_claims_json(c);
    }
    match utf8_to_string(token) {
        Some(s) => Ok(s),
        None => Err(TokenError::Serialize),
    }
}

/// Verifies token signature and claims against the policy's signing key and
/// generation, for `bucket` at instant `now` (nanoseconds since the unix epoch).
pub fn verify(raw: &str, policy: &BucketPolicy, bucket: &BucketId, now: i128) -> (r: Result<
    TemporaryTokenClaims,
    TokenError,
>)
    ensures
        r matches Ok(c) ==> spec_verify(encode_utf8(raw@), policy_signing_key(policy), policy.signing_key_generation, bucket@, now) == Ok::<ClaimsView, TokenError>(c@),
        r matches Err(e) ==> spec_verify(encode_utf8(raw@), policy_signing_key(policy), policy.signing_key_generation, bucket@, now) == Err::<ClaimsView, TokenError>(e),
{
    let signing_key = match &policy.signing_key {
        Some(k) => k,
        None => {
            return Err(TokenError::NoSigningKey);
        },
    };
    let bytes = raw.as_bytes();
    let dot = find_byte(bytes, 46u8);
    proof {
        crate::text::lemma_index_of_bounds(bytes@, 46u8);
    }
    if dot == bytes.len() {
        return Err(TokenError::InvalidFormat);
    }
    let payload_b64 = sub_bytes(bytes, 0, dot);
    let sig_b64 = sub_bytes(bytes, dot + 1, bytes.len());
    let json = match b64url_decode_bytes(payload_b64.as_slice()) {
        Some(j) => j,
        None => {
            return Err(TokenError::InvalidFormat);
        },
    };
    let expected_sig = match b64url_decode_bytes(sig_b64.as_slice()) {
        Some(s) => s,
        None => {
            return Err(TokenError::InvalidFormat);
        },
    };
    let computed = hmac_sha256(signing_key.expose_secret(), json.as_slice());
    if computed.len() != expected_sig.len() || !eq_bytes(computed.as_slice(), expected_sig.as_slice()) {
        return Err(TokenError::InvalidSignature);
    }
    let claims = match parse_claims(json.as_slice()) {
        Some(c) => c,
        None => {
            return Err(TokenError::InvalidFormat);
        },
    };
    if claims.exp <= now {
        return Err(TokenError::Expired);
    }
    if !claims.bucket.same_as(bucket) {
        return Err(TokenError::BucketMismatch);
    }
    if claims.bucket_generation != policy.signing_key_generation {
        return Err(TokenError::GenerationMismatch);
    }
    Ok(claims)
}

/// Only signed tokens verify: when a token text verifies to claims `c`, its
/// second half is the HMAC of its first half under the key, and that first
/// half is the payload text of `c`, unexpired and for the bucket and key
/// generation asked for.
pub proof fn lemma_verified_token_is_signed(
    raw: Seq<u8>,
    key: Seq<u8>,
    generation: u64,
    bucket: Seq<char>,
    now: i128,
    c: ClaimsView,
)
    requires
        spec_verify(raw, Some(key), generation, bucket, now) == Ok::<ClaimsView, TokenError>(c),
    ensures
        ({
            let dot = index_of(raw, token_dot());
            &&& 0 <= dot < raw.len()
            &&& b64url_decode(raw.subrange(0, dot)) == Some(claims_json(c))
            &&& b64url_decode(raw.subrange(dot + 1, raw.len() as int)) == Some(
                spec_hmac_sha256(key, claims_json(c)),
            )
            &&& now < c.exp
            &&& c.bucket == bucket
            &&& c.bucket_generation == generation
        }),
{
    let dot = index_of(raw, token_dot());
    crate::text::lemma_index_of_bounds(raw, token_dot());
    let payload = b64url_decode(raw.subrange(0, dot))->0;
    assert(decode_claims(payload) == Some(c));
    let v = choose|v: ClaimsView| v.bucket.len() > 0 && #[trigger] claims_json(v) == payload;
    assert(claims_json(v) == payload);
}

} // verus!
