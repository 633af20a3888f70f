//! Request builders used to set up buckets, tokens and policy patches.
use vstd::prelude::*;
use vstd::string::StringSliceAdditionalSpecFns;
use vstd::utf8::{decode_utf8, encode_utf8, valid_utf8};

use crate::credential::{
    all_visible_ascii, lemma_ascii_valid_utf8, lemma_basic_header_yields_user, spec_basic_username,
    spec_extract, spec_from_authorization, trim_bytes, trim_end_bytes, trim_start_bytes,
    CredentialView,
};
use crate::json::append_bytes;
use crate::encoding::{b64std_decode, b64std_encode, b64std_encode_bytes, is_b64std_byte};
use crate::policy::UpdatePolicyJson;
use crate::text::{index_of, lemma_index_of_bounds, split_once, starts_with, utf8_to_string};
use crate::words::{lit_basic, LIT_BASIC};

verus! {

/// Form payload for bucket creation.
#[derive(Clone, Debug)]
pub struct BucketSetup {
    pub email: String,
    pub secret_key: Option<String>,
    pub read_key: Option<String>,
    pub write_key: Option<String>,
    pub signing_key: Option<String>,
    pub default_ttl: Option<u64>,
}

pub open spec fn DEFAULT_EMAIL() -> Seq<char> {
    "o@example.com"@
}

/// The setup has the default e-mail and the given credentials, no TTL.
pub open spec fn setup_is(
    s: BucketSetup,
    secret: Option<Seq<char>>,
    read: Option<Seq<char>>,
    write: Option<Seq<char>>,
    signing: Option<Seq<char>>,
) -> bool {
    &&& s.email@ == DEFAULT_EMAIL()
    &&& crate::policy::opt_string(s.secret_key) == secret
    &&& crate::policy::opt_string(s.read_key) == read
    &&& crate::policy::opt_string(s.write_key) == write
    &&& crate::policy::opt_string(s.signing_key) == signing
    &&& s.default_ttl is None
}

impl BucketSetup {
    fn base() -> (r: BucketSetup)
        ensures
            setup_is(r, None, None, None, None),
    {
        BucketSetup {
            email: "o@example.com".to_owned(),
            secret_key: None,
            read_key: None,
            write_key: None,
            signing_key: None,
            default_ttl: None,
        }
    }

    /// Public bucket: no static credentials.
    pub fn public() -> (r: BucketSetup)
        ensures
            setup_is(r, None, None, None, None),
    {
        Self::base()
    }

    /// Admin via `secret_key` only.
    pub fn admin(secret: String) -> (r: BucketSetup)
        ensures
            setup_is(r, Some(secret@), None, None, None),
    {
        BucketSetup { secret_key: Some(secret), ..Self::base() }
    }

    /// Read-only static key.
    pub fn read_only(read: String) -> (r: BucketSetup)
        ensures
            setup_is(r, None, Some(read@), None, None),
    {
        BucketSetup { read_key: Some(read), ..Self::base() }
    }

    /// Write-only static key.
    pub fn write_only(write: String) -> (r: BucketSetup)
        ensures
            setup_is(r, None, None, Some(write@), None),
    {
        BucketSetup { write_key: Some(write), ..Self::base() }
    }

    /// Read + write static keys.
    pub fn restricted(read: String, write: String) -> (r: BucketSetup)
        ensures
            setup_is(r, None, Some(read@), Some(write@), None),
    {
        BucketSetup { read_key: Some(read), write_key: Some(write), ..Self::base() }
    }

    /// Secret + signing key.
    pub fn signed(secret: String, signing: String) -> (r: BucketSetup)
        ensures
            setup_is(r, Some(secret@), None, None, Some(signing@)),
    {
        BucketSetup { secret_key: Some(secret), signing_key: Some(signing), ..Self::base() }
    }

    /// Signing key only; anonymous data-plane access stays public.
    pub fn signing_only(signing: String) -> (r: BucketSetup)
        ensures
            setup_is(r, None, None, None, Some(signing@)),
    {
        BucketSetup { signing_key: Some(signing), ..Self::base() }
    }
}

/// Form payload for minting a temporary token.
#[derive(Clone, Debug)]
pub struct TokenSetup {
    pub prefix: String,
    pub permissions: String,
    /// Seconds from now; must be strictly positive for a successful mint.
    pub ttl: i64,
}

impl TokenSetup {
    /// Read permission scoped to `prefix` with the given TTL (seconds).
    pub fn read(prefix: String, ttl: i64) -> (r: TokenSetup)
        ensures
            r.prefix@ == prefix@,
            r.permissions@ == "read"@,
            r.ttl == ttl,
    {
        TokenSetup { prefix, permissions: "read".to_owned(), ttl }
    }
}

/// A policy patch request; each field is absent, `null` (`Some(None)`) or a value.
pub type PolicyPatch = UpdatePolicyJson;

impl UpdatePolicyJson {
    /// Rotate the signing key only.
    pub fn rotate_signing_key(signing_key: String) -> (r: UpdatePolicyJson)
        ensures
            r.signing_key matches Some(Some(k)) && k@ == signing_key@,
            r.secret_key is None && r.read_key is None && r.write_key is None && r.default_ttl is None,
    {
        UpdatePolicyJson { signing_key: Some(Some(signing_key)), ..UpdatePolicyJson::empty() }
    }

    /// Clear the signing key.
    pub fn clear_signing_key() -> (r: UpdatePolicyJson)
        ensures
            r.signing_key == Some(None::<String>),
            r.secret_key is None && r.read_key is None && r.write_key is None && r.default_ttl is None,
    {
        UpdatePolicyJson { signing_key: Some(None), ..UpdatePolicyJson::empty() }
    }

    /// Clear the read key.
    pub fn clear_read_key() -> (r: UpdatePolicyJson)
        ensures
            r.read_key == Some(None::<String>),
            r.secret_key is None && r.signing_key is None && r.write_key is None && r.default_ttl is None,
    {
        UpdatePolicyJson { read_key: Some(None), ..UpdatePolicyJson::empty() }
    }

    /// Clear the write key.
    pub fn clear_write_key() -> (r: UpdatePolicyJson)
        ensures
            r.write_key == Some(None::<String>),
            r.secret_key is None && r.signing_key is None && r.read_key is None && r.default_ttl is None,
    {
        UpdatePolicyJson { write_key: Some(None), ..UpdatePolicyJson::empty() }
    }
}

/// The password that [`basic_auth_header`] sends: `ignored`.
pub open spec fn IGNORED_PASSWORD() -> Seq<char> {
    seq!['i', 'g', 'n', 'o', 'r', 'e', 'd']
}

/// The bytes of a Basic `Authorization` value for `credential` with password `ignored`.
pub open spec fn spec_basic_auth_header(credential: Seq<char>) -> Seq<u8> {
    spec_basic_authorization(credential, IGNORED_PASSWORD())
}

/// Builds an `Authorization: Basic ...` value for `credential` (password
/// `ignored`). Extraction gives the credential back whenever it is a
/// non-empty text without `:`.
pub fn basic_auth_header(credential: &str) -> (r: String)
    requires
        credential.spec_bytes().len() <= usize::MAX / 8,
    ensures
        encode_utf8(r@) == spec_basic_auth_header(credential@),
        credential@.len() > 0 && index_of(credential@, ':') == credential@.len() ==> spec_from_authorization(
            encode_utf8(r@),
        ) == Some(CredentialView::Basic(credential@)),
{
    let password = "ignored";
    proof {
        reveal_strlit("ignored");
        assert(password@ =~= IGNORED_PASSWORD());
        assert(vstd::utf8::is_ascii_chars(password@));
        vstd::utf8::is_ascii_chars_encode_utf8(password@);
    }
    let r = basic_authorization(credential, password);
    proof {
        if credential@.len() > 0 && index_of(credential@, ':') == credential@.len() {
            assert(spec_extract(Some(encode_utf8(r@)), None) == Some(CredentialView::Basic(credential@)));
        }
    }
    r
}

proof fn lemma_no_ws_trim(e: Seq<u8>)
    requires
        forall|i: int| 0 <= i < e.len() ==> is_b64std_byte(#[trigger] e[i]),
    ensures
        trim_bytes(e) == e,
{
    if e.len() > 0 {
        assert(!crate::credential::is_ws_byte(e[0]));
        assert(!crate::credential::is_ws_byte(e.last()));
    }
}

proof fn lemma_decode_concat(a: Seq<u8>, b: Seq<u8>)
    requires
        valid_utf8(a),
        valid_utf8(b),
    ensures
        valid_utf8(a + b),
        decode_utf8(a + b) == decode_utf8(a) + decode_utf8(b),
    decreases a.len(),
{
    let ab = a + b;
    if a.len() == 0 {
        assert(ab =~= b);
        assert(decode_utf8(a) =~= Seq::<char>::empty());
        assert(decode_utf8(a) + decode_utf8(b) =~= decode_utf8(b));
    } else {
        let n = vstd::utf8::length_of_first_scalar(a);
        assert(n <= a.len());
        assert(forall|i: int| 0 <= i < a.len() ==> ab[i] == #[trigger] a[i]);
        assert(vstd::utf8::valid_first_scalar(ab));
        assert(vstd::utf8::length_of_first_scalar(ab) == n);
        assert(vstd::utf8::decode_first_scalar(ab) == vstd::utf8::decode_first_scalar(a));
        lemma_decode_concat(vstd::utf8::pop_first_scalar(a), b);
        assert(vstd::utf8::pop_first_scalar(ab) =~= vstd::utf8::pop_first_scalar(a) + b);
        assert(decode_utf8(ab) =~= decode_utf8(a) + decode_utf8(b));
    }
}

/// The bytes of `Authorization: Basic` for `user:password`.
pub open spec fn spec_basic_authorization(user: Seq<char>, password: Seq<char>) -> Seq<u8> {
    LIT_BASIC() + b64std_encode(encode_utf8(user) + seq![58u8] + encode_utf8(password))
}

proof fn lemma_decode_colon()
    ensures
        valid_utf8(seq![58u8]),
        decode_utf8(seq![58u8]) == seq![':'],
{
    let b = seq![58u8];
    assert(forall|i: int| 0 <= i < b.len() ==> #[trigger] b[i] < 128);
    lemma_ascii_valid_utf8(b);
    assert(58u8 & 0x7Fu8 == 58u8) by (bit_vector);
    assert(vstd::utf8::decode_first_scalar(b) == 58u32);
    assert(vstd::utf8::pop_first_scalar(b) =~= Seq::<u8>::empty());
    assert(decode_utf8(Seq::<u8>::empty()) =~= Seq::<char>::empty());
    assert(decode_utf8(b) =~= seq![':']);
}

/// Builds an `Authorization: Basic` value from `user` and `password` with
/// the standard base64 alphabet. Extraction gives `user` back whenever it is
/// a non-empty text without `:`, whatever the query string holds.
pub fn basic_authorization(user: &str, password: &str) -> (r: String)
    requires
        user.spec_bytes().len() + password.spec_bytes().len() < usize::MAX / 4,
    ensures
        encode_utf8(r@) == spec_basic_authorization(user@, password@),
        user@.len() > 0 && index_of(user@, ':') == user@.len() ==> forall|q: Option<Seq<char>>|
            #[trigger] spec_extract(Some(encode_utf8(r@)), q) == Some(CredentialView::Basic(user@)),
{
    let mut pair: Vec<u8> = Vec::new();
    append_bytes(&mut pair, user.as_bytes());
    pair.push(58);
    append_bytes(&mut pair, password.as_bytes());
    let ghost ub = encode_utf8(user@);
    let ghost pb = encode_utf8(password@);
    assert(pair@ =~= ub + seq![58u8] + pb);
    let encoded = b64std_encode_bytes(pair.as_slice());
    let mut out = lit_basic();
    append_bytes(&mut out, encoded.as_slice());
    let ghost h = out@;
    proof {
        assert forall|i: int| 0 <= i < h.len() implies #[trigger] h[i] < 128 by {
            if i >= 6 {
                assert(h[i] == encoded@[i - 6]);
            }
        }
        lemma_ascii_valid_utf8(h);
    }
    let r = match utf8_to_string(out) {
        Some(s) => s,
        None => String::new(),
    };
    proof {
        vstd::utf8::decode_utf8_encode_utf8(h);
        assert(encode_utf8(r@) == h);
        if user@.len() > 0 && index_of(user@, ':') == user@.len() {
            let e = encoded@;
            assert(h =~= LIT_BASIC() + e);
            assert(all_visible_ascii(LIT_BASIC() + e)) by {
                assert forall|i: int| 0 <= i < h.len() implies crate::credential::is_visible_ascii(
                    #[trigger] h[i],
                ) by {
                    if i >= 6 {
                        assert(h[i] == e[i - 6]);
                    } else {
                        assert(h[i] == LIT_BASIC()[i]);
                    }
                }
            }
            lemma_no_ws_trim(e);
            vstd::utf8::encode_utf8_valid_utf8(user@);
            vstd::utf8::encode_utf8_valid_utf8(password@);
            vstd::utf8::encode_utf8_decode_utf8(user@);
            vstd::utf8::encode_utf8_decode_utf8(password@);
            lemma_decode_colon();
            lemma_decode_concat(ub, seq![58u8]);
            lemma_decode_concat(ub + seq![58u8], pb);
            assert(decode_utf8(pair@) == user@ + seq![':'] + password@);
            assert forall|q: Option<Seq<char>>| #[trigger] spec_extract(Some(encode_utf8(r@)), q)
                == Some(CredentialView::Basic(user@)) by {
                lemma_basic_header_yields_user(e, pair@, user@, password@, q);
            }
        }
    }
    r
}

} // verus!
