//! Credential extraction from the `Authorization` header value and the query string
//! (parsing only; no resolution).
use vstd::prelude::*;
use vstd::string::StringSliceAdditionalSpecFns;
use vstd::utf8::{decode_utf8, encode_utf8, valid_utf8};

use crate::encoding::{b64std_decode, b64std_decode_bytes, percent_decode, percent_decode_bytes};
use crate::text::{
    bytes_start_with, chars_eq, chars_to_string, split_chars, split_on, split_once,
    split_once_chars, starts_with, str_chars, sub_bytes, sub_chars, trim, trim_chars,
    utf8_to_string, views,
};
use crate::words::{
    lit_access_token, lit_basic, lit_bearer, lit_key, LIT_ACCESS_TOKEN, LIT_BASIC, LIT_BEARER,
    LIT_KEY,
};

verus! {

/// Raw credential material extracted from the wire (never logged).
#[derive(Clone)]
pub enum RawCredential {
    Bearer(String),
    Basic(String),
    QueryParam(String),
}

/// What a [`RawCredential`] holds: its source and its text.
pub enum CredentialView {
    Bearer(Seq<char>),
    Basic(Seq<char>),
    QueryParam(Seq<char>),
}

impl View for RawCredential {
    type V = CredentialView;

    open spec fn view(&self) -> CredentialView {
        match self {
            RawCredential::Bearer(s) => CredentialView::Bearer(s@),
            RawCredential::Basic(s) => CredentialView::Basic(s@),
            RawCredential::QueryParam(s) => CredentialView::QueryParam(s@),
        }
    }
}

/// The credential text, whatever its source.
pub open spec fn credential_text(c: CredentialView) -> Seq<char> {
    match c {
        CredentialView::Bearer(s) => s,
        CredentialView::Basic(s) => s,
        CredentialView::QueryParam(s) => s,
    }
}

impl RawCredential {
    pub fn as_str(&self) -> (r: &str)
        ensures
            r@ == credential_text(self@),
    {
        match self {
            RawCredential::Bearer(s) => s.as_str(),
            RawCredential::Basic(s) => s.as_str(),
            RawCredential::QueryParam(s) => s.as_str(),
        }
    }
}

// ---------------------------------------------------------------- header bytes

/// What `http::HeaderValue::to_str` accepts: visible ASCII and tab.
pub open spec fn is_visible_ascii(b: u8) -> bool {
    (32 <= b && b < 127) || b == 9
}

pub open spec fn all_visible_ascii(s: Seq<u8>) -> bool {
    forall|i: int| 0 <= i < s.len() ==> is_visible_ascii(#[trigger] s[i])
}

/// ASCII whitespace (`char::is_whitespace` restricted to ASCII).
pub open spec fn is_ws_byte(b: u8) -> bool {
    (9 <= b && b <= 13) || b == 32
}

pub open spec fn trim_start_bytes(s: Seq<u8>) -> Seq<u8>
    decreases s.len(),
{
    if s.len() > 0 && is_ws_byte(s[0]) {
        trim_start_bytes(s.drop_first())
    } else {
        s
    }
}

pub open spec fn trim_end_bytes(s: Seq<u8>) -> Seq<u8>
    decreases s.len(),
{
    if s.len() > 0 && is_ws_byte(s.last()) {
        trim_end_bytes(s.drop_last())
    } else {
        s
    }
}

/// `str::trim` of an ASCII text, over its bytes.
pub open spec fn trim_bytes(s: Seq<u8>) -> Seq<u8> {
    trim_end_bytes(trim_start_bytes(s))
}

proof fn lemma_trim_start_bytes_skip(s: Seq<u8>, i: int)
    requires
        0 <= i <= s.len(),
        forall|j: int| 0 <= j < i ==> is_ws_byte(#[trigger] s[j]),
    ensures
        trim_start_bytes(s) == trim_start_bytes(s.subrange(i, s.len() as int)),
    decreases i,
{
    if i > 0 {
        assert(s.drop_first() =~= s.subrange(1, s.len() as int));
        lemma_trim_start_bytes_skip(s.drop_first(), i - 1);
        assert(s.drop_first().subrange(i - 1, s.drop_first().len() as int) =~= s.subrange(
            i,
            s.len() as int,
        ));
    } else {
        assert(s.subrange(0, s.len() as int) =~= s);
    }
}

proof fn lemma_trim_end_bytes_skip(s: Seq<u8>, j: int)
    requires
        0 <= j <= s.len(),
        forall|k: int| j <= k < s.len() ==> is_ws_byte(#[trigger] s[k]),
    ensures
        trim_end_bytes(s) == trim_end_bytes(s.subrange(0, j)),
    decreases s.len() - j,
{
    if j < s.len() {
        assert(s.drop_last() =~= s.subrange(0, s.len() - 1));
        lemma_trim_end_bytes_skip(s.drop_last(), j);
        assert(s.drop_last().subrange(0, j) =~= s.subrange(0, j));
    } else {
        assert(s.subrange(0, j) =~= s);
    }
}

fn is_ws_byte_exec(b: u8) -> (r: bool)
    ensures
        r == is_ws_byte(b),
{
    (9 <= b && b <= 13) || b == 32
}

/// Trims ASCII whitespace from `v[from..]`.
fn trim_bytes_from(v: &[u8], from: usize) -> (r: Vec<u8>)
    requires
        from <= v@.len(),
    ensures
        r@ == trim_bytes(v@.subrange(from as int, v@.len() as int)),
{
    let n = v.len();
    let s = Ghost(v@.subrange(from as int, n as int));
    let mut i: usize = from;
    while i < n && is_ws_byte_exec(v[i])
        invariant
            from <= i <= n == v@.len(),
            s@ == v@.subrange(from as int, n as int),
            forall|j: int| from <= j < i ==> is_ws_byte(#[trigger] v@[j]),
        decreases n - i,
    {
        i += 1;
    }
    proof {
        assert forall|j: int| 0 <= j < i - from implies is_ws_byte(#[trigger] s@[j]) by {
            assert(s@[j] == v@[j + from]);
        }
        lemma_trim_start_bytes_skip(s@, i - from);
        assert(s@.subrange(i - from, s@.len() as int) =~= v@.subrange(i as int, n as int));
        assert(trim_start_bytes(v@.subrange(i as int, n as int)) == v@.subrange(i as int, n as int));
    }
    let mut j: usize = n;
    while j > i && is_ws_byte_exec(v[j - 1])
        invariant
            i <= j <= n == v@.len(),
            forall|k: int| j <= k < n ==> is_ws_byte(#[trigger] v@[k]),
        decreases j,
    {
        j -= 1;
    }
    proof {
        let t = v@.subrange(i as int, n as int);
        assert forall|k: int| j - i <= k < t.len() implies is_ws_byte(#[trigger] t[k]) by {
            assert(t[k] == v@[k + i]);
        }
        lemma_trim_end_bytes_skip(t, j - i);
        assert(t.subrange(0, j - i) =~= v@.subrange(i as int, j as int));
    }
    sub_bytes(v, i, j)
}

/// ASCII bytes are well-formed UTF-8.
pub proof fn lemma_ascii_valid_utf8(s: Seq<u8>)
    requires
        forall|i: int| 0 <= i < s.len() ==> #[trigger] s[i] < 128,
    ensures
        valid_utf8(s),
    decreases s.len(),
{
    if s.len() > 0 {
        assert(s.drop_first() =~= s.subrange(1, s.len() as int));
        lemma_ascii_valid_utf8(s.drop_first());
    }
}

/// The user part of a decoded Basic `user:password` pair (the whole text
/// when there is no `:`), when it is not empty.
pub open spec fn spec_basic_username(decoded: Seq<char>) -> Option<Seq<char>> {
    let user = match split_once(decoded, ':') {
        Some((u, _)) => u,
        None => decoded,
    };
    if user.len() == 0 {
        None
    } else {
        Some(user)
    }
}

/// The credential carried by an `Authorization` value, if any: a non-empty
/// Bearer token, else the non-empty user name of a Basic pair.
pub open spec fn spec_from_authorization(a: Seq<u8>) -> Option<CredentialView> {
    if !all_visible_ascii(a) {
        None
    } else {
        let bearer = trim_bytes(a.subrange(7, a.len() as int));
        let basic = trim_bytes(a.subrange(6, a.len() as int));
        if starts_with(a, LIT_BEARER()) && bearer.len() > 0 {
            Some(CredentialView::Bearer(decode_utf8(bearer)))
        } else if starts_with(a, LIT_BASIC()) && b64std_decode(basic) is Some && valid_utf8(
            b64std_decode(basic)->0,
        ) && spec_basic_username(decode_utf8(b64std_decode(basic)->0)) is Some {
            Some(
                CredentialView::Basic(
                    spec_basic_username(decode_utf8(b64std_decode(basic)->0))->0,
                ),
            )
        } else {
            None
        }
    }
}

fn basic_username_credential(decoded: &[char]) -> (r: Option<Vec<char>>)
    ensures
        match (r, spec_basic_username(decoded@)) {
            (Some(a), Some(b)) => a@ == b,
            (None, None) => true,
            _ => false,
        },
{
    let user = match split_once_chars(decoded, ':') {
        Some((u, _)) => u,
        None => sub_chars(decoded, 0, decoded.len()),
    };
    assert(decoded@.subrange(0, decoded@.len() as int) =~= decoded@);
    if user.len() == 0 {
        None
    } else {
        Some(user)
    }
}

fn from_authorization(a: &[u8]) -> (r: Option<RawCredential>)
    ensures
        match (r, spec_from_authorization(a@)) {
            (Some(c), Some(v)) => c@ == v,
            (None, None) => true,
            _ => false,
        },
{
    let mut k: usize = 0;
    while k < a.len()
        invariant
            k <= a@.len(),
            forall|i: int| 0 <= i < k ==> is_visible_ascii(#[trigger] a@[i]),
        decreases a@.len() - k,
    {
        let b = a[k];
        if !((32 <= b && b < 127) || b == 9) {
            return None;
        }
        k += 1;
    }
    let bearer = lit_bearer();
    if bytes_start_with(a, bearer.as_slice()) {
        let token = trim_bytes_from(a, 7);
        if token.len() > 0 {
            proof {
                assert forall|i: int| 0 <= i < token@.len() implies #[trigger] token@[i] < 128 by {
                    lemma_trim_bytes_within(a@.subrange(7, a@.len() as int), i);
                }
                lemma_ascii_valid_utf8(token@);
            }
            match utf8_to_string(token) {
                Some(s) => {
                    return Some(RawCredential::Bearer(s));
                },
                None => {
                    return None;
                },
            }
        }
    }
    let basic = lit_basic();
    if bytes_start_with(a, basic.as_slice()) {
        proof {
            assert(!starts_with(a@, LIT_BEARER()) || trim_bytes(a@.subrange(7, a@.len() as int)).len() == 0);
        }
        let rest = trim_bytes_from(a, 6);
        if let Some(decoded) = b64std_decode_bytes(rest.as_slice()) {
            if let Some(text) = utf8_to_string(decoded) {
                let chars = str_chars(text.as_str());
                if let Some(user) = basic_username_credential(chars.as_slice()) {
                    return Some(RawCredential::Basic(chars_to_string(user.as_slice())));
                }
            }
        }
    }
    None
}

/// Every byte of `trim_bytes(s)` is a byte of `s`.
proof fn lemma_trim_bytes_within(s: Seq<u8>, i: int)
    requires
        0 <= i < trim_bytes(s).len(),
    ensures
        exists|j: int| 0 <= j < s.len() && s[j] == #[trigger] trim_bytes(s)[i],
{
    lemma_trim_bytes_is_subrange(s);
    let (a, b) = choose|a: int, b: int| 0 <= a <= b <= s.len() && trim_bytes(s) == s.subrange(a, b);
    assert(s[a + i] == trim_bytes(s)[i]);
}

proof fn lemma_trim_start_bytes_is_subrange(s: Seq<u8>)
    ensures
        exists|a: int| 0 <= a <= s.len() && trim_start_bytes(s) == s.subrange(a, s.len() as int),
    decreases s.len(),
{
    if s.len() > 0 && is_ws_byte(s[0]) {
        lemma_trim_start_bytes_is_subrange(s.drop_first());
        let a = choose|a: int| 0 <= a <= s.drop_first().len() && trim_start_bytes(s.drop_first()) == s.drop_first().subrange(a, s.drop_first().len() as int);
        assert(s.drop_first().subrange(a, s.drop_first().len() as int) =~= s.subrange(a + 1, s.len() as int));
    } else {
        assert(s.subrange(0, s.len() as int) =~= s);
    }
}

proof fn lemma_trim_end_bytes_is_subrange(s: Seq<u8>)
    ensures
        exists|b: int| 0 <= b <= s.len() && trim_end_bytes(s) == s.subrange(0, b),
    decreases s.len(),
{
    if s.len() > 0 && is_ws_byte(s.last()) {
        lemma_trim_end_bytes_is_subrange(s.drop_last());
        let b = choose|b: int| 0 <= b <= s.drop_last().len() && trim_end_bytes(s.drop_last()) == s.drop_last().subrange(0, b);
        assert(s.drop_last().subrange(0, b) =~= s.subrange(0, b));
    } else {
        assert(s.subrange(0, s.len() as int) =~= s);
    }
}

proof fn lemma_trim_bytes_is_subrange(s: Seq<u8>)
    ensures
        exists|a: int, b: int| 0 <= a <= b <= s.len() && trim_bytes(s) == s.subrange(a, b),
{
    lemma_trim_start_bytes_is_subrange(s);
    let a = choose|a: int| 0 <= a <= s.len() && trim_start_bytes(s) == s.subrange(a, s.len() as int);
    let t = trim_start_bytes(s);
    lemma_trim_end_bytes_is_subrange(t);
    let b = choose|b: int| 0 <= b <= t.len() && trim_end_bytes(t) == t.subrange(0, b);
    assert(t.subrange(0, b) =~= s.subrange(a, a + b));
}

// ---------------------------------------------------------------- query string

/// A `name=value` pair (a pair without `=` has an empty value).
pub open spec fn pair_name_value(pair: Seq<char>) -> (Seq<char>, Seq<char>) {
    match split_once(pair, '=') {
        Some((n, v)) => (n, v),
        None => (pair, Seq::empty()),
    }
}

/// A query value after percent-decoding, if the decoded bytes are UTF-8.
pub open spec fn spec_decode_query_value(v: Seq<char>) -> Option<Seq<char>> {
    let b = percent_decode(encode_utf8(v));
    if valid_utf8(b) {
        Some(decode_utf8(b))
    } else {
        None
    }
}

/// One step of the query scan: the first `access_token` and the first `key`
/// pairs (by trimmed name) set their value, if it has not been set yet.
pub open spec fn query_step(
    pair: Seq<char>,
    at: Option<Seq<char>>,
    kp: Option<Seq<char>>,
) -> (Option<Seq<char>>, Option<Seq<char>>) {
    if pair.len() == 0 {
        (at, kp)
    } else {
        let name = trim(pair_name_value(pair).0);
        let value = pair_name_value(pair).1;
        if name == LIT_ACCESS_TOKEN() && at is None {
            (spec_decode_query_value(value), kp)
        } else if name == LIT_KEY() && kp is None {
            (at, spec_decode_query_value(value))
        } else {
            (at, kp)
        }
    }
}

pub open spec fn query_scan(
    pairs: Seq<Seq<char>>,
    at: Option<Seq<char>>,
    kp: Option<Seq<char>>,
) -> (Option<Seq<char>>, Option<Seq<char>>)
    decreases pairs.len(),
{
    if pairs.len() == 0 {
        (at, kp)
    } else {
        let (a2, k2) = query_step(pairs[0], at, kp);
        query_scan(pairs.drop_first(), a2, k2)
    }
}

/// The credential in a query string: `access_token` wins over `key`; an empty value counts as none.
pub open spec fn spec_from_query(q: Seq<char>) -> Option<CredentialView> {
    let (at, kp) = query_scan(split_on(q, '&'), None, None);
    let v = if at is Some {
        at
    } else {
        kp
    };
    match v {
        Some(x) => if x.len() == 0 {
            None
        } else {
            Some(CredentialView::QueryParam(x))
        },
        None => None,
    }
}

fn decode_query_value(value: &[char]) -> (r: Option<Vec<char>>)
    ensures
        match (r, spec_decode_query_value(value@)) {
            (Some(a), Some(b)) => a@ == b,
            (None, None) => true,
            _ => false,
        },
{
    let s = chars_to_string(value);
    let bytes = percent_decode_bytes(s.as_str().as_bytes());
    match utf8_to_string(bytes) {
        Some(t) => Some(str_chars(t.as_str())),
        None => None,
    }
}

pub open spec fn opt_chars(o: Option<Vec<char>>) -> Option<Seq<char>> {
    match o {
        Some(v) => Some(v@),
        None => None,
    }
}

fn extract_from_query(query: &str) -> (r: Option<RawCredential>)
    ensures
        match (r, spec_from_query(query@)) {
            (Some(c), Some(v)) => c@ == v,
            (None, None) => true,
            _ => false,
        },
{
    let chars = str_chars(query);
    let pairs = split_chars(chars.as_slice(), '&');
    let ghost all = views(pairs@);
    let mut access_token: Option<Vec<char>> = None;
    let mut key_param: Option<Vec<char>> = None;
    let mut k: usize = 0;
    let access_word = lit_access_token();
    let key_word = lit_key();
    assert(all.subrange(0, all.len() as int) =~= all);
    while k < pairs.len()
        invariant
            k <= pairs@.len(),
            all == views(pairs@),
            all == split_on(query@, '&'),
            access_word@ == LIT_ACCESS_TOKEN(),
            key_word@ == LIT_KEY(),
            query_scan(all, None, None) == query_scan(
                all.subrange(k as int, all.len() as int),
                opt_chars(access_token),
                opt_chars(key_param),
            ),
        decreases pairs@.len() - k,
    {
        let pair = &pairs[k];
        assert(pair@ == all[k as int]);
        let ghost before_at = opt_chars(access_token);
        let ghost before_kp = opt_chars(key_param);
        if pair.len() > 0 {
            let (name, value) = match split_once_chars(pair.as_slice(), '=') {
                Some((n, v)) => (n, v),
                None => (sub_chars(pair.as_slice(), 0, pair.len()), Vec::new()),
            };
            assert(pair@.subrange(0, pair@.len() as int) =~= pair@);
            assert(name@ == pair_name_value(pair@).0);
            assert(value@ =~= pair_name_value(pair@).1);
            let name = trim_chars(name.as_slice());
            if chars_eq(name.as_slice(), access_word.as_slice()) && access_token.is_none() {
                access_token = decode_query_value(value.as_slice());
            } else if chars_eq(name.as_slice(), key_word.as_slice()) && key_param.is_none() {
                key_param = decode_query_value(value.as_slice());
            }
        }
        proof {
            let rest = all.subrange(k as int, all.len() as int);
            assert(rest.drop_first() =~= all.subrange(k + 1, all.len() as int));
            assert(query_step(all[k as int], before_at, before_kp) == (
                opt_chars(access_token),
                opt_chars(key_param),
            ));
        }
        k += 1;
    }
    assert(all.subrange(k as int, all.len() as int) =~= Seq::<Seq<char>>::empty());
    let value = match access_token {
        Some(v) => Some(v),
        None => key_param,
    };
    match value {
        Some(v) => {
            if v.len() == 0 {
                None
            } else {
                Some(RawCredential::QueryParam(chars_to_string(v.as_slice())))
            }
        },
        None => None,
    }
}

pub open spec fn opt_bytes_view(o: Option<&[u8]>) -> Option<Seq<u8>> {
    match o {
        Some(a) => Some(a@),
        None => None,
    }
}

pub open spec fn opt_str_view(o: Option<&str>) -> Option<Seq<char>> {
    match o {
        Some(q) => Some(q@),
        None => None,
    }
}

/// What `extract` returns: the `Authorization` credential when there is one,
/// else the query credential.
pub open spec fn spec_extract(auth: Option<Seq<u8>>, query: Option<Seq<char>>) -> Option<
    CredentialView,
> {
    let from_header = match auth {
        Some(a) => spec_from_authorization(a),
        None => None,
    };
    if from_header is Some {
        from_header
    } else {
        match query {
            Some(q) => spec_from_query(q),
            None => None,
        }
    }
}

/// Extracts a credential from the `Authorization` header value (preferred) or
/// from the query string. The header value is given as its raw bytes.
///
/// Priority: `Authorization` (Bearer, then Basic) wins over the query string.
/// Query parameters: `access_token` is preferred over `key` when both are present.
pub fn extract(authorization: Option<&[u8]>, query: Option<&str>) -> (r: Option<RawCredential>)
    ensures
        match (r, spec_extract(opt_bytes_view(authorization), opt_str_view(query))) {
            (Some(c), Some(v)) => c@ == v,
            (None, None) => true,
            _ => false,
        },
{
    if let Some(a) = authorization {
        if let Some(c) = from_authorization(a) {
            return Some(c);
        }
    }
    match query {
        Some(q) => extract_from_query(q),
        None => None,
    }
}

/// A credential in the header always wins over one in the query string.
pub proof fn lemma_header_wins(a: Seq<u8>, q: Seq<char>)
    requires
        spec_from_authorization(a) is Some,
    ensures
        spec_extract(Some(a), Some(q)) == spec_from_authorization(a),
{
}

/// A `Bearer` header with a non-blank token yields that token (trimmed),
/// whatever the query string holds.
pub proof fn lemma_bearer_header_yields_token(t: Seq<u8>, q: Option<Seq<char>>)
    requires
        all_visible_ascii(LIT_BEARER() + t),
        trim_bytes(t).len() > 0,
    ensures
        spec_extract(Some(LIT_BEARER() + t), q) == Some(CredentialView::Bearer(decode_utf8(trim_bytes(t)))),
        spec_extract(Some(LIT_BEARER() + t), q) == spec_extract(Some(LIT_BEARER() + t), None),
{
    let a = LIT_BEARER() + t;
    assert(a.subrange(0, 7) =~= LIT_BEARER());
    assert(a.subrange(7, a.len() as int) =~= t);
}

/// A `Basic` header whose base64 text decodes to `user:password`, with a
/// non-empty user name holding no `:`, yields that user name, whatever the
/// query string holds.
pub proof fn lemma_basic_header_yields_user(
    e: Seq<u8>,
    pair: Seq<u8>,
    user: Seq<char>,
    password: Seq<char>,
    q: Option<Seq<char>>,
)
    requires
        all_visible_ascii(LIT_BASIC() + e),
        b64std_decode(trim_bytes(e)) == Some(pair),
        valid_utf8(pair),
        decode_utf8(pair) == user + seq![':'] + password,
        user.len() > 0,
        crate::text::index_of(user, ':') == user.len(),
    ensures
        spec_extract(Some(LIT_BASIC() + e), q) == Some(CredentialView::Basic(user)),
        spec_extract(Some(LIT_BASIC() + e), q) == spec_extract(Some(LIT_BASIC() + e), None),
{
    let a = LIT_BASIC() + e;
    assert(a[1] == 97u8);
    if starts_with(a, LIT_BEARER()) {
        assert(a.subrange(0, 7)[1] == a[1]);
        assert(LIT_BEARER()[1] == 101u8);
        assert(false);
    }
    assert(a.subrange(0, 6) =~= LIT_BASIC());
    assert(a.subrange(6, a.len() as int) =~= e);
    let d = user + seq![':'] + password;
    crate::text::lemma_index_of_bounds(user, ':');
    assert forall|j: int| 0 <= j < user.len() implies #[trigger] d[j] != ':' by {
        assert(d[j] == user[j]);
    }
    assert(d[user.len() as int] == ':');
    crate::text::lemma_index_of(d, ':', user.len() as int);
    assert(d.subrange(0, user.len() as int) =~= user);
}

} // verus!
