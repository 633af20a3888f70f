//! The signed payload of a temporary token.
//!
//! The claims travel as a JSON object with seven string fields, in a fixed
//! order, each holding lowercase hexadecimal text:
//! `{"version":"..","bucket":"..","bucket_generation":"..","allowed_prefix":"..",
//! "permissions":"..","iat":"..","exp":".."}`. Every field is a byte string:
//! the version byte, the UTF-8 of the bucket id, the generation as 8 big-endian
//! bytes, the allowed key prefix, the permission bits as one byte, and the two
//! instants (nanoseconds since the unix epoch) as the 16 big-endian bytes of
//! their two's-complement form. Hex text
//! never holds a `"`, so the encoding is unambiguous and [`parse_claims`]
//! inverts [`encode_claims`] exactly.
use vstd::prelude::*;
use vstd::utf8::{decode_utf8, encode_utf8, valid_utf8};

use crate::domain::{BucketId, Permission, TemporaryTokenClaims};
use crate::text::utf8_to_string;

verus! {

/// Number of fields in a payload.
pub const CLAIMS_FIELDS: usize = 7;

/// Literal `k` of the payload grammar (`k` in `0..=7`): the JSON text around
/// the seven field values.
pub open spec fn claims_lit(k: int) -> Seq<u8> {
    if k == 0 {
        seq![123u8, 34u8, 118u8, 101u8, 114u8, 115u8, 105u8, 111u8, 110u8, 34u8, 58u8, 34u8]
    } else if k == 1 {
        seq![34u8, 44u8, 34u8, 98u8, 117u8, 99u8, 107u8, 101u8, 116u8, 34u8, 58u8, 34u8]
    } else if k == 2 {
        seq![34u8, 44u8, 34u8, 98u8, 117u8, 99u8, 107u8, 101u8, 116u8, 95u8, 103u8, 101u8, 110u8, 101u8, 114u8, 97u8, 116u8, 105u8, 111u8, 110u8, 34u8, 58u8, 34u8]
    } else if k == 3 {
        seq![34u8, 44u8, 34u8, 97u8, 108u8, 108u8, 111u8, 119u8, 101u8, 100u8, 95u8, 112u8, 114u8, 101u8, 102u8, 105u8, 120u8, 34u8, 58u8, 34u8]
    } else if k == 4 {
        seq![34u8, 44u8, 34u8, 112u8, 101u8, 114u8, 109u8, 105u8, 115u8, 115u8, 105u8, 111u8, 110u8, 115u8, 34u8, 58u8, 34u8]
    } else if k == 5 {
        seq![34u8, 44u8, 34u8, 105u8, 97u8, 116u8, 34u8, 58u8, 34u8]
    } else if k == 6 {
        seq![34u8, 44u8, 34u8, 101u8, 120u8, 112u8, 34u8, 58u8, 34u8]
    } else {
        seq![34u8, 125u8]
    }
}

/// The bytes of literal `k` of the payload grammar.
fn claims_lit_bytes(k: usize) -> (r: Vec<u8>)
    requires
        k <= 7,
    ensures
        r@ == claims_lit(k as int),
{
    let r = if k == 0 {
        vec![123u8, 34u8, 118u8, 101u8, 114u8, 115u8, 105u8, 111u8, 110u8, 34u8, 58u8, 34u8]
    } else if k == 1 {
        vec![34u8, 44u8, 34u8, 98u8, 117u8, 99u8, 107u8, 101u8, 116u8, 34u8, 58u8, 34u8]
    } else if k == 2 {
        vec![34u8, 44u8, 34u8, 98u8, 117u8, 99u8, 107u8, 101u8, 116u8, 95u8, 103u8, 101u8, 110u8, 101u8, 114u8, 97u8, 116u8, 105u8, 111u8, 110u8, 34u8, 58u8, 34u8]
    } else if k == 3 {
        vec![34u8, 44u8, 34u8, 97u8, 108u8, 108u8, 111u8, 119u8, 101u8, 100u8, 95u8, 112u8, 114u8, 101u8, 102u8, 105u8, 120u8, 34u8, 58u8, 34u8]
    } else if k == 4 {
        vec![34u8, 44u8, 34u8, 112u8, 101u8, 114u8, 109u8, 105u8, 115u8, 115u8, 105u8, 111u8, 110u8, 115u8, 34u8, 58u8, 34u8]
    } else if k == 5 {
        vec![34u8, 44u8, 34u8, 105u8, 97u8, 116u8, 34u8, 58u8, 34u8]
    } else if k == 6 {
        vec![34u8, 44u8, 34u8, 101u8, 120u8, 112u8, 34u8, 58u8, 34u8]
    } else {
        vec![34u8, 125u8]
    };
    assert(r@ =~= claims_lit(k as int));
    r
}

// ---------------------------------------------------------------- hex text

/// The lowercase hexadecimal digit of `d` (`0 <= d < 16`).
pub open spec fn hex_digit(d: int) -> u8 {
    if d < 10 {
        (48 + d) as u8
    } else {
        (87 + d) as u8
    }
}

/// Whether `c` is a lowercase hexadecimal digit.
pub open spec fn is_lower_hex(c: u8) -> bool {
    (48u8 <= c && c <= 57u8) || (97u8 <= c && c <= 102u8)
}

/// The value of a lowercase hexadecimal digit.
pub open spec fn lower_hex_value(c: u8) -> int {
    if c <= 57u8 {
        c - 48
    } else {
        c - 87
    }
}

/// Lowercase hexadecimal text of `f`: two digits per byte, high nibble first.
pub open spec fn hex_text(f: Seq<u8>) -> Seq<u8> {
    Seq::new(
        2 * f.len(),
        |i: int|
            if i % 2 == 0 {
                hex_digit((f[i / 2] / 16) as int)
            } else {
                hex_digit((f[i / 2] % 16) as int)
            },
    )
}

/// Whether `s` is the hexadecimal text of some byte string.
pub open spec fn is_hex_text(s: Seq<u8>) -> bool {
    s.len() % 2 == 0 && forall|i: int| 0 <= i < s.len() ==> is_lower_hex(#[trigger] s[i])
}

/// The bytes that hexadecimal text `s` denotes.
pub open spec fn unhex(s: Seq<u8>) -> Seq<u8> {
    Seq::new(
        s.len() / 2,
        |j: int| (lower_hex_value(s[2 * j]) * 16 + lower_hex_value(s[2 * j + 1])) as u8,
    )
}

proof fn lemma_digit(d: int)
    requires
        0 <= d < 16,
    ensures
        is_lower_hex(hex_digit(d)),
        lower_hex_value(hex_digit(d)) == d,
        hex_digit(d) != 34u8,
{
}

proof fn lemma_value(c: u8)
    requires
        is_lower_hex(c),
    ensures
        0 <= lower_hex_value(c) < 16,
        hex_digit(lower_hex_value(c)) == c,
{
}

/// Hex text is well formed, holds no `"`, and denotes the bytes it was made from.
pub proof fn lemma_hex_text(f: Seq<u8>)
    ensures
        is_hex_text(hex_text(f)),
        unhex(hex_text(f)) == f,
        forall|i: int| 0 <= i < hex_text(f).len() ==> #[trigger] hex_text(f)[i] != 34u8,
{
    let h = hex_text(f);
    assert forall|i: int| 0 <= i < h.len() implies is_lower_hex(#[trigger] h[i]) && h[i] != 34u8 by {
        let b = f[i / 2];
        if i % 2 == 0 {
            lemma_digit((b / 16) as int);
        } else {
            lemma_digit((b % 16) as int);
        }
    }
    assert forall|j: int| 0 <= j < f.len() implies #[trigger] unhex(h)[j] == f[j] by {
        let b = f[j];
        assert((2 * j) / 2 == j);
        assert((2 * j + 1) / 2 == j);
        assert((2 * j) % 2 == 0);
        assert((2 * j + 1) % 2 == 1);
        lemma_digit((b / 16) as int);
        lemma_digit((b % 16) as int);
        assert(h[2 * j] == hex_digit((b / 16) as int));
        assert(h[2 * j + 1] == hex_digit((b % 16) as int));
    }
    assert(unhex(h) =~= f);
}

/// Well-formed hex text is the hex text of what it denotes.
pub proof fn lemma_unhex(s: Seq<u8>)
    requires
        is_hex_text(s),
    ensures
        hex_text(unhex(s)) == s,
{
    let f = unhex(s);
    assert forall|i: int| 0 <= i < s.len() implies #[trigger] hex_text(f)[i] == s[i] by {
        let j = i / 2;
        assert(0 <= j < f.len());
        lemma_value(s[2 * j]);
        lemma_value(s[2 * j + 1]);
        let hi = lower_hex_value(s[2 * j]);
        let lo = lower_hex_value(s[2 * j + 1]);
        assert(f[j] == hi * 16 + lo);
        assert(f[j] / 16 == hi);
        assert(f[j] % 16 == lo);
        if i % 2 == 0 {
            assert(i == 2 * j);
        } else {
            assert(i == 2 * j + 1);
        }
    }
    assert(hex_text(f) =~= s);
}

/// Hex text of `f`.
fn encode_hex(f: &[u8], out: &mut Vec<u8>)
    requires
        old(out)@.len() + 2 * f@.len() <= usize::MAX,
    ensures
        final(out)@ == old(out)@ + hex_text(f@),
{
    let ghost start = out@;
    let mut i: usize = 0;
    while i < f.len()
        invariant
            i <= f@.len(),
            start.len() + 2 * f@.len() <= usize::MAX,
            out@.len() == start.len() + 2 * i,
            forall|j: int| 0 <= j < start.len() ==> out@[j] == start[j],
            forall|j: int| 0 <= j < 2 * i ==> out@[start.len() + j] == #[trigger] hex_text(f@)[j],
        decreases f@.len() - i,
    {
        let b = f[i];
        let hi = b / 16;
        let lo = b % 16;
        let dh: u8 = if hi < 10 { 48 + hi } else { 87 + hi };
        let dl: u8 = if lo < 10 { 48 + lo } else { 87 + lo };
        out.push(dh);
        out.push(dl);
        proof {
            assert((2 * i) / 2 == i as int);
            assert((2 * i + 1) / 2 == i as int);
            assert((2 * i) % 2 == 0);
            assert((2 * i + 1) % 2 == 1);
            assert(hex_text(f@)[2 * i as int] == dh);
            assert(hex_text(f@)[2 * i + 1] == dl);
        }
        i = i + 1;
    }
    assert(out@ =~= start + hex_text(f@));
}

/// Decodes `b[from..to]` as hex text.
fn decode_hex(b: &[u8], from: usize, to: usize) -> (r: Option<Vec<u8>>)
    requires
        from <= to <= b@.len(),
    ensures
        r is Some <==> is_hex_text(b@.subrange(from as int, to as int)),
        r matches Some(v) ==> v@ == unhex(b@.subrange(from as int, to as int)),
{
    let ghost s = b@.subrange(from as int, to as int);
    if (to - from) % 2 != 0 {
        return None;
    }
    let n = (to - from) / 2;
    let mut out: Vec<u8> = Vec::new();
    let mut j: usize = 0;
    while j < n
        invariant
            j <= n,
            n == (to - from) / 2,
            (to - from) % 2 == 0,
            from <= to <= b@.len(),
            s == b@.subrange(from as int, to as int),
            out@.len() == j,
            forall|i: int| 0 <= i < 2 * j ==> is_lower_hex(#[trigger] s[i]),
            forall|k: int| 0 <= k < j ==> out@[k] == #[trigger] unhex(s)[k],
        decreases n - j,
    {
        let c1 = b[from + 2 * j];
        let c2 = b[from + 2 * j + 1];
        let ok1 = (48 <= c1 && c1 <= 57) || (97 <= c1 && c1 <= 102);
        let ok2 = (48 <= c2 && c2 <= 57) || (97 <= c2 && c2 <= 102);
        if !ok1 || !ok2 {
            proof {
                assert(s[2 * j as int] == c1);
                assert(s[2 * j + 1] == c2);
            }
            return None;
        }
        let v1: u8 = if c1 <= 57 { c1 - 48 } else { c1 - 87 };
        let v2: u8 = if c2 <= 57 { c2 - 48 } else { c2 - 87 };
        proof {
            assert(s[2 * j as int] == c1);
            assert(s[2 * j + 1] == c2);
        }
        out.push(v1 * 16 + v2);
        j = j + 1;
    }
    assert(out@ =~= unhex(s));
    Some(out)
}


// ---------------------------------------------------------------- fields

/// The payload text from literal `k` on, for fields `fs`.
pub open spec fn json_from(fs: Seq<Seq<u8>>, k: nat) -> Seq<u8>
    decreases 7 - k,
{
    if k >= 7 {
        claims_lit(7)
    } else {
        claims_lit(k as int) + hex_text(fs[k as int]) + json_from(fs, k + 1)
    }
}

/// The payload text of fields `fs`.
pub open spec fn fields_json(fs: Seq<Seq<u8>>) -> Seq<u8> {
    json_from(fs, 0)
}

/// The payload text of the first `k` fields of `fs`, up to the start of literal `k`.
pub open spec fn json_upto(fs: Seq<Seq<u8>>, k: nat) -> Seq<u8>
    decreases k,
{
    if k == 0 {
        Seq::empty()
    } else {
        json_upto(fs, (k - 1) as nat) + claims_lit(k - 1) + hex_text(fs[k - 1])
    }
}

proof fn lemma_json_split(fs: Seq<Seq<u8>>, k: nat)
    requires
        k <= 7,
    ensures
        fields_json(fs) == json_upto(fs, k) + json_from(fs, k),
    decreases k,
{
    if k > 0 {
        lemma_json_split(fs, (k - 1) as nat);
        let k1 = (k - 1) as nat;
        assert(json_from(fs, k1) == claims_lit(k1 as int) + hex_text(fs[k1 as int]) + json_from(fs, k));
        assert(json_upto(fs, k1) + json_from(fs, k1) =~= json_upto(fs, k) + json_from(fs, k));
    }
}

proof fn lemma_json_upto_prefix(fs: Seq<Seq<u8>>, gs: Seq<Seq<u8>>, k: nat)
    requires
        k <= fs.len(),
        k <= gs.len(),
        forall|j: int| 0 <= j < k ==> fs[j] == gs[j],
    ensures
        json_upto(fs, k) == json_upto(gs, k),
    decreases k,
{
    if k > 0 {
        lemma_json_upto_prefix(fs, gs, (k - 1) as nat);
    }
}

/// Literals `1..=7` open with `"`.
proof fn lemma_lit_quote(k: int)
    requires
        1 <= k <= 7,
    ensures
        claims_lit(k).len() >= 2,
        claims_lit(k)[0] == 34u8,
{
}

proof fn lemma_json_from_quote(fs: Seq<Seq<u8>>, k: nat)
    requires
        1 <= k <= 7,
    ensures
        json_from(fs, k).len() >= 2,
        json_from(fs, k)[0] == 34u8,
{
    lemma_lit_quote(k as int);
    if k < 7 {
        assert(json_from(fs, k) == claims_lit(k as int) + hex_text(fs[k as int]) + json_from(fs, k + 1));
    }
}

/// Two payloads agree from literal `k` on only if their fields agree from `k` on.
proof fn lemma_json_from_injective(fs: Seq<Seq<u8>>, gs: Seq<Seq<u8>>, k: nat)
    requires
        k <= 7,
        fs.len() == 7,
        gs.len() == 7,
        json_from(fs, k) == json_from(gs, k),
    ensures
        forall|j: int| k <= j < 7 ==> fs[j] == gs[j],
    decreases 7 - k,
{
    if k < 7 {
        let l = claims_lit(k as int);
        let a = hex_text(fs[k as int]);
        let b = hex_text(gs[k as int]);
        let ra = json_from(fs, k + 1);
        let rb = json_from(gs, k + 1);
        let x = json_from(fs, k);
        assert(x == l + a + ra);
        assert(json_from(gs, k) == l + b + rb);
        lemma_hex_text(fs[k as int]);
        lemma_hex_text(gs[k as int]);
        lemma_json_from_quote(fs, k + 1);
        lemma_json_from_quote(gs, k + 1);
        if a.len() < b.len() {
            assert(x[(l.len() + a.len()) as int] == ra[0]);
            assert(x[(l.len() + a.len()) as int] == b[a.len() as int]);
            assert(false);
        }
        if b.len() < a.len() {
            assert(x[(l.len() + b.len()) as int] == rb[0]);
            assert(x[(l.len() + b.len()) as int] == a[b.len() as int]);
            assert(false);
        }
        assert(a =~= x.subrange(l.len() as int, (l.len() + a.len()) as int));
        assert(b =~= x.subrange(l.len() as int, (l.len() + b.len()) as int));
        assert(ra =~= x.subrange((l.len() + a.len()) as int, x.len() as int));
        assert(rb =~= x.subrange((l.len() + b.len()) as int, x.len() as int));
        lemma_json_from_injective(fs, gs, k + 1);
    }
}

/// Distinct seven-field lists have distinct payload texts.
pub proof fn lemma_fields_json_injective(fs: Seq<Seq<u8>>, gs: Seq<Seq<u8>>)
    requires
        fs.len() == 7,
        gs.len() == 7,
        fields_json(fs) == fields_json(gs),
    ensures
        fs == gs,
{
    lemma_json_from_injective(fs, gs, 0);
    assert(fs =~= gs);
}

/// Whether `b[pos..]` starts with `p`.
fn bytes_at(b: &[u8], pos: usize, p: &[u8]) -> (r: bool)
    requires
        pos <= b@.len(),
    ensures
        r == (pos + p@.len() <= b@.len() && b@.subrange(pos as int, pos + p@.len()) == p@),
{
    if p.len() > b.len() - pos {
        return false;
    }
    let mut i: usize = 0;
    while i < p.len()
        invariant
            i <= p@.len(),
            b@.len() == b.len(),
            pos <= b@.len(),
            pos + p@.len() <= b@.len(),
            forall|j: int| 0 <= j < i ==> b@[pos + j] == p@[j],
        decreases p@.len() - i,
    {
        if b[pos + i] != p[i] {
            assert(b@.subrange(pos as int, pos + p@.len())[i as int] != p@[i as int]);
            return false;
        }
        i = i + 1;
    }
    assert(b@.subrange(pos as int, pos + p@.len()) =~= p@);
    true
}

/// First index at or after `from` that holds `c`, or `b.len()` if none does.
fn find_byte_from(b: &[u8], from: usize, c: u8) -> (r: usize)
    requires
        from <= b@.len(),
    ensures
        from <= r <= b@.len(),
        forall|i: int| from <= i < r ==> b@[i] != c,
        r < b@.len() ==> b@[r as int] == c,
{
    let mut i = from;
    while i < b.len()
        invariant
            from <= i <= b@.len(),
            forall|j: int| from <= j < i ==> b@[j] != c,
        decreases b@.len() - i,
    {
        if b[i] == c {
            return i;
        }
        i = i + 1;
    }
    i
}

/// The views of a list of byte vectors.
pub open spec fn field_views(v: Seq<Vec<u8>>) -> Seq<Seq<u8>> {
    Seq::new(v.len(), |i: int| v[i]@)
}

/// Where the payload of fields `gs` puts field `k`, once the text before
/// literal `k` (`pos` bytes) is known to be that of the first `k` fields.
proof fn lemma_field_at(b: Seq<u8>, fv: Seq<Seq<u8>>, gs: Seq<Seq<u8>>, k: nat, pos: int)
    requires
        k < 7,
        gs.len() == 7,
        fields_json(gs) == b,
        fv.len() == k,
        forall|j: int| 0 <= j < k ==> gs[j] == fv[j],
        0 <= pos <= b.len(),
        b.subrange(0, pos) == json_upto(fv, k),
    ensures
        ({
            let l = claims_lit(k as int);
            let h = hex_text(gs[k as int]);
            let start = pos + l.len();
            let e = start + h.len();
            &&& e < b.len()
            &&& b.subrange(pos, start) == l
            &&& forall|i: int| start <= i < e ==> b[i] != 34u8
            &&& b[e] == 34u8
            &&& b.subrange(start, e) == h
            &&& is_hex_text(h)
            &&& unhex(h) == gs[k as int]
        }),
{
    let l = claims_lit(k as int);
    let h = hex_text(gs[k as int]);
    let rest = json_from(gs, k + 1);
    lemma_json_split(gs, k);
    lemma_json_upto_prefix(gs, fv, k);
    assert(json_from(gs, k) == l + h + rest);
    assert(b =~= b.subrange(0, pos) + (l + h + rest));
    lemma_hex_text(gs[k as int]);
    lemma_json_from_quote(gs, k + 1);
    let start = pos + l.len();
    let e = start + h.len();
    assert(b.subrange(pos, start) =~= l);
    assert(b.subrange(start, e) =~= h);
    assert(b[e] == rest[0]);
    assert forall|i: int| start <= i < e implies b[i] != 34u8 by {
        assert(b[i] == h[i - start]);
    }
}

/// Where the payload of fields `gs` ends, once the text before the closing
/// literal is known to be that of all seven fields.
proof fn lemma_fields_end(b: Seq<u8>, fv: Seq<Seq<u8>>, gs: Seq<Seq<u8>>, pos: int)
    requires
        gs.len() == 7,
        fields_json(gs) == b,
        fv.len() == 7,
        forall|j: int| 0 <= j < 7 ==> gs[j] == fv[j],
        0 <= pos <= b.len(),
        b.subrange(0, pos) == json_upto(fv, 7),
    ensures
        b.len() == pos + claims_lit(7).len(),
        b.subrange(pos, b.len() as int) == claims_lit(7),
{
    lemma_json_split(gs, 7);
    lemma_json_upto_prefix(gs, fv, 7);
    assert(b =~= b.subrange(0, pos) + claims_lit(7));
    assert(b.subrange(pos, b.len() as int) =~= claims_lit(7));
}

proof fn lemma_upto_extend(b: Seq<u8>, fv: Seq<Seq<u8>>, f: Seq<u8>, k: nat, pos: int, start: int, q: int)
    requires
        fv.len() == k,
        0 <= pos <= start <= q <= b.len(),
        b.subrange(0, pos) == json_upto(fv, k),
        b.subrange(pos, start) == claims_lit(k as int),
        b.subrange(start, q) == hex_text(f),
    ensures
        b.subrange(0, q) == json_upto(fv.push(f), k + 1),
{
    let fv2 = fv.push(f);
    lemma_json_upto_prefix(fv, fv2, k);
    assert(b.subrange(0, q) =~= b.subrange(0, pos) + b.subrange(pos, start) + b.subrange(start, q));
}

/// Splits a payload into its seven fields: `Some` exactly when `b` is the
/// payload text of some seven fields, which are then unique.
pub fn parse_fields(b: &[u8]) -> (r: Option<Vec<Vec<u8>>>)
    ensures
        r matches Some(fs) ==> fs@.len() == 7 && fields_json(field_views(fs@)) == b@,
        r is None ==> forall|gs: Seq<Seq<u8>>| gs.len() == 7 ==> #[trigger] fields_json(gs) != b@,
{
    let ghost exists_target = exists|gs: Seq<Seq<u8>>| gs.len() == 7 && #[trigger] fields_json(gs) == b@;
    let ghost target = choose|gs: Seq<Seq<u8>>| gs.len() == 7 && #[trigger] fields_json(gs) == b@;
    let mut fields: Vec<Vec<u8>> = Vec::new();
    let mut pos: usize = 0;
    let mut k: usize = 0;
    assert(b@.subrange(0, 0) =~= json_upto(field_views(fields@), 0));
    while k < 7
        invariant
            k <= 7,
            fields@.len() == k,
            b@.len() == b.len(),
            pos <= b@.len(),
            b@.subrange(0, pos as int) == json_upto(field_views(fields@), k as nat),
            exists_target == exists|gs: Seq<Seq<u8>>| gs.len() == 7 && #[trigger] fields_json(gs) == b@,
            exists_target ==> target.len() == 7 && fields_json(target) == b@,
            exists_target ==> forall|j: int| 0 <= j < k ==> target[j] == field_views(fields@)[j],
        decreases 7 - k,
    {
        let ghost fv = field_views(fields@);
        proof {
            if exists_target {
                lemma_field_at(b@, fv, target, k as nat, pos as int);
            }
        }
        let lit = claims_lit_bytes(k);
        let lit_ok = bytes_at(b, pos, lit.as_slice());
        if !lit_ok {
            return None;
        }
        let start = pos + lit.len();
        let q = find_byte_from(b, start, 34u8);
        if q == b.len() {
            return None;
        }
        let field = match decode_hex(b, start, q) {
            Some(f) => f,
            None => {
                return None;
            },
        };
        proof {
            lemma_unhex(b@.subrange(start as int, q as int));
            lemma_upto_extend(b@, fv, field@, k as nat, pos as int, start as int, q as int);
        }
        fields.push(field);
        proof {
            assert(field_views(fields@) =~= fv.push(field@));
        }
        pos = q;
        k = k + 1;
    }
    let ghost fv = field_views(fields@);
    proof {
        if exists_target {
            lemma_fields_end(b@, fv, target, pos as int);
        }
    }
    let last = claims_lit_bytes(7);
    let last_ok = bytes_at(b, pos, last.as_slice());
    if !(last_ok && b.len() - pos == last.len()) {
        return None;
    }
    proof {
        lemma_json_split(fv, 7);
        assert(b@ =~= b@.subrange(0, pos as int) + b@.subrange(pos as int, b@.len() as int));
    }
    Some(fields)
}


// ---------------------------------------------------------------- claims

/// The claims of a token as plain values.
pub struct ClaimsView {
    pub version: u8,
    pub bucket: Seq<char>,
    pub bucket_generation: u64,
    pub allowed_prefix: Seq<u8>,
    pub permissions: Permission,
    pub iat: i128,
    pub exp: i128,
}

impl View for TemporaryTokenClaims {
    type V = ClaimsView;

    open spec fn view(&self) -> ClaimsView {
        ClaimsView {
            version: self.version,
            bucket: self.bucket@,
            bucket_generation: self.bucket_generation,
            allowed_prefix: self.allowed_prefix@,
            permissions: self.permissions,
            iat: self.iat,
            exp: self.exp,
        }
    }
}

/// The permission bits as one byte: read 1, write 2, enumerate 4, delete 8.
pub open spec fn permission_byte(p: Permission) -> u8 {
    ((if p.read { 1int } else { 0int }) + (if p.write { 2int } else { 0int }) + (if p.enumerate {
        4int
    } else {
        0int
    }) + (if p.delete { 8int } else { 0int })) as u8
}

/// The permissions that a byte below 16 denotes.
pub open spec fn byte_permission(b: u8) -> Permission {
    Permission {
        read: b % 2 == 1,
        write: (b / 2) % 2 == 1,
        enumerate: (b / 4) % 2 == 1,
        delete: (b / 8) % 2 == 1,
    }
}

/// The 8 big-endian bytes of `x`.
pub open spec fn be8(x: u64) -> Seq<u8> {
    seq![
        (x >> 56u64) as u8,
        (x >> 48u64) as u8,
        (x >> 40u64) as u8,
        (x >> 32u64) as u8,
        (x >> 24u64) as u8,
        (x >> 16u64) as u8,
        (x >> 8u64) as u8,
        x as u8,
    ]
}

/// The number whose 8 big-endian bytes are `s`.
pub open spec fn from_be8(s: Seq<u8>) -> u64 {
    ((s[0] as u64) << 56u64) | ((s[1] as u64) << 48u64) | ((s[2] as u64) << 40u64) | ((
    s[3] as u64) << 32u64) | ((s[4] as u64) << 24u64) | ((s[5] as u64) << 16u64) | ((s[6] as u64)
        << 8u64) | (s[7] as u64)
}

/// The 16 big-endian bytes of `x`.
pub open spec fn be16(x: u128) -> Seq<u8> {
    be8((x >> 64u128) as u64) + be8(x as u64)
}

/// The number whose 16 big-endian bytes are `s`.
pub open spec fn from_be16(s: Seq<u8>) -> u128 {
    ((from_be8(s.subrange(0, 8)) as u128) << 64u128) | (from_be8(s.subrange(8, 16)) as u128)
}

/// The seven payload fields of claims `c`.
pub open spec fn claims_fields(c: ClaimsView) -> Seq<Seq<u8>> {
    seq![
        seq![c.version],
        encode_utf8(c.bucket),
        be8(c.bucket_generation),
        c.allowed_prefix,
        seq![permission_byte(c.permissions)],
        be16(c.iat as u128),
        be16(c.exp as u128),
    ]
}

/// The payload text of claims `c`.
pub open spec fn claims_json(c: ClaimsView) -> Seq<u8> {
    fields_json(claims_fields(c))
}

/// The claims that seven payload fields denote, when they are well formed.
pub open spec fn fields_claims(fs: Seq<Seq<u8>>) -> Option<ClaimsView> {
    if fs.len() == 7 && fs[0].len() == 1 && fs[1].len() > 0 && valid_utf8(fs[1]) && fs[2].len()
        == 8 && fs[4].len() == 1 && fs[4][0] < 16 && fs[5].len() == 16 && fs[6].len() == 16 {
        Some(
            ClaimsView {
                version: fs[0][0],
                bucket: decode_utf8(fs[1]),
                bucket_generation: from_be8(fs[2]),
                allowed_prefix: fs[3],
                permissions: byte_permission(fs[4][0]),
                iat: from_be16(fs[5]) as i128,
                exp: from_be16(fs[6]) as i128,
            },
        )
    } else {
        None
    }
}

proof fn lemma_be8_roundtrip(x: u64)
    ensures
        from_be8(be8(x)) == x,
{
    let s = be8(x);
    assert(from_be8(s) == ((((x >> 56u64) as u8) as u64) << 56u64) | ((((x >> 48u64) as u8) as u64)
        << 48u64) | ((((x >> 40u64) as u8) as u64) << 40u64) | ((((x >> 32u64) as u8) as u64)
        << 32u64) | ((((x >> 24u64) as u8) as u64) << 24u64) | ((((x >> 16u64) as u8) as u64)
        << 16u64) | ((((x >> 8u64) as u8) as u64) << 8u64) | ((x as u8) as u64));
    assert(((((x >> 56u64) as u8) as u64) << 56u64) | ((((x >> 48u64) as u8) as u64) << 48u64) | ((((
    x >> 40u64) as u8) as u64) << 40u64) | ((((x >> 32u64) as u8) as u64) << 32u64) | ((((x
        >> 24u64) as u8) as u64) << 24u64) | ((((x >> 16u64) as u8) as u64) << 16u64) | ((((x
        >> 8u64) as u8) as u64) << 8u64) | ((x as u8) as u64) == x) by (bit_vector);
}

proof fn lemma_be8_inverse(s: Seq<u8>)
    requires
        s.len() == 8,
    ensures
        be8(from_be8(s)) == s,
{
    let (b0, b1, b2, b3, b4, b5, b6, b7) = (s[0], s[1], s[2], s[3], s[4], s[5], s[6], s[7]);
    let x = from_be8(s);
    assert(x == ((b0 as u64) << 56u64) | ((b1 as u64) << 48u64) | ((b2 as u64) << 40u64) | ((
    b3 as u64) << 32u64) | ((b4 as u64) << 24u64) | ((b5 as u64) << 16u64) | ((b6 as u64)
        << 8u64) | (b7 as u64));
    assert((x >> 56u64) as u8 == b0 && (x >> 48u64) as u8 == b1 && (x >> 40u64) as u8 == b2 && (x
        >> 32u64) as u8 == b3 && (x >> 24u64) as u8 == b4 && (x >> 16u64) as u8 == b5 && (x
        >> 8u64) as u8 == b6 && x as u8 == b7) by (bit_vector)
        requires
            x == ((b0 as u64) << 56u64) | ((b1 as u64) << 48u64) | ((b2 as u64) << 40u64) | ((
            b3 as u64) << 32u64) | ((b4 as u64) << 24u64) | ((b5 as u64) << 16u64) | ((b6 as u64)
                << 8u64) | (b7 as u64),
    ;
    assert(be8(x) =~= s);
}

proof fn lemma_be16_roundtrip(x: u128)
    ensures
        from_be16(be16(x)) == x,
{
    let hi = (x >> 64u128) as u64;
    let lo = x as u64;
    lemma_be8_roundtrip(hi);
    lemma_be8_roundtrip(lo);
    let s = be16(x);
    assert(s.subrange(0, 8) =~= be8(hi));
    assert(s.subrange(8, 16) =~= be8(lo));
    assert((((((x >> 64u128) as u64) as u128) << 64u128) | (((x as u64) as u128))) == x) by (bit_vector);
}

proof fn lemma_be16_inverse(s: Seq<u8>)
    requires
        s.len() == 16,
    ensures
        be16(from_be16(s)) == s,
{
    let hi = from_be8(s.subrange(0, 8));
    let lo = from_be8(s.subrange(8, 16));
    let x = from_be16(s);
    assert((((((hi as u128) << 64u128) | (lo as u128)) >> 64u128) as u64) == hi && ((((hi as u128)
        << 64u128) | (lo as u128)) as u64) == lo) by (bit_vector);
    lemma_be8_inverse(s.subrange(0, 8));
    lemma_be8_inverse(s.subrange(8, 16));
    assert(be16(x) =~= s);
}

proof fn lemma_signed_roundtrip(x: i128, y: u128)
    ensures
        (x as u128) as i128 == x,
        (y as i128) as u128 == y,
{
    assert((x as u128) as i128 == x) by (bit_vector);
    assert((y as i128) as u128 == y) by (bit_vector);
}

proof fn lemma_permission_byte(p: Permission, b: u8)
    ensures
        permission_byte(p) < 16,
        byte_permission(permission_byte(p)) == p,
        b < 16 ==> permission_byte(byte_permission(b)) == b,
{
}

proof fn lemma_encode_nonempty(chars: Seq<char>)
    ensures
        encode_utf8(chars).len() > 0 <==> chars.len() > 0,
        valid_utf8(encode_utf8(chars)),
        decode_utf8(encode_utf8(chars)) == chars,
{
    vstd::utf8::encode_utf8_valid_utf8(chars);
    vstd::utf8::encode_utf8_decode_utf8(chars);
    if chars.len() == 0 {
        assert(encode_utf8(chars) =~= Seq::<u8>::empty());
    } else if encode_utf8(chars).len() == 0 {
        assert(encode_utf8(chars) =~= Seq::<u8>::empty());
        assert(decode_utf8(Seq::<u8>::empty()) =~= Seq::<char>::empty());
    }
}

/// Well-formed claims are read back from their payload fields.
pub proof fn lemma_claims_fields_roundtrip(c: ClaimsView)
    requires
        c.bucket.len() > 0,
    ensures
        fields_claims(claims_fields(c)) == Some(c),
{
    lemma_encode_nonempty(c.bucket);
    lemma_be8_roundtrip(c.bucket_generation);
    lemma_be16_roundtrip(c.iat as u128);
    lemma_be16_roundtrip(c.exp as u128);
    lemma_signed_roundtrip(c.iat, 0);
    lemma_signed_roundtrip(c.exp, 0);
    lemma_permission_byte(c.permissions, 0);
}

/// Well-formed fields are the payload fields of the claims they denote.
pub proof fn lemma_fields_claims_inverse(fs: Seq<Seq<u8>>)
    requires
        fields_claims(fs) is Some,
    ensures
        claims_fields(fields_claims(fs)->0) == fs,
{
    let c = fields_claims(fs)->0;
    vstd::utf8::decode_utf8_encode_utf8(fs[1]);
    lemma_be8_inverse(fs[2]);
    lemma_be16_inverse(fs[5]);
    lemma_be16_inverse(fs[6]);
    lemma_signed_roundtrip(0, from_be16(fs[5]));
    lemma_signed_roundtrip(0, from_be16(fs[6]));
    lemma_permission_byte(c.permissions, fs[4][0]);
    assert(claims_fields(c)[0] =~= fs[0]);
    assert(claims_fields(c)[4] =~= fs[4]);
    assert(claims_fields(c) =~= fs);
}

/// Claims with a non-empty bucket are determined by their payload text.
pub proof fn lemma_claims_json_injective(c: ClaimsView, d: ClaimsView)
    requires
        c.bucket.len() > 0,
        d.bucket.len() > 0,
        claims_json(c) == claims_json(d),
    ensures
        c == d,
{
    lemma_fields_json_injective(claims_fields(c), claims_fields(d));
    lemma_claims_fields_roundtrip(c);
    lemma_claims_fields_roundtrip(d);
}

/// The bytes of payload field `k` of `c`.
fn claims_field_bytes(c: &TemporaryTokenClaims, k: usize) -> (r: Vec<u8>)
    requires
        k < 7,
    ensures
        r@ == claims_fields(c@)[k as int],
{
    if k == 0 {
        let r = vec![c.version];
        assert(r@ =~= seq![c.version]);
        r
    } else if k == 1 {
        let mut r: Vec<u8> = Vec::new();
        r.extend_from_slice(c.bucket.as_str().as_bytes());
        r
    } else if k == 2 {
        be8_bytes(c.bucket_generation)
    } else if k == 3 {
        c.allowed_prefix.clone()
    } else if k == 4 {
        let p = c.permissions;
        let v: u8 = (if p.read { 1u8 } else { 0u8 }) + (if p.write { 2u8 } else { 0u8 }) + (if p.enumerate {
            4u8
        } else {
            0u8
        }) + (if p.delete { 8u8 } else { 0u8 });
        let r = vec![v];
        assert(r@ =~= seq![permission_byte(p)]);
        r
    } else if k == 5 {
        be16_bytes(c.iat as u128)
    } else {
        be16_bytes(c.exp as u128)
    }
}

fn be8_bytes(x: u64) -> (r: Vec<u8>)
    ensures
        r@ == be8(x),
{
    let r = vec![
        (x >> 56u64) as u8,
        (x >> 48u64) as u8,
        (x >> 40u64) as u8,
        (x >> 32u64) as u8,
        (x >> 24u64) as u8,
        (x >> 16u64) as u8,
        (x >> 8u64) as u8,
        x as u8,
    ];
    assert(r@ =~= be8(x));
    r
}

fn be16_bytes(x: u128) -> (r: Vec<u8>)
    ensures
        r@ == be16(x),
{
    let mut r = be8_bytes((x >> 64u128) as u64);
    let lo = be8_bytes(x as u64);
    r.extend_from_slice(lo.as_slice());
    assert(r@ =~= be16(x));
    r
}

fn from_be16_bytes(s: &[u8]) -> (r: u128)
    requires
        s@.len() == 16,
    ensures
        r == from_be16(s@),
{
    let hi = from_be8_bytes(crate::text::sub_bytes(s, 0, 8).as_slice());
    let lo = from_be8_bytes(crate::text::sub_bytes(s, 8, 16).as_slice());
    ((hi as u128) << 64u128) | (lo as u128)
}

fn from_be8_bytes(s: &[u8]) -> (r: u64)
    requires
        s@.len() == 8,
    ensures
        r == from_be8(s@),
{
    ((s[0] as u64) << 56u64) | ((s[1] as u64) << 48u64) | ((s[2] as u64) << 40u64) | ((s[3] as u64)
        << 32u64) | ((s[4] as u64) << 24u64) | ((s[5] as u64) << 16u64) | ((s[6] as u64) << 8u64)
        | (s[7] as u64)
}

/// Length of the payload text of `c`, in terms of its two variable fields.
proof fn lemma_claims_json_len(c: ClaimsView)
    ensures
        claims_json(c).len() == 188 + 2 * (encode_utf8(c.bucket).len() + c.allowed_prefix.len()),
{
    let fs = claims_fields(c);
    reveal_with_fuel(json_from, 8);
    assert(fs[0].len() == 1);
    assert(fs[2].len() == 8);
    assert(fs[4].len() == 1);
    assert(fs[5].len() == 16);
    assert(fs[6].len() == 16);
}

/// Writes the payload text of `c`; `requires` bounds its size.
pub fn encode_claims(c: &TemporaryTokenClaims) -> (r: Vec<u8>)
    requires
        encode_utf8(c@.bucket).len() + c@.allowed_prefix.len() <= usize::MAX / 16,
    ensures
        r@ == claims_json(c@),
        r@.len() == 188 + 2 * (encode_utf8(c@.bucket).len() + c@.allowed_prefix.len()),
{
    let ghost fs = claims_fields(c@);
    proof {
        lemma_claims_json_len(c@);
        lemma_json_split(fs, 7);
    }
    let mut out: Vec<u8> = Vec::new();
    let mut k: usize = 0;
    while k < 7
        invariant
            k <= 7,
            fs == claims_fields(c@),
            out@ == json_upto(fs, k as nat),
            fields_json(fs) == json_upto(fs, 7) + claims_lit(7),
            fields_json(fs).len() <= usize::MAX / 2,
            encode_utf8(c@.bucket).len() + c@.allowed_prefix.len() <= usize::MAX / 16,
        decreases 7 - k,
    {
        proof {
            lemma_upto_len_mono(fs, (k + 1) as nat, 7);
        }
        let lit = claims_lit_bytes(k);
        out.extend_from_slice(lit.as_slice());
        let f = claims_field_bytes(c, k);
        encode_hex(f.as_slice(), &mut out);
        assert(out@ =~= json_upto(fs, (k + 1) as nat));
        k = k + 1;
    }
    let last = claims_lit_bytes(7);
    out.extend_from_slice(last.as_slice());
    out
}

proof fn lemma_upto_len_mono(fs: Seq<Seq<u8>>, k: nat, m: nat)
    requires
        k <= m,
    ensures
        json_upto(fs, k).len() <= json_upto(fs, m).len(),
    decreases m - k,
{
    if k < m {
        lemma_upto_len_mono(fs, k, (m - 1) as nat);
    }
}

/// The claims whose payload text is `b`, if any (there is at most one).
pub open spec fn decode_claims(b: Seq<u8>) -> Option<ClaimsView> {
    if exists|v: ClaimsView| v.bucket.len() > 0 && #[trigger] claims_json(v) == b {
        Some(choose|v: ClaimsView| v.bucket.len() > 0 && #[trigger] claims_json(v) == b)
    } else {
        None
    }
}

/// The payload text of claims with a non-empty bucket decodes to them.
pub proof fn lemma_decode_claims_json(c: ClaimsView)
    requires
        c.bucket.len() > 0,
    ensures
        decode_claims(claims_json(c)) == Some(c),
{
    let b = claims_json(c);
    assert(exists|v: ClaimsView| v.bucket.len() > 0 && #[trigger] claims_json(v) == b);
    let d = choose|v: ClaimsView| v.bucket.len() > 0 && #[trigger] claims_json(v) == b;
    lemma_claims_json_injective(c, d);
}

/// Reads claims back from a payload text: `Some` exactly when `b` is the
/// payload text of claims with a non-empty bucket, which it then determines.
pub fn parse_claims(b: &[u8]) -> (r: Option<TemporaryTokenClaims>)
    ensures
        r matches Some(c) ==> claims_json(c@) == b@ && decode_claims(b@) == Some(c@),
        r is None ==> forall|v: ClaimsView| v.bucket.len() > 0 ==> #[trigger] claims_json(v) != b@,
        r is None <==> decode_claims(b@) is None,
{
    let fields = match parse_fields(b) {
        Some(fs) => fs,
        None => {
            proof {
                assert forall|v: ClaimsView| v.bucket.len() > 0 implies #[trigger] claims_json(v) != b@ by {
                    assert(claims_fields(v).len() == 7);
                }
            }
            return None;
        },
    };
    let ghost fv = field_views(fields@);
    proof {
        assert forall|v: ClaimsView| v.bucket.len() > 0 && #[trigger] claims_json(v) == b@ implies fields_claims(fv) == Some(v) by {
            lemma_fields_json_injective(claims_fields(v), fv);
            lemma_claims_fields_roundtrip(v);
        }
    }
    let f0 = &fields[0];
    let f1 = &fields[1];
    let f2 = &fields[2];
    let f4 = &fields[4];
    let f5 = &fields[5];
    let f6 = &fields[6];
    assert(fv[0] == f0@ && fv[1] == f1@ && fv[2] == f2@ && fv[3] == fields@[3]@ && fv[4] == f4@
        && fv[5] == f5@ && fv[6] == f6@);
    if !(f0.len() == 1 && f1.len() > 0 && f2.len() == 8 && f4.len() == 1 && f4[0] < 16 && f5.len()
        == 16 && f6.len() == 16) {
        return None;
    }
    let bucket_text = match utf8_to_string(f1.clone()) {
        Some(t) => t,
        None => {
            return None;
        },
    };
    let ghost c = fields_claims(fv)->0;
    proof {
        vstd::utf8::decode_utf8_encode_utf8(f1@);
        if bucket_text@.len() == 0 {
            assert(decode_utf8(f1@) =~= Seq::<char>::empty());
            assert(encode_utf8(Seq::<char>::empty()) =~= Seq::<u8>::empty());
        }
    }
    let bucket = match BucketId::new(bucket_text) {
        Ok(id) => id,
        Err(_) => {
            return None;
        },
    };
    let pb = f4[0];
    let claims = TemporaryTokenClaims {
        version: f0[0],
        bucket,
        bucket_generation: from_be8_bytes(f2.as_slice()),
        allowed_prefix: fields[3].clone(),
        permissions: Permission {
            read: pb % 2 == 1,
            write: (pb / 2) % 2 == 1,
            enumerate: (pb / 4) % 2 == 1,
            delete: (pb / 8) % 2 == 1,
        },
        iat: from_be16_bytes(f5.as_slice()) as i128,
        exp: from_be16_bytes(f6.as_slice()) as i128,
    };
    proof {
        assert(claims@ == c);
        lemma_fields_claims_inverse(fv);
        lemma_decode_claims_json(c);
    }
    Some(claims)
}

} // verus!
