//! JSON text pieces: strings and re-serialised documents (through
//! `serde_json`), decimal integers and byte arrays.
use vstd::prelude::*;

verus! {

/// The bytes `serde_json::to_vec` writes for the JSON string `s` (quoted,
/// with its escapes).
pub uninterp spec fn spec_json_string(s: Seq<char>) -> Seq<u8>;

/// What parsing `b` as a JSON document with `serde_json` and writing the
/// document back compactly gives; `None` where `b` does not parse.
pub uninterp spec fn spec_json_compact(b: Seq<u8>) -> Option<Seq<u8>>;

pub open spec fn opt_bytes(o: Option<Vec<u8>>) -> Option<Seq<u8>> {
    match o {
        Some(v) => Some(v@),
        None => None,
    }
}

/// Calls `serde_json::to_vec` on a string slice. Claims that the bytes are
/// `spec_json_string(s)`. Writing a string into a `Vec` cannot fail in the
/// crate's serializer; the error arm is never taken.
#[verifier::external_body]
pub(crate) fn json_string_bytes(s: &str) -> (r: Vec<u8>)
    ensures
        r@ == spec_json_string(s@),
{
    match serde_json::to_vec(s) {
        Ok(v) => v,
        Err(_) => Vec::new(),
    }
}

/// Parses `b` with `serde_json::from_slice` into a `serde_json::Value` and
/// writes it back with `serde_json::to_vec`. Claims that the outcome is
/// `spec_json_compact(b)`.
#[verifier::external_body]
pub(crate) fn json_compact(b: &[u8]) -> (r: Option<Vec<u8>>)
    ensures
        opt_bytes(r) == spec_json_compact(b@),
{
    match serde_json::from_slice::<serde_json::Value>(b) {
        Ok(v) => serde_json::to_vec(&v).ok(),
        Err(_) => None,
    }
}

/// Appends `b` to `out`.
pub fn append_bytes(out: &mut Vec<u8>, b: &[u8])
    ensures
        final(out)@ == old(out)@ + b@,
{
    let mut i: usize = 0;
    let ghost start = out@;
    while i < b.len()
        invariant
            i <= b@.len(),
            out@ == start + b@.subrange(0, i as int),
        decreases b@.len() - i,
    {
        out.push(b[i]);
        i += 1;
        assert(out@ =~= start + b@.subrange(0, i as int));
    }
    assert(b@.subrange(0, b@.len() as int) =~= b@);
}

/// The ASCII decimal digits of `n`, without leading zeros.
pub open spec fn spec_decimal(n: nat) -> Seq<u8>
    decreases n,
{
    if n < 10 {
        seq![(48 + n) as u8]
    } else {
        spec_decimal(n / 10) + seq![(48 + n % 10) as u8]
    }
}

/// A JSON integer: `-` before the digits of a negative number.
pub open spec fn spec_decimal_i64(n: i64) -> Seq<u8> {
    if n < 0 {
        seq![45u8] + spec_decimal((-n) as nat)
    } else {
        spec_decimal(n as nat)
    }
}

/// The number that ASCII decimal digits denote.
pub open spec fn decimal_value(s: Seq<u8>) -> int
    decreases s.len(),
{
    if s.len() == 0 {
        0
    } else {
        decimal_value(s.drop_last()) * 10 + (s.last() - 48)
    }
}

/// The written digits of `n` are decimal digits without a leading zero, and
/// read back as `n`.
pub proof fn lemma_decimal_reads_back(n: nat)
    ensures
        decimal_value(spec_decimal(n)) == n,
        spec_decimal(n).len() > 0,
        forall|i: int| 0 <= i < spec_decimal(n).len() ==> 48 <= #[trigger] spec_decimal(n)[i] <= 57,
        spec_decimal(n).len() > 1 ==> spec_decimal(n)[0] != 48,
        (spec_decimal(n).len() > 1) == (n >= 10),
    decreases n,
{
    let d = spec_decimal(n);
    if n >= 10 {
        let m = n / 10;
        lemma_decimal_reads_back(m);
        assert(n == m * 10 + n % 10);
        assert(((48 + n % 10) as u8) as int == 48 + n % 10);
        assert(d.drop_last() =~= spec_decimal(m));
        assert(d.last() == (48 + n % 10) as u8);
        assert(d[0] == spec_decimal(m)[0]);
        assert(d.len() == spec_decimal(m).len() + 1);
        assert(decimal_value(d) == decimal_value(d.drop_last()) * 10 + (d.last() - 48));
        assert forall|i: int| 0 <= i < d.len() implies 48 <= #[trigger] d[i] <= 57 by {
            if i < d.len() - 1 {
                assert(d[i] == spec_decimal(m)[i]);
            }
        }
        if m < 10 {
            assert(spec_decimal(m)[0] == (48 + m) as u8);
        }
    } else {
        assert(d.drop_last() =~= Seq::<u8>::empty());
        assert(((48 + n) as u8) as int == 48 + n);
        assert(d.len() == 1);
        assert(decimal_value(d) == decimal_value(d.drop_last()) * 10 + (d.last() - 48));
    }
}

/// An integer written as JSON reads back as the same integer: a `-` sign
/// exactly for negative numbers, then the digits of its magnitude.
pub proof fn lemma_integer_json_reads_back(n: i64)
    ensures
        (spec_decimal_i64(n)[0] == 45u8) <==> n < 0,
        n < 0 ==> -decimal_value(spec_decimal_i64(n).drop_first()) == n,
        n >= 0 ==> decimal_value(spec_decimal_i64(n)) == n,
{
    if n < 0 {
        lemma_decimal_reads_back((-n) as nat);
        assert(spec_decimal_i64(n).drop_first() =~= spec_decimal((-n) as nat));
    } else {
        lemma_decimal_reads_back(n as nat);
    }
}

fn push_decimal(out: &mut Vec<u8>, n: u64)
    ensures
        final(out)@ == old(out)@ + spec_decimal(n as nat),
    decreases n,
{
    if n >= 10 {
        push_decimal(out, n / 10);
    }
    let d: u8 = (n % 10) as u8;
    out.push(48 + d);
    proof {
        if n >= 10 {
            assert(out@ =~= old(out)@ + spec_decimal(n as nat));
        } else {
            assert(out@ =~= old(out)@ + spec_decimal(n as nat));
        }
    }
}

/// The JSON text of an integer.
pub fn decimal_i64(n: i64) -> (r: Vec<u8>)
    ensures
        r@ == spec_decimal_i64(n),
{
    let mut out: Vec<u8> = Vec::new();
    if n < 0 {
        out.push(45);
        let m: u64 = (-(n as i128)) as u64;
        push_decimal(&mut out, m);
    } else {
        push_decimal(&mut out, n as u64);
    }
    assert(out@ =~= spec_decimal_i64(n));
    out
}

/// The numbers of a byte array, separated by commas.
pub open spec fn byte_items(s: Seq<u8>) -> Seq<u8>
    decreases s.len(),
{
    if s.len() == 0 {
        Seq::empty()
    } else if s.len() == 1 {
        spec_decimal(s[0] as nat)
    } else {
        byte_items(s.drop_last()) + seq![44u8] + spec_decimal(s.last() as nat)
    }
}

/// A byte string as a JSON array of numbers, such as `[104,105]`.
pub open spec fn spec_json_byte_array(s: Seq<u8>) -> Seq<u8> {
    seq![91u8] + byte_items(s) + seq![93u8]
}

pub fn json_byte_array(s: &[u8]) -> (r: Vec<u8>)
    ensures
        r@ == spec_json_byte_array(s@),
{
    let mut out: Vec<u8> = Vec::new();
    out.push(91);
    let mut i: usize = 0;
    while i < s.len()
        invariant
            i <= s@.len(),
            out@ == seq![91u8] + byte_items(s@.subrange(0, i as int)),
        decreases s@.len() - i,
    {
        let ghost before = out@;
        if i > 0 {
            out.push(44);
        }
        push_decimal(&mut out, s[i] as u64);
        proof {
            let pre = s@.subrange(0, i + 1);
            assert(pre.drop_last() =~= s@.subrange(0, i as int));
            assert(pre.last() == s@[i as int]);
            if i == 0 {
                assert(pre.len() == 1);
                assert(out@ =~= seq![91u8] + byte_items(pre));
            } else {
                assert(out@ =~= seq![91u8] + byte_items(pre));
            }
        }
        i += 1;
    }
    out.push(93);
    assert(s@.subrange(0, s@.len() as int) =~= s@);
    assert(out@ =~= spec_json_byte_array(s@));
    out
}

} // verus!
