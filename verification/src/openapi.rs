//! Where the documented routes live: operational routes at the root,
//! product routes under `/api/v1`.
use vstd::prelude::*;

use crate::text::{chars_eq, chars_to_string, str_chars};

verus! {

/// The characters of `/api/v1`.
pub open spec fn API_PREFIX() -> Seq<char> {
    seq!['/', 'a', 'p', 'i', '/', 'v', '1']
}

/// The operational routes, served outside the API prefix.
pub open spec fn is_ops_path(p: Seq<char>) -> bool {
    p == seq!['/', 'h', 'e', 'a', 'l', 't', 'h'] || p == seq!['/', 'r', 'e', 'a', 'd', 'y']
}

/// The path under which a documented route is served: operational routes
/// stay as they are, the root becomes `/api/v1`, and every other route is
/// put under `/api/v1`.
pub open spec fn spec_api_doc_path(p: Seq<char>) -> Seq<char> {
    if is_ops_path(p) {
        p
    } else if p == seq!['/'] {
        API_PREFIX()
    } else {
        API_PREFIX() + p
    }
}

pub fn api_doc_path(path: &str) -> (r: String)
    ensures
        r@ == spec_api_doc_path(path@),
{
    let p = str_chars(path);
    let health = vec!['/', 'h', 'e', 'a', 'l', 't', 'h'];
    let ready = vec!['/', 'r', 'e', 'a', 'd', 'y'];
    let root = vec!['/'];
    let mut out = vec!['/', 'a', 'p', 'i', '/', 'v', '1'];
    assert(health@ =~= seq!['/', 'h', 'e', 'a', 'l', 't', 'h']);
    assert(ready@ =~= seq!['/', 'r', 'e', 'a', 'd', 'y']);
    assert(root@ =~= seq!['/']);
    assert(out@ =~= API_PREFIX());
    if chars_eq(p.as_slice(), health.as_slice()) || chars_eq(p.as_slice(), ready.as_slice()) {
        return chars_to_string(p.as_slice());
    }
    if chars_eq(p.as_slice(), root.as_slice()) {
        return chars_to_string(out.as_slice());
    }
    let ghost start = out@;
    let mut i: usize = 0;
    while i < p.len()
        invariant
            i <= p@.len(),
            out@ == start + p@.subrange(0, i as int),
        decreases p@.len() - i,
    {
        out.push(p[i]);
        i += 1;
        assert(out@ =~= start + p@.subrange(0, i as int));
    }
    assert(p@.subrange(0, p@.len() as int) =~= p@);
    chars_to_string(out.as_slice())
}

} // verus!
