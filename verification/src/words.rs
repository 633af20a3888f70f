//! Fixed words of the wire protocol, as character and byte sequences.
use vstd::prelude::*;

verus! {

/// The characters of `access_token`.
pub open spec fn LIT_ACCESS_TOKEN() -> Seq<char> {
    seq!['a', 'c', 'c', 'e', 's', 's', '_', 't', 'o', 'k', 'e', 'n']
}

pub fn lit_access_token() -> (r: Vec<char>)
    ensures
        r@ == LIT_ACCESS_TOKEN(),
{
    let r = vec!['a', 'c', 'c', 'e', 's', 's', '_', 't', 'o', 'k', 'e', 'n'];
    assert(r@ =~= LIT_ACCESS_TOKEN());
    r
}

/// The characters of `key`.
pub open spec fn LIT_KEY() -> Seq<char> {
    seq!['k', 'e', 'y']
}

pub fn lit_key() -> (r: Vec<char>)
    ensures
        r@ == LIT_KEY(),
{
    let r = vec!['k', 'e', 'y'];
    assert(r@ =~= LIT_KEY());
    r
}

/// The characters of `read`.
pub open spec fn LIT_READ() -> Seq<char> {
    seq!['r', 'e', 'a', 'd']
}

pub fn lit_read() -> (r: Vec<char>)
    ensures
        r@ == LIT_READ(),
{
    let r = vec!['r', 'e', 'a', 'd'];
    assert(r@ =~= LIT_READ());
    r
}

/// The characters of `write`.
pub open spec fn LIT_WRITE() -> Seq<char> {
    seq!['w', 'r', 'i', 't', 'e']
}

pub fn lit_write() -> (r: Vec<char>)
    ensures
        r@ == LIT_WRITE(),
{
    let r = vec!['w', 'r', 'i', 't', 'e'];
    assert(r@ =~= LIT_WRITE());
    r
}

/// The characters of `enumerate`.
pub open spec fn LIT_ENUMERATE() -> Seq<char> {
    seq!['e', 'n', 'u', 'm', 'e', 'r', 'a', 't', 'e']
}

pub fn lit_enumerate() -> (r: Vec<char>)
    ensures
        r@ == LIT_ENUMERATE(),
{
    let r = vec!['e', 'n', 'u', 'm', 'e', 'r', 'a', 't', 'e'];
    assert(r@ =~= LIT_ENUMERATE());
    r
}

/// The characters of `delete`.
pub open spec fn LIT_DELETE() -> Seq<char> {
    seq!['d', 'e', 'l', 'e', 't', 'e']
}

pub fn lit_delete() -> (r: Vec<char>)
    ensures
        r@ == LIT_DELETE(),
{
    let r = vec!['d', 'e', 'l', 'e', 't', 'e'];
    assert(r@ =~= LIT_DELETE());
    r
}

/// The characters of `text`.
pub open spec fn LIT_TEXT() -> Seq<char> {
    seq!['t', 'e', 'x', 't']
}

pub fn lit_text() -> (r: Vec<char>)
    ensures
        r@ == LIT_TEXT(),
{
    let r = vec!['t', 'e', 'x', 't'];
    assert(r@ =~= LIT_TEXT());
    r
}

/// The characters of `json`.
pub open spec fn LIT_JSON() -> Seq<char> {
    seq!['j', 's', 'o', 'n']
}

pub fn lit_json() -> (r: Vec<char>)
    ensures
        r@ == LIT_JSON(),
{
    let r = vec!['j', 's', 'o', 'n'];
    assert(r@ =~= LIT_JSON());
    r
}

/// The characters of `jsonl`.
pub open spec fn LIT_JSONL() -> Seq<char> {
    seq!['j', 's', 'o', 'n', 'l']
}

pub fn lit_jsonl() -> (r: Vec<char>)
    ensures
        r@ == LIT_JSONL(),
{
    let r = vec!['j', 's', 'o', 'n', 'l'];
    assert(r@ =~= LIT_JSONL());
    r
}

/// The characters of `application/json`.
pub open spec fn LIT_APPLICATION_JSON() -> Seq<char> {
    seq!['a', 'p', 'p', 'l', 'i', 'c', 'a', 't', 'i', 'o', 'n', '/', 'j', 's', 'o', 'n']
}

pub fn lit_application_json() -> (r: Vec<char>)
    ensures
        r@ == LIT_APPLICATION_JSON(),
{
    let r = vec!['a', 'p', 'p', 'l', 'i', 'c', 'a', 't', 'i', 'o', 'n', '/', 'j', 's', 'o', 'n'];
    assert(r@ =~= LIT_APPLICATION_JSON());
    r
}

/// The characters of `application/x-ndjson`.
pub open spec fn LIT_APPLICATION_X_NDJSON() -> Seq<char> {
    seq!['a', 'p', 'p', 'l', 'i', 'c', 'a', 't', 'i', 'o', 'n', '/', 'x', '-', 'n', 'd', 'j', 's', 'o', 'n']
}

pub fn lit_application_x_ndjson() -> (r: Vec<char>)
    ensures
        r@ == LIT_APPLICATION_X_NDJSON(),
{
    let r = vec!['a', 'p', 'p', 'l', 'i', 'c', 'a', 't', 'i', 'o', 'n', '/', 'x', '-', 'n', 'd', 'j', 's', 'o', 'n'];
    assert(r@ =~= LIT_APPLICATION_X_NDJSON());
    r
}

/// The characters of `application/ndjson`.
pub open spec fn LIT_APPLICATION_NDJSON() -> Seq<char> {
    seq!['a', 'p', 'p', 'l', 'i', 'c', 'a', 't', 'i', 'o', 'n', '/', 'n', 'd', 'j', 's', 'o', 'n']
}

pub fn lit_application_ndjson() -> (r: Vec<char>)
    ensures
        r@ == LIT_APPLICATION_NDJSON(),
{
    let r = vec!['a', 'p', 'p', 'l', 'i', 'c', 'a', 't', 'i', 'o', 'n', '/', 'n', 'd', 'j', 's', 'o', 'n'];
    assert(r@ =~= LIT_APPLICATION_NDJSON());
    r
}

/// The characters of `text/plain`.
pub open spec fn LIT_TEXT_PLAIN() -> Seq<char> {
    seq!['t', 'e', 'x', 't', '/', 'p', 'l', 'a', 'i', 'n']
}

pub fn lit_text_plain() -> (r: Vec<char>)
    ensures
        r@ == LIT_TEXT_PLAIN(),
{
    let r = vec!['t', 'e', 'x', 't', '/', 'p', 'l', 'a', 'i', 'n'];
    assert(r@ =~= LIT_TEXT_PLAIN());
    r
}

/// The bytes of `Bearer `.
pub open spec fn LIT_BEARER() -> Seq<u8> {
    seq![66u8, 101u8, 97u8, 114u8, 101u8, 114u8, 32u8]
}

pub fn lit_bearer() -> (r: Vec<u8>)
    ensures
        r@ == LIT_BEARER(),
{
    let r = vec![66u8, 101u8, 97u8, 114u8, 101u8, 114u8, 32u8];
    assert(r@ =~= LIT_BEARER());
    r
}

/// The bytes of `Basic `.
pub open spec fn LIT_BASIC() -> Seq<u8> {
    seq![66u8, 97u8, 115u8, 105u8, 99u8, 32u8]
}

pub fn lit_basic() -> (r: Vec<u8>)
    ensures
        r@ == LIT_BASIC(),
{
    let r = vec![66u8, 97u8, 115u8, 105u8, 99u8, 32u8];
    assert(r@ =~= LIT_BASIC());
    r
}

} // verus!
