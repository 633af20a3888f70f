//! `POST /{bucket}`: atomic multi-key transactions.
use vstd::prelude::*;
use vstd::string::StringSliceAdditionalSpecFns;
use vstd::utf8::encode_utf8;

use crate::access::{spec_require_delete, spec_require_write, BucketAuth};
use crate::domain::{valid_key_bytes, TxnOp, ValueKind};
use crate::encoding::percent_decode;
use crate::error::{ApiError, UseCaseError};
use crate::handlers::parse_percent_encoded_key;
use crate::keys::{spec_resolve_ttl, spec_stored_value, KeyService};
use crate::text::string_into_bytes;

verus! {

/// The JSON value of a transaction write, as the request carried it: `null`,
/// a string, or any other JSON value in its compact JSON text.
pub enum TxnValue {
    Null,
    Text(String),
    Json(Vec<u8>),
}

/// `{"set": key, "value": .., "ttl": ..}`.
pub struct TxnSet {
    pub set: String,
    pub value: TxnValue,
    pub ttl: Option<u64>,
}

/// `{"delete": key}`.
pub struct TxnDelete {
    pub delete: String,
}

/// One operation of a transaction request.
pub enum TxnItem {
    Store(TxnSet),
    Delete(TxnDelete),
}

/// Body of `POST /{bucket}`.
pub struct TxnRequest {
    pub txn: Vec<TxnItem>,
}

/// The `Content-Type` under which non-string JSON values are stored.
pub fn json_content_type() -> (r: &'static str)
    ensures
        r@ == "application/json"@,
{
    "application/json"
}

/// The body and content type a JSON value is stored with: a string keeps its
/// UTF-8 bytes and has no content type, any other value is stored as its
/// JSON text under `application/json`; `null` is a `400`.
pub open spec fn spec_json_value_to_body(value: TxnValue) -> Result<(Seq<u8>, Option<Seq<char>>), ApiError> {
    match value {
        TxnValue::Null => Err(ApiError::BadRequest),
        TxnValue::Text(s) => Ok((encode_utf8(s@), None)),
        TxnValue::Json(b) => Ok((b@, Some("application/json"@))),
    }
}

/// The body and content type a JSON value is stored with (see [`spec_json_value_to_body`]).
pub fn json_value_to_body(value: TxnValue) -> (r: Result<(Vec<u8>, Option<&'static str>), ApiError>)
    ensures
        match (r, spec_json_value_to_body(value)) {
            (Ok((b, ct)), Ok((sb, sct))) => b@ == sb && match (ct, sct) {
                (Some(c), Some(d)) => c@ == d,
                (None, None) => true,
                _ => false,
            },
            (Err(e), Err(f)) => e == f,
            _ => false,
        },
{
    match value {
        TxnValue::Null => Err(ApiError::BadRequest),
        TxnValue::Text(s) => Ok((string_into_bytes(s), None)),
        TxnValue::Json(b) => Ok((b, Some(json_content_type()))),
    }
}

/// A batch operation as plain values.
pub enum TxnOpView {
    Store(Seq<u8>, Seq<u8>, ValueKind, Option<i128>),
    Delete(Seq<u8>),
}

pub open spec fn txn_op_view(op: TxnOp) -> TxnOpView {
    match op {
        TxnOp::Store { key, value, expires_at } => TxnOpView::Store(key@, value.payload@, value.kind, expires_at),
        TxnOp::Delete { key } => TxnOpView::Delete(key@),
    }
}

/// The batch operation a request item asks for, at instant `now`: its key
/// must decode to a valid key (else `400`) that the identity may write (or
/// delete); a written value must not be `null` (`400`), must fit the store
/// (else `500`) and gets the expiry of a transaction write (unrepresentable: `500`).
#[verifier::opaque]
pub open spec fn spec_txn_op(auth: BucketAuth, item: TxnItem, now: i128) -> Result<TxnOpView, ApiError> {
    match item {
        TxnItem::Store(s) => {
            let k = percent_decode(encode_utf8(s.set@));
            if !valid_key_bytes(k) {
                Err(ApiError::BadRequest)
            } else if spec_require_write(auth, k) is Err {
                Err(spec_require_write(auth, k)->Err_0)
            } else {
                match spec_json_value_to_body(s.value) {
                    Err(e) => Err(e),
                    Ok((body, ct)) => match spec_stored_value(body, ct) {
                        Err(_) => Err(ApiError::InternalError),
                        Ok((payload, kind)) => match spec_resolve_ttl(now, s.ttl, auth.default_ttl_secs) {
                            Err(_) => Err(ApiError::InternalError),
                            Ok(exp) => Ok(TxnOpView::Store(k, payload, kind, exp)),
                        },
                    },
                }
            }
        },
        TxnItem::Delete(d) => {
            let k = percent_decode(encode_utf8(d.delete@));
            if !valid_key_bytes(k) {
                Err(ApiError::BadRequest)
            } else if spec_require_delete(auth, k) is Err {
                Err(spec_require_delete(auth, k)->Err_0)
            } else {
                Ok(TxnOpView::Delete(k))
            }
        },
    }
}

/// The batch operation a request item asks for (see [`spec_txn_op`]).
pub fn txn_op(auth: &BucketAuth, item: TxnItem, now: i128) -> (r: Result<TxnOp, ApiError>)
    ensures
        match (r, spec_txn_op(*auth, item, now)) {
            (Ok(op), Ok(v)) => txn_op_view(op) == v,
            (Err(e), Err(f)) => e == f,
            _ => false,
        },
{
    reveal(spec_txn_op);
    match item {
        TxnItem::Store(s) => {
            let key = match parse_percent_encoded_key(s.set.as_str()) {
                Ok(k) => k,
                Err(e) => {
                    return Err(e);
                },
            };
            match auth.require_write_on(&key) {
                Ok(()) => {},
                Err(e) => {
                    return Err(e);
                },
            }
            let (body, content_type) = match json_value_to_body(s.value) {
                Ok(bc) => bc,
                Err(e) => {
                    return Err(e);
                },
            };
            let stored = match KeyService::infer_stored_value(body, content_type) {
                Ok(v) => v,
                Err(_) => {
                    return Err(ApiError::InternalError);
                },
            };
            let expires_at = match KeyService::resolve_ttl_at(now, s.ttl, auth.default_ttl_secs) {
                Ok(e) => e,
                Err(_) => {
                    return Err(ApiError::InternalError);
                },
            };
            Ok(TxnOp::Store { key, value: stored, expires_at })
        },
        TxnItem::Delete(d) => {
            let key = match parse_percent_encoded_key(d.delete.as_str()) {
                Ok(k) => k,
                Err(e) => {
                    return Err(e);
                },
            };
            match auth.require_delete_on(&key) {
                Ok(()) => {},
                Err(e) => {
                    return Err(e);
                },
            }
            Ok(TxnOp::Delete { key })
        },
    }
}

/// The batch a transaction request asks for: its items' operations in order,
/// or the error of the first item that is refused.
pub open spec fn spec_txn_ops(auth: BucketAuth, items: Seq<TxnItem>, now: i128) -> Result<Seq<TxnOpView>, ApiError>
    decreases items.len(),
{
    if items.len() == 0 {
        Ok(Seq::empty())
    } else {
        match spec_txn_ops(auth, items.drop_last(), now) {
            Err(e) => Err(e),
            Ok(ops) => match spec_txn_op(auth, items.last(), now) {
                Err(e) => Err(e),
                Ok(op) => Ok(ops.push(op)),
            },
        }
    }
}

proof fn lemma_txn_ops_step(auth: BucketAuth, all: Seq<TxnItem>, now: i128, i: int)
    requires
        0 <= i < all.len(),
    ensures
        spec_txn_ops(auth, all.subrange(0, i + 1), now) == match spec_txn_ops(auth, all.subrange(0, i), now) {
            Err(e) => Err(e),
            Ok(ops) => match spec_txn_op(auth, all[i], now) {
                Err(e) => Err(e),
                Ok(op) => Ok(ops.push(op)),
            },
        },
{
    let next = all.subrange(0, i + 1);
    assert(next.drop_last() =~= all.subrange(0, i));
    assert(next.last() == all[i]);
}

proof fn lemma_refused_prefix(auth: BucketAuth, items: Seq<TxnItem>, now: i128, j: int)
    requires
        0 <= j <= items.len(),
        spec_txn_ops(auth, items.subrange(0, j), now) is Err,
    ensures
        spec_txn_ops(auth, items, now) == spec_txn_ops(auth, items.subrange(0, j), now),
    decreases items.len() - j,
{
    if j < items.len() {
        assert(items.subrange(0, j + 1).drop_last() =~= items.subrange(0, j));
        lemma_refused_prefix(auth, items, now, j + 1);
    } else {
        assert(items.subrange(0, j) =~= items);
    }
}

/// The key a request item names, decoded.
pub open spec fn item_key(item: TxnItem) -> Seq<u8> {
    match item {
        TxnItem::Store(s) => percent_decode(encode_utf8(s.set@)),
        TxnItem::Delete(d) => percent_decode(encode_utf8(d.delete@)),
    }
}

/// An item becomes an operation only when the identity may do it: a write
/// of its own decoded key that it may write, or a delete of its own decoded
/// key that it may delete.
pub proof fn lemma_item_operation_is_permitted(auth: BucketAuth, item: TxnItem, now: i128)
    ensures
        spec_txn_op(auth, item, now) matches Ok(op) ==> match op {
            TxnOpView::Store(k, _, _, _) => item is Store && k == item_key(item) && valid_key_bytes(k)
                && spec_require_write(auth, k) is Ok,
            TxnOpView::Delete(k) => item is Delete && k == item_key(item) && valid_key_bytes(k)
                && spec_require_delete(auth, k) is Ok,
        },
{
    reveal(spec_txn_op);
}

/// A transaction is all or nothing: it yields one operation per item, the
/// `i`-th being what item `i` asks for, exactly when every item is accepted;
/// when any item is refused it yields no operation at all.
pub proof fn lemma_batch_is_all_or_nothing(auth: BucketAuth, items: Seq<TxnItem>, now: i128)
    ensures
        spec_txn_ops(auth, items, now) is Ok <==> forall|i: int| 0 <= i < items.len() ==> #[trigger] spec_txn_op(
            auth,
            items[i],
            now,
        ) is Ok,
        spec_txn_ops(auth, items, now) matches Ok(ops) ==> ops.len() == items.len() && forall|i: int|
            0 <= i < items.len() ==> spec_txn_op(auth, items[i], now) == Ok::<TxnOpView, ApiError>(
                #[trigger] ops[i],
            ),
    decreases items.len(),
{
    if items.len() > 0 {
        let init = items.drop_last();
        lemma_batch_is_all_or_nothing(auth, init, now);
        assert forall|i: int| 0 <= i < init.len() implies #[trigger] init[i] == items[i] by {}
        if spec_txn_ops(auth, items, now) is Ok {
            let ops = spec_txn_ops(auth, items, now)->Ok_0;
            let prev = spec_txn_ops(auth, init, now)->Ok_0;
            assert forall|i: int| 0 <= i < items.len() implies spec_txn_op(auth, items[i], now)
                == Ok::<TxnOpView, ApiError>(#[trigger] ops[i]) by {
                if i < init.len() {
                    assert(init[i] == items[i]);
                    assert(ops[i] == prev[i]);
                }
            }
            assert forall|i: int| 0 <= i < items.len() implies #[trigger] spec_txn_op(auth, items[i], now) is Ok by {
                assert(spec_txn_op(auth, items[i], now) == Ok::<TxnOpView, ApiError>(ops[i]));
            }
        } else {
            if spec_txn_ops(auth, init, now) is Err {
                let j = choose|j: int| 0 <= j < init.len() && !(#[trigger] spec_txn_op(auth, init[j], now) is Ok);
                assert(init[j] == items[j]);
                assert(!(spec_txn_op(auth, items[j], now) is Ok));
            } else {
                assert(items.last() == items[items.len() - 1]);
                assert(!(spec_txn_op(auth, items[items.len() - 1], now) is Ok));
            }
        }
    }
}

/// The batch a transaction request asks for (see [`spec_txn_ops`]).
pub fn build_txn_ops(auth: &BucketAuth, items: Vec<TxnItem>, now: i128) -> (r: Result<Vec<TxnOp>, ApiError>)
    ensures
        match (r, spec_txn_ops(*auth, items@, now)) {
            (Ok(ops), Ok(v)) => ops@.map_values(|o: TxnOp| txn_op_view(o)) == v,
            (Err(e), Err(f)) => e == f,
            _ => false,
        },
{
    let ghost all = items@;
    let mut ops: Vec<TxnOp> = Vec::new();
    let mut rest = items;
    let mut i: usize = 0;
    assert(all.subrange(0, 0) =~= Seq::<TxnItem>::empty());
    assert(all.subrange(0, all.len() as int) =~= all);
    assert(ops@.map_values(|o: TxnOp| txn_op_view(o)) =~= Seq::<TxnOpView>::empty());
    assert(rest@.len() == rest.len());
    while rest.len() > 0
        invariant
            i + rest@.len() == all.len(),
            all == items@,
            all.len() <= usize::MAX,
            rest@ == all.subrange(i as int, all.len() as int),
            spec_txn_ops(*auth, all.subrange(0, i as int), now) == Ok::<Seq<TxnOpView>, ApiError>(
                ops@.map_values(|o: TxnOp| txn_op_view(o)),
            ),
        decreases rest@.len(),
    {
        let ghost before = ops@;
        let item = rest.remove(0);
        assert(item == all[i as int]);
        assert(rest@ =~= all.subrange(i + 1, all.len() as int));
        proof {
            lemma_txn_ops_step(*auth, all, now, i as int);
        }
        match txn_op(auth, item, now) {
            Ok(op) => {
                ops.push(op);
                assert(ops@.map_values(|o: TxnOp| txn_op_view(o)) =~= before.map_values(
                    |o: TxnOp| txn_op_view(o),
                ).push(txn_op_view(op)));
            },
            Err(e) => {
                proof {
                    assert(spec_txn_op(*auth, all[i as int], now) == Err::<TxnOpView, ApiError>(e));
                    assert(spec_txn_ops(*auth, all.subrange(0, i + 1), now) == Err::<Seq<TxnOpView>, ApiError>(e));
                    lemma_refused_prefix(*auth, all, now, i + 1);
                }
                return Err(e);
            },
        }
        i = i + 1;
    }
    assert(all.subrange(0, i as int) =~= all);
    Ok(ops)
}

/// `POST /{bucket}`: the batch to apply at instant `now`, which is
/// [`build_txn_ops`]'s: every item checked and turned into its operation, in
/// order. When an item is refused, its error is the answer and nothing is to
/// be applied; otherwise the whole batch is applied at once
/// ([`crate::keys::TxnService::execute`]) and answered by [`crate::handlers::write_answer`].
pub fn execute_txn(auth: &BucketAuth, request: TxnRequest, now: i128) -> (r: Result<Vec<TxnOp>, ApiError>)
    ensures
        match (r, spec_txn_ops(*auth, request.txn@, now)) {
            (Ok(ops), Ok(v)) => ops@.map_values(|o: TxnOp| txn_op_view(o)) == v,
            (Err(e), Err(f)) => e == f,
            _ => false,
        },
{
    build_txn_ops(auth, request.txn, now)
}

} // verus!
