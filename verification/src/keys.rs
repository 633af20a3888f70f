//! Key/value orchestration: storage interfaces, clock, TTL selection, and the
//! key and transaction services.
use vstd::prelude::*;

use crate::domain::{
    BucketId, BucketPolicy, Key, ListEntry, MAX_UNIX_NANOS, MAX_VALUE_LEN, MIN_UNIX_NANOS,
    StoredEntry, StoredValue, TxnOp, ValueKind,
};
use crate::error::{DomainError, UseCaseError};
use crate::text::starts_with;
use crate::values::{expiry_after, infer_value_kind, opt_text, spec_expiry, spec_infer_value_kind};

verus! {

/// Source of the current instant, in nanoseconds since the unix epoch.
pub trait Clock {
    fn now_utc(&self) -> i128;
}

/// The system UTC clock.
#[derive(Debug, Default, Clone, Copy)]
pub struct SystemClock;

/// Calls `time::OffsetDateTime::now_utc().unix_timestamp_nanos()`. Claims:
/// the instant lies in the range of dates that `time` represents. Nothing is
/// claimed of its value otherwise (it is the machine's clock).
#[verifier::external_body]
fn system_now_unix() -> (r: i128)
    ensures
        MIN_UNIX_NANOS <= r <= MAX_UNIX_NANOS,
{
    time::OffsetDateTime::now_utc().unix_timestamp_nanos()
}

impl Clock for SystemClock {
    /// The machine's current instant, within the range of dates `time` represents.
    fn now_utc(&self) -> (r: i128)
        ensures
            MIN_UNIX_NANOS <= r <= MAX_UNIX_NANOS,
    {
        system_now_unix()
    }
}

/// Listing options handed to the repository.
#[derive(Debug, Clone)]
pub struct ListOpts {
    pub prefix: Option<Vec<u8>>,
    pub limit: usize,
    pub skip: usize,
    pub reverse: bool,
    pub include_values: bool,
    /// Entries that expire at or before this instant are left out.
    pub now: i128,
}

/// Listing options as requested (defaults not yet applied).
#[derive(Debug, Clone)]
pub struct ListOptsInput {
    pub prefix: Option<Vec<u8>>,
    pub limit: Option<usize>,
    pub skip: Option<usize>,
    pub reverse: Option<bool>,
    pub include_values: Option<bool>,
}

/// Default number of keys a listing returns.
pub const DEFAULT_LIST_LIMIT: usize = 10000;

/// Persistence interface for bucket metadata.
pub trait BucketRepository {
    fn ping_metadata(&self) -> Result<(), UseCaseError>;

    fn get_policy(&self, bucket: &BucketId) -> Result<Option<BucketPolicy>, UseCaseError>;

    fn create_bucket(&self, id: &BucketId, policy: BucketPolicy) -> Result<(), UseCaseError>;

    fn delete_bucket(&self, id: &BucketId) -> Result<(), UseCaseError>;
}

/// Persistence interface for key-value payloads.
pub trait KeyRepository {
    fn get(&self, bucket: &BucketId, key: &Key) -> Result<Option<StoredEntry>, UseCaseError>;

    fn set(&self, bucket: &BucketId, key: &Key, value: StoredValue, expires_at: Option<i128>) -> Result<
        (),
        UseCaseError,
    >;

    fn delete(&self, bucket: &BucketId, key: &Key) -> Result<bool, UseCaseError>;

    /// Lists a bucket: at most `opts.limit` rows, each with a key that starts
    /// with `opts.prefix` when one is given.
    fn list(&self, bucket: &BucketId, opts: &ListOpts) -> (r: Result<Vec<ListEntry>, UseCaseError>)
        ensures
            r matches Ok(entries) ==> rows_fit(entries@, opt_prefix(opts.prefix), opts.limit),
    ;

    fn apply_batch(&self, bucket: &BucketId, ops: &[TxnOp]) -> Result<(), UseCaseError>;
}

/// An optional byte prefix as plain bytes.
pub open spec fn opt_prefix(o: Option<Vec<u8>>) -> Option<Seq<u8>> {
    match o {
        Some(p) => Some(p@),
        None => None,
    }
}

/// Whether a listed row's key starts with the prefix asked for (any key does when none is).
pub open spec fn row_within_prefix(e: ListEntry, prefix: Option<Seq<u8>>) -> bool {
    match prefix {
        Some(p) => starts_with(e.key@, p),
        None => true,
    }
}

/// Whether listed rows respect a listing's prefix and limit.
pub open spec fn rows_fit(rows: Seq<ListEntry>, prefix: Option<Seq<u8>>, limit: usize) -> bool {
    &&& rows.len() <= limit
    &&& forall|i: int| 0 <= i < rows.len() ==> #[trigger] row_within_prefix(rows[i], prefix)
}

/// An entry is expired once its expiry instant is reached.
pub open spec fn is_expired(expires_at: Option<i128>, now: i128) -> bool {
    expires_at matches Some(t) && t <= now
}

/// What a read returns, given what the repository returned: a missing or
/// expired entry is `NotFound`; repository errors pass through.
pub open spec fn spec_entry_from_lookup(
    lookup: Result<Option<StoredEntry>, UseCaseError>,
    now: i128,
) -> Result<StoredEntry, UseCaseError> {
    match lookup {
        Err(e) => Err(e),
        Ok(None) => Err(UseCaseError::NotFound),
        Ok(Some(entry)) => if is_expired(entry.expires_at, now) {
            Err(UseCaseError::NotFound)
        } else {
            Ok(entry)
        },
    }
}

/// What a delete returns for a repository answer: nothing deleted is `NotFound`.
pub open spec fn spec_delete_outcome(deleted: Result<bool, UseCaseError>) -> Result<(), UseCaseError> {
    match deleted {
        Ok(true) => Ok(()),
        Ok(false) => Err(UseCaseError::NotFound),
        Err(e) => Err(e),
    }
}

/// The stored value a write produces, given its body and content type.
pub open spec fn spec_stored_value(body: Seq<u8>, content_type: Option<Seq<char>>) -> Result<
    (Seq<u8>, ValueKind),
    UseCaseError,
> {
    if body.len() <= MAX_VALUE_LEN {
        Ok((body, spec_infer_value_kind(body, content_type)))
    } else {
        Err(UseCaseError::Domain(DomainError::ValueTooLarge))
    }
}

/// The expiry of a plain write: the override wins over the bucket default;
/// no TTL or a TTL of 0 means no expiry.
pub open spec fn spec_write_expiry(now: i128, ttl_override: Option<u64>, default_ttl: Option<u64>) -> Result<
    Option<i128>,
    UseCaseError,
> {
    let effective = if ttl_override is Some {
        ttl_override
    } else {
        default_ttl
    };
    match effective {
        None => Ok(None),
        Some(secs) => if secs == 0 {
            Ok(None)
        } else {
            match spec_expiry(now, secs) {
                Some(e) => Ok(Some(e)),
                None => Err(UseCaseError::Domain(DomainError::TimestampOutOfRange)),
            }
        },
    }
}

/// The expiry of a transaction write: a per-operation TTL of 0 or none means
/// "no override" (the bucket default applies); a resulting TTL of 0 means no expiry.
pub open spec fn spec_resolve_ttl(now: i128, ttl: Option<u64>, default_ttl: Option<u64>) -> Result<
    Option<i128>,
    UseCaseError,
> {
    let over = match ttl {
        Some(0) => None,
        other => other,
    };
    spec_write_expiry(now, over, default_ttl)
}

/// The value and expiry a write hands to the store: the stored value of
/// [`spec_stored_value`], then the expiry of [`spec_write_expiry`]; the first
/// that fails is the error.
pub open spec fn spec_write_plan(
    now: i128,
    body: Seq<u8>,
    content_type: Option<Seq<char>>,
    ttl_override: Option<u64>,
    default_ttl: Option<u64>,
) -> Result<((Seq<u8>, ValueKind), Option<i128>), UseCaseError> {
    match spec_stored_value(body, content_type) {
        Err(e) => Err(e),
        Ok(v) => match spec_write_expiry(now, ttl_override, default_ttl) {
            Err(e) => Err(e),
            Ok(x) => Ok((v, x)),
        },
    }
}

pub open spec fn result_value_view(r: Result<StoredValue, UseCaseError>) -> Result<(Seq<u8>, ValueKind), UseCaseError> {
    match r {
        Ok(v) => Ok((v.payload@, v.kind)),
        Err(e) => Err(e),
    }
}

/// The listing options the repository receives.
pub open spec fn spec_list_opts(input: ListOptsInput, now: i128) -> (Option<Seq<u8>>, usize, usize, bool, bool, i128) {
    (
        match input.prefix {
            Some(p) => Some(p@),
            None => None,
        },
        match input.limit {
            Some(l) => l,
            None => DEFAULT_LIST_LIMIT,
        },
        match input.skip {
            Some(s) => s,
            None => 0,
        },
        match input.reverse {
            Some(r) => r,
            None => false,
        },
        match input.include_values {
            Some(i) => i,
            None => false,
        },
        now,
    )
}

pub open spec fn list_opts_view(o: ListOpts) -> (Option<Seq<u8>>, usize, usize, bool, bool, i128) {
    (
        match o.prefix {
            Some(p) => Some(p@),
            None => None,
        },
        o.limit,
        o.skip,
        o.reverse,
        o.include_values,
        o.now,
    )
}

/// A copy of a stored value.
fn copy_value(v: &StoredValue) -> (r: StoredValue)
    ensures
        r.payload@ == v.payload@,
        r.kind == v.kind,
{
    let mut payload: Vec<u8> = Vec::new();
    crate::json::append_bytes(&mut payload, v.payload.as_slice());
    assert(payload@ =~= v.payload@);
    StoredValue { payload, kind: v.kind }
}

/// Stateless orchestrator for key operations.
pub struct KeyService;

impl KeyService {
    /// What a read returns for a given repository answer.
    pub fn entry_from_lookup(lookup: Result<Option<StoredEntry>, UseCaseError>, now: i128) -> (r: Result<
        StoredEntry,
        UseCaseError,
    >)
        ensures
            r == spec_entry_from_lookup(lookup, now),
    {
        match lookup {
            Err(e) => Err(e),
            Ok(None) => Err(UseCaseError::NotFound),
            Ok(Some(entry)) => {
                let expired = match entry.expires_at {
                    Some(t) => t <= now,
                    None => false,
                };
                if expired {
                    Err(UseCaseError::NotFound)
                } else {
                    Ok(entry)
                }
            },
        }
    }

    /// Reads a key; a missing or expired entry is `NotFound`.
    pub fn get<R: KeyRepository + ?Sized, C: Clock + ?Sized>(
        repo: &R,
        clock: &C,
        bucket: &BucketId,
        key: &Key,
    ) -> (r: Result<StoredEntry, UseCaseError>)
        ensures
            exists|lookup: Result<Option<StoredEntry>, UseCaseError>, now: i128|
                r == spec_entry_from_lookup(lookup, now),
            exists|lookup: Result<Option<StoredEntry>, UseCaseError>, now: i128|
                {
                    &&& #[trigger] call_ensures(C::now_utc, (clock,), now)
                    &&& #[trigger] call_ensures(R::get, (repo, bucket, key), lookup)
                    &&& match lookup {
                        Err(e) => r == Err::<StoredEntry, UseCaseError>(e),
                        Ok(None) => r == Err::<StoredEntry, UseCaseError>(UseCaseError::NotFound),
                        Ok(Some(entry)) => if entry.expires_at matches Some(t) && t <= now {
                            r == Err::<StoredEntry, UseCaseError>(UseCaseError::NotFound)
                        } else {
                            r == Ok::<StoredEntry, UseCaseError>(entry)
                        },
                    }
                },
    {
        let now = clock.now_utc();
        let lookup = repo.get(bucket, key);
        let ghost l = lookup;
        let r = Self::entry_from_lookup(lookup, now);
        assert(r == spec_entry_from_lookup(l, now));
        assert(call_ensures(C::now_utc, (clock,), now) && call_ensures(R::get, (repo, bucket, key), l));
        r
    }

    /// Builds the stored value of a write: kind inference and the size limit.
    pub fn infer_stored_value(body: Vec<u8>, content_type: Option<&str>) -> (r: Result<
        StoredValue,
        UseCaseError,
    >)
        ensures
            result_value_view(r) == spec_stored_value(body@, opt_text(content_type)),
    {
        let kind = infer_value_kind(body.as_slice(), content_type);
        match StoredValue::new(body, kind) {
            Ok(v) => Ok(v),
            Err(e) => Err(UseCaseError::Domain(e)),
        }
    }

    /// The expiry of a plain write at instant `now`.
    pub fn write_expiry(now: i128, ttl_override: Option<u64>, default_ttl: Option<u64>) -> (r: Result<
        Option<i128>,
        UseCaseError,
    >)
        ensures
            r == spec_write_expiry(now, ttl_override, default_ttl),
    {
        let effective = match ttl_override {
            Some(t) => Some(t),
            None => default_ttl,
        };
        match effective {
            None => Ok(None),
            Some(secs) => {
                if secs == 0 {
                    Ok(None)
                } else {
                    match expiry_after(now, secs) {
                        Some(e) => Ok(Some(e)),
                        None => Err(UseCaseError::Domain(DomainError::TimestampOutOfRange)),
                    }
                }
            },
        }
    }

    /// The expiry of a transaction write, at the clock's current instant.
    pub fn resolve_ttl<C: Clock + ?Sized>(clock: &C, ttl: Option<u64>, default_ttl: Option<u64>) -> (r: Result<
        Option<i128>,
        UseCaseError,
    >)
        ensures
            exists|now: i128| r == spec_resolve_ttl(now, ttl, default_ttl),
            exists|now: i128| #[trigger] call_ensures(C::now_utc, (clock,), now) && r == spec_resolve_ttl(now, ttl, default_ttl),
    {
        let now = clock.now_utc();
        let r = Self::resolve_ttl_at(now, ttl, default_ttl);
        assert(call_ensures(C::now_utc, (clock,), now));
        r
    }

    /// The expiry of a transaction write at instant `now`.
    pub fn resolve_ttl_at(now: i128, ttl: Option<u64>, default_ttl: Option<u64>) -> (r: Result<
        Option<i128>,
        UseCaseError,
    >)
        ensures
            r == spec_resolve_ttl(now, ttl, default_ttl),
    {
        let over = match ttl {
            Some(0) => None,
            other => other,
        };
        Self::write_expiry(now, over, default_ttl)
    }

    /// The value and expiry a write of `body` at instant `now` hands to the
    /// store (see [`spec_write_plan`]).
    pub fn write_plan(
        now: i128,
        body: Vec<u8>,
        content_type: Option<&str>,
        ttl_override: Option<u64>,
        default_ttl: Option<u64>,
    ) -> (r: Result<(StoredValue, Option<i128>), UseCaseError>)
        ensures
            match (r, spec_write_plan(now, body@, opt_text(content_type), ttl_override, default_ttl)) {
                (Ok((v, e)), Ok((sv, se))) => (v.payload@, v.kind) == sv && e == se,
                (Err(a), Err(b)) => a == b,
                _ => false,
            },
    {
        let value = match Self::infer_stored_value(body, content_type) {
            Ok(v) => v,
            Err(e) => {
                return Err(e);
            },
        };
        match Self::write_expiry(now, ttl_override, default_ttl) {
            Ok(e) => Ok((value, e)),
            Err(e) => Err(e),
        }
    }

    /// Stores `body` at `key` and returns the stored value: the value and
    /// expiry handed to the repository are [`Self::write_plan`]'s at the
    /// clock's instant; a repository error is returned as is.
    pub fn set<R: KeyRepository + ?Sized, C: Clock + ?Sized>(
        repo: &R,
        clock: &C,
        bucket: &BucketId,
        key: &Key,
        body: Vec<u8>,
        content_type: Option<&str>,
        ttl_override: Option<u64>,
        default_ttl: Option<u64>,
    ) -> (r: Result<StoredValue, UseCaseError>)
        ensures
            r matches Ok(v) ==> spec_stored_value(body@, opt_text(content_type)) == Ok::<
                (Seq<u8>, ValueKind),
                UseCaseError,
            >((v.payload@, v.kind)),
            spec_stored_value(body@, opt_text(content_type)) matches Err(e) ==> r == Err::<
                StoredValue,
                UseCaseError,
            >(e),
            exists|now: i128|
                #[trigger] call_ensures(C::now_utc, (clock,), now) && match spec_write_plan(
                    now,
                    body@,
                    opt_text(content_type),
                    ttl_override,
                    default_ttl,
                ) {
                    Err(e) => r == Err::<StoredValue, UseCaseError>(e),
                    Ok((v, expiry)) => exists|sent: StoredValue, reply: Result<(), UseCaseError>|
                        {
                            &&& (sent.payload@, sent.kind) == v
                            &&& #[trigger] call_ensures(R::set, (repo, bucket, key, sent, expiry), reply)
                            &&& match reply {
                                Ok(()) => r matches Ok(x) && (x.payload@, x.kind) == v,
                                Err(e) => r == Err::<StoredValue, UseCaseError>(e),
                            }
                        },
                },
    {
        let now = clock.now_utc();
        assert(call_ensures(C::now_utc, (clock,), now));
        let (value, expires_at) = match Self::write_plan(now, body, content_type, ttl_override, default_ttl) {
            Ok(p) => p,
            Err(e) => {
                return Err(e);
            },
        };
        let kept = copy_value(&value);
        let ghost sent = value;
        let reply = repo.set(bucket, key, value, expires_at);
        let ghost rg = reply;
        assert(call_ensures(R::set, (repo, bucket, key, sent, expires_at), rg));
        match reply {
            Ok(()) => Ok(kept),
            Err(e) => Err(e),
        }
    }

    /// What a delete returns for a given repository answer: nothing deleted is `NotFound`.
    pub fn delete_outcome(deleted: Result<bool, UseCaseError>) -> (r: Result<(), UseCaseError>)
        ensures
            r == spec_delete_outcome(deleted),
    {
        match deleted {
            Ok(true) => Ok(()),
            Ok(false) => Err(UseCaseError::NotFound),
            Err(e) => Err(e),
        }
    }

    /// Deletes a key; deleting a missing key is `NotFound`.
    pub fn delete<R: KeyRepository + ?Sized>(repo: &R, bucket: &BucketId, key: &Key) -> (r: Result<
        (),
        UseCaseError,
    >)
        ensures
            exists|deleted: Result<bool, UseCaseError>| r == spec_delete_outcome(deleted),
            exists|deleted: Result<bool, UseCaseError>|
                {
                    &&& #[trigger] call_ensures(R::delete, (repo, bucket, key), deleted)
                    &&& match deleted {
                        Ok(true) => r == Ok::<(), UseCaseError>(()),
                        Ok(false) => r == Err::<(), UseCaseError>(UseCaseError::NotFound),
                        Err(e) => r == Err::<(), UseCaseError>(e),
                    }
                },
    {
        let d = repo.delete(bucket, key);
        let ghost dg = d;
        let r = Self::delete_outcome(d);
        assert(r == spec_delete_outcome(dg));
        assert(call_ensures(R::delete, (repo, bucket, key), dg));
        r
    }

    /// The repository listing options for a request at instant `now`.
    pub fn list_opts(input: ListOptsInput, now: i128) -> (r: ListOpts)
        ensures
            list_opts_view(r) == spec_list_opts(input, now),
    {
        ListOpts {
            prefix: input.prefix,
            limit: match input.limit {
                Some(l) => l,
                None => DEFAULT_LIST_LIMIT,
            },
            skip: match input.skip {
                Some(s) => s,
                None => 0,
            },
            reverse: match input.reverse {
                Some(r) => r,
                None => false,
            },
            include_values: match input.include_values {
                Some(i) => i,
                None => false,
            },
            now,
        }
    }

    /// Lists a bucket with the defaults applied (10000 keys, no skip,
    /// forward order, keys only) at the clock's instant: the rows the store
    /// answers are at most the limit asked for (10000 by default), each with
    /// a key that starts with the prefix asked for.
    pub fn list<R: KeyRepository + ?Sized, C: Clock + ?Sized>(
        repo: &R,
        clock: &C,
        bucket: &BucketId,
        input: ListOptsInput,
    ) -> (r: Result<Vec<ListEntry>, UseCaseError>)
        ensures
            r matches Ok(entries) ==> rows_fit(
                entries@,
                opt_prefix(input.prefix),
                match input.limit {
                    Some(l) => l,
                    None => DEFAULT_LIST_LIMIT,
                },
            ),
        exists|now: i128, opts: ListOpts|
            {
                &&& #[trigger] call_ensures(C::now_utc, (clock,), now)
                &&& list_opts_view(opts) == spec_list_opts(input, now)
                &&& #[trigger] call_ensures(R::list, (repo, bucket, &opts), r)
            },
    {
        let now = clock.now_utc();
        let opts = Self::list_opts(input, now);
        let r = repo.list(bucket, &opts);
        assert(call_ensures(C::now_utc, (clock,), now) && call_ensures(R::list, (repo, bucket, &opts), r));
        r
    }
}

/// Executes a batch of pre-validated operations (authorization is checked before).
pub struct TxnService;

impl TxnService {
    /// Persists all operations in one atomic batch (the repository's `apply_batch`).
    pub fn execute<R: KeyRepository + ?Sized>(repo: &R, bucket: &BucketId, ops: &[TxnOp]) -> (r: Result<
        (),
        UseCaseError,
    >)
        ensures
            call_ensures(R::apply_batch, (repo, bucket, ops), r),
    {
        repo.apply_batch(bucket, ops)
    }
}

/// An entry is never served once its expiry instant is reached: the read
/// answers `NotFound` as if the key were absent.
pub proof fn lemma_expired_entry_is_not_found(entry: StoredEntry, now: i128)
    requires
        entry.expires_at matches Some(t) && t <= now,
    ensures
        spec_entry_from_lookup(Ok(Some(entry)), now) == spec_entry_from_lookup(Ok(None), now),
        spec_entry_from_lookup(Ok(Some(entry)), now) == Err::<StoredEntry, UseCaseError>(UseCaseError::NotFound),
{
}

/// A read serves an entry until its expiry instant: an entry without expiry,
/// or whose expiry lies after `now`, is returned as stored.
pub proof fn lemma_live_entry_is_served(entry: StoredEntry, now: i128)
    requires
        !(entry.expires_at matches Some(t) && t <= now),
    ensures
        spec_entry_from_lookup(Ok(Some(entry)), now) == Ok::<StoredEntry, UseCaseError>(entry),
{
}

/// A delete succeeds exactly when the repository removed something; a
/// repository that found nothing gives `NotFound`, and repository errors are
/// passed on unchanged.
pub proof fn lemma_delete_succeeds_iff_removed(deleted: Result<bool, UseCaseError>)
    ensures
        spec_delete_outcome(deleted) is Ok <==> deleted == Ok::<bool, UseCaseError>(true),
        deleted == Ok::<bool, UseCaseError>(false) ==> spec_delete_outcome(deleted) == Err::<(), UseCaseError>(
            UseCaseError::NotFound,
        ),
        deleted matches Err(e) ==> spec_delete_outcome(deleted) == Err::<(), UseCaseError>(e),
{
}

/// A TTL of 0, given on the write or as the bucket default, means the value
/// never expires; a write's own TTL always wins over the bucket default.
pub proof fn lemma_zero_ttl_never_expires(now: i128, ttl: Option<u64>, default_ttl: Option<u64>)
    ensures
        spec_write_expiry(now, Some(0), default_ttl) == Ok::<Option<i128>, UseCaseError>(None),
        spec_write_expiry(now, None, Some(0)) == Ok::<Option<i128>, UseCaseError>(None),
        ttl is Some ==> spec_write_expiry(now, ttl, default_ttl) == spec_write_expiry(now, ttl, None),
{
}

/// A write that names a positive TTL of `secs` seconds (its own, or the
/// bucket's when it names none) expires exactly `secs` seconds after `now`,
/// or is refused when that instant is outside the calendar; its own TTL
/// always decides over the bucket's. A transaction operation's TTL of 0
/// counts as no TTL of its own.
pub proof fn lemma_write_expires_ttl_after_now(now: i128, secs: u64, default_ttl: Option<u64>)
    requires
        0 < secs <= 9223372036854775807u64,
    ensures
        ({
            let e = now + secs * 1000000000;
            let expected = if MIN_UNIX_NANOS <= e && e <= MAX_UNIX_NANOS {
                Ok::<Option<i128>, UseCaseError>(Some(e as i128))
            } else {
                Err::<Option<i128>, UseCaseError>(UseCaseError::Domain(DomainError::TimestampOutOfRange))
            };
            &&& spec_write_expiry(now, Some(secs), default_ttl) == expected
            &&& spec_write_expiry(now, None, Some(secs)) == expected
            &&& spec_resolve_ttl(now, Some(secs), default_ttl) == expected
            &&& spec_resolve_ttl(now, Some(0), default_ttl) == spec_write_expiry(now, None, default_ttl)
        }),
{
    assert((secs as i64) as int == secs as int);
}

} // verus!
