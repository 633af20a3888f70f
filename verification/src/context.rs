//! Per-request context handed to the use cases.
use vstd::prelude::*;

use std::sync::Arc;

use crate::domain::ResolvedIdentity;
use crate::keys::Clock;

verus! {

/// Per-request / per-operation context (clock and resolved identity); the
/// clock is shared, and may be a trait object (`RequestContext<dyn Clock>`).
pub struct RequestContext<C: Clock + ?Sized> {
    pub clock: Arc<C>,
    pub identity: ResolvedIdentity,
}

impl<C: Clock + ?Sized> RequestContext<C> {
    /// A context for an anonymous caller.
    pub fn new(clock: Arc<C>) -> (r: RequestContext<C>)
        ensures
            r.clock == clock,
            r.identity == ResolvedIdentity::Anonymous,
    {
        RequestContext { clock, identity: ResolvedIdentity::Anonymous }
    }

    /// A context for a resolved identity.
    pub fn with_identity(clock: Arc<C>, identity: ResolvedIdentity) -> (r: RequestContext<C>)
        ensures
            r.clock == clock,
            r.identity == identity,
    {
        RequestContext { clock, identity }
    }
}

/// `?ttl=` of key writes: seconds until expiry.
pub struct TtlQuery {
    pub ttl: Option<u64>,
}

} // verus!
