//! Liveness and readiness answers.
use vstd::prelude::*;

use crate::error::UseCaseError;

verus! {

/// Body of `/health` and `/ready`.
pub struct HealthResponse {
    pub status: &'static str,
    pub storage: &'static str,
    pub version: &'static str,
}

/// `GET /health`: always `ok`.
pub fn health_check(version: &'static str) -> (r: HealthResponse)
    ensures
        r.status@ == "ok"@,
        r.storage@ == "ok"@,
        r.version == version,
{
    HealthResponse { status: "ok", storage: "ok", version }
}

/// `GET /ready`: the answer for what pinging the bucket metadata store
/// gave: `200` with `ok`/`ok` when it answered, else `503` with `degraded`/`error`.
pub fn readiness_check(ping: Result<(), UseCaseError>, version: &'static str) -> (r: (u16, HealthResponse))
    ensures
        r.1.version == version,
        ping is Ok ==> r.0 == 200 && r.1.status@ == "ok"@ && r.1.storage@ == "ok"@,
        ping is Err ==> r.0 == 503 && r.1.status@ == "degraded"@ && r.1.storage@ == "error"@,
{
    match ping {
        Ok(()) => (200, HealthResponse { status: "ok", storage: "ok", version }),
        Err(_) => (503, HealthResponse { status: "degraded", storage: "error", version }),
    }
}

} // verus!
