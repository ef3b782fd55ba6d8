//! The liveness and readiness answers, and whether the metrics listener
//! runs.

use vstd::prelude::*;

use crate::text::{trim, trimmed};

verus! {

/// `/healthz` always answers; its status word says whether the database
/// responded.
pub fn health_status(db_ok: bool) -> (r: &'static str)
    ensures
        r@ == (if db_ok {
            "ok"@
        } else {
            "degraded"@
        }),
{
    if db_ok {
        "ok"
    } else {
        "degraded"
    }
}

/// `/readyz`: ready when the database responded and the pool can hand out
/// a connection without waiting (an idle one, or room to open one); the
/// status is 200 when ready and 503 otherwise.
pub fn readiness(db_ok: bool, pool_size: u32, pool_idle: usize, pool_max: u32) -> (r: (bool, u16))
    ensures
        r.0 == (db_ok && (pool_idle > 0 || pool_size < pool_max)),
        r.1 == (if r.0 {
            200u16
        } else {
            503u16
        }),
{
    let pool_ok = pool_idle > 0 || pool_size < pool_max;
    let ready = db_ok && pool_ok;
    (ready, if ready { 200 } else { 503 })
}

/// The metrics listener's address, trimmed; an empty setting disables it.
pub fn metrics_bind(bind: &str) -> (r: Option<String>)
    ensures
        match r {
            Some(a) => trim(bind@).len() > 0 && a@ == trim(bind@),
            None => trim(bind@).len() == 0,
        },
{
    let t = trimmed(bind);
    if t.as_str().is_empty() {
        None
    } else {
        Some(t)
    }
}

} // verus!
