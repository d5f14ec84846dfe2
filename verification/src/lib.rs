//! Verified core of a gig-labor marketplace backend: identity records,
//! shift lifecycle (posting, application, approval), and an append-only
//! reputation ledger with a derived credential document per worker.

pub mod applications;
pub mod digest;
pub mod error;
pub mod laws;
pub mod ledger;
pub mod notify;
pub mod profiles;
pub mod seqs;
pub mod shifts;
pub mod state;
pub mod text;
pub mod types;

use vstd::prelude::*;

verus! {

/// Liveness probe; always reports a healthy core.
pub fn health_check() -> (r: bool)
    ensures
        r,
{
    true
}

/// Converts the host clock's nanosecond reading to the millisecond
/// timestamps that all records carry.
pub fn time_millis(now_nanos: u64) -> (t: i64)
    ensures
        t == now_nanos as int / 1_000_000,
        0 <= t,
{
    (now_nanos / 1_000_000) as i64
}

} // verus!
