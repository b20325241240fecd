//! Whether the cached controller snapshot is too old to present as live.

use vstd::prelude::*;
use crate::heat::sat_sub;

verus! {

/// A cached controller snapshot older than this (five minutes) is stale: its
/// live temperatures can no longer be trusted, as the adapter link is down.
pub const STALE_SNAPSHOT_MS: i64 = 300_000;

/// Stale when the snapshot was refreshed at some time and `now` is more than
/// five minutes (saturating) past it; never stale before the first refresh.
pub open spec fn snapshot_stale_spec(status_updated_unix_ms: Option<i64>, now_unix_ms: int) -> bool {
    match status_updated_unix_ms {
        Some(at) => sat_sub(now_unix_ms, at as int) > STALE_SNAPSHOT_MS,
        None => false,
    }
}

pub fn snapshot_stale(status_updated_unix_ms: Option<i64>, now_unix_ms: i64) -> (b: bool)
    ensures
        b == snapshot_stale_spec(status_updated_unix_ms, now_unix_ms as int),
{
    match status_updated_unix_ms {
        Some(at) => crate::heat::saturating_sub_i64(now_unix_ms, at) > STALE_SNAPSHOT_MS,
        None => false,
    }
}

} // verus!
