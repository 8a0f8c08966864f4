//! Deadlines.

use crate::status::{ErrorKind, TimeoutKind};
use vstd::prelude::*;

verus! {

/// Whether a wait that began at `started` and may last `limit` is over at
/// `now`: the clock has not gone back, and `limit` or more has passed.
pub open spec fn spec_expired(started: u64, now: u64, limit: u64) -> bool {
    now >= started && now - started >= limit
}

/// Why a request that waits for a ready endpoint gives up at `now`, if it
/// does: because the name turned out not to exist, or because it has waited
/// since `asked_at` for as long as `limit` allows. Without a limit it waits
/// on.
pub open spec fn spec_give_up(not_found: bool, asked_at: u64, now: u64, limit: Option<u64>) -> Option<
    ErrorKind,
> {
    if not_found {
        Some(ErrorKind::DiscoveryNotFound)
    } else if limit is Some && spec_expired(asked_at, now, limit->0) {
        Some(ErrorKind::Timeout(TimeoutKind::UpstreamWait))
    } else {
        None
    }
}

/// Whether a wait that began at `started` and may last `limit` is over at
/// `now`.
pub fn expired(started: u64, now: u64, limit: u64) -> (over: bool)
    ensures
        over == spec_expired(started, now, limit),
{
    now >= started && now - started >= limit
}

/// Says why a request that waits for a ready endpoint gives up at `now`, if
/// it does.
pub fn give_up(not_found: bool, asked_at: u64, now: u64, limit: Option<u64>) -> (why: Option<
    ErrorKind,
>)
    ensures
        why == spec_give_up(not_found, asked_at, now, limit),
{
    if not_found {
        return Some(ErrorKind::DiscoveryNotFound);
    }
    match limit {
        Some(limit) => if expired(asked_at, now, limit) {
            Some(ErrorKind::Timeout(TimeoutKind::UpstreamWait))
        } else {
            None
        },
        None => None,
    }
}

/// A request that is given a limit never waits beyond it: from the moment
/// the limit has passed, it gives up whenever it looks.
pub proof fn law_wait_is_bounded(not_found: bool, asked_at: u64, now: u64, limit: u64)
    requires
        now >= asked_at,
        now - asked_at >= limit,
    ensures
        spec_give_up(not_found, asked_at, now, Some(limit)) is Some,
{
}

} // verus!
