use vstd::prelude::*;
use crate::record::Instant;

verus! {

/// The instant `live_time` seconds after `now`, or the last instant there is if that would lie
/// beyond it.
pub open spec fn expiry(now: int, live_time: int) -> int {
    if now + live_time <= i64::MAX {
        now + live_time
    } else {
        i64::MAX as int
    }
}

/// The later of `expires_at` and the expiry granted at `now`: an expiration is extended, never
/// brought forward.
pub open spec fn extension(expires_at: int, now: int, live_time: int) -> int {
    if expires_at <= expiry(now, live_time) {
        expiry(now, live_time)
    } else {
        expires_at
    }
}

/// `chrono::Utc::now`, read as whole seconds since the Unix epoch. Nothing is claimed of the
/// value: it is whatever the system clock says.
#[verifier::external_body]
pub(crate) fn clock_now() -> (now: Instant) {
    chrono::Utc::now().timestamp()
}

/// The instant at which a record that is granted `live_time` seconds at `now` expires.
pub fn expires_after(now: Instant, live_time: u32) -> (expires_at: Instant)
    ensures
        expires_at == expiry(now as int, live_time as int),
{
    let span: i64 = live_time as i64;
    if now > i64::MAX - span {
        i64::MAX
    } else {
        now + span
    }
}

/// The expiration of a record that expired at `expires_at` once it is granted `live_time`
/// seconds anew at `now`.
pub fn extended(expires_at: Instant, now: Instant, live_time: u32) -> (extended: Instant)
    ensures
        extended == extension(expires_at as int, now as int, live_time as int),
{
    let fresh = expires_after(now, live_time);
    if expires_at <= fresh {
        fresh
    } else {
        expires_at
    }
}

} // verus!
