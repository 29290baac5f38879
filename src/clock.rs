//! The system clock, read as whole seconds since the Unix epoch.
use vstd::prelude::*;

use std::time::{Duration, SystemTime};

verus! {

/// The system clock's `SystemTime`, carried as an opaque value.
#[verifier::external_type_specification]
#[verifier::external_body]
pub struct ExSystemTime(SystemTime);

/// The whole seconds of a duration, as `Duration::as_secs` gives them.
pub uninterp spec fn secs_of(d: Duration) -> u64;

/// Relies on `Duration::as_secs`: the whole seconds of a duration, which
/// depend on the duration alone.
pub assume_specification[ Duration::as_secs ](d: &Duration) -> (r: u64)
    ensures
        r == secs_of(*d),
;

/// Relies on `SystemTime::now`: reads the system clock.
#[verifier::external_body]
fn system_now() -> (r: SystemTime) {
    SystemTime::now()
}

/// Relies on `SystemTime::duration_since` against `UNIX_EPOCH`: the time
/// elapsed since the epoch, `None` when the clock reads an earlier time.
#[verifier::external_body]
fn since_epoch(t: &SystemTime) -> (r: Option<Duration>) {
    t.duration_since(std::time::UNIX_EPOCH).ok()
}

/// Seconds since the epoch from the time elapsed since it: the whole
/// seconds of that time, or 0 when there is none (a clock before the epoch).
pub fn epoch_secs(since: Option<Duration>) -> (r: u64)
    ensures
        since is None ==> r == 0,
        since matches Some(d) ==> r == secs_of(d),
{
    match since {
        Some(d) => d.as_secs(),
        None => 0,
    }
}

/// The current time in whole seconds since the Unix epoch; 0 when the system
/// clock reads a time before the epoch.
pub fn now_epoch() -> (r: u64)
    ensures
        exists|since: Option<Duration>| r == epoch_secs_of(since),
{
    let since = since_epoch(&system_now());
    let r = epoch_secs(since);
    assert(r == epoch_secs_of(since));
    r
}

/// What `epoch_secs` returns for `since`.
pub open spec fn epoch_secs_of(since: Option<Duration>) -> u64 {
    match since {
        Some(d) => secs_of(d),
        None => 0,
    }
}

} // verus!
