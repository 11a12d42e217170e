//! Time, in milliseconds since the Unix epoch.

use vstd::prelude::*;

verus! {

/// Milliseconds in `secs` seconds and `nanos` nanoseconds, as a 64-bit counter holds them.
pub open spec fn millis(secs: u64, nanos: u32) -> u64 {
    ((secs * 1000 + nanos / 1_000_000) % 0x1_0000_0000_0000_0000) as u64
}

/// Calls `std::time::SystemTime::elapsed` on `std::time::UNIX_EPOCH` and hands out the whole
/// seconds and the remaining nanoseconds, or nothing when the system clock stands before the epoch.
/// Trusted: the nanoseconds do not make up a second.  Which time the clock shows, and whether it
/// stands before the epoch, depends on the machine and is left unsaid.
#[verifier::external_body]
fn since_epoch() -> (elapsed: Option<(u64, u32)>)
    ensures
        elapsed matches Some(t) ==> t.1 < 1_000_000_000,
{
    match std::time::UNIX_EPOCH.elapsed() {
        Ok(elapsed) => Some((elapsed.as_secs(), elapsed.subsec_nanos())),
        Err(_) => None,
    }
}

/// Seconds and nanoseconds in milliseconds.
pub fn to_millis(secs: u64, nanos: u32) -> (ms: u64)
    ensures
        ms == millis(secs, nanos),
{
    let ms: u128 = secs as u128 * 1000 + (nanos / 1_000_000) as u128;
    (ms % 0x1_0000_0000_0000_0000) as u64
}

/// Calls `source` and hands out what it returned.
fn read_from<F: Fn() -> Option<(u64, u32)>>(source: F) -> (elapsed: Option<(u64, u32)>)
    requires
        call_requires(source, ()),
    ensures
        call_ensures(source, (), elapsed),
{
    source()
}

/// Is `now` what the system clock showed at some reading of it?  Nothing but a reading can tell.
pub closed spec fn clock_showed(now: Option<u64>) -> bool {
    exists|elapsed: Option<(u64, u32)>| #[trigger]
        call_ensures(since_epoch, (), elapsed) && now == match elapsed {
            Some((secs, nanos)) => Some(millis(secs, nanos)),
            None => None,
        }
}

/// Is each of `stamps` what the system clock showed at some reading of it?
pub open spec fn all_showed(stamps: Seq<u64>) -> bool {
    forall|i: int| 0 <= i < stamps.len() ==> clock_showed(Some(#[trigger] stamps[i]))
}

/// What the system clock shows now, or nothing when it stands before the Unix epoch.
pub fn now_millis() -> (now: Option<u64>)
    ensures
        clock_showed(now),
        now matches Some(ms) ==> exists|secs: u64, nanos: u32|
            nanos < 1_000_000_000 && ms == #[trigger] millis(secs, nanos),
{
    from_elapsed(read_from(since_epoch))
}

/// What a clock shows on which `elapsed`, in seconds and nanoseconds, has gone by since the Unix
/// epoch; nothing when it stands before the epoch.
pub fn from_elapsed(elapsed: Option<(u64, u32)>) -> (now: Option<u64>)
    ensures
        now == match elapsed {
            Some((secs, nanos)) => Some(millis(secs, nanos)),
            None => None,
        },
{
    match elapsed {
        Some((secs, nanos)) => Some(to_millis(secs, nanos)),
        None => None,
    }
}

/// Have `wait` milliseconds gone by at `now` since `start`?
pub open spec fn has_passed(now: u64, start: u64, wait: u64) -> bool {
    now >= start + wait
}

/// Have `wait` milliseconds gone by at `now` since `start`?
pub fn passed(now: u64, start: u64, wait: u64) -> (passed: bool)
    ensures
        passed == has_passed(now, start, wait),
{
    now >= start && now - start >= wait
}

} // verus!
