//! The current time, as the game logic needs it. The system clock may read
//! any time, before the Unix epoch too; reading it never fails.
use vstd::prelude::*;

verus! {

/// `std::time::UNIX_EPOCH.elapsed()`: how far the system clock is from the
/// Unix epoch, as whether it is at or after the epoch, the whole seconds of
/// the distance and the nanoseconds past them (`Duration::subsec_nanos`,
/// always below one billion). A clock before the epoch comes back through the
/// error's `duration()`. Of the value only that range is claimed.
#[verifier::external_body]
fn clock_reading() -> (r: (bool, u64, u32))
    ensures r.2 < 1_000_000_000,
{
    match std::time::UNIX_EPOCH.elapsed() {
        Ok(d) => (true, d.as_secs(), d.subsec_nanos()),
        Err(e) => (false, e.duration().as_secs(), e.duration().subsec_nanos()),
    }
}

/// A time `secs` whole seconds and `nanos` nanoseconds from the epoch
/// (after it when `after`), as whole seconds since the epoch rounded down and
/// the nanoseconds past them; seconds beyond the range of `i64` are cut to it.
pub open spec fn floor_time(after: bool, secs: int, nanos: int) -> (int, int) {
    if after {
        (if secs > i64::MAX { i64::MAX as int } else { secs }, nanos)
    } else if nanos == 0 {
        (if secs > i64::MAX { i64::MIN as int } else { -secs }, 0)
    } else {
        (if secs >= i64::MAX { i64::MIN as int } else { -secs - 1 }, 1_000_000_000 - nanos)
    }
}

fn floor_reading(after: bool, secs: u64, nanos: u32) -> (r: (i64, u32))
    requires nanos < 1_000_000_000,
    ensures
        (r.0 as int, r.1 as int) == floor_time(after, secs as int, nanos as int),
        r.1 < 1_000_000_000,
{
    let max: u64 = 0x7fff_ffff_ffff_ffff;
    if after {
        let s: i64 = if secs > max { i64::MAX } else { secs as i64 };
        (s, nanos)
    } else if nanos == 0 {
        let s: i64 = if secs > max { i64::MIN } else { -(secs as i64) };
        (s, 0)
    } else {
        let s: i64 = if secs >= max { i64::MIN } else { -(secs as i64) - 1 };
        (s, 1_000_000_000 - nanos)
    }
}

/// The time now as whole seconds since the Unix epoch (rounded down) and the
/// nanoseconds past that second: `floor_time` of whatever the clock reads.
pub fn now_precise() -> (r: (i64, u32))
    ensures
        r.1 < 1_000_000_000,
        exists|after: bool, secs: u64, nanos: u32| nanos < 1_000_000_000
            && #[trigger] floor_time(after, secs as int, nanos as int) == (r.0 as int, r.1 as int),
{
    let (after, secs, nanos) = clock_reading();
    let r = floor_reading(after, secs, nanos);
    assert(floor_time(after, secs as int, nanos as int) == (r.0 as int, r.1 as int));
    r
}

} // verus!
