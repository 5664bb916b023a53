use vstd::prelude::*;

verus! {

/// Relies on std's `SystemTime::now` and `SystemTime::duration_since` (with
/// `Duration::as_secs`): whole seconds from the Unix epoch to the system
/// clock's reading, as `Ok`, or from the reading up to the epoch, as `Err`,
/// when the clock reads before it. Neither call panics; nothing is known of
/// the value.
#[verifier::external_body]
fn system_clock_seconds() -> (r: Result<u64, u64>) {
    match std::time::SystemTime::now().duration_since(std::time::UNIX_EPOCH) {
        Ok(d) => Ok(d.as_secs()),
        Err(e) => Err(e.duration().as_secs()),
    }
}

/// The time in seconds since the epoch that a clock reading stands for: a
/// reading before the epoch (a clock set back) counts as zero.
pub fn seconds_since_epoch(reading: Result<u64, u64>) -> (r: u64)
    ensures
        r == match reading {
            Ok(s) => s,
            Err(_) => 0,
        },
{
    match reading {
        Ok(s) => s,
        Err(_) => 0,
    }
}

/// The current time in seconds since the epoch, zero when the system clock
/// reads before it; never panics.
pub fn current_timestamp() -> u64 {
    seconds_since_epoch(system_clock_seconds())
}

/// The current time in seconds since the epoch: the same clock as
/// `current_timestamp`.
pub fn timestamp_curent() -> u64 {
    seconds_since_epoch(system_clock_seconds())
}

} // verus!
