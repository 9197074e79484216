//! The wall clock, and time counted from an epoch.

use std::time::Duration;
use std::time::SystemTime;
use vstd::prelude::*;

verus! {

/// `SystemTime`: a reading of the wall clock, carried from the call that
/// takes it to the call that measures it. Nothing inside it is looked at.
#[verifier::external_type_specification]
#[verifier::external_body]
pub struct ExSystemTime(SystemTime);

/// `SystemTime::now`: the wall clock's reading. Nothing is claimed of it: two
/// readings may differ in either direction.
pub assume_specification[ SystemTime::now ]() -> SystemTime;

/// `SystemTime::duration_since` with `UNIX_EPOCH` as the earlier instant: how
/// far the reading lies after the Unix epoch, `None` where it lies before.
/// Nothing is claimed of the result.
#[verifier::external_body]
fn since_unix_epoch(reading: &SystemTime) -> Option<Duration> {
    reading.duration_since(std::time::UNIX_EPOCH).ok()
}

/// `Duration::as_millis`: the whole milliseconds in a duration. Nothing is
/// claimed of the result.
pub assume_specification[ Duration::as_millis ](duration: &Duration) -> u128;

/// Milliseconds from `epoch_millis` to `now`, both counted from the Unix
/// epoch, as 64-bit subtraction gives them: modulo 2^64 where the epoch lies
/// after `now`.
pub open spec fn millis_between(epoch_millis: u64, now: u64) -> u64 {
    ((now - epoch_millis) % 0x1_0000_0000_0000_0000) as u64
}

/// Milliseconds from `epoch_millis` to `now`.
pub fn elapsed_between(epoch_millis: u64, now: u64) -> (r: u64)
    ensures
        r == millis_between(epoch_millis, now),
        epoch_millis <= now ==> r == now - epoch_millis,
{
    now.wrapping_sub(epoch_millis)
}

/// A clock reading as 64-bit milliseconds: the low 64 bits of the whole
/// milliseconds that it lies after the Unix epoch, 0 where it lies before.
pub open spec fn reading_millis(since_unix_epoch: Option<u128>) -> u64 {
    match since_unix_epoch {
        Some(millis) => (millis % 0x1_0000_0000_0000_0000) as u64,
        None => 0,
    }
}

/// A clock reading as 64-bit milliseconds, from the whole milliseconds that
/// it lies after the Unix epoch, `None` standing for a reading before it.
pub fn millis_of_reading(since_unix_epoch: Option<u128>) -> (r: u64)
    ensures
        r == reading_millis(since_unix_epoch),
{
    match since_unix_epoch {
        Some(millis) => {
            let low: u64 = #[verifier::truncate] (millis as u64);
            assert(low == millis % 0x1_0000_0000_0000_0000) by (bit_vector)
                requires
                    low == millis as u64,
            ;
            low
        },
        None => 0,
    }
}

/// The wall clock's reading in milliseconds since the Unix epoch, cut to 64
/// bits; 0 where the clock stands before the Unix epoch.
pub fn sys_time_millis() -> u64 {
    let reading = SystemTime::now();
    let since_epoch: Option<u128> = match since_unix_epoch(&reading) {
        Some(duration) => Some(duration.as_millis()),
        None => None,
    };
    millis_of_reading(since_epoch)
}

/// Milliseconds from `epoch_millis` to the wall clock's reading.
pub fn time_since_epoch(epoch_millis: u64) -> u64 {
    elapsed_between(epoch_millis, sys_time_millis())
}

} // verus!
