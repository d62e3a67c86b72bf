//! The time of day.

use std::time::{SystemTime, UNIX_EPOCH};
use vstd::prelude::*;

verus! {

/// `SystemTime::now`, as whole seconds since the Unix epoch, or nothing if the
/// clock stands before it. What the machine's clock shows is left open.
#[verifier::external_body]
fn read_clock() -> (secs: Option<u64>) {
    SystemTime::now().duration_since(UNIX_EPOCH).ok().map(|elapsed| elapsed.as_secs())
}

/// Whether a reading is one that the clock gave.
pub closed spec fn clock_gave(reading: Option<u64>) -> bool {
    call_ensures(read_clock, (), reading)
}

/// The seconds since the Unix epoch that the system's clock shows.
pub fn now_secs() -> (now: Result<u64, String>)
    ensures
        exists|reading: Option<u64>| #[trigger]
            clock_gave(reading) && match reading {
                Some(secs) => now matches Ok(time) && time == secs,
                None => now matches Err(error) && error@ == "system clock before epoch"@,
            },
{
    let reading = read_clock();
    assert(clock_gave(reading));
    time_of(reading)
}

/// The time that a reading of the clock shows: its seconds, whatever they are,
/// or that the clock stands before the epoch.
pub fn time_of(reading: Option<u64>) -> (time: Result<u64, String>)
    ensures
        match reading {
            Some(secs) => time matches Ok(now) && now == secs,
            None => time matches Err(error) && error@ == "system clock before epoch"@,
        },
{
    match reading {
        Some(secs) => Ok(secs),
        None => Err("system clock before epoch".to_owned()),
    }
}

/// A reading that counts as the clock's was given by a call of the clock.
proof fn readings_come_from_the_clock(reading: Option<u64>)
    requires
        clock_gave(reading),
    ensures
        call_ensures(read_clock, (), reading),
{
}

/// The time is what a call of the clock gave; there is none only where the
/// clock gave none.
proof fn times_come_from_the_clock(now: Result<u64, String>)
    requires
        call_ensures(now_secs, (), now),
    ensures
        match now {
            Ok(secs) => call_ensures(read_clock, (), Some(secs)),
            Err(_) => call_ensures(read_clock, (), None),
        },
{
}

} // verus!
