//! Times as they are stamped on messages.

use std::time::{SystemTime, UNIX_EPOCH};
use vstd::prelude::*;

verus! {

/// The time since the Unix epoch.
#[derive(Clone, Copy, Debug, PartialEq, Eq, Structural)]
pub struct Reading {
    pub seconds: u64,
    pub nanoseconds: u32,
}

/// `SystemTime::now` since `UNIX_EPOCH`; none for a clock that stands before it.
#[verifier::external_body]
fn read_clock() -> (reading: Option<Reading>)
    ensures
        reading is Some ==> reading->0.nanoseconds < 1_000_000_000,
{
    match SystemTime::now().duration_since(UNIX_EPOCH) {
        Ok(time) => Some(Reading { seconds: time.as_secs(), nanoseconds: time.subsec_nanos() }),
        Err(_) => None,
    }
}

/// A reading in milliseconds, as far as sixty-four bits reach.
pub fn milliseconds(reading: Reading) -> (time: u64)
    ensures
        time == (reading.seconds * 1_000 + reading.nanoseconds / 1_000_000)
            % 0x1_0000_0000_0000_0000,
{
    let wide: u128 = reading.seconds as u128 * 1_000 + (reading.nanoseconds / 1_000_000) as u128;
    (wide % 0x1_0000_0000_0000_0000u128) as u64
}

/// A reading in microseconds, as far as sixty-four bits reach.
pub fn microseconds(reading: Reading) -> (time: u64)
    ensures
        time == (reading.seconds * 1_000_000 + reading.nanoseconds / 1_000)
            % 0x1_0000_0000_0000_0000,
{
    let wide: u128 = reading.seconds as u128 * 1_000_000 + (reading.nanoseconds / 1_000) as u128;
    (wide % 0x1_0000_0000_0000_0000u128) as u64
}

/// What is made of a reading in milliseconds: none for a clock that stands before the epoch.
pub fn milliseconds_shown(reading: Option<Reading>) -> (time: Option<u64>)
    ensures
        match reading {
            Some(reading) => time is Some && time->0 == (reading.seconds * 1_000
                + reading.nanoseconds / 1_000_000) % 0x1_0000_0000_0000_0000,
            None => time is None,
        },
{
    match reading {
        Some(reading) => Some(milliseconds(reading)),
        None => None,
    }
}

/// What is made of a reading in microseconds: zero for a clock that stands before the epoch.
pub fn microseconds_shown(reading: Option<Reading>) -> (time: u64)
    ensures
        time == match reading {
            Some(reading) => (reading.seconds * 1_000_000 + reading.nanoseconds / 1_000)
                % 0x1_0000_0000_0000_0000,
            None => 0,
        },
{
    match reading {
        Some(reading) => microseconds(reading),
        None => 0,
    }
}

/// The time in milliseconds; none for a clock that stands before the epoch. What the clock shows
/// is left open: any time may come back, and `milliseconds_shown` says what is made of it.
pub fn now_ms() -> (time: Option<u64>) {
    milliseconds_shown(read_clock())
}

/// The time in microseconds, zero for a clock that stands before the epoch. What the clock shows is
/// left open: any time may come back, and `microseconds_shown` says what is made of it.
pub fn timestamp_us() -> (time: u64) {
    microseconds_shown(read_clock())
}

} // verus!
