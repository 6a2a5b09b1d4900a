//! Readings of the machine's clocks. Nothing is known of a reading before it
//! is taken, so every function that takes one also comes in a form that
//! accepts the reading as an argument.

use vstd::prelude::*;
use std::time::Instant;
use std::time::SystemTime;
use std::time::UNIX_EPOCH;

verus! {

/// `std::time::Instant`, a reading of the monotonic clock, taken as an
/// opaque value.
#[verifier::external_type_specification]
#[verifier::external_body]
pub struct ExInstant(Instant);

/// Calls `SystemTime::now` and converts the reading to microseconds since the
/// Unix epoch; zero where the clock stands before the epoch. The reading
/// depends on the machine, so nothing is claimed of it.
#[verifier::external_body]
fn system_time_micros() -> u64 {
    match SystemTime::now().duration_since(UNIX_EPOCH) {
        Ok(since) => since.as_micros() as u64,
        Err(_) => 0,
    }
}

/// Calls `Instant::now`. Nothing is claimed of the instant.
#[verifier::external_body]
fn instant_now() -> Instant {
    Instant::now()
}

/// Calls `Instant::elapsed` and converts the duration to microseconds.
/// Nothing is claimed of the figure.
#[verifier::external_body]
fn instant_elapsed_micros(since: &Instant) -> u64 {
    since.elapsed().as_micros() as u64
}

/// Wall-clock time in milliseconds since the Unix epoch: what the system
/// clock reads in microseconds, in whole milliseconds. The reading is the
/// machine's; whatever it is, this is how it is converted.
pub fn unix_millis() -> (millis: u64)
    ensures
        exists|micros: u64| millis == #[trigger] whole_millis(micros),
{
    let micros = system_time_micros();
    let millis = to_millis(micros);
    assert(millis == whole_millis(micros));
    millis
}

/// A monotonic clock that counts from the moment it was started.
#[derive(Debug)]
pub struct Stopwatch {
    origin: Instant,
}

impl Stopwatch {
    /// A stopwatch that counts from now. Its origin is an instant of the
    /// monotonic clock, of which nothing is known.
    pub fn start() -> Stopwatch {
        Stopwatch { origin: instant_now() }
    }

    /// Time since the start in microseconds, as the monotonic clock reads
    /// it. Nothing is known of the reading.
    pub fn elapsed_micros(&self) -> u64 {
        instant_elapsed_micros(&self.origin)
    }

    /// Time since the start: what the monotonic clock reads in
    /// microseconds, in whole milliseconds.
    pub fn elapsed_millis(&self) -> (millis: u64)
        ensures
            exists|micros: u64| millis == #[trigger] whole_millis(micros),
    {
        let micros = instant_elapsed_micros(&self.origin);
        let millis = to_millis(micros);
        assert(millis == whole_millis(micros));
        millis
    }
}

/// The whole milliseconds in a time of so many microseconds.
pub open spec fn whole_millis(micros: u64) -> u64 {
    micros / 1000
}

/// The whole milliseconds in a time of so many microseconds.
pub fn to_millis(micros: u64) -> (millis: u64)
    ensures
        millis == whole_millis(micros),
{
    micros / 1000
}

} // verus!
