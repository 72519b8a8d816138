//! Points in time and how long ago they were.
use std::time::Instant;

use vstd::prelude::*;

verus! {

#[verifier::external_type_specification]
#[verifier::external_body]
pub struct ExInstant(Instant);

/// `<Instant as Clone>::clone`: `Instant` is `Copy`, so a clone is the same
/// point in time.
pub assume_specification[ <Instant as Clone>::clone ](i: &Instant) -> (r: Instant)
    ensures
        r == *i,
;

/// One second, in nanoseconds.
pub const NANOS_PER_SEC: u128 = 1_000_000_000u128;

/// A reading of the current time. Only `instant_now` makes one.
#[derive(Clone, Copy, Debug)]
pub struct Stamp {
    at: Instant,
}

impl View for Stamp {
    type V = Instant;

    closed spec fn view(&self) -> Instant {
        self.at
    }
}

impl Stamp {
    /// The time read.
    pub fn instant(&self) -> (r: Instant)
        ensures
            r == self@,
    {
        self.at
    }
}

/// `at` was read from the clock as the current time: some reading that
/// `instant_now` gave says so.
pub open spec fn read_from_clock(at: Instant) -> bool {
    exists|reading: Stamp| #![trigger reading@] reading@ == at
}

/// `Instant::now`. What it reads depends on the clock, so nothing is stated
/// of the time itself.
#[verifier::external_body]
pub(crate) fn instant_now() -> Stamp {
    Stamp { at: Instant::now() }
}

/// A reading of the clock: the time that had passed since `start`, in
/// nanoseconds. Only `nanos_since` makes one.
#[derive(Clone, Copy, Debug)]
pub struct Elapsed {
    start: Instant,
    nanos: u128,
}

impl View for Elapsed {
    type V = (Instant, u128);

    closed spec fn view(&self) -> (Instant, u128) {
        (self.start, self.nanos)
    }
}

impl Elapsed {
    /// The nanoseconds read.
    pub fn nanos(&self) -> (r: u128)
        ensures
            r == self@.1,
    {
        self.nanos
    }
}

/// `nanos` nanoseconds were read from the clock as the time passed since
/// `start`: some reading that `nanos_since` gave says so.
pub open spec fn measured(start: Instant, nanos: int) -> bool {
    exists|reading: Elapsed| #![trigger reading@] reading@.0 == start && reading@.1 == nanos
}

/// `Instant::elapsed`, as whole nanoseconds (`Duration::as_nanos`). How many
/// depends on the clock, so that is left open; the reading names the
/// `start` it was taken from.
#[verifier::external_body]
pub(crate) fn nanos_since(start: &Instant) -> (r: Elapsed)
    ensures
        r@.0 == *start,
{
    Elapsed { start: *start, nanos: start.elapsed().as_nanos() }
}

/// `<Instant as PartialEq>::eq`: two instants compare equal exactly when they
/// are the same point in time.
#[verifier::external_body]
pub(crate) fn same_instant(a: &Instant, b: &Instant) -> (r: bool)
    ensures
        r == (*a == *b),
{
    a == b
}

/// Whether a span of `elapsed_nanos` nanoseconds is longer than `secs`
/// seconds (`Duration`'s `>` against `Duration::from_secs(secs)`).
pub fn longer_than_secs(elapsed_nanos: u128, secs: u64) -> (r: bool)
    ensures
        r == (elapsed_nanos > secs * NANOS_PER_SEC),
{
    elapsed_nanos > (secs as u128) * NANOS_PER_SEC
}

} // verus!
