//! Readings of the system clock. A `ClockReading` is made only by
//! `clock_since_epoch`, so every value of it is something the clock gave.
use vstd::prelude::*;

verus! {

/// A reading of the system clock: the whole seconds since the Unix epoch and the
/// nanoseconds past them.
pub struct ClockReading {
    secs: u64,
    nanos: u32,
}

impl ClockReading {
    /// The whole seconds since the Unix epoch.
    pub closed spec fn seconds(&self) -> u64 {
        self.secs
    }

    /// The nanoseconds past the whole seconds.
    pub closed spec fn subsec_nanos(&self) -> u32 {
        self.nanos
    }

    /// The whole seconds since the Unix epoch.
    pub fn secs(&self) -> (s: u64)
        ensures
            s == self.seconds(),
    {
        self.secs
    }

    /// The nanoseconds past the whole seconds.
    pub fn nanos(&self) -> (n: u32)
        ensures
            n == self.subsec_nanos(),
    {
        self.nanos
    }
}

/// A clock reading as seconds and nanoseconds.
pub open spec fn raw_reading(c: Option<ClockReading>) -> Option<(u64, u32)> {
    match c {
        Some(r) => Some((r.seconds(), r.subsec_nanos())),
        None => None,
    }
}

/// The time since the Unix epoch, from `SystemTime::now().duration_since(UNIX_EPOCH)`,
/// as whole seconds and the nanoseconds past them (below a second, as
/// `Duration::subsec_nanos` documents); `None` where the clock reads before the
/// epoch. Nothing more is stated: it is the clock's reading.
#[verifier::external_body]
pub(crate) fn clock_since_epoch() -> (r: Option<ClockReading>)
    ensures
        r matches Some(c) ==> c.subsec_nanos() < 1_000_000_000,
{
    match std::time::SystemTime::now().duration_since(std::time::UNIX_EPOCH) {
        Ok(d) => Some(ClockReading { secs: d.as_secs(), nanos: d.subsec_nanos() }),
        Err(_) => None,
    }
}

} // verus!
