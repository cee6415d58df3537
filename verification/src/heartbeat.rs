//! The latency probe monitor.
//!
//! The protocol carries no sequence identifier on a probe, so round-trip
//! time is only meaningful with a single probe in flight: the monitor never
//! lets a second probe out while one is outstanding, and measures the time
//! from the outstanding probe's send to the echo that resolves it.

use vstd::prelude::*;

verus! {

/// Tracks the one probe that may be in flight.
pub struct HeartbeatMonitor {
    outstanding: Option<u64>,
}

impl HeartbeatMonitor {
    /// The send time of the probe in flight, if one is.
    pub closed spec fn outstanding(&self) -> Option<u64> {
        self.outstanding
    }

    /// A monitor with no probe in flight.
    pub fn new() -> (m: HeartbeatMonitor)
        ensures
            m.outstanding() is None,
    {
        HeartbeatMonitor { outstanding: None }
    }

    /// Marks a probe sent now, unless one is already in flight: probes are
    /// serialized, never overlapped.
    pub fn try_begin_probe(&mut self, now_ms: u64) -> (r: bool)
        ensures
            r == (old(self).outstanding() is None),
            r ==> final(self).outstanding() == Some(now_ms),
            !r ==> final(self).outstanding() == old(self).outstanding(),
    {
        match self.outstanding {
            None => {
                self.outstanding = Some(now_ms);
                true
            },
            Some(_) => false,
        }
    }

    /// Resolves the outstanding probe against its echo: the round-trip time
    /// in milliseconds, zero when the clock stepped backwards, and nothing
    /// when no probe was in flight.
    pub fn on_echo(&mut self, now_ms: u64) -> (r: Option<u64>)
        ensures
            final(self).outstanding() is None,
            match old(self).outstanding() {
                Some(t0) => r == Some(
                    if now_ms >= t0 {
                        (now_ms - t0) as u64
                    } else {
                        0u64
                    },
                ),
                None => r is None,
            },
    {
        let out = self.outstanding;
        self.outstanding = None;
        match out {
            Some(t0) => {
                if now_ms >= t0 {
                    Some(now_ms - t0)
                } else {
                    Some(0)
                }
            },
            None => None,
        }
    }

    /// Forgets any probe in flight, as a closed or failed channel must.
    pub fn reset(&mut self)
        ensures
            final(self).outstanding() is None,
    {
        self.outstanding = None;
    }
}

} // verus!
