//! Time-gated admission: an upstream rate limiter protecting an expensive
//! inference collaborator from being invoked on every frame.
//!
//! The filter keeps one piece of state per camera: the timestamp of the
//! most recent observation it let through.  A new observation goes
//! through only when its timestamp differs from that one by more than the
//! configured minimum interval; the very first timestamp ever seen always
//! goes through, and a rejected observation leaves the state unchanged.

use vstd::prelude::*;

verus! {

/// Whether a sample with timestamp `ts` passes a gate whose last admitted
/// timestamp is `last`: always on first sight, afterwards only when the
/// timestamps differ by more than `min_interval`.
pub open spec fn gate_admits(last: Option<i64>, ts: i64, min_interval: i64) -> bool {
    match last {
        None => true,
        Some(l) => ts - l > min_interval || l - ts > min_interval,
    }
}

/// A per-source admission gate.
pub struct AdmissionGate {
    /// Minimum distance between admitted timestamps, in the same ticks
    /// as the timestamps themselves.
    pub min_interval: i64,
    /// The last admitted timestamp, once anything has been admitted.
    pub last: Option<i64>,
}

impl AdmissionGate {
    /// A gate that has seen nothing yet.
    pub fn new(min_interval: i64) -> (g: AdmissionGate)
        ensures
            g.min_interval == min_interval,
            g.last is None,
    {
        AdmissionGate { min_interval, last: None }
    }

    /// Admits or rejects the sample with timestamp `ts`; only an admitted
    /// timestamp becomes the new reference point.
    pub fn accept(&mut self, ts: i64) -> (b: bool)
        ensures
            b == gate_admits(old(self).last, ts, old(self).min_interval),
            final(self).min_interval == old(self).min_interval,
            final(self).last == if b {
                Some(ts)
            } else {
                old(self).last
            },
    {
        let ok = match self.last {
            None => true,
            Some(l) => {
                let d = (ts as i128) - (l as i128);
                d > (self.min_interval as i128) || -d > (self.min_interval as i128)
            },
        };
        if ok {
            self.last = Some(ts);
        }
        ok
    }
}

} // verus!
