//! The resolver and the aggregator composed into one state machine, plus
//! the retry policy for the persistence sink.
//!
//! Each operation is a pure function of (state, input) — the caller owns
//! the loop, performs the I/O (capture, inference, persistence) and hands
//! plain values in and out, so the decision logic here is verified
//! independently of any runtime.  A sighting whose dimensionality is
//! rejected by the resolver is dropped — the pipeline carries on, per-item
//! failures never terminate it.  On shutdown the caller invokes
//! [`Pipeline::shutdown`] so in-flight batches and open session windows
//! are flushed, not discarded.

use vstd::prelude::*;

use crate::aggregator::Aggregator;
use crate::aggregator::push_rel;
use crate::embedding::EmbeddingError;
use crate::embedding::Threshold;
use crate::tracker::PersonPosition;
use crate::tracker::ResolveOutcome;
use crate::tracker::SessionRecord;
use crate::tracker::Tracker;
use crate::tracker::update_rel;

verus! {

/// The resolver feeding the aggregator.
pub struct Pipeline {
    pub tracker: Tracker,
    pub aggregator: Aggregator,
}

impl Pipeline {
    pub open spec fn wf(&self) -> bool {
        self.tracker.wf() && self.aggregator.wf()
    }

    /// A fresh pipeline with the given runtime configuration: similarity
    /// threshold, optional confirmation count, batch size and latency
    /// bounds, session gap.
    pub fn new(
        threshold: Threshold,
        confirmation: Option<u64>,
        max_batch: usize,
        max_latency: i64,
        session_gap: i64,
    ) -> (p: Pipeline)
        requires
            threshold.wf(),
            max_batch >= 1,
            max_latency >= 0,
            session_gap >= 0,
        ensures
            p.wf(),
            p.tracker.people@.len() == 0,
            p.tracker.threshold == threshold,
            p.tracker.confirmation == confirmation,
            p.aggregator.groups@.len() == 0,
            p.aggregator.max_batch == max_batch,
            p.aggregator.max_latency == max_latency,
            p.aggregator.session_gap == session_gap,
    {
        Pipeline {
            tracker: Tracker::new(threshold, confirmation),
            aggregator: Aggregator::new(max_batch, max_latency, session_gap),
        }
    }

    /// Feeds one sighting through the resolver and, if the resolver
    /// emits, on into the aggregator at clock tick `now`; returns the
    /// records the aggregator finalized, tagged with their identity id.
    ///
    /// A `DimensionMismatch` leaves the whole pipeline unchanged: the
    /// sighting is dropped and processing continues.
    pub fn process(&mut self, s: PersonPosition, now: i64) -> (r: Result<
        Vec<(usize, SessionRecord)>,
        EmbeddingError,
    >)
        requires
            old(self).wf(),
            s.embeddings.wf(),
        ensures
            final(self).wf(),
            match r {
                Ok(out) => exists|oc: ResolveOutcome|
                    {
                        &&& #[trigger] update_rel(
                            old(self).tracker,
                            final(self).tracker,
                            s,
                            Ok(oc),
                        )
                        &&& match oc {
                            ResolveOutcome::Emitted { id, record } => push_rel(
                                old(self).aggregator,
                                final(self).aggregator,
                                id as int,
                                record,
                                now as int,
                                out@,
                            ),
                            ResolveOutcome::Pending { .. } => final(self).aggregator == old(
                                self).aggregator && out@ == Seq::<(usize, SessionRecord)>::empty(),
                        }
                    },
                Err(e) => update_rel(old(self).tracker, final(self).tracker, s, Err(e)) && final(
                    self).aggregator == old(self).aggregator,
            },
    {
        match self.tracker.update(s) {
            Ok(outcome) => match outcome {
                ResolveOutcome::Emitted { id, record } => {
                    let ghost oc_witness = ResolveOutcome::Emitted { id, record };
                    let registry_len = self.tracker.len();
                    proof {
                        assert(id < registry_len);
                    }
                    let out = self.aggregator.push(id, record, now);
                    proof {
                        assert(update_rel(
                            old(self).tracker,
                            self.tracker,
                            s,
                            Ok(oc_witness),
                        ));
                    }
                    Ok(out)
                },
                ResolveOutcome::Pending { id } => {
                    proof {
                        assert(update_rel(
                            old(self).tracker,
                            self.tracker,
                            s,
                            Ok(ResolveOutcome::Pending { id }),
                        ));
                    }
                    Ok(Vec::new())
                },
            },
            Err(e) => Err(e),
        }
    }

    /// The timer tick: forwards to [`Aggregator::poll`]; the resolver is
    /// untouched.
    pub fn on_timer(&mut self, now: i64) -> (out: Vec<(usize, SessionRecord)>)
        requires
            old(self).wf(),
        ensures
            final(self).wf(),
            final(self).tracker == old(self).tracker,
            final(self).aggregator.max_batch == old(self).aggregator.max_batch,
            final(self).aggregator.max_latency == old(self).aggregator.max_latency,
            final(self).aggregator.session_gap == old(self).aggregator.session_gap,
            out@ == crate::aggregator::poll_outs(
                old(self).aggregator.groups@,
                now as int,
                old(self).aggregator.max_latency as int,
                old(self).aggregator.session_gap as int,
                old(self).aggregator.groups@.len() as int,
            ),
    {
        self.aggregator.poll(now)
    }

    /// The shutdown flush: forwards to [`Aggregator::finish`]; the
    /// resolver is untouched.
    pub fn shutdown(&mut self) -> (out: Vec<(usize, SessionRecord)>)
        requires
            old(self).wf(),
        ensures
            final(self).wf(),
            final(self).tracker == old(self).tracker,
            out@ == crate::aggregator::finish_outs(
                old(self).aggregator.groups@,
                old(self).aggregator.session_gap as int,
                old(self).aggregator.groups@.len() as int,
            ),
    {
        self.aggregator.finish()
    }
}

/// The delay before retry number `failures + 1`, doubling from `base` and
/// capped at `cap`.
pub open spec fn backoff_delay(base: int, cap: int, failures: nat) -> int
    decreases failures,
{
    if failures == 0 {
        if base <= cap {
            base
        } else {
            cap
        }
    } else {
        let d = 2 * backoff_delay(base, cap, (failures - 1) as nat);
        if d <= cap {
            d
        } else {
            cap
        }
    }
}

/// Bounded retry with exponential backoff for a failing persistence
/// write: after `max_attempts` failures the item is reported, never
/// crashing unrelated in-flight work.
pub struct RetryPolicy {
    /// How many attempts a write is given before giving up.
    pub max_attempts: u32,
    /// Delay after the first failure, in clock ticks.
    pub base_delay: i64,
    /// Upper bound every delay is capped at.
    pub max_delay: i64,
}

impl RetryPolicy {
    /// Non-negative delays, and a cap small enough that doubling cannot
    /// overflow.
    pub open spec fn wf(&self) -> bool {
        0 <= self.base_delay <= self.max_delay <= i64::MAX / 2
    }

    /// After `failures` failed attempts: the delay to wait before the
    /// next attempt, or `None` once the attempt budget is spent.
    pub fn next_delay(&self, failures: u32) -> (r: Option<i64>)
        requires
            self.wf(),
        ensures
            match r {
                Some(d) => failures < self.max_attempts && d == backoff_delay(
                    self.base_delay as int,
                    self.max_delay as int,
                    failures as nat,
                ),
                None => failures >= self.max_attempts,
            },
    {
        if failures >= self.max_attempts {
            return None;
        }
        let mut d: i64 = self.base_delay;
        let mut i: u32 = 0;
        while i < failures
            invariant
                i <= failures,
                0 <= d <= self.max_delay,
                self.wf(),
                d == backoff_delay(self.base_delay as int, self.max_delay as int, i as nat),
            decreases failures - i,
        {
            let doubled = 2 * d;
            d = if doubled <= self.max_delay {
                doubled
            } else {
                self.max_delay
            };
            i = i + 1;
        }
        Some(d)
    }
}

} // verus!
