//! Real-time resolution of appearance-embedding sightings into stable
//! identities, with temporal aggregation of the resolved records.
//!
//! The crate is organised as a pipeline of pure, verified stages:
//!
//! * [`embedding`] — fixed-point embedding vectors, exact cosine-similarity
//!   threshold decisions and elementwise averaging;
//! * [`tracker`] — the identity resolver: a first-match linear scan over an
//!   append-only registry, with an optional confirmation policy;
//! * [`aggregator`] — per-identity batching and inactivity-gap session
//!   windows, finalising one record per closed session;
//! * [`admission`] — the upstream time-gated admission filter;
//! * [`pipeline`] — the resolver and aggregator composed into one
//!   state machine, plus the bounded retry policy for the sink.
//!
//! Unverified collaborators (the camera source, the inference engine, the
//! persistence sink) live outside this crate and exchange plain values with
//! it.

pub mod admission;
pub mod aggregator;
pub mod embedding;
pub mod laws;
pub mod pipeline;
pub mod tracker;

use vstd::prelude::*;

verus! {

} // verus!
