//! The identity resolver.
//!
//! A [`Tracker`] owns an append-only registry of [`Identity`] values.  Each
//! incoming sighting ([`PersonPosition`]) is matched by a linear scan in
//! insertion order against every registered identity; the *first* identity
//! whose cosine similarity to the sighting exceeds the configured threshold
//! wins (first-match, not best-match, for a deterministic tie-break).  On a
//! match the identity's representative embedding becomes the elementwise
//! average of the stored representative and the new embedding — a
//! recency-weighted update, not a cumulative mean — its sighting count
//! grows, its last-seen timestamp advances, and its position label is kept
//! as recorded at first sighting, never overwritten.  On no match a fresh
//! identity is appended with id equal to the registry length, so ids are
//! assigned in insertion order and never reused.
//!
//! A sighting whose embedding disagrees with the registry's dimensionality
//! is rejected with an error and the registry is left untouched.
//!
//! An optional confirmation threshold `C` suppresses output for identities
//! seen fewer than `C` times: such calls resolve to [`ResolveOutcome::
//! Pending`].  Once the count reaches `C`, every call (not only the
//! crossing one) emits a [`SessionRecord`].  With the policy disabled,
//! every call emits.

use vstd::prelude::*;

use crate::embedding::Embedding;
use crate::embedding::EmbeddingError;
use crate::embedding::Threshold;
use crate::embedding::average_embeddings;
use crate::embedding::avg_toward_zero;
use crate::embedding::cosine_similarity;
use crate::embedding::similarity_exceeds;

verus! {

/// A raw sighting: an appearance embedding, the label of the position it
/// was captured at, and its timestamp.
#[derive(Debug)]
pub struct PersonPosition {
    pub embeddings: Embedding,
    pub position: String,
    pub timestamp: i64,
}

/// One tracked identity: its stable id is its index in the registry.
#[derive(Debug)]
pub struct Identity {
    /// Running representative embedding; its dimensionality never changes.
    pub embeddings: Embedding,
    /// Position label recorded at first sighting; never overwritten.
    pub position: String,
    /// Number of sightings resolved to this identity.
    pub count: u64,
    /// Timestamp of the most recent sighting resolved to this identity.
    pub last_seen: i64,
}

/// The record handed downstream for one resolved sighting: a snapshot of
/// the identity's state, stamped with the sighting's timestamp.  The
/// identity id travels beside it and is stripped at the sink boundary.
#[derive(Debug, PartialEq, Eq)]
pub struct SessionRecord {
    pub embeddings: Embedding,
    pub position: String,
    pub timestamp: i64,
}

impl Clone for SessionRecord {
    fn clone(&self) -> (r: Self)
        ensures
            r.embeddings@ == self.embeddings@,
            r.position@ == self.position@,
            r.timestamp == self.timestamp,
    {
        SessionRecord {
            embeddings: self.embeddings.clone(),
            position: self.position.clone(),
            timestamp: self.timestamp,
        }
    }
}

/// What one resolve call produced for downstream stages.
#[derive(Debug, PartialEq, Eq)]
pub enum ResolveOutcome {
    /// The sighting resolved to identity `id` and is reportable.
    Emitted { id: usize, record: SessionRecord },
    /// The sighting resolved to identity `id`, but the identity has not
    /// reached the confirmation threshold yet; nothing is reported.
    Pending { id: usize },
}

impl ResolveOutcome {
    /// The id the sighting resolved to.
    pub open spec fn id(&self) -> int {
        match self {
            ResolveOutcome::Emitted { id, .. } => *id as int,
            ResolveOutcome::Pending { id } => *id as int,
        }
    }

    pub open spec fn is_emitted(&self) -> bool {
        match self {
            ResolveOutcome::Emitted { .. } => true,
            ResolveOutcome::Pending { .. } => false,
        }
    }
}

/// Whether a sighting matches a registered identity: its cosine similarity
/// to the identity's representative exceeds the threshold `num/den`.
pub open spec fn sighting_matches(p: Identity, e: Seq<i64>, num: int, den: int) -> bool {
    similarity_exceeds(e, p.embeddings@, num, den)
}

/// No identity with an index below `k` matches the sighting.
pub open spec fn no_match_before(
    people: Seq<Identity>,
    e: Seq<i64>,
    num: int,
    den: int,
    k: int,
) -> bool {
    forall|j: int| 0 <= j < k ==> !sighting_matches(#[trigger] people[j], e, num, den)
}

/// The confirmation policy: with no threshold every resolve call emits;
/// with threshold `c`, calls emit exactly when the identity's sighting
/// count has reached `c`.
pub open spec fn emits(confirmation: Option<u64>, count: u64) -> bool {
    match confirmation {
        None => true,
        Some(c) => count >= c,
    }
}

/// The sighting count after one more sighting; `u64` is far beyond any
/// realistic count, so it saturates rather than wraps.
pub open spec fn saturating_inc(c: u64) -> int {
    if c < u64::MAX {
        c + 1
    } else {
        c as int
    }
}

/// Registry transition for a sighting that matched the identity at `id`:
/// the first match wins, the representative is averaged, the count grows,
/// the last-seen timestamp advances, the position label is kept, and every
/// other identity is untouched.
pub open spec fn resolve_matched(
    old_people: Seq<Identity>,
    new_people: Seq<Identity>,
    s: PersonPosition,
    id: int,
    num: int,
    den: int,
) -> bool {
    &&& 0 <= id < old_people.len()
    &&& sighting_matches(old_people[id], s.embeddings@, num, den)
    &&& no_match_before(old_people, s.embeddings@, num, den, id)
    &&& new_people.len() == old_people.len()
    &&& forall|j: int| 0 <= j < old_people.len() && j != id ==> new_people[j] == old_people[j]
    &&& new_people[id].embeddings@.len() == old_people[id].embeddings@.len()
    &&& forall|k: int|
        0 <= k < new_people[id].embeddings@.len() ==> #[trigger] new_people[id].embeddings@[k]
            == avg_toward_zero(old_people[id].embeddings@[k] as int, s.embeddings@[k] as int)
    &&& new_people[id].position@ == old_people[id].position@
    &&& new_people[id].count == saturating_inc(old_people[id].count)
    &&& new_people[id].last_seen == s.timestamp
}

/// Registry transition for a sighting that matched nothing: a fresh
/// identity is appended, with id equal to the old registry length, the
/// sighting's embedding as representative, its label, count 1 and its
/// timestamp; every existing identity is untouched.
pub open spec fn resolve_fresh(
    old_people: Seq<Identity>,
    new_people: Seq<Identity>,
    s: PersonPosition,
    num: int,
    den: int,
) -> bool {
    &&& no_match_before(old_people, s.embeddings@, num, den, old_people.len() as int)
    &&& new_people.len() == old_people.len() + 1
    &&& forall|j: int| 0 <= j < old_people.len() ==> new_people[j] == old_people[j]
    &&& new_people[old_people.len() as int].embeddings@ == s.embeddings@
    &&& new_people[old_people.len() as int].position@ == s.position@
    &&& new_people[old_people.len() as int].count == 1
    &&& new_people[old_people.len() as int].last_seen == s.timestamp
}

/// Everything [`Tracker::update`] guarantees about one call: `pre` and
/// `post` are the registries before and after, `s` the sighting, `r` the
/// result.
pub open spec fn update_rel(
    pre: Tracker,
    post: Tracker,
    s: PersonPosition,
    r: Result<ResolveOutcome, EmbeddingError>,
) -> bool {
    let num = pre.threshold.num as int;
    let den = pre.threshold.den as int;
    &&& post.threshold == pre.threshold
    &&& post.confirmation == pre.confirmation
    &&& match r {
        Err(e) => {
            &&& e == EmbeddingError::DimensionMismatch
            &&& pre.people@.len() > 0
            &&& s.embeddings@.len() != pre.people@[0].embeddings@.len()
            &&& post.people@ == pre.people@
        },
        Ok(outcome) => {
            &&& pre.people@.len() > 0 ==> s.embeddings@.len() == pre.people@[0].embeddings@.len()
            &&& {
                ||| resolve_matched(pre.people@, post.people@, s, outcome.id(), num, den)
                ||| (outcome.id() == pre.people@.len() && resolve_fresh(
                    pre.people@,
                    post.people@,
                    s,
                    num,
                    den,
                ))
            }
            &&& outcome.is_emitted() == emits(
                pre.confirmation,
                post.people@[outcome.id()].count,
            )
            &&& match outcome {
                ResolveOutcome::Emitted { id, record } => {
                    &&& record.embeddings@ == post.people@[id as int].embeddings@
                    &&& record.position@ == post.people@[id as int].position@
                    &&& record.timestamp == s.timestamp
                },
                ResolveOutcome::Pending { .. } => true,
            }
        },
    }
}

/// The identity resolver: the registry plus its runtime configuration.
pub struct Tracker {
    /// Append-only registry; an identity's id is its index here.
    pub people: Vec<Identity>,
    /// Similarity threshold a sighting must exceed to match.
    pub threshold: Threshold,
    /// Optional confirmation threshold (minimum sighting count before an
    /// identity is reported downstream).
    pub confirmation: Option<u64>,
}

impl Tracker {
    /// Well-formedness: a valid threshold, every representative well
    /// formed and of the registry's one dimensionality, every count at
    /// least 1.
    pub open spec fn wf(&self) -> bool {
        &&& self.threshold.wf()
        &&& forall|i: int| 0 <= i < self.people@.len() ==> (#[trigger] self.people@[i]).embeddings.wf()
        &&& forall|i: int|
            0 <= i < self.people@.len() ==> (#[trigger] self.people@[i]).embeddings@.len()
                == self.people@[0].embeddings@.len()
        &&& forall|i: int| 0 <= i < self.people@.len() ==> (#[trigger] self.people@[i]).count >= 1
    }

    /// An empty registry with the given runtime configuration.
    pub fn new(threshold: Threshold, confirmation: Option<u64>) -> (t: Tracker)
        requires
            threshold.wf(),
        ensures
            t.wf(),
            t.people@.len() == 0,
            t.threshold == threshold,
            t.confirmation == confirmation,
    {
        Tracker { people: Vec::new(), threshold, confirmation }
    }

    /// Number of identities tracked so far.
    pub fn len(&self) -> (n: usize)
        ensures
            n == self.people@.len(),
    {
        self.people.len()
    }

    /// Resolves one sighting against the registry.
    ///
    /// Scans the registry in insertion order and takes the first identity
    /// whose similarity to the sighting exceeds the threshold, updating it
    /// as [`resolve_matched`] states; appends a fresh identity as
    /// [`resolve_fresh`] states when nothing matches.  A sighting whose
    /// dimensionality differs from the registry's is rejected with
    /// `DimensionMismatch` and the registry is unchanged.  The outcome is
    /// `Emitted` exactly when the confirmation policy allows it.
    pub fn update(&mut self, target: PersonPosition) -> (r: Result<
        ResolveOutcome,
        EmbeddingError,
    >)
        requires
            old(self).wf(),
            target.embeddings.wf(),
        ensures
            final(self).wf(),
            update_rel(*old(self), *final(self), target, r),
    {
        let n = self.people.len();
        if n > 0 && target.embeddings.len() != self.people[0].embeddings.len() {
            return Err(EmbeddingError::DimensionMismatch);
        }
        let ghost num = self.threshold.num as int;
        let ghost den = self.threshold.den as int;
        // First-match linear scan, a documented O(n) cost per call.
        let mut found: Option<usize> = None;
        let mut i: usize = 0;
        while i < n
            invariant_except_break
                found.is_none(),
            invariant
                n == self.people@.len(),
                i <= n,
                self.wf(),
                target.embeddings.wf(),
                num == self.threshold.num as int,
                den == self.threshold.den as int,
                n > 0 ==> target.embeddings@.len() == self.people@[0].embeddings@.len(),
                no_match_before(self.people@, target.embeddings@, num, den, i as int),
            ensures
                match found {
                    Some(k) => 0 <= k < n && sighting_matches(
                        self.people@[k as int],
                        target.embeddings@,
                        num,
                        den,
                    ) && no_match_before(self.people@, target.embeddings@, num, den, k as int),
                    None => no_match_before(self.people@, target.embeddings@, num, den, n as int),
                },
            decreases n - i,
        {
            let matched = match cosine_similarity(
                &target.embeddings,
                &self.people[i].embeddings,
                &self.threshold,
            ) {
                Ok(b) => b,
                Err(e) => {
                    proof {
                        assert(false);
                    }
                    return Err(e);
                },
            };
            if matched {
                found = Some(i);
                break ;
            }
            i = i + 1;
        }
        match found {
            Some(idx) => {
                let new_emb = match average_embeddings(
                    &self.people[idx].embeddings,
                    &target.embeddings,
                ) {
                    Ok(e) => e,
                    Err(e) => {
                        proof {
                            assert(false);
                        }
                        return Err(e);
                    },
                };
                let old_count = self.people[idx].count;
                let new_count: u64 = if old_count < u64::MAX {
                    old_count + 1
                } else {
                    old_count
                };
                let record = SessionRecord {
                    embeddings: new_emb.clone(),
                    position: self.people[idx].position.clone(),
                    timestamp: target.timestamp,
                };
                let updated = Identity {
                    embeddings: new_emb,
                    position: self.people[idx].position.clone(),
                    count: new_count,
                    last_seen: target.timestamp,
                };
                self.people.set(idx, updated);
                let reportable = match self.confirmation {
                    None => true,
                    Some(c) => new_count >= c,
                };
                if reportable {
                    Ok(ResolveOutcome::Emitted { id: idx, record })
                } else {
                    Ok(ResolveOutcome::Pending { id: idx })
                }
            },
            None => {
                let id = self.people.len();
                let record = SessionRecord {
                    embeddings: target.embeddings.clone(),
                    position: target.position.clone(),
                    timestamp: target.timestamp,
                };
                let fresh = Identity {
                    embeddings: target.embeddings,
                    position: target.position,
                    count: 1,
                    last_seen: target.timestamp,
                };
                self.people.push(fresh);
                let reportable = match self.confirmation {
                    None => true,
                    Some(c) => 1 >= c,
                };
                if reportable {
                    Ok(ResolveOutcome::Emitted { id, record })
                } else {
                    Ok(ResolveOutcome::Pending { id })
                }
            },
        }
    }
}

} // verus!
