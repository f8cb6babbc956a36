//! Laws of the identity resolver that span several calls.
//!
//! A *run* is a sequence of [`Tracker`] states, each consecutive pair
//! related by the contract of [`Tracker::update`] for the corresponding
//! sighting and result.  The laws below quantify over whole runs starting
//! from an empty registry.

use vstd::prelude::*;

use crate::embedding::EmbeddingError;
use crate::embedding::lemma_avg_self;
use crate::embedding::lemma_self_similarity;
use crate::embedding::similarity_exceeds;
use crate::tracker::PersonPosition;
use crate::tracker::ResolveOutcome;
use crate::tracker::Tracker;
use crate::tracker::update_rel;

verus! {

/// The call resolved the sighting to identity `id` (whether or not the
/// confirmation policy let it emit).
pub open spec fn resolved_to(r: Result<ResolveOutcome, EmbeddingError>, id: int) -> bool {
    match r {
        Ok(oc) => oc.id() == id,
        Err(_) => false,
    }
}

/// `states` is a run of the resolver on `sightings` with `results`: one
/// state more than sightings, and each consecutive pair related by the
/// contract of [`Tracker::update`].
pub open spec fn resolver_run(
    states: Seq<Tracker>,
    sightings: Seq<PersonPosition>,
    results: Seq<Result<ResolveOutcome, EmbeddingError>>,
) -> bool {
    &&& states.len() == sightings.len() + 1
    &&& results.len() == sightings.len()
    &&& forall|k: int|
        0 <= k < sightings.len() ==> #[trigger] update_rel(
            states[k],
            states[k + 1],
            sightings[k],
            results[k],
        )
}

/// All sightings of the run carry embeddings of one dimensionality.
pub open spec fn same_dimension(sightings: Seq<PersonPosition>) -> bool {
    forall|k: int|
        0 <= k < sightings.len() ==> (#[trigger] sightings[k]).embeddings@.len()
            == sightings[0].embeddings@.len()
}

/// Law: for any run, from an empty registry, of sightings whose
/// embeddings are pairwise *below* the threshold (no later sighting
/// exceeds it against any earlier one), every sighting founds a fresh
/// identity: ids are assigned strictly increasing from 0, each identity
/// keeps the founding sighting's embedding as representative, and no call
/// fails.
pub proof fn lemma_pairwise_below_fresh_ids(
    states: Seq<Tracker>,
    sightings: Seq<PersonPosition>,
    results: Seq<Result<ResolveOutcome, EmbeddingError>>,
)
    requires
        resolver_run(states, sightings, results),
        states[0].people@.len() == 0,
        same_dimension(sightings),
        forall|k1: int, k2: int|
            0 <= k1 < k2 < sightings.len() ==> !similarity_exceeds(
                (#[trigger] sightings[k2]).embeddings@,
                (#[trigger] sightings[k1]).embeddings@,
                states[0].threshold.num as int,
                states[0].threshold.den as int,
            ),
    ensures
        forall|k: int| 0 <= k < results.len() ==> resolved_to(#[trigger] results[k], k),
        states.last().people@.len() == sightings.len(),
        forall|k: int|
            0 <= k < sightings.len() ==> (#[trigger] states.last().people@[k]).embeddings@
                == sightings[k].embeddings@,
        states.last().threshold == states[0].threshold,
    decreases sightings.len(),
{
    let n = sightings.len() as int;
    if n == 0 {
        assert(states.last() == states[0]);
    } else {
        let prev_states = states.drop_last();
        let prev_sightings = sightings.drop_last();
        let prev_results = results.drop_last();
        assert forall|k: int| 0 <= k < n - 1 implies #[trigger] update_rel(
            prev_states[k],
            prev_states[k + 1],
            prev_sightings[k],
            prev_results[k],
        ) by {
            assert(update_rel(states[k], states[k + 1], sightings[k], results[k]));
        }
        assert(same_dimension(prev_sightings));
        lemma_pairwise_below_fresh_ids(prev_states, prev_sightings, prev_results);
        let pre = states[n - 1];
        let post = states[n];
        let s = sightings[n - 1];
        assert(pre == prev_states.last());
        assert(update_rel(pre, post, s, results[n - 1]));
        let num = states[0].threshold.num as int;
        let den = states[0].threshold.den as int;
        // the sighting matches nothing: the registry holds exactly the
        // earlier embeddings, all pairwise below the threshold
        assert forall|j: int| 0 <= j < pre.people@.len() implies !crate::tracker::sighting_matches(
            #[trigger] pre.people@[j],
            s.embeddings@,
            num,
            den,
        ) by {
            assert(pre.people@[j].embeddings@ == sightings[j].embeddings@);
            assert(!similarity_exceeds(s.embeddings@, sightings[j].embeddings@, num, den));
        }
        // a dimension mismatch is impossible: every embedding has the
        // dimensionality of the first, which founded identity 0
        if pre.people@.len() > 0 {
            assert(pre.people@[0].embeddings@ == sightings[0].embeddings@);
            assert(s.embeddings@.len() == sightings[0].embeddings@.len());
        }
        match results[n - 1] {
            Err(_) => {
                assert(false);
            },
            Ok(oc) => {
                if crate::tracker::resolve_matched(pre.people@, post.people@, s, oc.id(), num, den) {
                    assert(false);
                }
                assert(oc.id() == n - 1);
            },
        }
        assert(states.last().people@.len() == sightings.len());
        assert forall|k: int| 0 <= k < n implies (#[trigger] states.last().people@[k]).embeddings@
            == sightings[k].embeddings@ by {
            if k < n - 1 {
                assert(post.people@[k] == pre.people@[k]);
                assert(pre.people@[k].embeddings@ == prev_sightings[k].embeddings@);
            }
        }
        assert forall|k: int| 0 <= k < n implies resolved_to(#[trigger] results[k], k) by {
            if k < n - 1 {
                assert(resolved_to(prev_results[k], k));
            }
        }
    }
}

/// Law: from an empty registry, two sightings whose embeddings lie above
/// the threshold of each other both resolve to identity 0, and the
/// registry holds exactly one identity afterwards.
pub proof fn lemma_pair_above_same_id(
    t0: Tracker,
    t1: Tracker,
    t2: Tracker,
    s1: PersonPosition,
    s2: PersonPosition,
    r1: Result<ResolveOutcome, EmbeddingError>,
    r2: Result<ResolveOutcome, EmbeddingError>,
)
    requires
        t0.people@.len() == 0,
        update_rel(t0, t1, s1, r1),
        update_rel(t1, t2, s2, r2),
        s1.embeddings@.len() == s2.embeddings@.len(),
        similarity_exceeds(
            s2.embeddings@,
            s1.embeddings@,
            t0.threshold.num as int,
            t0.threshold.den as int,
        ),
    ensures
        resolved_to(r1, 0),
        resolved_to(r2, 0),
        t2.people@.len() == 1,
{
    let num = t0.threshold.num as int;
    let den = t0.threshold.den as int;
    match r1 {
        Err(_) => {
            assert(false);
        },
        Ok(oc1) => {
            if crate::tracker::resolve_matched(t0.people@, t1.people@, s1, oc1.id(), num, den) {
                assert(false);
            }
            assert(oc1.id() == 0);
            assert(t1.people@.len() == 1);
            assert(t1.people@[0].embeddings@ == s1.embeddings@);
        },
    }
    match r2 {
        Err(_) => {
            assert(false);
        },
        Ok(oc2) => {
            if oc2.id() == t1.people@.len() && crate::tracker::resolve_fresh(
                t1.people@,
                t2.people@,
                s2,
                num,
                den,
            ) {
                assert(crate::tracker::sighting_matches(t1.people@[0], s2.embeddings@, num, den));
                assert(false);
            }
            assert(crate::tracker::resolve_matched(t1.people@, t2.people@, s2, oc2.id(), num, den));
            assert(oc2.id() == 0);
            assert(t2.people@.len() == 1);
        },
    }
}

/// Law: for any run, from an empty registry, of sightings that all carry
/// one identical embedding (pairwise similarity 1, which exceeds any
/// threshold below 1), every sighting resolves to identity 0 and the
/// representative embedding never changes: the embedding is a fixed point
/// of the averaging update.
pub proof fn lemma_identical_sightings_fixed_point(
    states: Seq<Tracker>,
    sightings: Seq<PersonPosition>,
    results: Seq<Result<ResolveOutcome, EmbeddingError>>,
)
    requires
        resolver_run(states, sightings, results),
        states[0].people@.len() == 0,
        states[0].threshold.den > 0,
        states[0].threshold.num < states[0].threshold.den,
        forall|k: int|
            0 <= k < sightings.len() ==> (#[trigger] sightings[k]).embeddings@
                == sightings[0].embeddings@,
    ensures
        forall|k: int| 0 <= k < results.len() ==> resolved_to(#[trigger] results[k], 0),
        states.last().people@.len() == if sightings.len() == 0 {
            0int
        } else {
            1int
        },
        sightings.len() > 0 ==> states.last().people@[0].embeddings@ == sightings[0].embeddings@,
        states.last().threshold == states[0].threshold,
    decreases sightings.len(),
{
    let n = sightings.len() as int;
    if n == 0 {
        assert(states.last() == states[0]);
    } else {
        let prev_states = states.drop_last();
        let prev_sightings = sightings.drop_last();
        let prev_results = results.drop_last();
        assert forall|k: int| 0 <= k < n - 1 implies #[trigger] update_rel(
            prev_states[k],
            prev_states[k + 1],
            prev_sightings[k],
            prev_results[k],
        ) by {
            assert(update_rel(states[k], states[k + 1], sightings[k], results[k]));
        }
        lemma_identical_sightings_fixed_point(prev_states, prev_sightings, prev_results);
        let pre = states[n - 1];
        let post = states[n];
        let s = sightings[n - 1];
        let e = sightings[0].embeddings@;
        assert(s.embeddings@ == e);
        assert(pre == prev_states.last());
        assert(update_rel(pre, post, s, results[n - 1]));
        let num = states[0].threshold.num as int;
        let den = states[0].threshold.den as int;
        lemma_self_similarity(e, num, den);
        match results[n - 1] {
            Err(_) => {
                assert(false);
            },
            Ok(oc) => {
                if n - 1 == 0 {
                    // first sighting founds identity 0
                    if crate::tracker::resolve_matched(
                        pre.people@,
                        post.people@,
                        s,
                        oc.id(),
                        num,
                        den,
                    ) {
                        assert(false);
                    }
                    assert(oc.id() == 0);
                    assert(post.people@[0].embeddings@ == e);
                } else {
                    // the registry holds exactly identity 0 with
                    // representative `e`, and `e` matches itself
                    assert(pre.people@.len() == 1);
                    assert(pre.people@[0].embeddings@ == e);
                    assert(crate::tracker::sighting_matches(pre.people@[0], s.embeddings@, num, den));
                    if oc.id() == pre.people@.len() && crate::tracker::resolve_fresh(
                        pre.people@,
                        post.people@,
                        s,
                        num,
                        den,
                    ) {
                        assert(false);
                    }
                    assert(crate::tracker::resolve_matched(
                        pre.people@,
                        post.people@,
                        s,
                        oc.id(),
                        num,
                        den,
                    ));
                    assert(oc.id() == 0);
                    // averaging an embedding with itself leaves it unchanged
                    assert forall|j: int| 0 <= j < post.people@[0].embeddings@.len() implies (
                    #[trigger] post.people@[0].embeddings@[j]) == e[j] by {
                        lemma_avg_self(e[j] as int);
                    }
                    assert(post.people@[0].embeddings@ =~= e);
                }
            },
        }
        assert forall|k: int| 0 <= k < n implies resolved_to(#[trigger] results[k], 0) by {
            if k < n - 1 {
                assert(resolved_to(prev_results[k], 0));
            }
        }
    }
}

} // verus!
