use sport_timer::embedding::{
    average_embeddings, cosine_similarity, Embedding, EmbeddingError, Threshold, MAX_COMPONENT,
    MAX_DIM,
};
use sport_timer::tracker::{PersonPosition, ResolveOutcome, Tracker};

fn emb(components: Vec<i64>) -> Embedding {
    Embedding::new(components).expect("components within bounds")
}

fn sighting(components: Vec<i64>, position: &str, timestamp: i64) -> PersonPosition {
    PersonPosition {
        embeddings: emb(components),
        position: String::from(position),
        timestamp,
    }
}

fn resolved_id(outcome: &ResolveOutcome) -> usize {
    match outcome {
        ResolveOutcome::Emitted { id, .. } => *id,
        ResolveOutcome::Pending { id } => *id,
    }
}

#[test]
fn zero_vs_zero_similarity_is_one() {
    // similarity 1 exceeds any threshold below 1 ...
    let t = Threshold::new(999, 1000).unwrap();
    let a = emb(vec![0, 0, 0]);
    let b = emb(vec![0, 0, 0]);
    assert_eq!(cosine_similarity(&a, &b, &t), Ok(true));
    // ... and no threshold of 1 or more
    let t1 = Threshold::new(1000, 1000).unwrap();
    assert_eq!(cosine_similarity(&a, &b, &t1), Ok(false));
}

#[test]
fn zero_vs_nonzero_similarity_is_zero() {
    // similarity 0 exceeds only negative thresholds
    let a = emb(vec![0, 0]);
    let b = emb(vec![3, 4]);
    let t = Threshold::new(0, 1000).unwrap();
    assert_eq!(cosine_similarity(&a, &b, &t), Ok(false));
    assert_eq!(cosine_similarity(&b, &a, &t), Ok(false));
    let neg = Threshold::new(-1, 1000).unwrap();
    assert_eq!(cosine_similarity(&a, &b, &neg), Ok(true));
}

#[test]
fn empty_embeddings_count_as_identical() {
    let t = Threshold::new(900, 1000).unwrap();
    let a = emb(vec![]);
    let b = emb(vec![]);
    assert_eq!(cosine_similarity(&a, &b, &t), Ok(true));
}

#[test]
fn orthogonal_vectors_do_not_exceed() {
    let t = Threshold::new(900, 1000).unwrap();
    let a = emb(vec![1, 0]);
    let b = emb(vec![0, 1]);
    assert_eq!(cosine_similarity(&a, &b, &t), Ok(false));
}

#[test]
fn parallel_vectors_exceed() {
    let t = Threshold::new(900, 1000).unwrap();
    let a = emb(vec![1, 0]);
    let b = emb(vec![1, 0]);
    assert_eq!(cosine_similarity(&a, &b, &t), Ok(true));
    // scaled copies point the same way
    let c = emb(vec![500, 0]);
    assert_eq!(cosine_similarity(&a, &c, &t), Ok(true));
}

#[test]
fn similarity_near_the_threshold_is_exact() {
    // cos([3,4],[4,3]) = 24/25 = 0.96: above 959/1000, not above 960/1000
    let a = emb(vec![3, 4]);
    let b = emb(vec![4, 3]);
    let below = Threshold::new(959, 1000).unwrap();
    let at = Threshold::new(960, 1000).unwrap();
    assert_eq!(cosine_similarity(&a, &b, &below), Ok(true));
    assert_eq!(cosine_similarity(&a, &b, &at), Ok(false));
}

#[test]
fn dimension_mismatch_is_rejected_in_comparison() {
    let t = Threshold::new(900, 1000).unwrap();
    let a = emb(vec![1, 0]);
    let b = emb(vec![1, 0, 0]);
    assert_eq!(
        cosine_similarity(&a, &b, &t),
        Err(EmbeddingError::DimensionMismatch)
    );
}

#[test]
fn dimension_mismatch_is_rejected_in_averaging() {
    let a = emb(vec![1, 0]);
    let b = emb(vec![1, 0, 0]);
    assert!(matches!(
        average_embeddings(&a, &b),
        Err(EmbeddingError::DimensionMismatch)
    ));
}

#[test]
fn averaging_rounds_toward_zero() {
    let a = emb(vec![1, -1, 5]);
    let b = emb(vec![2, -2, 5]);
    let avg = average_embeddings(&a, &b).unwrap();
    assert_eq!(avg.components(), &vec![1, -1, 5]);
}

#[test]
fn averaging_identical_embeddings_is_identity() {
    let a = emb(vec![7, -3, 0, 12]);
    let b = emb(vec![7, -3, 0, 12]);
    let avg = average_embeddings(&a, &b).unwrap();
    assert_eq!(avg.components(), &vec![7, -3, 0, 12]);
}

#[test]
fn embedding_bounds_are_enforced() {
    assert!(Embedding::new(vec![MAX_COMPONENT]).is_some());
    assert!(Embedding::new(vec![MAX_COMPONENT + 1]).is_none());
    assert!(Embedding::new(vec![-(MAX_COMPONENT + 1)]).is_none());
    assert!(Embedding::new(vec![0; MAX_DIM]).is_some());
    assert!(Embedding::new(vec![0; MAX_DIM + 1]).is_none());
}

#[test]
fn threshold_bounds_are_enforced() {
    assert!(Threshold::new(900, 1000).is_some());
    assert!(Threshold::new(900, 0).is_none());
    assert!(Threshold::new(900, -10).is_none());
    assert!(Threshold::new(1001, 1000).is_none());
}

#[test]
fn scenario_three_sightings() {
    // A [1,0] founds id 0; B [1,0] (similarity 1.0 > 0.9) joins id 0 and
    // the representative stays [1,0]; C [0,1] (similarity 0.0) founds id 1
    let t = Threshold::new(900, 1000).unwrap();
    let mut tracker = Tracker::new(t, None);

    let a = tracker.update(sighting(vec![1, 0], "east", 0)).unwrap();
    assert_eq!(resolved_id(&a), 0);
    assert_eq!(tracker.people[0].embeddings.components(), &vec![1, 0]);

    let b = tracker.update(sighting(vec![1, 0], "west", 1)).unwrap();
    assert_eq!(resolved_id(&b), 0);
    assert_eq!(tracker.people[0].embeddings.components(), &vec![1, 0]);

    let c = tracker.update(sighting(vec![0, 1], "west", 2)).unwrap();
    assert_eq!(resolved_id(&c), 1);
    assert_eq!(tracker.len(), 2);
}

#[test]
fn similar_sightings_share_one_id() {
    let t = Threshold::new(900, 1000).unwrap();
    let mut tracker = Tracker::new(t, None);
    let a = tracker.update(sighting(vec![100, 0], "east", 0)).unwrap();
    let b = tracker.update(sighting(vec![100, 0], "east", 1)).unwrap();
    assert_eq!(resolved_id(&a), 0);
    assert_eq!(resolved_id(&b), 0);
    assert_eq!(tracker.len(), 1);
}

#[test]
fn dissimilar_sightings_get_increasing_ids() {
    let t = Threshold::new(900, 1000).unwrap();
    let mut tracker = Tracker::new(t, None);
    let a = tracker.update(sighting(vec![1, 0, 0], "east", 0)).unwrap();
    let b = tracker.update(sighting(vec![0, 1, 0], "east", 1)).unwrap();
    let c = tracker.update(sighting(vec![0, 0, 1], "east", 2)).unwrap();
    assert_eq!(resolved_id(&a), 0);
    assert_eq!(resolved_id(&b), 1);
    assert_eq!(resolved_id(&c), 2);
    assert_eq!(tracker.len(), 3);
}

#[test]
fn position_label_is_fixed_at_first_sighting() {
    let t = Threshold::new(900, 1000).unwrap();
    let mut tracker = Tracker::new(t, None);
    tracker.update(sighting(vec![1, 0], "north", 0)).unwrap();
    let r = tracker.update(sighting(vec![1, 0], "south", 1)).unwrap();
    assert_eq!(tracker.people[0].position, "north");
    match r {
        ResolveOutcome::Emitted { record, .. } => assert_eq!(record.position, "north"),
        ResolveOutcome::Pending { .. } => panic!("confirmation is disabled"),
    }
}

#[test]
fn matched_sighting_updates_count_and_last_seen() {
    let t = Threshold::new(900, 1000).unwrap();
    let mut tracker = Tracker::new(t, None);
    tracker.update(sighting(vec![1, 0], "east", 10)).unwrap();
    tracker.update(sighting(vec![1, 0], "east", 25)).unwrap();
    assert_eq!(tracker.people[0].count, 2);
    assert_eq!(tracker.people[0].last_seen, 25);
}

#[test]
fn representative_is_recency_weighted_average() {
    let t = Threshold::new(500, 1000).unwrap();
    let mut tracker = Tracker::new(t, None);
    tracker.update(sighting(vec![100, 0], "east", 0)).unwrap();
    // cos([80,20],[100,0]) ~ 0.97 > 0.5: matches, representative averages
    tracker.update(sighting(vec![80, 20], "east", 1)).unwrap();
    assert_eq!(tracker.people[0].embeddings.components(), &vec![90, 10]);
}

#[test]
fn dimension_mismatch_drops_sighting_and_keeps_registry() {
    let t = Threshold::new(900, 1000).unwrap();
    let mut tracker = Tracker::new(t, None);
    tracker.update(sighting(vec![1, 0], "east", 0)).unwrap();
    let r = tracker.update(sighting(vec![1, 0, 0], "east", 1));
    assert_eq!(r, Err(EmbeddingError::DimensionMismatch));
    assert_eq!(tracker.len(), 1);
    assert_eq!(tracker.people[0].embeddings.components(), &vec![1, 0]);
    assert_eq!(tracker.people[0].count, 1);
}

#[test]
fn confirmation_policy_gates_emission() {
    // with C = 3: sightings 1 and 2 are pending, sightings 3 and 4 emit
    let t = Threshold::new(900, 1000).unwrap();
    let mut tracker = Tracker::new(t, Some(3));
    let r1 = tracker.update(sighting(vec![1, 0], "east", 0)).unwrap();
    let r2 = tracker.update(sighting(vec![1, 0], "east", 1)).unwrap();
    let r3 = tracker.update(sighting(vec![1, 0], "east", 2)).unwrap();
    let r4 = tracker.update(sighting(vec![1, 0], "east", 3)).unwrap();
    assert!(matches!(r1, ResolveOutcome::Pending { id: 0 }));
    assert!(matches!(r2, ResolveOutcome::Pending { id: 0 }));
    assert!(matches!(r3, ResolveOutcome::Emitted { id: 0, .. }));
    assert!(matches!(r4, ResolveOutcome::Emitted { id: 0, .. }));
}

#[test]
fn disabled_confirmation_always_emits() {
    let t = Threshold::new(900, 1000).unwrap();
    let mut tracker = Tracker::new(t, None);
    let r1 = tracker.update(sighting(vec![1, 0], "east", 0)).unwrap();
    assert!(matches!(r1, ResolveOutcome::Emitted { id: 0, .. }));
}
