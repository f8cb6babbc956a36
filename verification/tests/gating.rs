use sport_timer::admission::AdmissionGate;
use sport_timer::embedding::{Embedding, Threshold};
use sport_timer::pipeline::{Pipeline, RetryPolicy};
use sport_timer::tracker::PersonPosition;

#[test]
fn first_sample_is_always_admitted() {
    let mut gate = AdmissionGate::new(5);
    assert!(gate.accept(0));
    let mut late_start = AdmissionGate::new(5);
    assert!(late_start.accept(-100));
}

#[test]
fn samples_within_the_interval_are_rejected() {
    let mut gate = AdmissionGate::new(5);
    assert!(gate.accept(10));
    assert!(!gate.accept(12));
    assert!(!gate.accept(15));
    assert!(gate.accept(16));
}

#[test]
fn rejected_samples_do_not_move_the_gate() {
    let mut gate = AdmissionGate::new(5);
    assert!(gate.accept(0));
    assert!(!gate.accept(3));
    // 6 differs from the last admitted timestamp 0 by more than 5, even
    // though it is within 5 of the rejected 3
    assert!(gate.accept(6));
}

#[test]
fn the_gate_compares_distance_in_both_directions() {
    let mut gate = AdmissionGate::new(5);
    assert!(gate.accept(100));
    assert!(!gate.accept(96));
    assert!(gate.accept(94));
}

#[test]
fn retry_delays_double_up_to_the_cap() {
    let policy = RetryPolicy { max_attempts: 4, base_delay: 10, max_delay: 40 };
    assert_eq!(policy.next_delay(0), Some(10));
    assert_eq!(policy.next_delay(1), Some(20));
    assert_eq!(policy.next_delay(2), Some(40));
    assert_eq!(policy.next_delay(3), Some(40));
    assert_eq!(policy.next_delay(4), None);
    assert_eq!(policy.next_delay(100), None);
}

fn sighting(components: Vec<i64>, ts: i64) -> PersonPosition {
    PersonPosition {
        embeddings: Embedding::new(components).unwrap(),
        position: String::from("east"),
        timestamp: ts,
    }
}

#[test]
fn pipeline_sessions_end_to_end() {
    // threshold 0.9, no confirmation, immediate batches, session gap 10
    let t = Threshold::new(900, 1000).unwrap();
    let mut p = Pipeline::new(t, None, 1, 0, 10);
    assert!(p.process(sighting(vec![1, 0], 0), 0).unwrap().is_empty());
    assert!(p.process(sighting(vec![1, 0], 1), 1).unwrap().is_empty());
    assert!(p.process(sighting(vec![1, 0], 2), 2).unwrap().is_empty());
    let closed = p.process(sighting(vec![1, 0], 20), 20).unwrap();
    assert_eq!(closed.len(), 1);
    assert_eq!(closed[0].0, 0);
    assert_eq!(closed[0].1.timestamp, 2);
    let rest = p.shutdown();
    assert_eq!(rest.len(), 1);
    assert_eq!(rest[0].1.timestamp, 20);
}

#[test]
fn pipeline_drops_mismatched_sighting_and_continues() {
    let t = Threshold::new(900, 1000).unwrap();
    let mut p = Pipeline::new(t, None, 1, 0, 10);
    assert!(p.process(sighting(vec![1, 0], 0), 0).unwrap().is_empty());
    assert!(p.process(sighting(vec![1, 0, 0], 1), 1).is_err());
    // the registry and the aggregation state are untouched
    assert_eq!(p.tracker.len(), 1);
    let out = p.shutdown();
    assert_eq!(out.len(), 1);
    assert_eq!(out[0].1.timestamp, 0);
}

#[test]
fn pipeline_confirmation_holds_back_early_sightings() {
    let t = Threshold::new(900, 1000).unwrap();
    let mut p = Pipeline::new(t, Some(2), 1, 0, 10);
    assert!(p.process(sighting(vec![1, 0], 0), 0).unwrap().is_empty());
    // the first sighting was pending: nothing reached the aggregator
    assert_eq!(p.aggregator.groups.len(), 0);
    assert!(p.process(sighting(vec![1, 0], 1), 1).unwrap().is_empty());
    let out = p.shutdown();
    assert_eq!(out.len(), 1);
    assert_eq!(out[0].1.timestamp, 1);
}

#[test]
fn pipeline_timer_closes_idle_sessions() {
    let t = Threshold::new(900, 1000).unwrap();
    let mut p = Pipeline::new(t, None, 1, 0, 10);
    assert!(p.process(sighting(vec![1, 0], 0), 0).unwrap().is_empty());
    assert!(p.on_timer(10).is_empty());
    let out = p.on_timer(11);
    assert_eq!(out.len(), 1);
    assert_eq!(out[0].0, 0);
    assert_eq!(out[0].1.timestamp, 0);
}
