use sport_timer::aggregator::Aggregator;
use sport_timer::embedding::Embedding;
use sport_timer::tracker::SessionRecord;

fn record(ts: i64) -> SessionRecord {
    SessionRecord {
        embeddings: Embedding::new(vec![1, 0]).unwrap(),
        position: String::from("east"),
        timestamp: ts,
    }
}

#[test]
fn session_gap_splits_into_two_finalized_records() {
    // same-identity arrivals at t=0,1,2 (gaps below 10) then t=20 (gap
    // above 10): exactly two finalized records, one reflecting the state
    // at t=2, one for the new session at t=20
    let mut agg = Aggregator::new(1, 0, 10);
    assert!(agg.push(0, record(0), 0).is_empty());
    assert!(agg.push(0, record(1), 1).is_empty());
    assert!(agg.push(0, record(2), 2).is_empty());
    let closed = agg.push(0, record(20), 20);
    assert_eq!(closed.len(), 1);
    assert_eq!(closed[0].0, 0);
    assert_eq!(closed[0].1.timestamp, 2);
    let rest = agg.finish();
    assert_eq!(rest.len(), 1);
    assert_eq!(rest[0].0, 0);
    assert_eq!(rest[0].1.timestamp, 20);
}

#[test]
fn window_keeps_only_the_last_record() {
    let mut agg = Aggregator::new(1, 0, 10);
    for ts in [0, 3, 6, 9, 12] {
        assert!(agg.push(0, record(ts), ts).is_empty());
    }
    // every gap stayed within the bound: one session, last record wins
    let out = agg.finish();
    assert_eq!(out.len(), 1);
    assert_eq!(out[0].1.timestamp, 12);
}

#[test]
fn full_buffer_flushes_as_one_batch() {
    // 1024 same-group records arriving within 10 ticks flush as one batch
    let mut agg = Aggregator::new(1024, 100, 10_000);
    for i in 0..1023 {
        let out = agg.push(0, record(i), i % 10);
        assert!(out.is_empty());
    }
    assert_eq!(agg.groups[0].batch.len(), 1023);
    let out = agg.push(0, record(1023), 9);
    // the batch left the buffer and ran through the session window; the
    // timestamps were close, so the window merely stayed open on the last
    assert!(out.is_empty());
    assert_eq!(agg.groups[0].batch.len(), 0);
    assert!(agg.groups[0].window.is_some());
}

#[test]
fn isolated_record_flushes_after_latency() {
    // a single buffered record flushes once 100 ticks have elapsed
    let mut agg = Aggregator::new(1024, 100, 10_000);
    assert!(agg.push(0, record(0), 0).is_empty());
    assert!(agg.poll(50).is_empty());
    assert_eq!(agg.groups[0].batch.len(), 1);
    assert!(agg.poll(100).is_empty());
    assert_eq!(agg.groups[0].batch.len(), 0);
    assert!(agg.groups[0].window.is_some());
}

#[test]
fn idle_window_closes_on_timer() {
    let mut agg = Aggregator::new(1, 0, 10);
    assert!(agg.push(0, record(5), 5).is_empty());
    // not idle yet at t=15 (gap is not yet exceeded), idle at t=16
    assert!(agg.poll(15).is_empty());
    let out = agg.poll(16);
    assert_eq!(out.len(), 1);
    assert_eq!(out[0], (0, record(5)));
    assert!(agg.groups[0].window.is_none());
}

#[test]
fn groups_are_kept_apart() {
    let mut agg = Aggregator::new(1, 0, 10);
    assert!(agg.push(0, record(0), 0).is_empty());
    assert!(agg.push(1, record(100), 0).is_empty());
    // group 1's window is young; only group 0's is idle at t=20
    let out = agg.poll(20);
    assert_eq!(out.len(), 1);
    assert_eq!(out[0].0, 0);
    let rest = agg.finish();
    assert_eq!(rest.len(), 1);
    assert_eq!(rest[0].0, 1);
}

#[test]
fn out_of_order_timestamps_stay_in_one_session() {
    // arrival order is preserved, not re-sorted: a timestamp stepping
    // backwards never exceeds the forward gap
    let mut agg = Aggregator::new(1, 0, 10);
    assert!(agg.push(0, record(20), 0).is_empty());
    assert!(agg.push(0, record(12), 1).is_empty());
    let out = agg.finish();
    assert_eq!(out.len(), 1);
    assert_eq!(out[0].1.timestamp, 12);
}

#[test]
fn finish_flushes_buffered_batches_through_windows() {
    let mut agg = Aggregator::new(1024, 100, 10);
    // two records in one buffer, 30 ticks apart: on shutdown they feed
    // the window, the gap closes the first session, the second closes
    // with the final flush
    assert!(agg.push(0, record(0), 0).is_empty());
    assert!(agg.push(0, record(30), 1).is_empty());
    let out = agg.finish();
    assert_eq!(out.len(), 2);
    assert_eq!(out[0].1.timestamp, 0);
    assert_eq!(out[1].1.timestamp, 30);
    assert_eq!(agg.groups[0].batch.len(), 0);
    assert!(agg.groups[0].window.is_none());
}
