use hpc_core::{mean, p95, record, Metrics};

#[test]
fn p95_of_five_sorted_samples_is_the_last() {
    let v: Vec<u64> = vec![10, 20, 30, 40, 50];
    assert_eq!(p95(&v), 50);
}

#[test]
fn p95_uses_nearest_rank() {
    // k = 20: ceil(19) - 1 = 18
    let v: Vec<u64> = (1..=20).collect();
    assert_eq!(p95(&v), 19);
    // k = 21: ceil(19.95) - 1 = 19
    let w: Vec<u64> = (1..=21).collect();
    assert_eq!(p95(&w), 20);
    // k = 1: the only sample
    assert_eq!(p95(&vec![7]), 7);
    // k = 100: ceil(95) - 1 = 94
    let h: Vec<u64> = (0..100).collect();
    assert_eq!(p95(&h), 94);
}

#[test]
fn mean_rounds_down() {
    assert_eq!(mean(&vec![10, 20, 30, 40, 50]), 30);
    assert_eq!(mean(&vec![1, 2]), 1);
    assert_eq!(mean(&vec![u64::MAX, u64::MAX]), u64::MAX);
}

#[test]
fn summary_groups_by_name_in_first_seen_order() {
    let mut m = Metrics::new();
    m.record_duration("enqueue_write", 30);
    m.record_duration("launch", 5);
    m.record_duration("enqueue_write", 10);
    m.record_duration("enqueue_write", 20);
    m.record_duration("launch", 7);
    assert_eq!(m.sample_count(), 5);

    let s = m.summarize();
    assert_eq!(s.ops.len(), 2);
    assert_eq!(s.ops[0].name, "enqueue_write");
    assert_eq!(s.ops[0].count, 3);
    assert_eq!(s.ops[0].sorted, vec![10, 20, 30]);
    assert_eq!(s.ops[0].mean, 20);
    assert_eq!(s.ops[0].p95, 30);
    assert_eq!(s.ops[1].name, "launch");
    assert_eq!(s.ops[1].count, 2);
    assert_eq!(s.ops[1].sorted, vec![5, 7]);
    assert_eq!(s.ops[1].mean, 6);
    assert_eq!(s.ops[1].p95, 7);

    // the log is drained
    assert_eq!(m.sample_count(), 0);
    assert_eq!(m.summarize().ops.len(), 0);
}

#[test]
fn summary_sorts_each_group() {
    let mut m = Metrics::new();
    for d in [50u64, 10, 40, 20, 30] {
        m.record_duration("op", d);
    }
    let s = m.summarize();
    assert_eq!(s.ops[0].sorted, vec![10, 20, 30, 40, 50]);
    assert_eq!(s.ops[0].p95, 50);
}

#[test]
fn counters_follow_allocations_and_frees() {
    let mut m = Metrics::new();
    m.track_alloc(4096);
    m.track_alloc(100);
    m.track_alloc(7);
    m.track_free(100);
    assert_eq!(m.allocations(), 2);
    assert_eq!(m.allocated_bytes(), 4096 + 7);
    let s = m.summarize();
    assert_eq!(s.allocations, 2);
    assert_eq!(s.allocated_bytes, 4103);
    // the summary does not reset the counters
    assert_eq!(m.allocations(), 2);
}

#[test]
fn counters_wrap_like_atomics() {
    let mut m = Metrics::new();
    m.track_free(1);
    assert_eq!(m.allocations(), u64::MAX);
    assert_eq!(m.allocated_bytes(), u64::MAX);
    m.track_alloc(1);
    assert_eq!(m.allocations(), 0);
    assert_eq!(m.allocated_bytes(), 0);
}

#[test]
fn wait_failures_are_counted_and_reported() {
    let mut m = Metrics::new();
    m.track_wait_failure();
    m.track_wait_failure();
    assert_eq!(m.wait_failures(), 2);
    assert_eq!(m.summarize().wait_failures, 2);
}

#[test]
fn record_appends_one_sample_under_its_name() {
    let mut m = Metrics::new();
    let t = std::time::Instant::now();
    record(&mut m, "into_ready", &t);
    assert_eq!(m.sample_count(), 1);
    let s = m.summarize();
    assert_eq!(s.ops[0].name, "into_ready");
    assert_eq!(s.ops[0].count, 1);
}
