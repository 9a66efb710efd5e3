use hpc_core::{
    disable_auto_trace, enable_auto_trace, is_auto_trace_enabled, start, start_if_enabled, Dir,
    Tracer, TracingScope,
};

#[test]
fn idle_reconstruction_follows_append_order() {
    let mut t = Tracer::new();
    t.append(0, 100, 64, Dir::H2D);
    t.append(150, 200, 64, Dir::Kernel);
    t.append(200, 260, 64, Dir::D2H);
    let idles: Vec<u128> = t.records().iter().map(|r| r.idle_us).collect();
    assert_eq!(idles, vec![0, 50, 0]);
}

#[test]
fn idle_is_zero_on_overlap_and_measured_from_last_appended() {
    let mut t = Tracer::new();
    t.append(500, 900, 1, Dir::H2D);
    // starts before the previous record ended
    t.append(300, 400, 1, Dir::H2D);
    // measured from 400, the end of the record appended last
    t.append(450, 460, 1, Dir::D2H);
    let idles: Vec<u128> = t.records().iter().map(|r| r.idle_us).collect();
    assert_eq!(idles, vec![500, 0, 50]);
    assert_eq!(t.records()[2].bytes, 1);
    assert_eq!(t.records()[2].dir, Dir::D2H);
}

#[test]
fn nested_scopes_restore_the_flag() {
    let mut t = Tracer::new();
    assert!(is_auto_trace_enabled(&t));
    let outer = TracingScope::disabled(&mut t);
    assert!(!is_auto_trace_enabled(&t));
    let inner = TracingScope::enabled(&mut t);
    assert!(is_auto_trace_enabled(&t));
    inner.restore(&mut t);
    assert!(!is_auto_trace_enabled(&t));
    outer.restore(&mut t);
    assert!(is_auto_trace_enabled(&t));
}

#[test]
fn scope_restores_a_disabled_flag_too() {
    let mut t = Tracer::new();
    disable_auto_trace(&mut t);
    let s = TracingScope::enabled(&mut t);
    assert!(is_auto_trace_enabled(&t));
    s.restore(&mut t);
    assert!(!is_auto_trace_enabled(&t));
    enable_auto_trace(&mut t);
    assert!(is_auto_trace_enabled(&t));
}

#[test]
fn direction_labels() {
    assert_eq!(Dir::H2D.as_str(), "H2D");
    assert_eq!(Dir::D2H.as_str(), "D2H");
    assert_eq!(Dir::Kernel.as_str(), "Kernel");
}

#[test]
fn finish_appends_a_record_with_size_and_direction() {
    let mut t = Tracer::new();
    t.append(0, 0, 1, Dir::H2D);
    let tok = start(&t, Dir::D2H, 4096);
    tok.finish(&mut t);
    let recs = t.records();
    assert_eq!(recs.len(), 2);
    assert_eq!(recs[1].bytes, 4096);
    assert_eq!(recs[1].dir, Dir::D2H);
    assert!(recs[1].end_us >= recs[1].start_us);
    assert_eq!(recs[1].idle_us, recs[1].start_us);
}

#[test]
fn no_token_while_auto_trace_is_off() {
    let mut t = Tracer::new();
    assert!(start_if_enabled(&t, Dir::H2D, 8).is_some());
    let s = TracingScope::disabled(&mut t);
    assert!(start_if_enabled(&t, Dir::H2D, 8).is_none());
    s.restore(&mut t);
    assert!(start_if_enabled(&t, Dir::H2D, 8).is_some());
}

#[test]
fn scoped_restores_the_flag_after_the_body() {
    let mut t = Tracer::new();
    let seen = TracingScope::scoped(&mut t, false, |inner| {
        let during = is_auto_trace_enabled(inner);
        // the body may even flip the flag itself
        enable_auto_trace(inner);
        during
    });
    assert!(!seen);
    assert!(is_auto_trace_enabled(&t));

    disable_auto_trace(&mut t);
    let seen = TracingScope::scoped(&mut t, true, |inner| is_auto_trace_enabled(inner));
    assert!(seen);
    assert!(!is_auto_trace_enabled(&t));
}
