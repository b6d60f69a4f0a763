use dynamo_llm::routing::prefill_trace::{prefill_trace_enabled, InflightGauge, PrefillTrace};
use dynamo_llm::time::Instant;

fn at(millis: u64) -> Instant {
    Instant {
        nanos: millis * 1_000_000 + 7,
    }
}

#[test]
fn the_trace_is_off_unless_it_is_turned_on() {
    assert!(prefill_trace_enabled(Some("1")));
    assert!(prefill_trace_enabled(Some("true")));
    for value in [None, Some(""), Some("0"), Some("TRUE"), Some(" 1"), Some("yes")] {
        assert!(!prefill_trace_enabled(value));
    }
    assert!(PrefillTrace::new(false, "r", 1, at(0)).is_none());
    let mut gauge = InflightGauge::new(false);
    assert!(gauge.inflight_guard(Some(1)).is_none());
    assert_eq!(gauge.inflight(1), 0);
}

#[test]
fn requests_are_counted_by_worker() {
    let mut gauge = InflightGauge::new(true);
    assert!(gauge.inflight_guard(None).is_none());
    let (a, depth) = gauge.inflight_guard(Some(7)).unwrap();
    assert_eq!(depth, 1);
    let (b, depth) = gauge.inflight_guard(Some(7)).unwrap();
    assert_eq!(depth, 2);
    let (c, depth) = gauge.inflight_guard(Some(8)).unwrap();
    assert_eq!(depth, 1);
    gauge.release(a);
    assert_eq!(gauge.inflight(7), 1);
    assert_eq!(gauge.inflight(8), 1);
    gauge.release(b);
    gauge.release(c);
    assert_eq!(gauge.inflight(7), 0);
    assert_eq!(gauge.inflight(8), 0);
}

#[test]
fn a_count_is_the_number_of_live_guards_through_any_history() {
    let mut gauge = InflightGauge::new(true);
    let mut live = Vec::new();
    for step in 0..60u64 {
        if step % 5 == 2 || step % 7 == 4 {
            if !live.is_empty() {
                let place = (step as usize * 3) % live.len();
                let (_, guard) = live.remove(place);
                gauge.release(guard);
            }
        } else {
            let worker = step % 3;
            live.push((worker, gauge.inflight_guard(Some(worker)).unwrap().0));
        }
        for worker in 0..4u64 {
            let guards = live.iter().filter(|(w, _)| *w == worker).count();
            assert_eq!(gauge.inflight(worker), guards);
        }
    }
}

#[test]
fn a_request_is_followed_through() {
    let mut trace = PrefillTrace::new(true, "r", 99, at(10)).unwrap();
    trace.mark_selected(Some(4), at(15));
    trace.mark_dispatched(at(17));
    trace.mark_first_response(at(40));
    trace.mark_first_response(at(50));
    let summary = trace.emit(at(117));
    assert_eq!(summary.request_id, "r");
    assert_eq!(summary.worker_id, Some(4));
    assert_eq!(summary.isl_tokens, 99);
    assert_eq!(summary.select_ms, 5);
    assert_eq!(summary.dispatch_gap_ms, 2);
    assert_eq!(summary.prefill_first_ms, Some(23));
    assert_eq!(summary.prefill_total_ms, 100);
}

#[test]
fn marks_that_are_missing_count_nothing() {
    let trace = PrefillTrace::new(true, "r", 0, at(10)).unwrap();
    let summary = trace.emit(at(30));
    assert_eq!(summary.select_ms, 0);
    assert_eq!(summary.dispatch_gap_ms, 0);
    assert_eq!(summary.prefill_first_ms, None);
    assert_eq!(summary.prefill_total_ms, 20);
    assert_eq!(summary.worker_id, None);

    // A mark that lies before the one it is measured from counts nothing.
    let mut trace = PrefillTrace::new(true, "r", 0, at(10)).unwrap();
    trace.mark_selected(None, at(5));
    assert_eq!(trace.emit(at(1)).select_ms, 0);
}
