use dynamo_llm::routing::affinity_trace::{
    next, parse_enabled, AffinityTarget, AffinityTrace, RequestPhase, TraceConfig,
};

#[test]
fn session_affinity_trace_gate_is_opt_in_and_prefix_filtered() {
    for value in [
        None,
        Some(""),
        Some("0"),
        Some("false"),
        Some("off"),
        Some("no"),
        Some("invalid"),
    ] {
        assert!(!parse_enabled(value), "unexpected enabled value: {value:?}");
    }
    for value in ["1", "true", "TRUE", " on ", "yes"] {
        assert!(parse_enabled(Some(value)), "disabled truthy value: {value}");
    }

    assert!(TraceConfig::from_values(Some("true"), None).matches("any-session"));
    assert!(TraceConfig::from_values(Some("true"), Some("  ")).matches("any-session"));

    let filtered = TraceConfig::from_values(Some("true"), Some(" dyn-affinity-trace- "));
    assert!(filtered.matches("dyn-affinity-trace-0001"));
    assert!(!filtered.matches("benchmark-session-0001"));

    let disabled = TraceConfig::from_values(Some("false"), Some("dyn-affinity-trace-"));
    assert!(!disabled.matches("dyn-affinity-trace-0001"));
}

fn target(worker_id: u64, dp_rank: Option<u32>) -> AffinityTarget {
    AffinityTarget { worker_id, dp_rank }
}

#[test]
fn nothing_is_counted_for_a_session_that_is_not_traced() {
    let mut trace = AffinityTrace::new(TraceConfig::from_values(Some("yes"), Some("a-")));
    assert!(trace.initialize("b-1", 1, None, "new").is_none());
    assert!(trace.commit("b-1", 1, target(1, None)).is_none());
    assert!(trace.bound_reuse("b-1", 1, target(1, None), 2).is_none());
    assert!(trace
        .bound_dispatch("b-1", 1, target(1, None), RequestPhase::Decode, "kind")
        .is_none());
    assert!(trace
        .bound_target_fallback_rebind("b-1", 1, target(1, None))
        .is_none());
    assert_eq!(trace.counts.initialize, 0);
    assert_eq!(trace.counts.commit, 0);
    assert_eq!(trace.counts.bound_reuse, 0);
    assert_eq!(trace.counts.bound_dispatch, 0);
    assert_eq!(trace.fallback_rebind_count(), 0);
}

#[test]
fn each_event_has_its_own_count() {
    let mut trace = AffinityTrace::new(TraceConfig::from_values(Some("1"), Some("s")));
    let r = trace.initialize("s1", 7, None, "new").unwrap();
    assert_eq!(r.session_id, "s1");
    assert_eq!(r.revision, 7);
    assert_eq!(r.reason, "new");
    assert_eq!(r.trace_prefix, "s");
    assert!(!r.requested_worker_bound);
    assert_eq!(r.requested_worker_id, 0);
    assert!(!r.requested_dp_rank_bound);
    assert_eq!(r.requested_dp_rank, -1);
    assert_eq!(r.initialize_count, 1);

    let r = trace
        .initialize("s2", 8, Some(target(5, Some(3))), "again")
        .unwrap();
    assert!(r.requested_worker_bound);
    assert_eq!(r.requested_worker_id, 5);
    assert!(r.requested_dp_rank_bound);
    assert_eq!(r.requested_dp_rank, 3);
    assert_eq!(r.initialize_count, 2);

    let r = trace.commit("s1", 1, target(9, None)).unwrap();
    assert_eq!((r.worker_id, r.dp_rank_bound, r.dp_rank), (9, false, -1));
    assert_eq!(r.count, 1);

    let r = trace
        .bound_target_fallback_rebind("s1", 2, target(9, Some(0)))
        .unwrap();
    assert_eq!((r.count, r.fallback_rebind_count), (1, 1));
    assert_eq!((r.dp_rank_bound, r.dp_rank), (true, 0));

    let r = trace.bound_reuse("s1", 2, target(9, None), 4).unwrap();
    assert_eq!(r.active_leases, 4);
    assert_eq!(r.target.count, 1);
    assert_eq!(r.target.fallback_rebind_count, 1);

    for (phase, role) in [
        (RequestPhase::Prefill, "context"),
        (RequestPhase::Decode, "generation"),
        (RequestPhase::Aggregated, "aggregated"),
    ] {
        let r = trace
            .bound_dispatch("s1", 2, target(9, None), phase, "lease")
            .unwrap();
        assert_eq!(r.role, role);
        assert_eq!(r.acquisition_kind, "lease");
        assert_eq!(r.phase, phase);
    }
    assert_eq!(trace.counts.bound_dispatch, 3);
}

#[test]
fn a_counter_counts_from_one_on() {
    let mut counter = 0;
    assert_eq!(next(&mut counter), 1);
    assert_eq!(next(&mut counter), 2);
    assert_eq!(counter, 2);
}
