use dynamo_llm::metrics::descriptor::Buckets;
use dynamo_llm::metrics::request_plane::{
    ensure_request_plane_metrics_registered, request_plane_metric_name, request_plane_metrics,
    MetricsRegistry, OnceOutcome, RegistrationGuard,
};
use dynamo_llm::metrics::scheduling::SchedulingMetrics;

#[test]
fn scheduling_histograms_are_described() {
    let all = SchedulingMetrics::new().in_order();
    let names: Vec<&str> = all.iter().map(|m| m.name.as_str()).collect();
    assert_eq!(
        names,
        vec![
            "dynamo_router_overhead_admission_compute_ms",
            "dynamo_router_overhead_queue_wait_ms",
            "dynamo_router_actor_mailbox_wait_ms",
            "dynamo_router_actor_poll_gap_ms",
            "dynamo_router_schedule_compute_ms",
            "dynamo_router_pending_queue_age_ms",
        ]
    );
    for m in &all {
        assert_eq!(m.label, Some("worker_type".to_string()));
        assert!(m.help.ends_with("in milliseconds"));
    }
    let compute = Buckets::Exponential {
        start: 1_000,
        factor: 2,
        count: 15,
    };
    let wait = Buckets::Exponential {
        start: 10_000,
        factor: 3,
        count: 17,
    };
    assert_eq!(all[0].buckets, compute);
    assert_eq!(all[1].buckets, wait);
    assert_eq!(all[2].buckets, wait);
    assert_eq!(all[3].buckets, wait);
    assert_eq!(all[4].buckets, compute);
    assert_eq!(all[5].buckets, wait);
}

#[test]
fn request_plane_metrics_are_described() {
    assert_eq!(
        request_plane_metric_name("send_seconds"),
        "dynamo_request_plane_send_seconds"
    );
    let all = request_plane_metrics();
    assert_eq!(all.len(), 9);
    assert_eq!(all[3].metric.buckets, Buckets::Gauge);
    assert_eq!(all[3].label, "request_plane_inflight");
    assert_eq!(
        all[4].metric.buckets,
        Buckets::Bounds(vec![
            100, 500, 1_000, 5_000, 10_000, 50_000, 100_000, 500_000, 1_000_000, 2_500_000,
            5_000_000, 10_000_000
        ])
    );
    for m in &all {
        if let Buckets::Bounds(bounds) = &m.metric.buckets {
            assert!(bounds.windows(2).all(|w| w[0] < w[1]));
        }
        assert_eq!(m.metric.label, None);
    }
}

#[test]
fn request_plane_metrics_are_registered_once() {
    let mut guard = RegistrationGuard { done: false };
    let mut registry = MetricsRegistry::new();
    ensure_request_plane_metrics_registered(&mut guard, &mut registry);
    assert!(guard.done);
    assert_eq!(registry.metrics, request_plane_metrics());
    assert!(registry.warnings.is_empty());
    ensure_request_plane_metrics_registered(&mut guard, &mut registry);
    assert_eq!(registry.metrics.len(), 9);
    assert!(registry.warnings.is_empty());

    let mut other = RegistrationGuard { done: false };
    ensure_request_plane_metrics_registered(&mut other, &mut registry);
    assert_eq!(registry.metrics.len(), 9);
    assert_eq!(registry.warnings.len(), 9);
    assert_eq!(registry.warnings[0], "request_plane_queue_seconds");
}

#[test]
fn the_first_outcome_answers_every_attempt() {
    let mut once = OnceOutcome { outcome: None };
    assert!(once.is_open());
    assert_eq!(once.settle(Err("taken".to_string())), Err("taken".to_string()));
    assert!(!once.is_open());
    assert_eq!(once.settle(Ok(())), Err("taken".to_string()));
    let mut once = OnceOutcome { outcome: None };
    assert_eq!(once.settle(Ok(())), Ok(()));
    assert_eq!(once.settle(Err("late".to_string())), Ok(()));
}
