//! Histograms of the scheduler's admission path.
//!
//! They record every occurrence, so that they show the whole distribution.

use crate::metrics::descriptor;
use crate::metrics::descriptor::{describe, Buckets, BucketsView, MetricSpec, MetricView};
use crate::text::owned;
use vstd::prelude::*;

verus! {

/// The label that tells prefill from decode workers.
pub const WORKER_TYPE_LABEL: &'static str = "worker_type";

/// Where the buckets for time spent computing end, in milliseconds: from a
/// thousandth on, each bound twice the one before.
pub open spec fn admission_compute_bounds() -> BucketsView {
    BucketsView::Exponential { start: 1_000, factor: 2, count: 15 }
}

/// Where the buckets for time spent waiting end, in milliseconds: from a
/// hundredth on, each bound three times the one before.
pub open spec fn wait_bounds() -> BucketsView {
    BucketsView::Exponential { start: 10_000, factor: 3, count: 17 }
}

/// The buckets for time spent on admission.
pub fn admission_compute_buckets() -> (res: Buckets)
    ensures
        res@ == admission_compute_bounds(),
{
    Buckets::Exponential { start: 1_000, factor: 2, count: 15 }
}

/// The buckets for time spent in a queue.
pub fn queue_wait_buckets() -> (res: Buckets)
    ensures
        res@ == wait_bounds(),
{
    Buckets::Exponential { start: 10_000, factor: 3, count: 17 }
}

/// The buckets for the time between an actor's turns.
pub fn actor_timing_buckets() -> (res: Buckets)
    ensures
        res@ == wait_bounds(),
{
    Buckets::Exponential { start: 10_000, factor: 3, count: 17 }
}

/// The bounds of all buckets grow.
pub proof fn scheduling_buckets_increasing()
    ensures
        admission_compute_bounds().increasing(),
        wait_bounds().increasing(),
{
    descriptor::exponential_increasing(1_000, 2, 15);
    descriptor::exponential_increasing(10_000, 3, 17);
}

/// A histogram by the type of the worker.
pub open spec fn by_worker_type(name: Seq<char>, help: Seq<char>, buckets: BucketsView) -> MetricView {
    MetricView { name, help, label: Some("worker_type"@), buckets }
}

/// The histograms, in the order in which they are registered.
pub open spec fn scheduling_views() -> Seq<MetricView> {
    seq![
        by_worker_type(
            "dynamo_router_overhead_admission_compute_ms"@,
            "Time in project_worker_loads + select_worker on the scheduler actor task, in milliseconds"@,
            admission_compute_bounds(),
        ),
        by_worker_type(
            "dynamo_router_overhead_queue_wait_ms"@,
            "Time a request sits parked in the pending heap before admission, in milliseconds"@,
            wait_bounds(),
        ),
        by_worker_type(
            "dynamo_router_actor_mailbox_wait_ms"@,
            "Time from enqueueing router work to the router actor starting it, in milliseconds"@,
            wait_bounds(),
        ),
        by_worker_type(
            "dynamo_router_actor_poll_gap_ms"@,
            "Time between consecutive router actor mailbox receives, in milliseconds"@,
            wait_bounds(),
        ),
        by_worker_type(
            "dynamo_router_schedule_compute_ms"@,
            "Full admit_one body (project_worker_loads + select_worker + booking) CPU time, in milliseconds"@,
            admission_compute_bounds(),
        ),
        by_worker_type(
            "dynamo_router_pending_queue_age_ms"@,
            "Age of a pending request sampled while still capacity-blocked, in milliseconds"@,
            wait_bounds(),
        ),
    ]
}

/// The histograms of the scheduler, by what they measure.
#[derive(Debug, PartialEq, Eq)]
pub struct SchedulingMetrics {
    /// Loads are projected and a worker is selected.
    pub admission_compute_ms: MetricSpec,
    /// A request waits to be admitted.
    pub queue_wait_ms: MetricSpec,
    /// A command waits for the actor to receive it.
    pub actor_mailbox_wait_ms: MetricSpec,
    /// The actor waits between commands.
    pub actor_poll_gap_ms: MetricSpec,
    /// A request is admitted, from first to last.
    pub schedule_compute_ms: MetricSpec,
    /// A request is still blocked.
    pub pending_queue_age_ms: MetricSpec,
}

impl SchedulingMetrics {
    /// The histograms as mathematics, in the order in which they are
    /// registered.
    pub open spec fn view(&self) -> Seq<MetricView> {
        seq![
            self.admission_compute_ms@,
            self.queue_wait_ms@,
            self.actor_mailbox_wait_ms@,
            self.actor_poll_gap_ms@,
            self.schedule_compute_ms@,
            self.pending_queue_age_ms@,
        ]
    }

    /// Describes the histograms.
    pub fn new() -> (res: Self)
        ensures
            res@ == scheduling_views(),
    {
        let res = SchedulingMetrics {
            admission_compute_ms: describe(
                owned("dynamo_router_overhead_admission_compute_ms"),
                "Time in project_worker_loads + select_worker on the scheduler actor task, in milliseconds",
                Some("worker_type"),
                admission_compute_buckets(),
            ),
            queue_wait_ms: describe(
                owned("dynamo_router_overhead_queue_wait_ms"),
                "Time a request sits parked in the pending heap before admission, in milliseconds",
                Some("worker_type"),
                queue_wait_buckets(),
            ),
            actor_mailbox_wait_ms: describe(
                owned("dynamo_router_actor_mailbox_wait_ms"),
                "Time from enqueueing router work to the router actor starting it, in milliseconds",
                Some("worker_type"),
                actor_timing_buckets(),
            ),
            actor_poll_gap_ms: describe(
                owned("dynamo_router_actor_poll_gap_ms"),
                "Time between consecutive router actor mailbox receives, in milliseconds",
                Some("worker_type"),
                actor_timing_buckets(),
            ),
            schedule_compute_ms: describe(
                owned("dynamo_router_schedule_compute_ms"),
                "Full admit_one body (project_worker_loads + select_worker + booking) CPU time, in milliseconds",
                Some("worker_type"),
                admission_compute_buckets(),
            ),
            pending_queue_age_ms: describe(
                owned("dynamo_router_pending_queue_age_ms"),
                "Age of a pending request sampled while still capacity-blocked, in milliseconds",
                Some("worker_type"),
                queue_wait_buckets(),
            ),
        };
        assert(res@ =~= scheduling_views());
        res
    }

    /// The histograms, in the order in which they are registered.
    pub fn in_order(self) -> (res: Vec<MetricSpec>)
        ensures
            descriptor::metric_views(res@) == self@,
    {
        let ghost all = self@;
        let mut res: Vec<MetricSpec> = Vec::new();
        res.push(self.admission_compute_ms);
        res.push(self.queue_wait_ms);
        res.push(self.actor_mailbox_wait_ms);
        res.push(self.actor_poll_gap_ms);
        res.push(self.schedule_compute_ms);
        res.push(self.pending_queue_age_ms);
        assert(descriptor::metric_views(res@) =~= all);
        res
    }
}

} // verus!
