//! Metrics of the request plane: what it takes to send a request to a worker
//! and get the first answer.

use crate::metrics::descriptor;
use crate::metrics::descriptor::{describe, Buckets, BucketsView, MetricSpec, MetricView};
use crate::text;
use crate::text::{owned, text_eq};
use vstd::prelude::*;

verus! {

/// What the names of all metrics of the request plane start with.
pub const REQUEST_PLANE_PREFIX: &'static str = "dynamo_request_plane";

/// The full name of a metric of the request plane.
pub open spec fn metric_name(suffix: Seq<char>) -> Seq<char> {
    "dynamo_request_plane"@ + "_"@ + suffix
}

/// The full name of a metric of the request plane.
pub fn request_plane_metric_name(suffix: &str) -> (res: String)
    ensures
        res@ == metric_name(suffix@),
{
    text::join3("dynamo_request_plane", "_", suffix)
}

/// From a tenth of a millisecond to a second, in millionths of a second.
pub open spec fn short_bounds() -> Seq<u64> {
    seq![
        100, 500, 1_000, 5_000, 10_000, 50_000, 100_000, 500_000, 1_000_000,
    ]
}

fn short_bounds_vec() -> (res: Vec<u64>)
    ensures
        res@ == short_bounds(),
{
    let res: Vec<u64> = vec![
        100, 500, 1_000, 5_000, 10_000, 50_000, 100_000, 500_000, 1_000_000,
    ];
    assert(res@ =~= short_bounds());
    res
}

/// From a millisecond to five seconds, in millionths of a second.
pub open spec fn roundtrip_bounds() -> Seq<u64> {
    seq![
        1_000, 5_000, 10_000, 25_000, 50_000, 100_000, 250_000, 500_000, 1_000_000, 2_500_000,
        5_000_000,
    ]
}

fn roundtrip_bounds_vec() -> (res: Vec<u64>)
    ensures
        res@ == roundtrip_bounds(),
{
    let res: Vec<u64> = vec![
        1_000, 5_000, 10_000, 25_000, 50_000, 100_000, 250_000, 500_000, 1_000_000, 2_500_000,
        5_000_000,
    ];
    assert(res@ =~= roundtrip_bounds());
    res
}

/// From a tenth of a millisecond to ten seconds, in millionths of a second.
pub open spec fn flush_bounds() -> Seq<u64> {
    seq![
        100, 500, 1_000, 5_000, 10_000, 50_000, 100_000, 500_000, 1_000_000, 2_500_000,
        5_000_000, 10_000_000,
    ]
}

fn flush_bounds_vec() -> (res: Vec<u64>)
    ensures
        res@ == flush_bounds(),
{
    let res: Vec<u64> = vec![
        100, 500, 1_000, 5_000, 10_000, 50_000, 100_000, 500_000, 1_000_000, 2_500_000,
        5_000_000, 10_000_000,
    ];
    assert(res@ =~= flush_bounds());
    res
}

/// From a microsecond to a tenth of a second, in millionths of a millisecond.
pub open spec fn millis_bounds() -> Seq<u64> {
    seq![
        1_000, 5_000, 10_000, 50_000, 100_000, 500_000, 1_000_000, 5_000_000, 10_000_000,
        50_000_000, 100_000_000,
    ]
}

fn millis_bounds_vec() -> (res: Vec<u64>)
    ensures
        res@ == millis_bounds(),
{
    let res: Vec<u64> = vec![
        1_000, 5_000, 10_000, 50_000, 100_000, 500_000, 1_000_000, 5_000_000, 10_000_000,
        50_000_000, 100_000_000,
    ];
    assert(res@ =~= millis_bounds());
    res
}

/// From ten microseconds to a second, in millionths of a millisecond.
pub open spec fn dispatch_bounds() -> Seq<u64> {
    seq![
        10_000, 50_000, 100_000, 500_000, 1_000_000, 5_000_000, 10_000_000, 50_000_000,
        100_000_000, 500_000_000, 1_000_000_000,
    ]
}

fn dispatch_bounds_vec() -> (res: Vec<u64>)
    ensures
        res@ == dispatch_bounds(),
{
    let res: Vec<u64> = vec![
        10_000, 50_000, 100_000, 500_000, 1_000_000, 5_000_000, 10_000_000, 50_000_000,
        100_000_000, 500_000_000, 1_000_000_000,
    ];
    assert(res@ =~= dispatch_bounds());
    res
}

/// The bounds of all buckets grow.
pub proof fn request_plane_buckets_increasing()
    ensures
        BucketsView::Bounds(short_bounds()).increasing(),
        BucketsView::Bounds(roundtrip_bounds()).increasing(),
        BucketsView::Bounds(flush_bounds()).increasing(),
        BucketsView::Bounds(millis_bounds()).increasing(),
        BucketsView::Bounds(dispatch_bounds()).increasing(),
{
    assert(steps_up(short_bounds()));
    steps_make_increasing(short_bounds());
    assert(steps_up(roundtrip_bounds()));
    steps_make_increasing(roundtrip_bounds());
    assert(steps_up(flush_bounds()));
    steps_make_increasing(flush_bounds());
    assert(steps_up(millis_bounds()));
    steps_make_increasing(millis_bounds());
    assert(steps_up(dispatch_bounds()));
    steps_make_increasing(dispatch_bounds());
}

spec fn steps_up(s: Seq<u64>) -> bool {
    forall|i: int| 0 <= i < s.len() - 1 ==> s[i] < #[trigger] s[i + 1]
}

proof fn steps_make_increasing(s: Seq<u64>)
    requires
        steps_up(s),
    ensures
        BucketsView::Bounds(s).increasing(),
{
    let b = BucketsView::Bounds(s);
    assert forall|i: int, j: int|
        #![trigger b.bound(i), b.bound(j)]
        0 <= i < j < b.len() implies b.bound(i) < b.bound(j) by {
        steps_reach(s, i, j);
    }
}

proof fn steps_reach(s: Seq<u64>, i: int, j: int)
    requires
        steps_up(s),
        0 <= i < j < s.len(),
    ensures
        s[i] < s[j],
    decreases j - i,
{
    if i + 1 < j {
        steps_reach(s, i, j - 1);
    }
    assert(s[j - 1] < s[(j - 1) + 1]);
}

/// A metric that is registered: what it is, and what it is called in warnings.
#[derive(Debug, PartialEq, Eq)]
pub struct RegisteredMetric {
    /// What the metric is.
    pub metric: MetricSpec,
    /// What it is called in warnings.
    pub label: String,
}

/// A metric that is registered, as mathematics.
pub struct RegisteredView {
    /// What the metric is.
    pub metric: MetricView,
    /// What it is called in warnings.
    pub label: Seq<char>,
}

impl RegisteredMetric {
    /// The metric as mathematics.
    pub open spec fn view(&self) -> RegisteredView {
        RegisteredView { metric: self.metric@, label: self.label@ }
    }
}

/// The views of a sequence of registered metrics.
pub open spec fn registered_views(list: Seq<RegisteredMetric>) -> Seq<RegisteredView> {
    Seq::new(list.len(), |i: int| list[i]@)
}

/// A metric of the request plane.
pub open spec fn plane_metric(
    suffix: Seq<char>,
    help: Seq<char>,
    buckets: BucketsView,
    label: Seq<char>,
) -> RegisteredView {
    RegisteredView {
        metric: MetricView { name: metric_name(suffix), help, label: None, buckets },
        label,
    }
}

/// The metrics of the request plane, in the order in which they are registered.
pub open spec fn request_plane_views() -> Seq<RegisteredView> {
    seq![
        plane_metric(
            "queue_seconds"@,
            "Time from generate() entry to send_request() (seconds)"@,
            BucketsView::Bounds(short_bounds()),
            "request_plane_queue_seconds"@,
        ),
        plane_metric(
            "send_seconds"@,
            "Time for send_request() to complete (seconds)"@,
            BucketsView::Bounds(short_bounds()),
            "request_plane_send_seconds"@,
        ),
        plane_metric(
            "roundtrip_ttft_seconds"@,
            "Time from send_request() to first response item (seconds)"@,
            BucketsView::Bounds(roundtrip_bounds()),
            "request_plane_roundtrip_ttft_seconds"@,
        ),
        plane_metric(
            "inflight_requests"@,
            "Currently in-flight requests at AddressedPushRouter"@,
            BucketsView::Gauge,
            "request_plane_inflight"@,
        ),
        plane_metric(
            "ack_flush_seconds"@,
            "Ingress ACK flush latency: decoded_at -> socket flush complete (seconds)"@,
            BucketsView::Bounds(flush_bounds()),
            "request_plane_ack_flush_seconds"@,
        ),
        plane_metric(
            "register_streams_ms"@,
            "Time to register request/response stream halves with the response transport (milliseconds)"@,
            BucketsView::Bounds(millis_bounds()),
            "request_plane_register_streams_ms"@,
        ),
        plane_metric(
            "associate_instance_ms"@,
            "Time for the associate_instance tombstone check (milliseconds)"@,
            BucketsView::Bounds(millis_bounds()),
            "request_plane_associate_instance_ms"@,
        ),
        plane_metric(
            "build_envelope_ms"@,
            "Time to build the request envelope (milliseconds)"@,
            BucketsView::Bounds(millis_bounds()),
            "request_plane_build_envelope_ms"@,
        ),
        plane_metric(
            "dispatch_buffer_ms"@,
            "Time for dispatch_buffer to complete (milliseconds)"@,
            BucketsView::Bounds(dispatch_bounds()),
            "request_plane_dispatch_buffer_ms"@,
        ),
    ]
}

fn make_plane_metric(suffix: &str, help: &str, buckets: Buckets, label: &str) -> (res:
    RegisteredMetric)
    ensures
        res@ == plane_metric(suffix@, help@, buckets@, label@),
{
    RegisteredMetric {
        metric: describe(request_plane_metric_name(suffix), help, None, buckets),
        label: owned(label),
    }
}

/// The metrics of the request plane, in the order in which they are registered.
pub fn request_plane_metrics() -> (res: Vec<RegisteredMetric>)
    ensures
        registered_views(res@) == request_plane_views(),
{
    let mut res: Vec<RegisteredMetric> = Vec::new();
    res.push(
        make_plane_metric(
            "queue_seconds",
            "Time from generate() entry to send_request() (seconds)",
            Buckets::Bounds(short_bounds_vec()),
            "request_plane_queue_seconds",
        ),
    );
    res.push(
        make_plane_metric(
            "send_seconds",
            "Time for send_request() to complete (seconds)",
            Buckets::Bounds(short_bounds_vec()),
            "request_plane_send_seconds",
        ),
    );
    res.push(
        make_plane_metric(
            "roundtrip_ttft_seconds",
            "Time from send_request() to first response item (seconds)",
            Buckets::Bounds(roundtrip_bounds_vec()),
            "request_plane_roundtrip_ttft_seconds",
        ),
    );
    res.push(
        make_plane_metric(
            "inflight_requests",
            "Currently in-flight requests at AddressedPushRouter",
            Buckets::Gauge,
            "request_plane_inflight",
        ),
    );
    res.push(
        make_plane_metric(
            "ack_flush_seconds",
            "Ingress ACK flush latency: decoded_at -> socket flush complete (seconds)",
            Buckets::Bounds(flush_bounds_vec()),
            "request_plane_ack_flush_seconds",
        ),
    );
    res.push(
        make_plane_metric(
            "register_streams_ms",
            "Time to register request/response stream halves with the response transport (milliseconds)",
            Buckets::Bounds(millis_bounds_vec()),
            "request_plane_register_streams_ms",
        ),
    );
    res.push(
        make_plane_metric(
            "associate_instance_ms",
            "Time for the associate_instance tombstone check (milliseconds)",
            Buckets::Bounds(millis_bounds_vec()),
            "request_plane_associate_instance_ms",
        ),
    );
    res.push(
        make_plane_metric(
            "build_envelope_ms",
            "Time to build the request envelope (milliseconds)",
            Buckets::Bounds(millis_bounds_vec()),
            "request_plane_build_envelope_ms",
        ),
    );
    res.push(
        make_plane_metric(
            "dispatch_buffer_ms",
            "Time for dispatch_buffer to complete (milliseconds)",
            Buckets::Bounds(dispatch_bounds_vec()),
            "request_plane_dispatch_buffer_ms",
        ),
    );
    assert(registered_views(res@) =~= request_plane_views());
    res
}

/// Metrics that are registered, in order, each name once.
#[derive(Debug, PartialEq, Eq)]
pub struct MetricsRegistry {
    /// The metrics.
    pub metrics: Vec<RegisteredMetric>,
    /// What metrics were called that could not be registered, in order.
    pub warnings: Vec<String>,
}

/// Whether there is a metric of the given name.
pub open spec fn has_name(list: Seq<RegisteredView>, name: Seq<char>) -> bool {
    exists|i: int| 0 <= i < list.len() && (#[trigger] list[i]).metric.name == name
}

/// Metrics and warnings once one more metric has been offered: a name that is
/// there already brings a warning.
pub open spec fn offered(
    list: Seq<RegisteredView>,
    warnings: Seq<Seq<char>>,
    one: RegisteredView,
) -> (Seq<RegisteredView>, Seq<Seq<char>>) {
    if has_name(list, one.metric.name) {
        (list, warnings.push(one.label))
    } else {
        (list.push(one), warnings)
    }
}

/// Metrics and warnings once several metrics have been offered.
pub open spec fn all_offered(
    list: Seq<RegisteredView>,
    warnings: Seq<Seq<char>>,
    more: Seq<RegisteredView>,
) -> (Seq<RegisteredView>, Seq<Seq<char>>)
    decreases more.len(),
{
    if more.len() == 0 {
        (list, warnings)
    } else {
        let (l, w) = all_offered(list, warnings, more.drop_last());
        offered(l, w, more.last())
    }
}

impl MetricsRegistry {
    /// The metrics as mathematics.
    pub open spec fn view(&self) -> (Seq<RegisteredView>, Seq<Seq<char>>) {
        (registered_views(self.metrics@), text::texts(self.warnings@))
    }

    /// A registry of nothing.
    pub fn new() -> (res: Self)
        ensures
            res@.0.len() == 0,
            res@.1.len() == 0,
    {
        MetricsRegistry { metrics: Vec::new(), warnings: Vec::new() }
    }

    /// Registers a metric, or warns where its name is there already.
    pub fn add_metric_or_warn(&mut self, one: RegisteredMetric)
        ensures
            final(self)@ == offered(old(self)@.0, old(self)@.1, one@),
    {
        let ghost list = self@.0;
        let ghost warnings = self@.1;
        let mut i: usize = 0;
        while i < self.metrics.len()
            invariant
                i <= self.metrics.len(),
                *self == *old(self),
                list == self@.0,
                warnings == self@.1,
                forall|j: int|
                    0 <= j < i ==> (#[trigger] list[j]).metric.name != one@.metric.name,
            decreases self.metrics.len() - i,
        {
            if text_eq(self.metrics[i].metric.name.as_str(), one.metric.name.as_str()) {
                assert(list[i as int].metric.name == one@.metric.name);
                let ghost before = self.warnings@;
                self.warnings.push(one.label.clone());
                assert(text::texts(self.warnings@) =~= text::texts(before).push(one.label@));
                return ;
            }
            i = i + 1;
        }
        let ghost before = self.metrics@;
        self.metrics.push(one);
        assert(registered_views(self.metrics@) =~= registered_views(before).push(one@));
    }
}

/// Whether the metrics of the request plane have been registered.
#[derive(Debug, Clone, Copy, PartialEq, Eq, Structural)]
pub struct RegistrationGuard {
    /// Whether they have.
    pub done: bool,
}

/// Metrics and warnings once the metrics of the request plane have been asked
/// for; nothing changes where they had been registered.
pub open spec fn after_ensure(
    done: bool,
    before: (Seq<RegisteredView>, Seq<Seq<char>>),
) -> (Seq<RegisteredView>, Seq<Seq<char>>) {
    if done {
        before
    } else {
        all_offered(before.0, before.1, request_plane_views())
    }
}

/// Asking twice registers once.
pub proof fn registered_once(done: bool, before: (Seq<RegisteredView>, Seq<Seq<char>>))
    ensures
        after_ensure(true, after_ensure(done, before)) == after_ensure(done, before),
{
}

/// Where none of their names is taken, the metrics of the request plane are
/// registered all, in order, behind what was there, without a warning.
pub proof fn all_registered(list: Seq<RegisteredView>, warnings: Seq<Seq<char>>)
    requires
        forall|i: int|
            0 <= i < request_plane_views().len() ==> !has_name(
                list,
                (#[trigger] request_plane_views()[i]).metric.name,
            ),
    ensures
        after_ensure(false, (list, warnings)) == (list + request_plane_views(), warnings),
{
    request_plane_names_distinct();
    all_offered_adds(list, warnings, request_plane_views());
}

proof fn all_offered_adds(
    list: Seq<RegisteredView>,
    warnings: Seq<Seq<char>>,
    more: Seq<RegisteredView>,
)
    requires
        forall|i: int|
            0 <= i < more.len() ==> !has_name(list, (#[trigger] more[i]).metric.name),
        forall|i: int, j: int|
            0 <= i < j < more.len() ==> (#[trigger] more[i]).metric.name != (
            #[trigger] more[j]).metric.name,
    ensures
        all_offered(list, warnings, more) == (list + more, warnings),
    decreases more.len(),
{
    if more.len() == 0 {
        assert(list + more =~= list);
    } else {
        let rest = more.drop_last();
        assert forall|i: int| 0 <= i < rest.len() implies !has_name(
            list,
            (#[trigger] rest[i]).metric.name,
        ) by {
            assert(rest[i] == more[i]);
        }
        all_offered_adds(list, warnings, rest);
        let all = list + rest;
        let name = more.last().metric.name;
        if has_name(all, name) {
            let k = choose|k: int| 0 <= k < all.len() && (#[trigger] all[k]).metric.name == name;
            if k < list.len() {
                assert(list[k].metric.name == name);
                assert(has_name(list, more[more.len() - 1].metric.name));
            } else {
                assert(rest[k - list.len()] == more[k - list.len()]);
            }
        }
        assert(all.push(more.last()) =~= list + more);
    }
}

/// No two metrics of the request plane have the same name.
pub proof fn request_plane_names_distinct()
    ensures
        forall|i: int, j: int|
            0 <= i < j < request_plane_views().len() ==> (
            #[trigger] request_plane_views()[i]).metric.name != (
            #[trigger] request_plane_views()[j]).metric.name,
{
    reveal_strlit("queue_seconds");
    reveal_strlit("send_seconds");
    reveal_strlit("roundtrip_ttft_seconds");
    reveal_strlit("inflight_requests");
    reveal_strlit("ack_flush_seconds");
    reveal_strlit("register_streams_ms");
    reveal_strlit("associate_instance_ms");
    reveal_strlit("build_envelope_ms");
    reveal_strlit("dispatch_buffer_ms");
    let all = request_plane_views();
    let n = "dynamo_request_plane"@.len() as int + "_"@.len();
    assert(all[0].metric.name.skip(n) =~= "queue_seconds"@);
    assert(all[1].metric.name.skip(n) =~= "send_seconds"@);
    assert(all[2].metric.name.skip(n) =~= "roundtrip_ttft_seconds"@);
    assert(all[3].metric.name.skip(n) =~= "inflight_requests"@);
    assert(all[4].metric.name.skip(n) =~= "ack_flush_seconds"@);
    assert(all[5].metric.name.skip(n) =~= "register_streams_ms"@);
    assert(all[6].metric.name.skip(n) =~= "associate_instance_ms"@);
    assert(all[7].metric.name.skip(n) =~= "build_envelope_ms"@);
    assert(all[8].metric.name.skip(n) =~= "dispatch_buffer_ms"@);
    assert forall|i: int, j: int| 0 <= i < j < all.len() implies (#[trigger] all[i]).metric.name
        != (#[trigger] all[j]).metric.name by {
        let a = all[i].metric.name.skip(n);
        let b = all[j].metric.name.skip(n);
        assert(a.len() != b.len() || a[0] != b[0]);
    }
}

/// Registers the metrics of the request plane, the first time only.
pub fn ensure_request_plane_metrics_registered(
    guard: &mut RegistrationGuard,
    registry: &mut MetricsRegistry,
)
    ensures
        final(guard).done,
        final(registry)@ == after_ensure(old(guard).done, old(registry)@),
{
    if guard.done {
        return ;
    }
    guard.done = true;
    let mut metrics = request_plane_metrics();
    let ghost all = request_plane_views();
    let ghost before = registry@;
    let ghost mut n: int = 0;
    assert(all.take(0) =~= Seq::empty());
    assert(registered_views(metrics@) =~= all.skip(0));
    while metrics.len() > 0
        invariant
            0 <= n <= all.len(),
            guard.done,
            registered_views(metrics@) == all.skip(n),
            registry@ == all_offered(before.0, before.1, all.take(n)),
            metrics@.len() == all.len() - n,
        decreases metrics.len(),
    {
        let ghost rest = metrics@;
        let one = metrics.remove(0);
        proof {
            assert(one@ == registered_views(rest)[0]);
            assert(one@ == all[n]);
            assert(registered_views(metrics@) =~= registered_views(rest).drop_first());
            assert(registered_views(metrics@) =~= all.skip(n + 1));
            assert(all.take(n + 1).drop_last() =~= all.take(n));
        }
        registry.add_metric_or_warn(one);
        proof {
            n = n + 1;
        }
    }
    assert(all.take(n) =~= all);
}

/// The outcome of the one attempt to register the metrics elsewhere.
#[derive(Debug, PartialEq, Eq)]
pub struct OnceOutcome {
    /// What came of it, once it has been made.
    pub outcome: Option<Result<(), String>>,
}

/// What came of an attempt, as mathematics: what went wrong, where something
/// did.
pub open spec fn outcome_text(outcome: Result<(), String>) -> Option<Seq<char>> {
    match outcome {
        Ok(_) => None,
        Err(why) => Some(why@),
    }
}

impl OnceOutcome {
    /// Whether the attempt is still to be made.
    pub fn is_open(&self) -> (res: bool)
        ensures
            res == self.outcome is None,
    {
        self.outcome.is_none()
    }

    /// Keeps what came of the attempt, and answers with it. What came of a
    /// first attempt answers every later one.
    pub fn settle(&mut self, attempt: Result<(), String>) -> (res: Result<(), String>)
        ensures
            final(self).outcome is Some,
            final(self).outcome == (match old(self).outcome {
                Some(first) => Some(first),
                None => Some(attempt),
            }),
            outcome_text(res) == outcome_text(final(self).outcome->0),
    {
        if self.outcome.is_none() {
            self.outcome = Some(attempt);
        }
        match &self.outcome {
            Some(Ok(_)) => Ok(()),
            Some(Err(why)) => Err(why.clone()),
            None => Ok(()),
        }
    }
}

} // verus!
