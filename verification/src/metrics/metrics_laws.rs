//! What holds of the metrics, stated on what goes in and what comes out.

use crate::metrics::descriptor;
use crate::metrics::descriptor::{describe, Buckets, MetricSpec};
use crate::metrics::request_plane;
use crate::metrics::request_plane::{
    ensure_request_plane_metrics_registered, request_plane_metric_name, request_plane_metrics,
    MetricsRegistry, OnceOutcome, RegisteredMetric, RegisteredView, RegistrationGuard,
};
use crate::metrics::scheduling::{
    actor_timing_buckets, admission_compute_buckets, queue_wait_buckets, SchedulingMetrics,
};
use crate::text;
use vstd::prelude::*;

verus! {

/// Whether two histograms end their buckets at the same places.
pub open spec fn same_buckets(a: Buckets, b: Buckets) -> bool {
    match a {
        Buckets::Bounds(v) => b matches Buckets::Bounds(w) && v@ == w@,
        Buckets::Exponential { start, factor, count } => b == (Buckets::Exponential {
            start,
            factor,
            count,
        }),
        Buckets::Gauge => b == Buckets::Gauge,
    }
}

/// Whether two metrics are the same.
pub open spec fn same_metric(a: MetricSpec, b: MetricSpec) -> bool {
    &&& a.name@ == b.name@
    &&& a.help@ == b.help@
    &&& match a.label {
        Some(l) => b.label matches Some(m) && l@ == m@,
        None => b.label is None,
    }
    &&& same_buckets(a.buckets, b.buckets)
}

/// Whether two registered metrics are the same, and called the same in warnings.
pub open spec fn same_registered(a: RegisteredMetric, b: RegisteredMetric) -> bool {
    same_metric(a.metric, b.metric) && a.label@ == b.label@
}

/// A metric is described by what is said of it.
pub proof fn described_as_said(
    name: String,
    help: &str,
    label: Option<&str>,
    buckets: Buckets,
    res: MetricSpec,
)
    requires
        call_ensures(describe, (name, help, label, buckets), res),
    ensures
        res.name@ == name@,
        res.help@ == help@,
        label is None ==> res.label is None,
        label matches Some(l) ==> (res.label matches Some(m) && m@ == l@),
        same_buckets(res.buckets, buckets),
{
}

/// Exponential buckets start at the given bound, and each bound is so many times the
/// one before; other buckets are bounded as they say.
pub proof fn bounds_step(buckets: Buckets, i: int)
    requires
        0 <= i < buckets@.len(),
    ensures
        match buckets {
            Buckets::Bounds(v) => buckets@.len() == v@.len() && buckets@.bound(i) == v@[i],
            Buckets::Exponential { start, factor, count } => {
                &&& buckets@.len() == count
                &&& i == 0 ==> buckets@.bound(i) == start
                &&& i > 0 ==> buckets@.bound(i) == factor * buckets@.bound(i - 1)
            },
            Buckets::Gauge => false,
        },
{
    if let Buckets::Exponential { start, factor, count } = buckets {
        if i == 0 {
            assert(descriptor::power(factor as nat, 0) == 1);
            assert(start * 1 == start) by (nonlinear_arith);
        } else {
            let rest = descriptor::power(factor as nat, (i - 1) as nat);
            assert(descriptor::power(factor as nat, i as nat) == (factor as nat) * rest);
            assert(start * (factor * rest) == factor * (start * rest)) by (nonlinear_arith);
        }
    }
}

/// The name of a metric of the request plane says so, and ends as it was asked for.
pub proof fn plane_name_holds(suffix: &str, res: String)
    requires
        call_ensures(request_plane_metric_name, (suffix,), res),
    ensures
        "dynamo_request_plane_"@.is_prefix_of(res@),
        res@.skip("dynamo_request_plane_"@.len() as int) == suffix@,
{
    plane_name_joined(suffix@);
    let start = "dynamo_request_plane_"@;
    assert((start + suffix@).subrange(0, start.len() as int) =~= start);
    assert((start + suffix@).skip(start.len() as int) =~= suffix@);
}

proof fn plane_name_joined(suffix: Seq<char>)
    ensures
        request_plane::metric_name(suffix) == "dynamo_request_plane_"@ + suffix,
{
    reveal_strlit("dynamo_request_plane");
    reveal_strlit("_");
    reveal_strlit("dynamo_request_plane_");
    assert("dynamo_request_plane"@ + "_"@ =~= "dynamo_request_plane_"@);
}

/// Whether this is the histogram of the request plane with that name, which says that,
/// whose buckets end there, and which is called that in warnings.
pub open spec fn is_plane_histogram(
    m: RegisteredMetric,
    suffix: Seq<char>,
    help: Seq<char>,
    bounds: Seq<u64>,
    label: Seq<char>,
) -> bool {
    &&& m.metric.name@ == "dynamo_request_plane_"@ + suffix
    &&& m.metric.help@ == help
    &&& m.metric.label is None
    &&& m.metric.buckets matches Buckets::Bounds(v)
    &&& v@ == bounds
    &&& m.label@ == label
}

/// The request plane has nine metrics, of which one is a gauge.
pub proof fn plane_metrics_hold(res: Vec<RegisteredMetric>)
    requires
        call_ensures(request_plane_metrics, (), res),
    ensures
        res@.len() == 9,
        is_plane_histogram(
            res@[0],
            "queue_seconds"@,
            "Time from generate() entry to send_request() (seconds)"@,
            seq![
                100, 500, 1_000, 5_000, 10_000, 50_000, 100_000, 500_000, 1_000_000,
            ],
            "request_plane_queue_seconds"@,
        ),
        is_plane_histogram(
            res@[1],
            "send_seconds"@,
            "Time for send_request() to complete (seconds)"@,
            seq![
                100, 500, 1_000, 5_000, 10_000, 50_000, 100_000, 500_000, 1_000_000,
            ],
            "request_plane_send_seconds"@,
        ),
        is_plane_histogram(
            res@[2],
            "roundtrip_ttft_seconds"@,
            "Time from send_request() to first response item (seconds)"@,
            seq![
                1_000, 5_000, 10_000, 25_000, 50_000, 100_000, 250_000, 500_000, 1_000_000,
                2_500_000, 5_000_000,
            ],
            "request_plane_roundtrip_ttft_seconds"@,
        ),
        res@[3].metric.name@ == "dynamo_request_plane_"@ + "inflight_requests"@,
        res@[3].metric.help@ == "Currently in-flight requests at AddressedPushRouter"@,
        res@[3].metric.label is None,
        res@[3].metric.buckets is Gauge,
        res@[3].label@ == "request_plane_inflight"@,
        is_plane_histogram(
            res@[4],
            "ack_flush_seconds"@,
            "Ingress ACK flush latency: decoded_at -> socket flush complete (seconds)"@,
            seq![
                100, 500, 1_000, 5_000, 10_000, 50_000, 100_000, 500_000, 1_000_000, 2_500_000,
                5_000_000, 10_000_000,
            ],
            "request_plane_ack_flush_seconds"@,
        ),
        is_plane_histogram(
            res@[5],
            "register_streams_ms"@,
            "Time to register request/response stream halves with the response transport (milliseconds)"@,
            seq![
                1_000, 5_000, 10_000, 50_000, 100_000, 500_000, 1_000_000, 5_000_000, 10_000_000,
                50_000_000, 100_000_000,
            ],
            "request_plane_register_streams_ms"@,
        ),
        is_plane_histogram(
            res@[6],
            "associate_instance_ms"@,
            "Time for the associate_instance tombstone check (milliseconds)"@,
            seq![
                1_000, 5_000, 10_000, 50_000, 100_000, 500_000, 1_000_000, 5_000_000, 10_000_000,
                50_000_000, 100_000_000,
            ],
            "request_plane_associate_instance_ms"@,
        ),
        is_plane_histogram(
            res@[7],
            "build_envelope_ms"@,
            "Time to build the request envelope (milliseconds)"@,
            seq![
                1_000, 5_000, 10_000, 50_000, 100_000, 500_000, 1_000_000, 5_000_000, 10_000_000,
                50_000_000, 100_000_000,
            ],
            "request_plane_build_envelope_ms"@,
        ),
        is_plane_histogram(
            res@[8],
            "dispatch_buffer_ms"@,
            "Time for dispatch_buffer to complete (milliseconds)"@,
            seq![
                10_000, 50_000, 100_000, 500_000, 1_000_000, 5_000_000, 10_000_000, 50_000_000,
                100_000_000, 500_000_000, 1_000_000_000,
            ],
            "request_plane_dispatch_buffer_ms"@,
        ),
{
    let all = request_plane::request_plane_views();
    assert(request_plane::registered_views(res@).len() == all.len());
    assert forall|i: int| 0 <= i < 9 implies (#[trigger] res@[i])@ == all[i] by {
        assert(request_plane::registered_views(res@)[i] == res@[i]@);
    }
    plane_name_joined("queue_seconds"@);
    assert(res@[0]@ == all[0]);
    plane_name_joined("send_seconds"@);
    assert(res@[1]@ == all[1]);
    plane_name_joined("roundtrip_ttft_seconds"@);
    assert(res@[2]@ == all[2]);
    plane_name_joined("inflight_requests"@);
    assert(res@[3]@ == all[3]);
    plane_name_joined("ack_flush_seconds"@);
    assert(res@[4]@ == all[4]);
    plane_name_joined("register_streams_ms"@);
    assert(res@[5]@ == all[5]);
    plane_name_joined("associate_instance_ms"@);
    assert(res@[6]@ == all[6]);
    plane_name_joined("build_envelope_ms"@);
    assert(res@[7]@ == all[7]);
    plane_name_joined("dispatch_buffer_ms"@);
    assert(res@[8]@ == all[8]);
}

/// An empty registry holds nothing and has warned of nothing.
pub proof fn registry_starts_empty(res: MetricsRegistry)
    requires
        call_ensures(MetricsRegistry::new, (), res),
    ensures
        res.metrics@.len() == 0,
        res.warnings@.len() == 0,
{
    assert(res@.0.len() == 0 && res@.1.len() == 0);
    assert(request_plane::registered_views(res.metrics@).len() == 0);
    assert(text::texts(res.warnings@).len() == 0);
}

/// Whether a metric of the given name is registered.
pub open spec fn named(list: Seq<RegisteredMetric>, name: Seq<char>) -> bool {
    exists|i: int| 0 <= i < list.len() && (#[trigger] list[i]).metric.name@ == name
}

/// Whether the second list starts with all of the first.
pub open spec fn keeps_metrics(a: Seq<RegisteredMetric>, b: Seq<RegisteredMetric>) -> bool {
    &&& a.len() <= b.len()
    &&& forall|i: int| 0 <= i < a.len() ==> same_registered(a[i], #[trigger] b[i])
}

/// Whether the second list starts with all of the first.
pub open spec fn keeps_texts(a: Seq<String>, b: Seq<String>) -> bool {
    &&& a.len() <= b.len()
    &&& forall|i: int| 0 <= i < a.len() ==> a[i]@ == (#[trigger] b[i])@
}

/// A metric is registered last where its name is new, and only warned of where it is
/// not; what was registered stays, and so does what was warned of.
pub proof fn offered_metric_holds(registry: &mut MetricsRegistry, one: RegisteredMetric)
    requires
        call_ensures(MetricsRegistry::add_metric_or_warn, (registry, one), ()),
    ensures
        keeps_metrics(old(registry).metrics@, final(registry).metrics@),
        keeps_texts(old(registry).warnings@, final(registry).warnings@),
        named(old(registry).metrics@, one.metric.name@) ==> {
            &&& final(registry).metrics@.len() == old(registry).metrics@.len()
            &&& final(registry).warnings@.len() == old(registry).warnings@.len() + 1
            &&& final(registry).warnings@.last()@ == one.label@
        },
        !named(old(registry).metrics@, one.metric.name@) ==> {
            &&& final(registry).metrics@.len() == old(registry).metrics@.len() + 1
            &&& same_registered(final(registry).metrics@.last(), one)
            &&& final(registry).warnings@.len() == old(registry).warnings@.len()
        },
{
    let a = *registry;
    let b = *final(registry);
    let list = a@.0;
    assert(named(a.metrics@, one.metric.name@) == request_plane::has_name(
        list,
        one@.metric.name,
    )) by {
        if named(a.metrics@, one.metric.name@) {
            let i = choose|i: int|
                0 <= i < a.metrics@.len() && (#[trigger] a.metrics@[i]).metric.name@
                    == one.metric.name@;
            assert(list[i].metric.name == one@.metric.name);
        }
        if request_plane::has_name(list, one@.metric.name) {
            let i = choose|i: int|
                0 <= i < list.len() && (#[trigger] list[i]).metric.name == one@.metric.name;
            assert(a.metrics@[i].metric.name@ == one.metric.name@);
        }
    }
    lists_by_views(a, b);
    if !request_plane::has_name(list, one@.metric.name) {
        assert(b@.0 == list.push(one@));
        assert(b@.0.last() == one@);
        assert(b.metrics@.last()@ == one@);
    } else {
        assert(b@.1 == a@.1.push(one.label@));
        assert(b@.1.last() == one.label@);
    }
}

proof fn lists_by_views(a: MetricsRegistry, b: MetricsRegistry)
    requires
        a@.0.is_prefix_of(b@.0),
        a@.1.is_prefix_of(b@.1),
    ensures
        a.metrics@.len() == a@.0.len(),
        b.metrics@.len() == b@.0.len(),
        a.warnings@.len() == a@.1.len(),
        b.warnings@.len() == b@.1.len(),
        keeps_metrics(a.metrics@, b.metrics@),
        keeps_texts(a.warnings@, b.warnings@),
{
    assert forall|i: int| 0 <= i < a.metrics@.len() implies same_registered(
        a.metrics@[i],
        #[trigger] b.metrics@[i],
    ) by {
        assert(b@.0.subrange(0, a@.0.len() as int)[i] == b@.0[i]);
        assert(a@.0[i] == a.metrics@[i]@);
        assert(b@.0[i] == b.metrics@[i]@);
        assert(a.metrics@[i]@ == b.metrics@[i]@);
    }
    assert forall|i: int| 0 <= i < a.warnings@.len() implies a.warnings@[i]@ == (
    #[trigger] b.warnings@[i])@ by {
        assert(b@.1.subrange(0, a@.1.len() as int)[i] == b@.1[i]);
        assert(a@.1[i] == a.warnings@[i]@);
        assert(b@.1[i] == b.warnings@[i]@);
    }
}

/// Whether the list holds the text.
pub open spec fn holds_text(list: Seq<String>, text: Seq<char>) -> bool {
    exists|i: int| 0 <= i < list.len() && (#[trigger] list[i])@ == text
}

/// The metrics of the request plane are registered once. Then each of their names is
/// there, each was registered or warned of, and one whose name was taken was warned
/// of; what was there stays. Where no name was taken, all stand in their order behind
/// what was there.
pub proof fn plane_is_registered(
    guard: &mut RegistrationGuard,
    registry: &mut MetricsRegistry,
    metrics: Vec<RegisteredMetric>,
)
    requires
        call_ensures(request_plane_metrics, (), metrics),
        call_ensures(ensure_request_plane_metrics_registered, (guard, registry), ()),
    ensures
        final(guard).done,
        keeps_metrics(old(registry).metrics@, final(registry).metrics@),
        keeps_texts(old(registry).warnings@, final(registry).warnings@),
        old(guard).done ==> {
            &&& final(registry).metrics@.len() == old(registry).metrics@.len()
            &&& final(registry).warnings@.len() == old(registry).warnings@.len()
        },
        !old(guard).done ==> {
            &&& final(registry).metrics@.len() + final(registry).warnings@.len()
                == old(registry).metrics@.len() + old(registry).warnings@.len() + metrics@.len()
            &&& forall|i: int|
                0 <= i < metrics@.len() ==> named(
                    final(registry).metrics@,
                    (#[trigger] metrics@[i]).metric.name@,
                )
            &&& forall|i: int|
                0 <= i < metrics@.len() && named(
                    old(registry).metrics@,
                    (#[trigger] metrics@[i]).metric.name@,
                ) ==> holds_text(final(registry).warnings@, metrics@[i].label@)
        },
        !old(guard).done && (forall|i: int|
            0 <= i < metrics@.len() ==> !named(
                old(registry).metrics@,
                (#[trigger] metrics@[i]).metric.name@,
            )) ==> {
            &&& final(registry).warnings@.len() == old(registry).warnings@.len()
            &&& forall|i: int|
                0 <= i < metrics@.len() ==> same_registered(
                    #[trigger] metrics@[i],
                    final(registry).metrics@[old(registry).metrics@.len() + i],
                )
        },
{
    let a = *registry;
    let b = *final(registry);
    let all = request_plane::request_plane_views();
    if guard.done {
        assert(a@.0.subrange(0, a@.0.len() as int) =~= a@.0);
        assert(a@.1.subrange(0, a@.1.len() as int) =~= a@.1);
        lists_by_views(a, b);
    } else {
        all_offered_holds(a@.0, a@.1, all);
        lists_by_views(a, b);
        assert(request_plane::registered_views(metrics@) == all);
        assert(metrics@.len() == all.len());
        assert forall|i: int| 0 <= i < metrics@.len() implies (#[trigger] metrics@[i])@
            == all[i] && named(b.metrics@, metrics@[i].metric.name@) && (named(
            a.metrics@,
            metrics@[i].metric.name@,
        ) ==> request_plane::has_name(a@.0, all[i].metric.name) && holds_text(
            b.warnings@,
            metrics@[i].label@,
        )) && (request_plane::has_name(a@.0, all[i].metric.name) ==> named(
            a.metrics@,
            metrics@[i].metric.name@,
        )) by {
            assert(request_plane::registered_views(metrics@)[i] == metrics@[i]@);
            let name = all[i].metric.name;
            assert(request_plane::has_name(b@.0, name));
            let k = choose|k: int| 0 <= k < b@.0.len() && (#[trigger] b@.0[k]).metric.name == name;
            assert(b.metrics@[k].metric.name@ == name);
            if named(a.metrics@, name) {
                let j = choose|j: int|
                    0 <= j < a.metrics@.len() && (#[trigger] a.metrics@[j]).metric.name@ == name;
                assert(a@.0[j].metric.name == name);
                assert(b@.1.contains(all[i].label));
                let w = choose|w: int| 0 <= w < b@.1.len() && b@.1[w] == all[i].label;
                assert(b.warnings@[w]@ == all[i].label);
            }
            if request_plane::has_name(a@.0, name) {
                let j = choose|j: int|
                    0 <= j < a@.0.len() && (#[trigger] a@.0[j]).metric.name == name;
                assert(a.metrics@[j].metric.name@ == name);
            }
        }
        if forall|i: int|
            0 <= i < metrics@.len() ==> !named(
                a.metrics@,
                (#[trigger] metrics@[i]).metric.name@,
            ) {
            assert forall|i: int| 0 <= i < all.len() implies !request_plane::has_name(
                a@.0,
                (#[trigger] all[i]).metric.name,
            ) by {
                assert(metrics@[i]@ == all[i]);
            }
            request_plane::all_registered(a@.0, a@.1);
            assert forall|i: int| 0 <= i < metrics@.len() implies same_registered(
                #[trigger] metrics@[i],
                b.metrics@[a.metrics@.len() + i],
            ) by {
                assert(b@.0[a@.0.len() + i] == all[i]);
                assert(b@.0[a@.0.len() + i] == b.metrics@[a.metrics@.len() + i]@);
                assert(metrics@[i]@ == b.metrics@[a.metrics@.len() + i]@);
            }
        }
    }
}

proof fn all_offered_holds(
    list: Seq<RegisteredView>,
    warnings: Seq<Seq<char>>,
    more: Seq<RegisteredView>,
)
    ensures
        ({
            let (l, w) = request_plane::all_offered(list, warnings, more);
            &&& list.is_prefix_of(l)
            &&& warnings.is_prefix_of(w)
            &&& l.len() + w.len() == list.len() + warnings.len() + more.len()
            &&& forall|i: int|
                0 <= i < more.len() ==> request_plane::has_name(
                    l,
                    (#[trigger] more[i]).metric.name,
                )
            &&& forall|i: int|
                0 <= i < more.len() && request_plane::has_name(
                    list,
                    (#[trigger] more[i]).metric.name,
                ) ==> w.contains(more[i].label)
        }),
    decreases more.len(),
{
    if more.len() == 0 {
        assert(list.subrange(0, list.len() as int) =~= list);
        assert(warnings.subrange(0, warnings.len() as int) =~= warnings);
    } else {
        let rest = more.drop_last();
        let one = more.last();
        all_offered_holds(list, warnings, rest);
        let (l, w) = request_plane::all_offered(list, warnings, rest);
        let (l2, w2) = request_plane::all_offered(list, warnings, more);
        assert((l2, w2) == request_plane::offered(l, w, one));
        assert(l2.subrange(0, list.len() as int) =~= list) by {
            assert(l2.subrange(0, list.len() as int) =~= l.subrange(0, list.len() as int));
        }
        assert(w2.subrange(0, warnings.len() as int) =~= warnings) by {
            assert(w2.subrange(0, warnings.len() as int) =~= w.subrange(0, warnings.len() as int));
        }
        assert forall|i: int| 0 <= i < more.len() implies request_plane::has_name(
            l2,
            (#[trigger] more[i]).metric.name,
        ) && (request_plane::has_name(list, more[i].metric.name) ==> w2.contains(
            more[i].label,
        )) by {
            let name = more[i].metric.name;
            if i < rest.len() {
                assert(rest[i] == more[i]);
                let k = choose|k: int| 0 <= k < l.len() && (#[trigger] l[k]).metric.name == name;
                assert(l2[k] == l[k]);
                if request_plane::has_name(list, name) {
                    let j = choose|j: int| 0 <= j < w.len() && w[j] == more[i].label;
                    assert(w2[j] == w[j]);
                }
            } else {
                if request_plane::has_name(l, name) {
                    let k = choose|k: int|
                        0 <= k < l.len() && (#[trigger] l[k]).metric.name == name;
                    assert(l2[k].metric.name == name);
                    assert(w2[w2.len() - 1] == one.label);
                } else {
                    assert(l2[l2.len() - 1].metric.name == name);
                    if request_plane::has_name(list, name) {
                        let j = choose|j: int|
                            0 <= j < list.len() && (#[trigger] list[j]).metric.name == name;
                        assert(l.subrange(0, list.len() as int)[j] == l[j]);
                        assert(l[j].metric.name == name);
                    }
                }
            }
        }
    }
}

/// What came of the first attempt answers every attempt.
pub proof fn first_attempt_answers(
    first: &mut OnceOutcome,
    second: &mut OnceOutcome,
    one: Result<(), String>,
    two: Result<(), String>,
    answer: Result<(), String>,
    again: Result<(), String>,
    before: bool,
    after: bool,
)
    requires
        call_ensures(OnceOutcome::is_open, (&*old(first),), before),
        before,
        call_ensures(OnceOutcome::settle, (first, one), answer),
        *final(first) == *old(second),
        call_ensures(OnceOutcome::is_open, (&*old(second),), after),
        call_ensures(OnceOutcome::settle, (second, two), again),
    ensures
        !after,
        answer is Ok <==> one is Ok,
        again is Ok <==> one is Ok,
        one matches Err(why) ==> answer->Err_0@ == why@ && again->Err_0@ == why@,
{
}

/// Whether this is the histogram by type of worker with that name, which says that.
pub open spec fn is_histogram(m: MetricSpec, name: Seq<char>, help: Seq<char>) -> bool {
    &&& m.name@ == name
    &&& m.help@ == help
    &&& m.label matches Some(l)
    &&& l@ == "worker_type"@
}

/// Whether buckets are those of time spent computing.
pub open spec fn computing(b: Buckets) -> bool {
    b == (Buckets::Exponential { start: 1_000, factor: 2, count: 15 })
}

/// Whether buckets are those of time spent waiting.
pub open spec fn waiting(b: Buckets) -> bool {
    b == (Buckets::Exponential { start: 10_000, factor: 3, count: 17 })
}

/// The buckets of the scheduler's histograms.
pub proof fn scheduler_buckets_hold(compute: Buckets, queue: Buckets, actor: Buckets)
    requires
        call_ensures(admission_compute_buckets, (), compute),
        call_ensures(queue_wait_buckets, (), queue),
        call_ensures(actor_timing_buckets, (), actor),
    ensures
        computing(compute),
        waiting(queue),
        waiting(actor),
{
}

/// The scheduler's histograms, each of what it measures.
pub proof fn scheduler_metrics_hold(res: SchedulingMetrics)
    requires
        call_ensures(SchedulingMetrics::new, (), res),
    ensures
        is_histogram(
            res.admission_compute_ms,
            "dynamo_router_overhead_admission_compute_ms"@,
            "Time in project_worker_loads + select_worker on the scheduler actor task, in milliseconds"@,
        ),
        computing(res.admission_compute_ms.buckets),
        is_histogram(
            res.queue_wait_ms,
            "dynamo_router_overhead_queue_wait_ms"@,
            "Time a request sits parked in the pending heap before admission, in milliseconds"@,
        ),
        waiting(res.queue_wait_ms.buckets),
        is_histogram(
            res.actor_mailbox_wait_ms,
            "dynamo_router_actor_mailbox_wait_ms"@,
            "Time from enqueueing router work to the router actor starting it, in milliseconds"@,
        ),
        waiting(res.actor_mailbox_wait_ms.buckets),
        is_histogram(
            res.actor_poll_gap_ms,
            "dynamo_router_actor_poll_gap_ms"@,
            "Time between consecutive router actor mailbox receives, in milliseconds"@,
        ),
        waiting(res.actor_poll_gap_ms.buckets),
        is_histogram(
            res.schedule_compute_ms,
            "dynamo_router_schedule_compute_ms"@,
            "Full admit_one body (project_worker_loads + select_worker + booking) CPU time, in milliseconds"@,
        ),
        computing(res.schedule_compute_ms.buckets),
        is_histogram(
            res.pending_queue_age_ms,
            "dynamo_router_pending_queue_age_ms"@,
            "Age of a pending request sampled while still capacity-blocked, in milliseconds"@,
        ),
        waiting(res.pending_queue_age_ms.buckets),
{
    assert(res@[0] == res.admission_compute_ms@);
    assert(res@[1] == res.queue_wait_ms@);
    assert(res@[2] == res.actor_mailbox_wait_ms@);
    assert(res@[3] == res.actor_poll_gap_ms@);
    assert(res@[4] == res.schedule_compute_ms@);
    assert(res@[5] == res.pending_queue_age_ms@);
}

/// The scheduler's histograms are registered in the order in which they are declared.
pub proof fn scheduler_metrics_in_order(metrics: SchedulingMetrics, res: Vec<MetricSpec>)
    requires
        call_ensures(SchedulingMetrics::in_order, (metrics,), res),
    ensures
        res@.len() == 6,
        same_metric(res@[0], metrics.admission_compute_ms),
        same_metric(res@[1], metrics.queue_wait_ms),
        same_metric(res@[2], metrics.actor_mailbox_wait_ms),
        same_metric(res@[3], metrics.actor_poll_gap_ms),
        same_metric(res@[4], metrics.schedule_compute_ms),
        same_metric(res@[5], metrics.pending_queue_age_ms),
{
    assert(descriptor::metric_views(res@).len() == 6);
    assert(descriptor::metric_views(res@)[0] == res@[0]@);
    assert(metrics@[0] == metrics.admission_compute_ms@);
    assert(descriptor::metric_views(res@)[1] == res@[1]@);
    assert(metrics@[1] == metrics.queue_wait_ms@);
    assert(descriptor::metric_views(res@)[2] == res@[2]@);
    assert(metrics@[2] == metrics.actor_mailbox_wait_ms@);
    assert(descriptor::metric_views(res@)[3] == res@[3]@);
    assert(metrics@[3] == metrics.actor_poll_gap_ms@);
    assert(descriptor::metric_views(res@)[4] == res@[4]@);
    assert(metrics@[4] == metrics.schedule_compute_ms@);
    assert(descriptor::metric_views(res@)[5] == res@[5]@);
    assert(metrics@[5] == metrics.pending_queue_age_ms@);
}

} // verus!
