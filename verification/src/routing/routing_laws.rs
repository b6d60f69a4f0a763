//! What holds of the traces of routing, stated on what goes in and what comes out.

use crate::routing::affinity_trace::{
    parse_enabled, AffinityCounts, AffinityTarget, AffinityTrace, BoundDispatchRecord,
    BoundReuseRecord, InitializeRecord, RequestPhase, TargetRecord, TraceConfig,
};
use crate::routing::prefill_trace::{
    prefill_trace_enabled, InflightGauge, InflightGuard, PrefillSummary, PrefillTrace,
};
use crate::text;
use crate::text::{ascii_lower_is, trim};
use crate::time::Instant;
use vstd::prelude::*;

verus! {

/// A setting turns the trace of sessions on where, without the white space around it
/// and in lower case, it is one of four words; nothing else does.
pub proof fn turned_on_by_word(
    value: &str,
    res: bool,
    word: String,
    one: bool,
    truth: bool,
    on: bool,
    yes: bool,
    shown: &str,
)
    requires
        call_ensures(parse_enabled, (Some(value),), res),
        call_ensures(trim, (value,), word),
        shown@ == word@,
        call_ensures(ascii_lower_is, (shown, "1"), one),
        call_ensures(ascii_lower_is, (shown, "true"), truth),
        call_ensures(ascii_lower_is, (shown, "on"), on),
        call_ensures(ascii_lower_is, (shown, "yes"), yes),
    ensures
        res <==> one || truth || on || yes,
{
}

/// Without the setting the trace of sessions is off.
pub proof fn off_without_setting(res: bool)
    requires
        call_ensures(parse_enabled, (None::<&str>,), res),
    ensures
        !res,
{
}

/// The sessions that are traced are those whose identifiers start with the other
/// setting, without the white space around it; all, where nothing is left of it or it
/// is missing; and none, where the trace is off.
pub proof fn traced_by_prefix(
    enabled: Option<&str>,
    prefix: Option<&str>,
    config: TraceConfig,
    on: bool,
    session_id: &str,
    res: bool,
)
    requires
        call_ensures(TraceConfig::from_values, (enabled, prefix), config),
        call_ensures(parse_enabled, (enabled,), on),
        call_ensures(TraceConfig::matches, (&config, session_id), res),
    ensures
        !on ==> !res,
        on && prefix is None ==> res,
        on && prefix is Some ==> {
            let wanted = text::trimmed(prefix->0@);
            res <==> wanted.is_prefix_of(session_id@)
        },
{
    if let Some(p) = prefix {
        let wanted = text::trimmed(p@);
        if wanted.len() <= session_id@.len() {
            assert(session_id@.take(wanted.len() as int) =~= session_id@.subrange(
                0,
                wanted.len() as int,
            ));
        }
        if wanted.len() == 0 {
            assert(wanted =~= session_id@.subrange(0, 0));
        }
    }
}

/// What a worker is called depends on the part of the request alone.
pub proof fn role_by_phase(phase: &RequestPhase, res: &'static str)
    requires
        call_ensures(RequestPhase::role, (phase,), res),
    ensures
        phase is Prefill ==> res@ == "context"@,
        phase is Decode ==> res@ == "generation"@,
        phase is Aggregated ==> res@ == "aggregated"@,
{
}

/// Whether a record tells of a session, a revision and a target: its worker, and its
/// rank or minus one.
pub open spec fn record_tells(
    record: TargetRecord,
    session_id: Seq<char>,
    revision: u64,
    target: AffinityTarget,
    config: TraceConfig,
) -> bool {
    &&& record.session_id@ == session_id
    &&& record.revision == revision
    &&& record.worker_id == target.worker_id
    &&& target.dp_rank matches Some(rank) ==> record.dp_rank == rank && record.dp_rank_bound
    &&& target.dp_rank is None ==> record.dp_rank == -1 && !record.dp_rank_bound
    &&& config.session_prefix matches Some(p) ==> record.trace_prefix@ == p@
    &&& config.session_prefix is None ==> record.trace_prefix@.len() == 0
}

/// Setting up a traced session records it, with the worker and the rank that were asked
/// for or none, and counts one more; for a session that is not traced nothing happens.
pub proof fn initialize_records(
    trace: &mut AffinityTrace,
    session_id: &str,
    revision: u64,
    requested: Option<AffinityTarget>,
    reason: &str,
    traced: bool,
    res: Option<InitializeRecord>,
)
    requires
        old(trace).counts.initialize < u64::MAX,
        call_ensures(TraceConfig::matches, (&old(trace).config, session_id), traced),
        call_ensures(
            AffinityTrace::initialize,
            (trace, session_id, revision, requested, reason),
            res,
        ),
    ensures
        res is Some <==> traced,
        final(trace).config == old(trace).config,
        res is None ==> final(trace).counts == old(trace).counts,
        res matches Some(r) ==> {
            &&& final(trace).counts == (AffinityCounts {
                initialize: (old(trace).counts.initialize + 1) as u64,
                ..old(trace).counts
            })
            &&& r.initialize_count == old(trace).counts.initialize + 1
            &&& r.fallback_rebind_count == old(trace).counts.fallback_rebind
            &&& r.session_id@ == session_id@
            &&& r.revision == revision
            &&& r.reason@ == reason@
            &&& requested is None ==> !r.requested_worker_bound && r.requested_worker_id == 0
                && !r.requested_dp_rank_bound && r.requested_dp_rank == -1
            &&& requested matches Some(t) ==> {
                &&& r.requested_worker_bound
                &&& r.requested_worker_id == t.worker_id
                &&& t.dp_rank matches Some(rank) ==> r.requested_dp_rank == rank
                    && r.requested_dp_rank_bound
                &&& t.dp_rank is None ==> r.requested_dp_rank == -1 && !r.requested_dp_rank_bound
            }
            &&& old(trace).config.session_prefix matches Some(p) ==> r.trace_prefix@ == p@
            &&& old(trace).config.session_prefix is None ==> r.trace_prefix@.len() == 0
        },
{
    reveal_strlit("");
}

/// Binding a traced session records its target and counts one more.
pub proof fn commit_records(
    trace: &mut AffinityTrace,
    session_id: &str,
    revision: u64,
    target: AffinityTarget,
    traced: bool,
    res: Option<TargetRecord>,
)
    requires
        old(trace).counts.commit < u64::MAX,
        call_ensures(TraceConfig::matches, (&old(trace).config, session_id), traced),
        call_ensures(AffinityTrace::commit, (trace, session_id, revision, target), res),
    ensures
        res is Some <==> traced,
        res is None ==> final(trace).counts == old(trace).counts,
        res matches Some(r) ==> {
            &&& record_tells(r, session_id@, revision, target, old(trace).config)
            &&& r.count == old(trace).counts.commit + 1
            &&& r.fallback_rebind_count == old(trace).counts.fallback_rebind
            &&& final(trace).counts == (AffinityCounts { commit: r.count, ..old(trace).counts })
        },
{
    reveal_strlit("");
}

/// A request of a traced session that uses its binding is recorded and counted, with
/// how many use it.
pub proof fn reuse_records(
    trace: &mut AffinityTrace,
    session_id: &str,
    revision: u64,
    target: AffinityTarget,
    active_leases: usize,
    traced: bool,
    res: Option<BoundReuseRecord>,
)
    requires
        old(trace).counts.bound_reuse < u64::MAX,
        call_ensures(TraceConfig::matches, (&old(trace).config, session_id), traced),
        call_ensures(
            AffinityTrace::bound_reuse,
            (trace, session_id, revision, target, active_leases),
            res,
        ),
    ensures
        res is Some <==> traced,
        res is None ==> final(trace).counts == old(trace).counts,
        res matches Some(r) ==> {
            &&& record_tells(r.target, session_id@, revision, target, old(trace).config)
            &&& r.active_leases == active_leases
            &&& r.target.count == old(trace).counts.bound_reuse + 1
            &&& r.target.fallback_rebind_count == old(trace).counts.fallback_rebind
            &&& final(trace).counts == (AffinityCounts {
                bound_reuse: r.target.count,
                ..old(trace).counts
            })
        },
{
    reveal_strlit("");
}

/// A request of a traced session that is sent to its worker is recorded and counted,
/// with the part of the request and what the worker is to it.
pub proof fn dispatch_records(
    trace: &mut AffinityTrace,
    session_id: &str,
    revision: u64,
    target: AffinityTarget,
    phase: RequestPhase,
    kind: &str,
    traced: bool,
    role: &'static str,
    res: Option<BoundDispatchRecord>,
)
    requires
        old(trace).counts.bound_dispatch < u64::MAX,
        call_ensures(TraceConfig::matches, (&old(trace).config, session_id), traced),
        call_ensures(RequestPhase::role, (&phase,), role),
        call_ensures(
            AffinityTrace::bound_dispatch,
            (trace, session_id, revision, target, phase, kind),
            res,
        ),
    ensures
        res is Some <==> traced,
        res is None ==> final(trace).counts == old(trace).counts,
        res matches Some(r) ==> {
            &&& record_tells(r.target, session_id@, revision, target, old(trace).config)
            &&& r.phase == phase
            &&& r.role@ == role@
            &&& r.acquisition_kind@ == kind@
            &&& r.target.count == old(trace).counts.bound_dispatch + 1
            &&& r.target.fallback_rebind_count == old(trace).counts.fallback_rebind
            &&& final(trace).counts == (AffinityCounts {
                bound_dispatch: r.target.count,
                ..old(trace).counts
            })
        },
{
    reveal_strlit("");
}

/// A traced session that is bound anew is recorded and counted; the count of such
/// sessions has it already.
pub proof fn rebind_records(
    trace: &mut AffinityTrace,
    session_id: &str,
    revision: u64,
    target: AffinityTarget,
    traced: bool,
    res: Option<TargetRecord>,
)
    requires
        old(trace).counts.fallback_rebind < u64::MAX,
        call_ensures(TraceConfig::matches, (&old(trace).config, session_id), traced),
        call_ensures(
            AffinityTrace::bound_target_fallback_rebind,
            (trace, session_id, revision, target),
            res,
        ),
    ensures
        res is Some <==> traced,
        res is None ==> final(trace).counts == old(trace).counts,
        res matches Some(r) ==> {
            &&& record_tells(r, session_id@, revision, target, old(trace).config)
            &&& r.count == old(trace).counts.fallback_rebind + 1
            &&& r.fallback_rebind_count == r.count
            &&& final(trace).counts == (AffinityCounts {
                fallback_rebind: r.count,
                ..old(trace).counts
            })
        },
{
    reveal_strlit("");
}

/// How many sessions were bound anew is one more after each record of one.
pub proof fn rebinds_are_counted(
    trace: &mut AffinityTrace,
    session_id: &str,
    revision: u64,
    target: AffinityTarget,
    res: Option<TargetRecord>,
    before: u64,
    after: u64,
)
    requires
        old(trace).counts.fallback_rebind < u64::MAX,
        call_ensures(AffinityTrace::fallback_rebind_count, (&*old(trace),), before),
        call_ensures(
            AffinityTrace::bound_target_fallback_rebind,
            (trace, session_id, revision, target),
            res,
        ),
        call_ensures(AffinityTrace::fallback_rebind_count, (&*final(trace),), after),
    ensures
        res is Some ==> after == before + 1,
        res is None ==> after == before,
{
}

/// The trace of prefill is on where its setting is `1` or `true`, to the letter.
pub proof fn prefill_trace_by_word(value: Option<&str>, res: bool)
    requires
        call_ensures(prefill_trace_enabled, (value,), res),
    ensures
        value is None ==> !res,
        value matches Some(v) ==> (res <==> v@ == "1"@ || v@ == "true"@),
{
}

/// A guard that is taken counts one request more for its worker, and releasing it one
/// less; no other worker's count changes by either. Without a trace, or without a
/// worker, there is no guard.
pub proof fn guard_counts(
    first: &mut InflightGauge,
    second: &mut InflightGauge,
    worker: Option<u64>,
    guard: Option<(InflightGuard, usize)>,
    other: u64,
    before: usize,
    during: usize,
    after: usize,
)
    requires
        worker matches Some(w) ==> crate::routing::prefill_trace::inflight(old(first)@, w)
            < usize::MAX,
        call_ensures(InflightGauge::inflight, (&*old(first), other), before),
        call_ensures(InflightGauge::inflight_guard, (first, worker), guard),
        call_ensures(InflightGauge::inflight, (&*final(first), other), during),
        guard matches Some(pair) ==> *final(first) == *old(second) && call_ensures(
            InflightGauge::release,
            (second, pair.0),
            (),
        ),
        call_ensures(InflightGauge::inflight, (&*final(second), other), after),
    ensures
        guard is Some <==> old(first).on() && worker is Some,
        guard is None ==> during == before,
        guard matches Some(pair) ==> worker == Some(other) ==> during == before + 1 && pair.1
            == during && after == before,
        guard is Some && worker != Some(other) ==> during == before && after == before,
{
}

/// The whole milliseconds from one moment to another; none backwards.
pub open spec fn millis(from: Instant, to: Instant) -> int {
    if from.nanos <= to.nanos {
        (to.nanos - from.nanos) / 1_000_000
    } else {
        0
    }
}

/// A request that was marked on its way is summed up by its marks: the choice of the
/// worker since it came, the sending since the choice, and the first answer and the
/// end since the sending. Only the first answer counts.
pub proof fn summary_by_marks(
    request_id: &str,
    tokens: usize,
    arrival: Instant,
    made: PrefillTrace,
    a: &mut PrefillTrace,
    b: &mut PrefillTrace,
    c: &mut PrefillTrace,
    d: &mut PrefillTrace,
    worker: Option<u64>,
    selected: Instant,
    sent: Instant,
    first: Instant,
    again: Instant,
    end: Instant,
    res: PrefillSummary,
)
    requires
        call_ensures(PrefillTrace::new, (true, request_id, tokens, arrival), Some(made)),
        *old(a) == made,
        call_ensures(PrefillTrace::mark_selected, (a, worker, selected), ()),
        *old(b) == *final(a),
        call_ensures(PrefillTrace::mark_dispatched, (b, sent), ()),
        *old(c) == *final(b),
        call_ensures(PrefillTrace::mark_first_response, (c, first), ()),
        *old(d) == *final(c),
        call_ensures(PrefillTrace::mark_first_response, (d, again), ()),
        call_ensures(PrefillTrace::emit, (*final(d), end), res),
    ensures
        res.request_id@ == request_id@,
        res.worker_id == worker,
        res.isl_tokens == tokens,
        res.select_ms == millis(arrival, selected),
        res.dispatch_gap_ms == millis(selected, sent),
        res.prefill_first_ms matches Some(ms) && ms == millis(sent, first),
        res.prefill_total_ms == millis(sent, end),
{
}

/// A request that was not marked as sent counts as sent when its worker was chosen,
/// and one without an answer has no time to it.
pub proof fn summary_without_marks(trace: PrefillTrace, end: Instant, res: PrefillSummary)
    requires
        trace.dispatched is None,
        trace.first_response is None,
        call_ensures(PrefillTrace::emit, (trace, end), res),
    ensures
        res.select_ms == millis(trace.arrival, trace.selected),
        res.dispatch_gap_ms == 0,
        res.prefill_first_ms is None,
        res.prefill_total_ms == millis(trace.selected, end),
{
}

/// Requests are traced only where that is turned on.
pub proof fn traced_where_on(
    enabled: bool,
    request_id: &str,
    tokens: usize,
    arrival: Instant,
    res: Option<PrefillTrace>,
)
    requires
        call_ensures(PrefillTrace::new, (enabled, request_id, tokens, arrival), res),
    ensures
        res is Some <==> enabled,
        res matches Some(t) ==> t.selected == arrival && t.arrival == arrival && t.isl_tokens
            == tokens && t.request_id@ == request_id@,
{
}

/// A new gauge has counted nothing, at any worker.
pub proof fn gauge_starts_at_none(enabled: bool, gauge: InflightGauge, worker: u64, count: usize)
    requires
        call_ensures(InflightGauge::new, (enabled,), gauge),
        call_ensures(InflightGauge::inflight, (&gauge, worker), count),
    ensures
        count == 0,
        gauge.on() == enabled,
{
}

/// A new trace of sessions has counted nothing, and goes by the configuration that it
/// was given.
pub proof fn trace_starts_uncounted(config: TraceConfig, trace: AffinityTrace, rebinds: u64)
    requires
        call_ensures(AffinityTrace::new, (config,), trace),
        call_ensures(AffinityTrace::fallback_rebind_count, (&trace,), rebinds),
    ensures
        trace.config == config,
        rebinds == 0,
        trace.counts.initialize == 0,
        trace.counts.commit == 0,
        trace.counts.bound_reuse == 0,
        trace.counts.bound_dispatch == 0,
        trace.counts.fallback_rebind == 0,
{
}

} // verus!
