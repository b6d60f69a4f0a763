//! Trace of where a prefill request spends its time, and of how many requests
//! each worker has at once.

use dashmap::DashMap;
use vstd::prelude::*;

use crate::text::{owned, text_eq};
use crate::time::{millis_between, Instant};

verus! {

/// The setting that turns the trace on.
pub const PREFILL_TRACE_ENV: &'static str = "DYN_PREFILL_TRACE";

/// Whether a setting turns the trace on: it is `1` or `true`.
pub open spec fn prefill_trace_on(value: Option<Seq<char>>) -> bool {
    value matches Some(v) && (v == "1"@ || v == "true"@)
}

/// Whether a setting turns the trace on.
pub fn prefill_trace_enabled(value: Option<&str>) -> (res: bool)
    ensures
        res == prefill_trace_on(match value {
            Some(v) => Some(v@),
            None => None,
        }),
{
    match value {
        Some(v) => text_eq(v, "1") || text_eq(v, "true"),
        None => false,
    }
}

/// What a gauge by worker holds.
pub uninterp spec fn gauge_contents(gauge: DashMap<u64, usize>) -> Map<u64, usize>;

/// `DashMap::new`, for workers: nothing is held.
#[verifier::external_body]
fn gauge_new() -> (res: DashMap<u64, usize>)
    ensures
        gauge_contents(res).dom() == Set::<u64>::empty(),
{
    DashMap::new()
}

/// `DashMap::get`, for workers: the count under the worker, if there is one.
#[verifier::external_body]
fn gauge_get(gauge: &DashMap<u64, usize>, worker: u64) -> (res: Option<usize>)
    ensures
        match res {
            Some(count) => gauge_contents(*gauge).contains_key(worker)
                && gauge_contents(*gauge)[worker] == count,
            None => !gauge_contents(*gauge).contains_key(worker),
        },
{
    gauge.get(&worker).map(|entry| *entry.value())
}

/// `DashMap::insert`, for workers: the count stands under the worker, in the
/// place of any that stood there, and nothing else changes.
#[verifier::external_body]
fn gauge_insert(gauge: &mut DashMap<u64, usize>, worker: u64, count: usize)
    ensures
        gauge_contents(*final(gauge)) == gauge_contents(*old(gauge)).insert(worker, count),
{
    gauge.insert(worker, count);
}

/// How many requests each worker has at once, where that is traced.
pub struct InflightGauge {
    enabled: bool,
    counts: DashMap<u64, usize>,
}

/// One request at a worker. It is made by counting the request, and given up by
/// counting it off.
#[derive(Debug)]
pub struct InflightGuard {
    worker: u64,
}

impl InflightGuard {
    /// The worker.
    pub closed spec fn at(&self) -> u64 {
        self.worker
    }
}

/// How many requests a worker has: none where it has never had one.
pub open spec fn inflight(counts: Map<u64, usize>, worker: u64) -> int {
    if counts.contains_key(worker) {
        counts[worker] as int
    } else {
        0
    }
}

/// The counts once a worker has one more request.
pub open spec fn counted(counts: Map<u64, usize>, worker: u64) -> Map<u64, usize> {
    counts.insert(worker, (inflight(counts, worker) + 1) as usize)
}

/// The counts once a worker has one request less, but not less than none.
pub open spec fn counted_off(counts: Map<u64, usize>, worker: u64) -> Map<u64, usize> {
    if counts.contains_key(worker) {
        counts.insert(
            worker,
            if counts[worker] > 0 {
                (counts[worker] - 1) as usize
            } else {
                0
            },
        )
    } else {
        counts
    }
}

/// A request that is counted and then counted off leaves every worker with as
/// many requests as before, and no other worker's count ever moves.
pub proof fn gauge_round_trip(counts: Map<u64, usize>, worker: u64, other: u64)
    requires
        inflight(counts, worker) < usize::MAX,
    ensures
        inflight(counted_off(counted(counts, worker), worker), other) == inflight(counts, other),
        other != worker ==> inflight(counted(counts, worker), other) == inflight(counts, other),
        inflight(counted(counts, worker), worker) == inflight(counts, worker) + 1,
{
}

/// What happens to a gauge.
pub enum GaugeEvent {
    /// A guard is taken for a worker.
    Taken(u64),
    /// A guard of a worker is released.
    Released(u64),
}

/// The counts of a new gauge once all of this has happened to it, in order.
pub open spec fn counts_after(history: Seq<GaugeEvent>) -> Map<u64, usize>
    decreases history.len(),
{
    if history.len() == 0 {
        Map::empty()
    } else {
        let before = counts_after(history.drop_last());
        match history.last() {
            GaugeEvent::Taken(worker) => counted(before, worker),
            GaugeEvent::Released(worker) => counted_off(before, worker),
        }
    }
}

/// How many guards of a worker have been taken and not released.
pub open spec fn live_guards(history: Seq<GaugeEvent>, worker: u64) -> int
    decreases history.len(),
{
    if history.len() == 0 {
        0
    } else {
        live_guards(history.drop_last(), worker) + (match history.last() {
            GaugeEvent::Taken(w) => if w == worker {
                1int
            } else {
                0
            },
            GaugeEvent::Released(w) => if w == worker {
                -1int
            } else {
                0
            },
        })
    }
}

/// Whether this can happen to a gauge: no guard is released that was not taken,
/// and none is taken beyond what can be counted.
pub open spec fn can_happen(history: Seq<GaugeEvent>) -> bool
    decreases history.len(),
{
    history.len() > 0 ==> {
        let before = history.drop_last();
        &&& can_happen(before)
        &&& match history.last() {
            GaugeEvent::Taken(worker) => live_guards(before, worker) < usize::MAX,
            GaugeEvent::Released(worker) => live_guards(before, worker) > 0,
        }
    }
}

/// Whatever has happened to a gauge, a worker's count is the number of its guards
/// that have been taken and not released.
pub proof fn gauge_counts_live_guards(history: Seq<GaugeEvent>, worker: u64)
    requires
        can_happen(history),
    ensures
        inflight(counts_after(history), worker) == live_guards(history, worker),
    decreases history.len(),
{
    if history.len() > 0 {
        let before = history.drop_last();
        gauge_counts_live_guards(before, worker);
        match history.last() {
            GaugeEvent::Taken(w) => gauge_counts_live_guards(before, w),
            GaugeEvent::Released(w) => gauge_counts_live_guards(before, w),
        }
    }
}

impl InflightGauge {
    /// The counts by worker.
    pub closed spec fn view(&self) -> Map<u64, usize> {
        gauge_contents(self.counts)
    }

    /// Whether requests are counted.
    pub closed spec fn on(&self) -> bool {
        self.enabled
    }

    /// A gauge without requests.
    pub fn new(enabled: bool) -> (res: Self)
        ensures
            res.on() == enabled,
            res@ == Map::<u64, usize>::empty(),
    {
        let res = InflightGauge { enabled, counts: gauge_new() };
        assert(res@ =~= Map::empty());
        res
    }

    /// How many requests a worker has.
    pub fn inflight(&self, worker: u64) -> (res: usize)
        ensures
            res == inflight(self@, worker),
    {
        match gauge_get(&self.counts, worker) {
            Some(count) => count,
            None => 0,
        }
    }

    /// Counts a request at a worker, and gives the new count. Nothing is done
    /// where requests are not counted or the worker is not known.
    pub fn inflight_guard(&mut self, worker: Option<u64>) -> (res: Option<(InflightGuard, usize)>)
        requires
            worker matches Some(w) ==> inflight(old(self)@, w) < usize::MAX,
        ensures
            final(self).on() == old(self).on(),
            res is Some <==> old(self).on() && worker is Some,
            res is None ==> final(self)@ == old(self)@,
            res matches Some(pair) ==> {
                &&& pair.0.at() == worker->0
                &&& pair.1 == inflight(old(self)@, worker->0) + 1
                &&& final(self)@ == counted(old(self)@, worker->0)
            },
    {
        if !self.enabled {
            return None;
        }
        match worker {
            Some(worker) => {
                let count: usize = self.inflight(worker) + 1;
                gauge_insert(&mut self.counts, worker, count);
                Some((InflightGuard { worker }, count))
            },
            None => None,
        }
    }

    /// Counts a request off.
    pub fn release(&mut self, guard: InflightGuard)
        ensures
            final(self).on() == old(self).on(),
            final(self)@ == counted_off(old(self)@, guard.at()),
    {
        match gauge_get(&self.counts, guard.worker) {
            Some(count) => {
                let less: usize = if count > 0 {
                    count - 1
                } else {
                    0
                };
                gauge_insert(&mut self.counts, guard.worker, less);
            },
            None => {},
        }
    }
}

/// What is known of a request as it passes.
#[derive(Debug, PartialEq, Eq)]
pub struct PrefillTrace {
    /// The request.
    pub request_id: String,
    /// The worker, once it is known.
    pub worker_id: Option<u64>,
    /// How many tokens come in.
    pub isl_tokens: usize,
    /// When the request came.
    pub arrival: Instant,
    /// When the worker was chosen.
    pub selected: Instant,
    /// When the request was sent to it.
    pub dispatched: Option<Instant>,
    /// When its first answer came.
    pub first_response: Option<Instant>,
}

/// Where a request spent its time.
#[derive(Debug, PartialEq, Eq)]
pub struct PrefillSummary {
    /// The request.
    pub request_id: String,
    /// The worker.
    pub worker_id: Option<u64>,
    /// How many tokens came in.
    pub isl_tokens: usize,
    /// From its coming to the choice of the worker.
    pub select_ms: u64,
    /// From the choice to the sending.
    pub dispatch_gap_ms: u64,
    /// From the sending to the first answer, where there was one.
    pub prefill_first_ms: Option<u64>,
    /// From the sending to the end.
    pub prefill_total_ms: u64,
}

impl PrefillTrace {
    /// When the request was sent: when the worker was chosen, where the sending
    /// was not noted.
    pub open spec fn sent(self) -> Instant {
        match self.dispatched {
            Some(at) => at,
            None => self.selected,
        }
    }

    /// A trace of a request that has just come; nothing where requests are not
    /// traced.
    pub fn new(enabled: bool, request_id: &str, isl_tokens: usize, arrival: Instant) -> (res: Option<
        Self,
    >)
        ensures
            res is Some <==> enabled,
            res matches Some(t) ==> {
                &&& t.request_id@ == request_id@
                &&& t.worker_id is None
                &&& t.isl_tokens == isl_tokens
                &&& t.arrival == arrival
                &&& t.selected == arrival
                &&& t.dispatched is None
                &&& t.first_response is None
            },
    {
        if !enabled {
            return None;
        }
        Some(
            PrefillTrace {
                request_id: owned(request_id),
                worker_id: None,
                isl_tokens,
                arrival,
                selected: arrival,
                dispatched: None,
                first_response: None,
            },
        )
    }

    /// Notes the worker that was chosen at `now`.
    pub fn mark_selected(&mut self, worker_id: Option<u64>, now: Instant)
        ensures
            *final(self) == (PrefillTrace { selected: now, worker_id, ..*old(self) }),
    {
        self.selected = now;
        self.worker_id = worker_id;
    }

    /// Notes that the request is sent at `now`.
    pub fn mark_dispatched(&mut self, now: Instant)
        ensures
            *final(self) == (PrefillTrace { dispatched: Some(now), ..*old(self) }),
    {
        self.dispatched = Some(now);
    }

    /// Notes the first answer at `now`; later ones change nothing.
    pub fn mark_first_response(&mut self, now: Instant)
        ensures
            *final(self) == if old(self).first_response is None {
                PrefillTrace { first_response: Some(now), ..*old(self) }
            } else {
                *old(self)
            },
    {
        if self.first_response.is_none() {
            self.first_response = Some(now);
        }
    }

    /// Where the request, which ends at `end`, spent its time.
    pub fn emit(self, end: Instant) -> (res: PrefillSummary)
        ensures
            res.request_id@ == self.request_id@,
            res.worker_id == self.worker_id,
            res.isl_tokens == self.isl_tokens,
            res.select_ms == millis_between(self.arrival, self.selected),
            res.dispatch_gap_ms == millis_between(self.selected, self.sent()),
            res.prefill_first_ms == (match self.first_response {
                Some(at) => Some(millis_between(self.sent(), at)),
                None => None,
            }),
            res.prefill_total_ms == millis_between(self.sent(), end),
    {
        let dispatched = match self.dispatched {
            Some(at) => at,
            None => self.selected,
        };
        let prefill_first_ms: Option<u64> = match self.first_response {
            Some(at) => Some(at.millis_since(dispatched)),
            None => None,
        };
        PrefillSummary {
            request_id: self.request_id,
            worker_id: self.worker_id,
            isl_tokens: self.isl_tokens,
            select_ms: self.selected.millis_since(self.arrival),
            dispatch_gap_ms: dispatched.millis_since(self.selected),
            prefill_first_ms,
            prefill_total_ms: end.millis_since(dispatched),
        }
    }
}

} // verus!
