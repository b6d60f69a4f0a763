//! Trace of how sessions stay with their workers.
//!
//! It is off unless a setting turns it on, and can be kept to the sessions
//! whose identifiers start with a given text.

use crate::text;
use crate::text::{ascii_lower_is, has_prefix, owned, trim};
use vstd::prelude::*;

verus! {

/// The setting that turns the trace on.
pub const TRACE_ENV: &'static str = "DYN_ROUTER_SESSION_AFFINITY_TRACE";

/// The setting that keeps the trace to some sessions.
pub const TRACE_PREFIX_ENV: &'static str = "DYN_ROUTER_SESSION_AFFINITY_TRACE_PREFIX";

/// Which sessions are traced.
#[derive(Debug, PartialEq, Eq)]
pub struct TraceConfig {
    /// Whether any is.
    pub enabled: bool,
    /// What their identifiers start with, where only some are.
    pub session_prefix: Option<String>,
}

/// Whether a setting turns the trace on: without the white space around it and
/// whatever its case, it is `1`, `true`, `on` or `yes`.
pub open spec fn turns_on(value: Option<Seq<char>>) -> bool {
    value matches Some(s) && {
        let word = text::ascii_lower(text::trimmed(s));
        word == "1"@ || word == "true"@ || word == "on"@ || word == "yes"@
    }
}

/// The characters of an optional text.
pub open spec fn opt_chars(s: Option<&str>) -> Option<Seq<char>> {
    match s {
        Some(t) => Some(t@),
        None => None,
    }
}

/// Whether a setting turns the trace on.
pub fn parse_enabled(value: Option<&str>) -> (res: bool)
    ensures
        res == turns_on(opt_chars(value)),
{
    match value {
        Some(s) => {
            let word = trim(s);
            ascii_lower_is(word.as_str(), "1") || ascii_lower_is(word.as_str(), "true")
                || ascii_lower_is(word.as_str(), "on") || ascii_lower_is(word.as_str(), "yes")
        },
        None => false,
    }
}

/// What the identifiers of traced sessions start with: the setting without the
/// white space around it, unless nothing is left.
pub open spec fn prefix_setting(value: Option<Seq<char>>) -> Option<Seq<char>> {
    match value {
        Some(s) => if text::trimmed(s).len() > 0 {
            Some(text::trimmed(s))
        } else {
            None
        },
        None => None,
    }
}

impl TraceConfig {
    /// What the identifiers of traced sessions start with.
    pub open spec fn prefix(self) -> Option<Seq<char>> {
        match self.session_prefix {
            Some(p) => Some(p@),
            None => None,
        }
    }

    /// Whether a session is traced.
    pub open spec fn traces(self, session_id: Seq<char>) -> bool {
        &&& self.enabled
        &&& self.prefix() matches Some(p) ==> text::starts_with(session_id, p)
    }

    /// What is shown as the prefix.
    pub open spec fn shown_prefix(self) -> Seq<char> {
        match self.prefix() {
            Some(p) => p,
            None => ""@,
        }
    }

    /// The configuration that settings spell out.
    pub fn from_values(enabled: Option<&str>, session_prefix: Option<&str>) -> (res: Self)
        ensures
            res.enabled == turns_on(opt_chars(enabled)),
            res.prefix() == prefix_setting(opt_chars(session_prefix)),
    {
        let session_prefix = match session_prefix {
            Some(s) => {
                if text::is_blank(s) {
                    None
                } else {
                    Some(trim(s))
                }
            },
            None => None,
        };
        TraceConfig { enabled: parse_enabled(enabled), session_prefix }
    }

    /// Whether a session is traced.
    pub fn matches(&self, session_id: &str) -> (res: bool)
        ensures
            res == self.traces(session_id@),
    {
        self.enabled && match &self.session_prefix {
            Some(prefix) => has_prefix(session_id, prefix.as_str()),
            None => true,
        }
    }

    fn trace_prefix(&self) -> (res: String)
        ensures
            res@ == self.shown_prefix(),
    {
        match &self.session_prefix {
            Some(prefix) => prefix.clone(),
            None => owned(""),
        }
    }
}

/// Where a session is sent.
#[derive(Debug, Clone, Copy, PartialEq, Eq, Structural)]
pub struct AffinityTarget {
    /// The worker.
    pub worker_id: u64,
    /// The rank within the worker, where one is chosen.
    pub dp_rank: Option<u32>,
}

impl AffinityTarget {
    /// The rank, or minus one where none is chosen.
    pub open spec fn rank(self) -> int {
        match self.dp_rank {
            Some(r) => r as int,
            None => -1,
        }
    }

    fn shown_rank(&self) -> (res: i64)
        ensures
            res == self.rank(),
            res >= 0 <==> self.dp_rank is Some,
    {
        match self.dp_rank {
            Some(r) => r as i64,
            None => -1,
        }
    }
}

/// Which part of a request is routed.
#[derive(Debug, Clone, Copy, PartialEq, Eq, Structural)]
pub enum RequestPhase {
    /// The prompt is read.
    Prefill,
    /// Text is generated.
    Decode,
    /// Both.
    Aggregated,
}

impl RequestPhase {
    /// What a worker is to the phase.
    pub open spec fn role_text(self) -> Seq<char> {
        match self {
            RequestPhase::Prefill => "context"@,
            RequestPhase::Decode => "generation"@,
            RequestPhase::Aggregated => "aggregated"@,
        }
    }

    /// What a worker is to the phase.
    pub fn role(&self) -> (res: &'static str)
        ensures
            res@ == self.role_text(),
    {
        match self {
            RequestPhase::Prefill => "context",
            RequestPhase::Decode => "generation",
            RequestPhase::Aggregated => "aggregated",
        }
    }
}

/// How often each event has been traced.
#[derive(Debug, Clone, Copy, PartialEq, Eq, Structural)]
pub struct AffinityCounts {
    /// Sessions that were set up.
    pub initialize: u64,
    /// Sessions that were bound to a worker.
    pub commit: u64,
    /// Requests that used the worker their session is bound to.
    pub bound_reuse: u64,
    /// Requests that were sent to that worker.
    pub bound_dispatch: u64,
    /// Sessions that were bound anew because their worker could not be used.
    pub fallback_rebind: u64,
}

/// The trace: which sessions, and how often each event.
#[derive(Debug, PartialEq, Eq)]
pub struct AffinityTrace {
    /// Which sessions are traced.
    pub config: TraceConfig,
    /// How often each event has been traced.
    pub counts: AffinityCounts,
}

/// That a session was set up.
#[derive(Debug, PartialEq, Eq)]
pub struct InitializeRecord {
    /// The session.
    pub session_id: String,
    /// The revision of its binding.
    pub revision: u64,
    /// Why.
    pub reason: String,
    /// What traced sessions start with.
    pub trace_prefix: String,
    /// Whether a worker was asked for.
    pub requested_worker_bound: bool,
    /// The worker, or zero.
    pub requested_worker_id: u64,
    /// Whether a rank was asked for.
    pub requested_dp_rank_bound: bool,
    /// The rank, or minus one.
    pub requested_dp_rank: i64,
    /// How many of these there were, with this one.
    pub initialize_count: u64,
    /// How many sessions were bound anew.
    pub fallback_rebind_count: u64,
}

/// What the other events have in common.
#[derive(Debug, PartialEq, Eq)]
pub struct TargetRecord {
    /// The session.
    pub session_id: String,
    /// The revision of its binding.
    pub revision: u64,
    /// What traced sessions start with.
    pub trace_prefix: String,
    /// The worker.
    pub worker_id: u64,
    /// Whether a rank is chosen.
    pub dp_rank_bound: bool,
    /// The rank, or minus one.
    pub dp_rank: i64,
    /// How many of these there were, with this one.
    pub count: u64,
    /// How many sessions were bound anew, with this one where it is that.
    pub fallback_rebind_count: u64,
}

/// That a request used the worker its session is bound to.
#[derive(Debug, PartialEq, Eq)]
pub struct BoundReuseRecord {
    /// Which session and worker.
    pub target: TargetRecord,
    /// How many requests use the binding.
    pub active_leases: usize,
}

/// That a request was sent to the worker its session is bound to.
#[derive(Debug, PartialEq, Eq)]
pub struct BoundDispatchRecord {
    /// Which session and worker.
    pub target: TargetRecord,
    /// How the binding was come by.
    pub acquisition_kind: String,
    /// Which part of the request.
    pub phase: RequestPhase,
    /// What the worker is to that part.
    pub role: &'static str,
}

/// Counts one more, and gives the new count.
pub fn next(counter: &mut u64) -> (res: u64)
    requires
        *old(counter) < u64::MAX,
    ensures
        res == *old(counter) + 1,
        *final(counter) == res,
{
    *counter = *counter + 1;
    *counter
}

impl TargetRecord {
    /// Whether the record tells of the given session and target.
    pub open spec fn tells(
        self,
        config: TraceConfig,
        session_id: Seq<char>,
        revision: u64,
        target: AffinityTarget,
        count: int,
        rebinds: int,
    ) -> bool {
        &&& self.session_id@ == session_id
        &&& self.revision == revision
        &&& self.trace_prefix@ == config.shown_prefix()
        &&& self.worker_id == target.worker_id
        &&& self.dp_rank_bound == target.dp_rank is Some
        &&& self.dp_rank == target.rank()
        &&& self.count == count
        &&& self.fallback_rebind_count == rebinds
    }
}

impl AffinityTrace {
    /// A trace in which nothing has been counted.
    pub fn new(config: TraceConfig) -> (res: Self)
        ensures
            res.config == config,
            res.counts == (AffinityCounts {
                initialize: 0,
                commit: 0,
                bound_reuse: 0,
                bound_dispatch: 0,
                fallback_rebind: 0,
            }),
    {
        AffinityTrace {
            config,
            counts: AffinityCounts {
                initialize: 0,
                commit: 0,
                bound_reuse: 0,
                bound_dispatch: 0,
                fallback_rebind: 0,
            },
        }
    }

    /// How many sessions were bound anew.
    pub fn fallback_rebind_count(&self) -> (res: u64)
        ensures
            res == self.counts.fallback_rebind,
    {
        self.counts.fallback_rebind
    }

    fn record(&self, session_id: &str, revision: u64, target: AffinityTarget, count: u64) -> (res:
        TargetRecord)
        ensures
            res.tells(
                self.config,
                session_id@,
                revision,
                target,
                count as int,
                self.counts.fallback_rebind as int,
            ),
    {
        let dp_rank: i64 = target.shown_rank();
        TargetRecord {
            session_id: owned(session_id),
            revision,
            trace_prefix: self.config.trace_prefix(),
            worker_id: target.worker_id,
            dp_rank_bound: dp_rank >= 0,
            dp_rank,
            count,
            fallback_rebind_count: self.fallback_rebind_count(),
        }
    }

    /// A session is set up. Nothing is recorded or counted for a session that
    /// is not traced.
    pub fn initialize(
        &mut self,
        session_id: &str,
        revision: u64,
        requested_target: Option<AffinityTarget>,
        reason: &str,
    ) -> (res: Option<InitializeRecord>)
        requires
            old(self).counts.initialize < u64::MAX,
        ensures
            final(self).config == old(self).config,
            res is Some <==> old(self).config.traces(session_id@),
            res is None ==> final(self).counts == old(self).counts,
            res matches Some(r) ==> {
                let count = old(self).counts.initialize + 1;
                &&& final(self).counts == (AffinityCounts {
                    initialize: count as u64,
                    ..old(self).counts
                })
                &&& r.session_id@ == session_id@
                &&& r.revision == revision
                &&& r.reason@ == reason@
                &&& r.trace_prefix@ == old(self).config.shown_prefix()
                &&& r.requested_worker_bound == requested_target is Some
                &&& r.requested_worker_id == (match requested_target {
                    Some(t) => t.worker_id,
                    None => 0,
                })
                &&& r.requested_dp_rank == (match requested_target {
                    Some(t) => t.rank(),
                    None => -1,
                })
                &&& r.requested_dp_rank_bound == (r.requested_dp_rank >= 0)
                &&& r.initialize_count == count
                &&& r.fallback_rebind_count == old(self).counts.fallback_rebind
            },
    {
        if !self.config.matches(session_id) {
            return None;
        }
        let requested_worker_id: u64 = match requested_target {
            Some(t) => t.worker_id,
            None => 0,
        };
        let requested_dp_rank: i64 = match requested_target {
            Some(t) => t.shown_rank(),
            None => -1,
        };
        let initialize_count: u64 = next(&mut self.counts.initialize);
        Some(
            InitializeRecord {
                session_id: owned(session_id),
                revision,
                reason: owned(reason),
                trace_prefix: self.config.trace_prefix(),
                requested_worker_bound: requested_target.is_some(),
                requested_worker_id,
                requested_dp_rank_bound: requested_dp_rank >= 0,
                requested_dp_rank,
                initialize_count,
                fallback_rebind_count: self.fallback_rebind_count(),
            },
        )
    }

    /// A session is bound to a worker.
    pub fn commit(&mut self, session_id: &str, revision: u64, target: AffinityTarget) -> (res:
        Option<TargetRecord>)
        requires
            old(self).counts.commit < u64::MAX,
        ensures
            final(self).config == old(self).config,
            res is Some <==> old(self).config.traces(session_id@),
            res is None ==> final(self).counts == old(self).counts,
            res matches Some(r) ==> {
                let count = old(self).counts.commit + 1;
                &&& final(self).counts == (AffinityCounts {
                    commit: count as u64,
                    ..old(self).counts
                })
                &&& r.tells(
                    old(self).config,
                    session_id@,
                    revision,
                    target,
                    count,
                    old(self).counts.fallback_rebind as int,
                )
            },
    {
        if !self.config.matches(session_id) {
            return None;
        }
        let count: u64 = next(&mut self.counts.commit);
        Some(self.record(session_id, revision, target, count))
    }

    /// A request uses the worker its session is bound to.
    pub fn bound_reuse(
        &mut self,
        session_id: &str,
        revision: u64,
        target: AffinityTarget,
        active_leases: usize,
    ) -> (res: Option<BoundReuseRecord>)
        requires
            old(self).counts.bound_reuse < u64::MAX,
        ensures
            final(self).config == old(self).config,
            res is Some <==> old(self).config.traces(session_id@),
            res is None ==> final(self).counts == old(self).counts,
            res matches Some(r) ==> {
                let count = old(self).counts.bound_reuse + 1;
                &&& final(self).counts == (AffinityCounts {
                    bound_reuse: count as u64,
                    ..old(self).counts
                })
                &&& r.target.tells(
                    old(self).config,
                    session_id@,
                    revision,
                    target,
                    count,
                    old(self).counts.fallback_rebind as int,
                )
                &&& r.active_leases == active_leases
            },
    {
        if !self.config.matches(session_id) {
            return None;
        }
        let count: u64 = next(&mut self.counts.bound_reuse);
        Some(
            BoundReuseRecord {
                target: self.record(session_id, revision, target, count),
                active_leases,
            },
        )
    }

    /// A request is sent to the worker its session is bound to.
    pub fn bound_dispatch(
        &mut self,
        session_id: &str,
        revision: u64,
        target: AffinityTarget,
        phase: RequestPhase,
        acquisition_kind: &str,
    ) -> (res: Option<BoundDispatchRecord>)
        requires
            old(self).counts.bound_dispatch < u64::MAX,
        ensures
            final(self).config == old(self).config,
            res is Some <==> old(self).config.traces(session_id@),
            res is None ==> final(self).counts == old(self).counts,
            res matches Some(r) ==> {
                let count = old(self).counts.bound_dispatch + 1;
                &&& final(self).counts == (AffinityCounts {
                    bound_dispatch: count as u64,
                    ..old(self).counts
                })
                &&& r.target.tells(
                    old(self).config,
                    session_id@,
                    revision,
                    target,
                    count,
                    old(self).counts.fallback_rebind as int,
                )
                &&& r.acquisition_kind@ == acquisition_kind@
                &&& r.phase == phase
                &&& r.role@ == phase.role_text()
            },
    {
        if !self.config.matches(session_id) {
            return None;
        }
        let count: u64 = next(&mut self.counts.bound_dispatch);
        Some(
            BoundDispatchRecord {
                target: self.record(session_id, revision, target, count),
                acquisition_kind: owned(acquisition_kind),
                phase,
                role: phase.role(),
            },
        )
    }

    /// A session is bound anew because its worker could not be used.
    pub fn bound_target_fallback_rebind(
        &mut self,
        session_id: &str,
        revision: u64,
        target: AffinityTarget,
    ) -> (res: Option<TargetRecord>)
        requires
            old(self).counts.fallback_rebind < u64::MAX,
        ensures
            final(self).config == old(self).config,
            res is Some <==> old(self).config.traces(session_id@),
            res is None ==> final(self).counts == old(self).counts,
            res matches Some(r) ==> {
                let count = old(self).counts.fallback_rebind + 1;
                &&& final(self).counts == (AffinityCounts {
                    fallback_rebind: count as u64,
                    ..old(self).counts
                })
                &&& r.tells(old(self).config, session_id@, revision, target, count, count)
            },
    {
        if !self.config.matches(session_id) {
            return None;
        }
        let count: u64 = next(&mut self.counts.fallback_rebind);
        Some(self.record(session_id, revision, target, count))
    }
}

/// The trace is off unless it is turned on: without that setting no session is
/// traced, whatever the prefix.
pub proof fn off_unless_turned_on(config: TraceConfig, session_id: Seq<char>)
    requires
        config.enabled == turns_on(None),
    ensures
        !config.traces(session_id),
{
}

} // verus!
