//! Traces of how requests are routed.

pub mod affinity_trace;
pub mod prefill_trace;
pub mod routing_laws;
