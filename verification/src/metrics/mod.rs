//! The metrics that are exported: what they are called, what they say, and
//! where their buckets end.

pub mod descriptor;
pub mod metrics_laws;
pub mod request_plane;
pub mod scheduling;
