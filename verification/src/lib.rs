//! Verified core of a stateful responses service.

pub mod clock;
pub mod discovery;
pub mod http;
pub mod ids;
pub mod json;
pub mod metrics;
pub mod responses;
pub mod routing;
pub mod storage;
pub mod text;
pub mod text_laws;
pub mod time;
pub mod value_laws;
