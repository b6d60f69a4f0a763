//! Storage for the stateful Responses API.
//!
//! Isolation: the tenant is a hard boundary, and access across tenants is
//! always denied. The session is metadata within a tenant; reads across
//! sessions are allowed.

pub mod config;
pub mod list_laws;
pub mod manager;
pub mod records;
pub mod redis_laws;
pub mod redis_lock;
pub mod redis_storage;
pub mod response_storage;
pub mod session_lock;
pub mod settings_laws;
pub mod storage_laws;
pub mod trace_laws;
pub mod trace_replay;
