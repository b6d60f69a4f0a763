//! The models that are served, the sets of workers that serve them, and what
//! is known of each.

pub mod endpoints;
pub mod manager_laws;
pub mod model;
pub mod model_laws;
pub mod model_manager;
pub mod registry;
pub mod worker_set;
