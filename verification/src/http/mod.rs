//! What is read from the headers of a request.

pub mod session;
