//! The Responses API: its events and objects, and how a stream of chat
//! completion chunks becomes a stream of its events.

pub mod converter_laws;
pub mod events;
pub mod stream_converter;
pub mod stream_laws;
