//! An event-driven finite-state-machine execution engine, together with a
//! small diagram parser and a scaffold generator for programs built on it.
//!
//! The engine consumes events from a bounded channel, computes state
//! transitions through user-registered handlers, threads a shared context
//! through every dispatch, and broadcasts each processed state to
//! independent subscribers.

pub mod channel;
pub mod kv;
pub mod machine;
pub mod render;
pub mod uml;
