//! Verified core of an AI gateway.
//!
//! The modules hold what the gateway decides and computes; sockets, timers, databases and wire
//! formats stand around them.

pub mod bufferbody;
pub mod byte_buffers;
pub mod cel_helpers;
pub mod config_store;
pub mod database;
pub mod delay;
pub mod ext_proc;
pub mod idle_timeout;
pub mod json;
pub mod metadata_context;
pub mod network_ext_proc;
pub mod network_ext_proc_mock;
pub mod sse;
pub mod streaming_guardrails;
pub mod substrate;
pub mod text;
pub mod websocket;
