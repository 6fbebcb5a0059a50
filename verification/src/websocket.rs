//! WebSocket traffic of realtime sessions: frames, usage, and guardrails.

pub mod accumulator;
pub mod frames;
pub mod laws;
pub mod realtime;
pub mod usage;
