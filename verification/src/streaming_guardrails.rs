//! Guardrails on streamed responses.
//!
//! The frames of a response are held back while the text in them is gathered into a batch. Once
//! the batch is large enough, or the stream ends, the guardrails look at a window: the end of the
//! text that was looked at before, followed by the batch. A window that passes lets the held
//! frames go; one that is blocked discards them, and an error event ends the response.

pub mod body;
pub mod evaluators;
pub mod laws;
pub mod window;
