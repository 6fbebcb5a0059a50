//! External processing of HTTP exchanges (`ext_proc`).
//!
//! A gateway hands the headers and bodies of an exchange to an external service and applies what
//! the service answers. The modules below hold the decisions of that protocol: which modes are in
//! force, what is sent next, and what each answer does to the exchange. The connection itself is
//! driven by the caller, which performs each action and hands back what came of it.

pub mod flow;
pub mod headers;
pub mod inference;
pub mod instance;
pub mod laws;
pub mod messages;
pub mod modes;
pub mod request;
pub mod response;
pub mod step_laws;
