//! A small task tracker: an in-memory store of tasks, the text analysis that
//! turns a completion service's answer into a priority and a time estimate,
//! and the decisions of the request handlers built on both.

pub mod enrichment;
pub mod handlers;
pub mod ident;
pub mod json;
pub mod store;
pub mod task;
pub mod text;
