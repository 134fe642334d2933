//! Moves attachments from a reference library into a document-embedding workspace.
//!
//! The library holds the decisions of that pipeline: which items of the
//! reference library are eligible, how the paged listing of a collection is
//! driven, how uploads are scheduled under a concurrency ceiling, how their
//! outcomes are split into successes and failures, when a batch is committed
//! for embedding, and what the failure log holds. The network calls
//! themselves are made by the caller, which feeds their results back in.

mod text;

pub mod collection;
pub mod config;
pub mod document;
pub mod embed;
pub mod enhance;
pub mod error;
pub mod item;
pub mod lookup;
pub mod naming;
pub mod outcome;
pub mod paginator;
pub mod report;
pub mod scheduler;
pub mod workspace;
