//! Bringing media in from a download tool: sorting what the tool left
//! behind, committing it, and the states of the worker that does so.

pub mod classify;
pub mod ingest;
pub mod worker;
