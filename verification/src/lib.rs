//! Document ingestion for a full-text index.
//!
//! Documents come from sources: the files of a directory tree, the clones
//! of git repositories, a fixed list. A source yields a sequence of
//! documents that a failure ends. The sequence is regrouped into batches,
//! and the driver hands each batch to the index engine.
//!
//! This crate holds the rules of that pipeline: which file takes part, what
//! the document of a file is, how a sequence is batched, where a failure
//! stops it, and what becomes of a configuration. Reading files, cloning
//! repositories, asking servers and running the engine are left to the
//! caller, who hands in what they gave.

pub mod batching;
pub mod cli;
pub mod config;
pub mod driver;
pub mod error;
pub mod json;
pub mod model;
pub mod pattern;
pub mod search;
pub mod sequence;
pub mod sources;
pub mod streams;
