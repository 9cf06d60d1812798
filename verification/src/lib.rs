//! A verified aggregation and query engine for token-usage logs.
//!
//! The library ingests line-delimited JSON usage records (one per assistant
//! interaction), derives token and cost metrics per event, rolls them up into
//! per-day, per-month, per-model and per-project buckets, and offers a query
//! layer that filters, sorts and paginates the finished views.
//!
//! Costs are held as exact integer nanodollars during accumulation and are
//! rendered as fixed four-decimal-place strings at the view-building stage.
//! All reading of directories and files, the HTTP surface and serialization
//! live outside this crate; the library works on plain in-memory values.

use vstd::prelude::*;

pub mod aggregate;
pub mod batch;
pub mod laws;
pub mod models;
pub mod numbers;
pub mod parse;
pub mod query;
pub mod sorting;
pub mod text;
pub mod views;

verus! {

/// Runtime configuration handed in by the embedding program: the root
/// directory that holds one subdirectory per project, and the port that a
/// serving front end listens on.
pub struct Config {
    pub projects_path: String,
    pub port: u16,
}

} // verus!
