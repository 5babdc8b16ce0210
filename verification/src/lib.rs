//! A dashboard core for open pull requests and pending review requests:
//! search-result aggregation and deduplication, a turn-classification
//! decision tree with an auditable trace, a review-state summarizer,
//! fail-fast collection of enriched items, sorting, and timestamp
//! rendering.

use vstd::prelude::*;

pub mod aggregate;
pub mod classify;
pub mod config;
pub mod enrich;
pub mod errors;
pub mod strutil;
pub mod summary;
pub mod timefmt;
pub mod types;
pub mod urls;

verus! {

} // verus!
