//! Tracking of bounty-funded issues across repositories: ingestion of tracker
//! activity in time windows, staging, consolidation into master records,
//! aggregation of budgets, enrichment with summaries, semantic indexing and
//! exactly-once-effective notifications.
//!
//! - [`window`]: the window of a run and its tracker queries.
//! - [`tracker`]: staged events from tracker items; budgets named in issues.
//! - [`staging`]: the staging store, keyed by natural id, coalescing updates.
//! - [`merge`]: the consolidation engine and its per-field merge policies.
//! - [`aggregate`]: project records recomputed from the issue records.
//! - [`review`]: budget approval, decline and conclusion of an issue.
//! - [`enrich`]: prompts for the language model and the reading of its replies.
//! - [`pattern`]: regular-expression matching through the `regex` crate.
//! - [`search`]: summary records, the indexing flag, similarity filtering.
//! - [`notify`]: which comments are due, and the ledger that posts each once.
//! - [`run`]: paging, the run lease, retries and the access token.
use vstd::prelude::*;

pub mod aggregate;
pub mod enrich;
pub mod events;
pub mod merge;
pub mod notify;
pub mod pattern;
pub mod records;
pub mod review;
pub mod run;
pub mod search;
pub mod staging;
pub mod text;
pub mod tracker;
pub mod window;

verus! {

} // verus!
