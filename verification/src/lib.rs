//! A bounded, polite crawl-and-search library.
//!
//! The crawler is a step machine: callers ask it for the next action
//! (fetch a robots file, wait, fetch a page), perform the action, and
//! hand the outcome back as an event.  Every decision the machine makes
//! is verified: depth and page caps, per-domain robots caching,
//! same-domain scoping, content-type filtering and deduplication.
//! Fetched pages flow into an inverted full-text index and are answered
//! back out through a small request/response facade.

use vstd::prelude::*;

pub mod config;
pub mod content;
pub mod crawly;
pub mod indexer;
pub mod robots;
pub mod rpc;
pub mod search_engine;
pub mod text;
pub mod urlparse;

verus! {

} // verus!
