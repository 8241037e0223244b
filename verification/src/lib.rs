//! A freshness-bounded cache in front of on-demand syndication feeds.
//!
//! The crate's core is the feed worker: it normalizes an inbound request
//! into a canonical lookup key, consults a cache keyed by source identity
//! and canonical key, invokes a generator on a miss, persists the result,
//! and shapes the response. Everything here is plain data and decisions;
//! the HTTP binding, the concrete feed generators and their upstream
//! fetching live outside the library.

pub mod config;
pub mod crates_io;
pub mod errors;
pub mod feed;
pub mod identity;
pub mod key;
pub mod laws;
pub mod source;
pub mod store;
pub mod worker;
