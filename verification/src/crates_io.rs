//! The crates.io source and its crate-versions generator plugin.
//!
//! The plugin contributes the resource path and the query normalizer;
//! fetching version data from the upstream registry is I/O and runs
//! outside the library.

use vstd::prelude::*;
use vstd::string::*;

use crate::errors::QueryError;
use crate::key::{parse_query_string, spec_parse_query, CanonicalKey};
use crate::source::{FeedGenerator, Source, SourceBuilder};

verus! {

/// The crates.io source: one worker serving crate-version feeds.
pub struct CratesIoSource;

/// Serves a feed of a crate's published versions.
pub struct CrateVersionsGenerator;

impl FeedGenerator for CrateVersionsGenerator {
    open spec fn spec_path() -> Seq<char> {
        "crates/versions"@
    }

    open spec fn spec_clean(raw: Seq<char>) -> Result<Seq<(Seq<char>, Seq<char>)>, QueryError> {
        match spec_parse_query(raw) {
            Some(ps) => Ok(ps),
            None => Err(QueryError::Parse),
        }
    }

    fn resource_path() -> (p: String) {
        String::from_str("crates/versions")
    }

    fn clean_query_string(raw: &str) -> (r: Result<CanonicalKey, QueryError>) {
        parse_query_string(raw)
    }
}

impl SourceBuilder for CratesIoSource {
    open spec fn spec_prefix() -> Seq<char> {
        "crates-io"@
    }

    open spec fn spec_paths() -> Seq<Seq<char>> {
        seq![CrateVersionsGenerator::spec_path()]
    }

    fn build_source() -> (s: Source) {
        Source::new("crates-io").register(CrateVersionsGenerator)
    }
}

} // verus!
