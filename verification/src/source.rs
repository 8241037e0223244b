//! Sources and their generator plugins.
//!
//! A source groups the workers registered under one URL-path prefix.
//! A generator plugin contributes a fixed resource path and a query
//! normalizer; the generation step itself runs outside the library and
//! reaches the worker as an event.

use vstd::prelude::*;
use vstd::string::*;

use crate::errors::QueryError;
use crate::identity::normalized;
use crate::key::CanonicalKey;
use crate::worker::FeedWorker;

verus! {

/// The contract a feed-generator plugin satisfies towards the worker:
/// a fixed resource path and a query-string normalizer, each pinned
/// per implementation by an associated spec function.
pub trait FeedGenerator {
    /// The plugin's fixed resource path, as a mathematical value.
    spec fn spec_path() -> Seq<char>;

    /// What the plugin's normalizer decides for a raw query string:
    /// the parameter pairs of the canonical key, or the error kind.
    spec fn spec_clean(raw: Seq<char>) -> Result<Seq<(Seq<char>, Seq<char>)>, QueryError>;

    /// The plugin's fixed resource path.
    fn resource_path() -> (p: String)
        ensures
            p@ == Self::spec_path(),
    ;

    /// Normalizes a raw query string into the plugin's canonical key,
    /// exactly as [`Self::spec_clean`] decides.
    fn clean_query_string(raw: &str) -> (r: Result<CanonicalKey, QueryError>)
        ensures
            match Self::spec_clean(raw@) {
                Ok(ps) => r matches Ok(k) && k.wf() && k.pair_views() == ps,
                Err(e) => r matches Err(e2) && e2 == e,
            },
    ;
}

/// A registered source: a URL-path prefix and the workers serving its
/// resources.
pub struct Source {
    pub prefix: String,
    pub workers: Vec<FeedWorker>,
}

impl Source {
    /// Every registered worker carries this source's normalized prefix.
    pub open spec fn wf(&self) -> bool {
        forall|i: int|
            0 <= i < self.workers@.len() ==> (#[trigger] self.workers@[i]).prefix@ == normalized(
                self.prefix@,
            )
    }

    /// A source with no workers yet.
    pub fn new(prefix: &str) -> (s: Source)
        ensures
            s.prefix@ == prefix@,
            s.workers@.len() == 0,
            s.wf(),
    {
        Source { prefix: String::from_str(prefix), workers: Vec::new() }
    }

    /// Registers one generator plugin: appends a worker built from
    /// this source's prefix and the plugin's resource path.
    pub fn register<T: FeedGenerator>(self, generator: T) -> (s: Source)
        ensures
            s.prefix@ == self.prefix@,
            s.workers@.len() == self.workers@.len() + 1,
            forall|i: int| 0 <= i < self.workers@.len() ==> s.workers@[i] == self.workers@[i],
            s.workers@[self.workers@.len() as int].prefix@ == normalized(self.prefix@),
            s.workers@[self.workers@.len() as int].path@ == normalized(T::spec_path()),
            self.wf() ==> s.wf(),
    {
        let worker = FeedWorker::new(&self, generator);
        let mut s = self;
        s.workers.push(worker);
        s
    }
}

/// A type that knows how to assemble one fully registered source.
/// The associated spec functions pin, per implementation, which
/// source it builds: its prefix and its workers' resource paths, in
/// registration order.
pub trait SourceBuilder {
    /// The raw prefix the built source carries.
    spec fn spec_prefix() -> Seq<char>;

    /// The raw resource paths of the registered workers, in order.
    spec fn spec_paths() -> Seq<Seq<char>>;

    /// Builds the source: the prefix of [`Self::spec_prefix`], and one
    /// worker per entry of [`Self::spec_paths`], each normalized.
    fn build_source() -> (s: Source)
        ensures
            s.wf(),
            s.prefix@ == Self::spec_prefix(),
            s.workers@.len() == Self::spec_paths().len(),
            forall|i: int|
                0 <= i < s.workers@.len() ==> (#[trigger] s.workers@[i]).prefix@ == normalized(
                    Self::spec_prefix(),
                ) && s.workers@[i].path@ == normalized(Self::spec_paths()[i]),
    ;
}

} // verus!
