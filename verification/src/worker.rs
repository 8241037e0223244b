//! The feed worker: one registered (source, resource) pair.
//!
//! A request passes through a linear machine: parse the query string,
//! consult the cache unless the process runs in dev mode, and on a
//! miss hand out the canonical key for generation; the generated feed
//! is stamped with the provenance marker, written through to the store
//! best-effort, and returned. The two halves are [`FeedWorker::begin_request`]
//! and [`FeedWorker::finish_request`]; the caller performs the
//! generation in between, so a fresh hit provably never invokes the
//! generator. [`FeedWorker::handle_request`] composes the two for a
//! caller that supplies the generation outcome up front.

use vstd::prelude::*;

use crate::config::ServeMode;
use crate::errors::{GenerationError, QueryError, StoreError};
use crate::feed::{stamp_provenance, stamped, Feed, FeedView};
use crate::identity::{normalize_identity, normalized};
use crate::key::CanonicalKey;
use crate::source::{FeedGenerator, Source};
use crate::store::{put_rel, spec_lookup, CacheStore};

verus! {

/// The four response shapes a request can end in.
#[derive(Debug, PartialEq, Eq)]
pub enum Response {
    ParseFailure,
    UnexpectedError,
    CacheHit(Feed),
    FreshlyGenerated(Feed),
}

/// Mathematical value of a [`Response`].
pub enum ResponseSpec {
    ParseFailure,
    UnexpectedError,
    CacheHit(FeedView),
    FreshlyGenerated(FeedView),
}

/// The response carries exactly this mathematical value.
pub open spec fn response_matches(r: Response, s: ResponseSpec) -> bool {
    match r {
        Response::ParseFailure => s is ParseFailure,
        Response::UnexpectedError => s is UnexpectedError,
        Response::CacheHit(f) => s matches ResponseSpec::CacheHit(fv) && f@ == fv,
        Response::FreshlyGenerated(f) => s matches ResponseSpec::FreshlyGenerated(fv) && f@
            == fv,
    }
}

/// What a cache read decides: a store failure, a fresh hit carrying
/// the stored content, or a miss. A stale row is a miss.
pub enum CacheDecision {
    Failed(StoreError),
    Hit(FeedView),
    Miss,
}

/// A row is fresh while its age has not exceeded the cache duration;
/// it turns stale strictly after `cache_duration` elapsed.
pub open spec fn spec_fresh(now: u64, updated: u64, cache_duration: u64) -> bool {
    now - updated <= cache_duration
}

/// The outcome of a cache read for this identity and key: unavailable
/// stores and rows from the future fail, a fresh row is a hit, and a
/// missing or stale row is a miss.
pub open spec fn spec_get_cache(
    store: CacheStore,
    p: Seq<char>,
    q: Seq<char>,
    k: Map<Seq<char>, Seq<char>>,
    now: u64,
    cache_duration: u64,
) -> CacheDecision {
    if !store.available {
        CacheDecision::Failed(StoreError::Connectivity)
    } else {
        match spec_lookup(store.entries@, p, q, k) {
            None => CacheDecision::Miss,
            Some(e) => if e.updated_timestamp > now {
                CacheDecision::Failed(StoreError::FutureTimestamp)
            } else if spec_fresh(now, e.updated_timestamp, cache_duration) {
                CacheDecision::Hit(e.content@)
            } else {
                CacheDecision::Miss
            },
        }
    }
}

/// What a request needs next after the cache was consulted: either a
/// finished response, or a generation for this canonical key.
pub enum BeginOutcome {
    Done(Response),
    NeedGeneration(CanonicalKey),
}

/// Mathematical value of a [`BeginOutcome`].
pub enum BeginSpec {
    Respond(ResponseSpec),
    Generate(Map<Seq<char>, Seq<char>>),
}

/// The outcome carries exactly this mathematical value.
pub open spec fn begin_matches(r: BeginOutcome, s: BeginSpec) -> bool {
    match r {
        BeginOutcome::Done(resp) => s matches BeginSpec::Respond(rs) && response_matches(
            resp,
            rs,
        ),
        BeginOutcome::NeedGeneration(k) => s matches BeginSpec::Generate(m) && k@ == m
            && k.wf(),
    }
}

/// The first half of the request machine: classify the parse outcome,
/// then consult the cache unless the mode is dev. A parse failure, a
/// store failure and a fresh hit respond at once; dev mode, a miss and
/// a stale row ask for generation.
pub open spec fn spec_begin(
    store: CacheStore,
    p: Seq<char>,
    q: Seq<char>,
    mode: ServeMode,
    parsed: Result<CanonicalKey, QueryError>,
    now: u64,
    cache_duration: u64,
) -> BeginSpec {
    match parsed {
        Err(QueryError::Parse) => BeginSpec::Respond(ResponseSpec::ParseFailure),
        Err(QueryError::Other) => BeginSpec::Respond(ResponseSpec::UnexpectedError),
        Ok(k) => if mode is Dev {
            BeginSpec::Generate(k@)
        } else {
            match spec_get_cache(store, p, q, k@, now, cache_duration) {
                CacheDecision::Failed(_) => BeginSpec::Respond(ResponseSpec::UnexpectedError),
                CacheDecision::Hit(fv) => BeginSpec::Respond(ResponseSpec::CacheHit(fv)),
                CacheDecision::Miss => BeginSpec::Generate(k@),
            }
        },
    }
}

/// A worker serving one (source prefix, resource path) pair. Both
/// components are normalized once, at construction.
pub struct FeedWorker {
    pub prefix: String,
    pub path: String,
}

impl FeedWorker {
    /// Builds the worker for a source and a generator plugin: the
    /// source's prefix and the plugin's resource path, both normalized.
    pub fn new<T: FeedGenerator>(source: &Source, _generator: T) -> (w: FeedWorker)
        ensures
            w.prefix@ == normalized(source.prefix@),
            w.path@ == normalized(T::spec_path()),
    {
        let path_raw = T::resource_path();
        FeedWorker {
            prefix: normalize_identity(source.prefix.as_str()),
            path: normalize_identity(path_raw.as_str()),
        }
    }

    /// Reads the cache for this key. `Ok(Some(..))` is a fresh row's
    /// content, verbatim; a missing or stale row is `Ok(None)`; an
    /// unreachable store or a row from the future is an error, never
    /// conflated with absence.
    pub fn get_cache(
        &self,
        store: &CacheStore,
        now: u64,
        cache_duration: u64,
        key: &CanonicalKey,
    ) -> (r: Result<Option<Feed>, StoreError>)
        requires
            store.wf(),
            key.wf(),
        ensures
            match spec_get_cache(*store, self.prefix@, self.path@, key@, now, cache_duration) {
                CacheDecision::Failed(err) => r matches Err(e) && e == err,
                CacheDecision::Hit(fv) => r matches Ok(Some(f)) && f@ == fv,
                CacheDecision::Miss => r matches Ok(None),
            },
    {
        if !store.available {
            return Err(StoreError::Connectivity);
        }
        match store.lookup(&self.prefix, &self.path, key) {
            None => Ok(None),
            Some((updated, feed)) => {
                if updated > now {
                    Err(StoreError::FutureTimestamp)
                } else if now - updated <= cache_duration {
                    Ok(Some(feed))
                } else {
                    Ok(None)
                }
            },
        }
    }

    /// Writes the feed through to the cache: an upsert of the row for
    /// this key, failing only when the store is unreachable.
    pub fn put_cache(
        &self,
        store: &mut CacheStore,
        now: u64,
        key: &CanonicalKey,
        feed: &Feed,
    ) -> (r: Result<(), StoreError>)
        requires
            old(store).wf(),
            key.wf(),
        ensures
            final(store).wf(),
            final(store).available == old(store).available,
            old(store).available ==> r is Ok && put_rel(
                old(store).entries@,
                final(store).entries@,
                self.prefix@,
                self.path@,
                key@,
                now,
                feed@,
            ),
            !old(store).available ==> (r matches Err(e) && e == StoreError::Connectivity)
                && final(store).entries@ == old(store).entries@,
    {
        if !store.available {
            return Err(StoreError::Connectivity);
        }
        store.upsert(&self.prefix, &self.path, key, now, feed);
        Ok(())
    }

    /// Runs the request machine up to the point where a generation
    /// would be needed; the store is only read, never written.
    pub fn begin_request(
        &self,
        store: &CacheStore,
        mode: ServeMode,
        now: u64,
        cache_duration: u64,
        parsed: Result<CanonicalKey, QueryError>,
    ) -> (r: BeginOutcome)
        requires
            store.wf(),
            parsed matches Ok(k) ==> k.wf(),
        ensures
            begin_matches(
                r,
                spec_begin(*store, self.prefix@, self.path@, mode, parsed, now, cache_duration),
            ),
    {
        match parsed {
            Err(QueryError::Parse) => BeginOutcome::Done(Response::ParseFailure),
            Err(QueryError::Other) => BeginOutcome::Done(Response::UnexpectedError),
            Ok(key) => {
                if mode == ServeMode::Dev {
                    BeginOutcome::NeedGeneration(key)
                } else {
                    match self.get_cache(store, now, cache_duration, &key) {
                        Err(_) => BeginOutcome::Done(Response::UnexpectedError),
                        Ok(Some(feed)) => BeginOutcome::Done(Response::CacheHit(feed)),
                        Ok(None) => BeginOutcome::NeedGeneration(key),
                    }
                }
            },
        }
    }

    /// Finishes a request after the generator ran: a generated feed is
    /// stamped with the provenance marker, written through best-effort
    /// (a failed write never fails the response), and returned; a
    /// failed generation is a generic error and writes nothing.
    pub fn finish_request(
        &self,
        store: &mut CacheStore,
        now: u64,
        key: &CanonicalKey,
        generated: Result<Feed, GenerationError>,
    ) -> (r: Response)
        requires
            old(store).wf(),
            key.wf(),
        ensures
            final(store).wf(),
            final(store).available == old(store).available,
            match generated {
                Err(_) => r is UnexpectedError && final(store).entries@ == old(store).entries@,
                Ok(f) => (r matches Response::FreshlyGenerated(g) && g@ == stamped(f@)) && (old(
                    store,
                ).available ==> put_rel(
                    old(store).entries@,
                    final(store).entries@,
                    self.prefix@,
                    self.path@,
                    key@,
                    now,
                    stamped(f@),
                )) && (!old(store).available ==> final(store).entries@ == old(store).entries@),
            },
    {
        match generated {
            Err(_) => Response::UnexpectedError,
            Ok(feed) => {
                let mut feed = feed;
                stamp_provenance(&mut feed);
                let _ = self.put_cache(store, now, key, &feed);
                Response::FreshlyGenerated(feed)
            },
        }
    }

    /// The whole request machine, for a caller that supplies the
    /// generation outcome up front: `generated` is what the generator
    /// returns if it is invoked, and is ignored on every path that
    /// responds without generating.
    pub fn handle_request(
        &self,
        store: &mut CacheStore,
        mode: ServeMode,
        now: u64,
        cache_duration: u64,
        parsed: Result<CanonicalKey, QueryError>,
        generated: Result<Feed, GenerationError>,
    ) -> (r: Response)
        requires
            old(store).wf(),
            parsed matches Ok(k) ==> k.wf(),
        ensures
            final(store).wf(),
            final(store).available == old(store).available,
            match spec_begin(
                *old(store),
                self.prefix@,
                self.path@,
                mode,
                parsed,
                now,
                cache_duration,
            ) {
                BeginSpec::Respond(rs) => response_matches(r, rs) && final(store).entries@
                    == old(store).entries@,
                BeginSpec::Generate(k) => match generated {
                    Err(_) => r is UnexpectedError && final(store).entries@ == old(
                        store,
                    ).entries@,
                    Ok(f) => (r matches Response::FreshlyGenerated(g) && g@ == stamped(f@)) && (
                    old(store).available ==> put_rel(
                        old(store).entries@,
                        final(store).entries@,
                        self.prefix@,
                        self.path@,
                        k,
                        now,
                        stamped(f@),
                    )) && (!old(store).available ==> final(store).entries@ == old(
                        store,
                    ).entries@),
                },
            },
    {
        match self.begin_request(&*store, mode, now, cache_duration, parsed) {
            BeginOutcome::Done(resp) => resp,
            BeginOutcome::NeedGeneration(key) => self.finish_request(store, now, &key, generated),
        }
    }
}

} // verus!
