//! The laws the worker obeys, stated over the same spec functions its
//! contracts use.

use vstd::prelude::*;

use crate::config::ServeMode;
use crate::errors::QueryError;
use crate::feed::{provenance_marker, stamped, FeedView};
use crate::key::{pairs_to_map, spec_parse_query, CanonicalKey};
use crate::store::{
    entries_wf, entry_matches, lemma_find_index_char, lemma_find_index_frame,
    lemma_find_index_is, lemma_find_index_push, put_rel, row_is, spec_find_index, spec_lookup,
    CacheEntry, CacheStore,
};
use crate::worker::{spec_begin, spec_fresh, spec_get_cache, BeginSpec, CacheDecision};

verus! {

/// Two raw query strings that normalize to the same canonical key are
/// indistinguishable to the cache: a read decides the same for both.
pub proof fn lemma_same_key_same_cache(
    store: CacheStore,
    p: Seq<char>,
    q: Seq<char>,
    raw1: Seq<char>,
    raw2: Seq<char>,
    now: u64,
    cache_duration: u64,
)
    requires
        spec_parse_query(raw1) is Some,
        spec_parse_query(raw2) is Some,
        pairs_to_map(spec_parse_query(raw1)->0) == pairs_to_map(spec_parse_query(raw2)->0),
    ensures
        spec_get_cache(store, p, q, pairs_to_map(spec_parse_query(raw1)->0), now, cache_duration)
            == spec_get_cache(
            store,
            p,
            q,
            pairs_to_map(spec_parse_query(raw2)->0),
            now,
            cache_duration,
        ),
{
}

/// Writing the same content under the same key twice leaves exactly
/// one row for that key, holding that content: the second write adds
/// no row, and the store never duplicates a logical key.
pub proof fn lemma_put_cache_idempotent(
    es0: Seq<CacheEntry>,
    es1: Seq<CacheEntry>,
    es2: Seq<CacheEntry>,
    p: Seq<char>,
    q: Seq<char>,
    k: Map<Seq<char>, Seq<char>>,
    now1: u64,
    now2: u64,
    fv: FeedView,
)
    requires
        entries_wf(es2),
        put_rel(es0, es1, p, q, k, now1, fv),
        put_rel(es1, es2, p, q, k, now2, fv),
    ensures
        es2.len() == es1.len(),
        exists|t: int| 0 <= t < es2.len() && row_is(#[trigger] es2[t], p, q, k, now2, fv),
        forall|a: int, b: int|
            0 <= a < b < es2.len() ==> !(entry_matches(#[trigger] es2[a], p, q, k)
                && entry_matches(#[trigger] es2[b], p, q, k)),
{
    lemma_find_index_char(es0, p, q, k);
    lemma_find_index_char(es1, p, q, k);
    let t1: int = if spec_find_index(es0, p, q, k) is Some {
        spec_find_index(es0, p, q, k)->0
    } else {
        es0.len() as int
    };
    assert(entry_matches(es1[t1], p, q, k));
    let t2 = spec_find_index(es1, p, q, k);
    assert(t2 is Some);
    assert(row_is(es2[t2->0], p, q, k, now2, fv));
    assert forall|a: int, b: int| 0 <= a < b < es2.len() implies !(entry_matches(
        #[trigger] es2[a],
        p,
        q,
        k,
    ) && entry_matches(#[trigger] es2[b], p, q, k)) by {
        if entry_matches(es2[a], p, q, k) && entry_matches(es2[b], p, q, k) {
            assert(!entry_matches(es2[b], es2[a].prefix@, es2[a].path@, es2[a].key@));
        }
    }
}

/// The staleness boundary is strict: a row one tick older than the
/// cache duration is treated as absent, a row one tick younger is a
/// hit with the stored content. (With a zero cache duration the
/// "younger" row would sit in the future, so it needs a positive one.)
pub proof fn lemma_staleness_boundary(
    store: CacheStore,
    p: Seq<char>,
    q: Seq<char>,
    k: Map<Seq<char>, Seq<char>>,
    e: CacheEntry,
    now: u64,
    cache_duration: u64,
)
    requires
        store.available,
        spec_lookup(store.entries@, p, q, k) == Some(e),
    ensures
        e.updated_timestamp == now - cache_duration - 1 ==> spec_get_cache(
            store,
            p,
            q,
            k,
            now,
            cache_duration,
        ) is Miss,
        cache_duration >= 1 && e.updated_timestamp == now - cache_duration + 1 ==> (
        spec_get_cache(store, p, q, k, now, cache_duration) matches CacheDecision::Hit(fv)
            && fv == e.content@),
{
}

/// Dev mode bypasses the cache read: even while a fresh row is there
/// to hit, the request asks for a generation of its canonical key.
/// (The write-through after that generation is stated by
/// `FeedWorker::finish_request`, dev mode or not.)
pub proof fn lemma_dev_mode_bypass(
    store: CacheStore,
    p: Seq<char>,
    q: Seq<char>,
    key: CanonicalKey,
    now: u64,
    cache_duration: u64,
)
    requires
        spec_get_cache(store, p, q, key@, now, cache_duration) is Hit,
    ensures
        spec_begin(
            store,
            p,
            q,
            ServeMode::Dev,
            Ok::<CanonicalKey, QueryError>(key),
            now,
            cache_duration,
        ) == BeginSpec::Generate(key@),
{
}

/// A write is immediately visible: after an upsert under a key, the
/// row found for that key holds exactly the written timestamp and
/// content.
pub proof fn lemma_put_then_lookup(
    es1: Seq<CacheEntry>,
    es2: Seq<CacheEntry>,
    p: Seq<char>,
    q: Seq<char>,
    k: Map<Seq<char>, Seq<char>>,
    now: u64,
    fv: FeedView,
)
    requires
        put_rel(es1, es2, p, q, k, now, fv),
    ensures
        spec_lookup(es2, p, q, k) matches Some(e) && row_is(e, p, q, k, now, fv),
{
    lemma_find_index_char(es1, p, q, k);
    match spec_find_index(es1, p, q, k) {
        Some(t) => {
            assert forall|j: int| 0 <= j < t implies !entry_matches(
                #[trigger] es2[j],
                p,
                q,
                k,
            ) by {
                assert(es2[j] == es1[j]);
            }
            lemma_find_index_is(es2, p, q, k, t);
        },
        None => {
            let t = es1.len() as int;
            assert forall|j: int| 0 <= j < t implies !entry_matches(
                #[trigger] es2[j],
                p,
                q,
                k,
            ) by {
                assert(es2[j] == es1[j]);
            }
            lemma_find_index_is(es2, p, q, k, t);
        },
    }
}

/// Workers with distinct identities are independent: a write under one
/// (prefix, path, key) triple never changes what any other triple
/// reads, so two workers with different source prefixes never share a
/// cache row.
pub proof fn lemma_worker_independence(
    es1: Seq<CacheEntry>,
    es2: Seq<CacheEntry>,
    p1: Seq<char>,
    q1: Seq<char>,
    k1: Map<Seq<char>, Seq<char>>,
    p2: Seq<char>,
    q2: Seq<char>,
    k2: Map<Seq<char>, Seq<char>>,
    now: u64,
    fv: FeedView,
)
    requires
        put_rel(es1, es2, p2, q2, k2, now, fv),
        !(p1 == p2 && q1 == q2 && k1 == k2),
    ensures
        spec_lookup(es2, p1, q1, k1) == spec_lookup(es1, p1, q1, k1),
{
    lemma_find_index_char(es1, p2, q2, k2);
    match spec_find_index(es1, p2, q2, k2) {
        Some(t) => {
            // the refreshed row carried the other triple before and
            // after, so no row changed its answer for (p1, q1, k1)
            assert(!entry_matches(es1[t], p1, q1, k1));
            assert(!entry_matches(es2[t], p1, q1, k1));
            assert forall|j: int|
                0 <= j < es1.len() implies (entry_matches(#[trigger] es1[j], p1, q1, k1)
                <==> entry_matches(#[trigger] es2[j], p1, q1, k1)) by {
                if j != t {
                    assert(es2[j] == es1[j]);
                }
            }
            lemma_find_index_frame(es1, es2, p1, q1, k1);
            lemma_find_index_char(es1, p1, q1, k1);
            if spec_find_index(es1, p1, q1, k1) is Some {
                let u = spec_find_index(es1, p1, q1, k1)->0;
                assert(u != t);
                assert(es2[u] == es1[u]);
            }
        },
        None => {
            let x = es2[es1.len() as int];
            assert(!entry_matches(x, p1, q1, k1));
            assert(es2 =~= es1.push(x));
            lemma_find_index_push(es1, x, p1, q1, k1);
            lemma_find_index_char(es1, p1, q1, k1);
            if spec_find_index(es1, p1, q1, k1) is Some {
                let u = spec_find_index(es1, p1, q1, k1)->0;
                assert(es2[u] == es1[u]);
            }
        },
    }
}

/// Stamping sets exactly the provenance marker and nothing else: the
/// content survives verbatim. Together with `spec_get_cache`, which
/// hands a hit out verbatim, this is the provenance law: freshly
/// generated feeds carry the marker, cached feeds are returned as
/// they were written, not re-stamped.
pub proof fn lemma_stamped_marker(f: FeedView)
    ensures
        stamped(f).generator == Some(provenance_marker()),
        stamped(f).content == f.content,
{
}

/// A fresh hit returns the stored row's content, verbatim.
pub proof fn lemma_cache_hit_verbatim(
    store: CacheStore,
    p: Seq<char>,
    q: Seq<char>,
    k: Map<Seq<char>, Seq<char>>,
    e: CacheEntry,
    now: u64,
    cache_duration: u64,
)
    requires
        store.available,
        spec_lookup(store.entries@, p, q, k) == Some(e),
        e.updated_timestamp <= now,
        spec_fresh(now, e.updated_timestamp, cache_duration),
    ensures
        spec_get_cache(store, p, q, k, now, cache_duration) == CacheDecision::Hit(e.content@),
{
}

} // verus!
