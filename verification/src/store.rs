//! The cache store model.
//!
//! One logical row per (prefix, path, canonical key): the store never
//! holds duplicates, and a write is an upsert that either refreshes the
//! existing row or appends a new one. The `available` flag models the
//! backing connection; an unavailable store fails reads and writes
//! without ever being confused with "no entry found".

use vstd::prelude::*;

use crate::feed::{Feed, FeedView};
use crate::key::CanonicalKey;

verus! {

/// One cached feed, keyed by source identity and canonical key.
pub struct CacheEntry {
    pub prefix: String,
    pub path: String,
    pub key: CanonicalKey,
    pub updated_timestamp: u64,
    pub content: Feed,
}

/// Does the entry carry exactly this logical key?
pub open spec fn entry_matches(
    e: CacheEntry,
    p: Seq<char>,
    q: Seq<char>,
    k: Map<Seq<char>, Seq<char>>,
) -> bool {
    e.prefix@ == p && e.path@ == q && e.key@ == k
}

/// The row holds this logical key, timestamp and content.
pub open spec fn row_is(
    e: CacheEntry,
    p: Seq<char>,
    q: Seq<char>,
    k: Map<Seq<char>, Seq<char>>,
    now: u64,
    fv: FeedView,
) -> bool {
    entry_matches(e, p, q, k) && e.updated_timestamp == now && e.content@ == fv
}

/// Index of the first entry with this logical key, if any.
pub open spec fn spec_find_index(
    es: Seq<CacheEntry>,
    p: Seq<char>,
    q: Seq<char>,
    k: Map<Seq<char>, Seq<char>>,
) -> Option<int>
    decreases es.len(),
{
    if es.len() == 0 {
        None
    } else if entry_matches(es[0], p, q, k) {
        Some(0)
    } else {
        match spec_find_index(es.drop_first(), p, q, k) {
            None => None,
            Some(t) => Some(t + 1),
        }
    }
}

/// The entry found for this logical key, if any.
pub open spec fn spec_lookup(
    es: Seq<CacheEntry>,
    p: Seq<char>,
    q: Seq<char>,
    k: Map<Seq<char>, Seq<char>>,
) -> Option<CacheEntry> {
    match spec_find_index(es, p, q, k) {
        None => None,
        Some(t) => Some(es[t]),
    }
}

/// `spec_find_index` finds the first match and nothing before it, and
/// fails only when nothing matches.
pub proof fn lemma_find_index_char(
    es: Seq<CacheEntry>,
    p: Seq<char>,
    q: Seq<char>,
    k: Map<Seq<char>, Seq<char>>,
)
    ensures
        match spec_find_index(es, p, q, k) {
            Some(t) => 0 <= t < es.len() && entry_matches(es[t], p, q, k) && (forall|j: int|
                0 <= j < t ==> !entry_matches(#[trigger] es[j], p, q, k)),
            None => forall|j: int| 0 <= j < es.len() ==> !entry_matches(#[trigger] es[j], p, q, k),
        },
    decreases es.len(),
{
    if es.len() == 0 {
    } else if entry_matches(es[0], p, q, k) {
    } else {
        lemma_find_index_char(es.drop_first(), p, q, k);
        match spec_find_index(es.drop_first(), p, q, k) {
            None => {
                assert forall|j: int| 0 <= j < es.len() implies !entry_matches(
                    #[trigger] es[j],
                    p,
                    q,
                    k,
                ) by {
                    if j > 0 {
                        assert(es.drop_first()[j - 1] == es[j]);
                    }
                }
            },
            Some(t) => {
                assert(es.drop_first()[t] == es[t + 1]);
                assert forall|j: int| 0 <= j < t + 1 implies !entry_matches(
                    #[trigger] es[j],
                    p,
                    q,
                    k,
                ) by {
                    if j > 0 {
                        assert(es.drop_first()[j - 1] == es[j]);
                    }
                }
            },
        }
    }
}

/// Where a scan that saw no match up to `t` stands: the first match is
/// at `t` itself, or there is none at all.
pub proof fn lemma_find_index_is(
    es: Seq<CacheEntry>,
    p: Seq<char>,
    q: Seq<char>,
    k: Map<Seq<char>, Seq<char>>,
    t: int,
)
    requires
        0 <= t <= es.len(),
        forall|j: int| 0 <= j < t ==> !entry_matches(#[trigger] es[j], p, q, k),
        t < es.len() ==> entry_matches(es[t], p, q, k),
    ensures
        spec_find_index(es, p, q, k) == if t == es.len() {
            None::<int>
        } else {
            Some(t)
        },
    decreases es.len(),
{
    if es.len() == 0 {
    } else if entry_matches(es[0], p, q, k) {
        assert(t == 0);
    } else {
        assert(t >= 1);
        assert forall|j: int| 0 <= j < t - 1 implies !entry_matches(
            #[trigger] es.drop_first()[j],
            p,
            q,
            k,
        ) by {
            assert(es.drop_first()[j] == es[j + 1]);
        }
        if t < es.len() {
            assert(es.drop_first()[t - 1] == es[t]);
        }
        lemma_find_index_is(es.drop_first(), p, q, k, t - 1);
    }
}

/// Appending a row that does not carry the key leaves the search
/// untouched.
pub proof fn lemma_find_index_push(
    es: Seq<CacheEntry>,
    x: CacheEntry,
    p: Seq<char>,
    q: Seq<char>,
    k: Map<Seq<char>, Seq<char>>,
)
    requires
        !entry_matches(x, p, q, k),
    ensures
        spec_find_index(es.push(x), p, q, k) == spec_find_index(es, p, q, k),
    decreases es.len(),
{
    if es.len() == 0 {
        assert(spec_find_index(es, p, q, k) is None);
        assert(es.push(x)[0] == x);
        assert(es.push(x).drop_first() =~= Seq::<CacheEntry>::empty());
        assert(spec_find_index(es.push(x).drop_first(), p, q, k) is None);
        assert(spec_find_index(es.push(x), p, q, k) is None);
    } else {
        assert(es.push(x)[0] == es[0]);
        assert(es.push(x).drop_first() =~= es.drop_first().push(x));
        lemma_find_index_push(es.drop_first(), x, p, q, k);
        assert(spec_find_index(es.push(x).drop_first(), p, q, k) == spec_find_index(
            es.drop_first(),
            p,
            q,
            k,
        ));
    }
}

/// Two stores whose rows agree on whether and how they carry the key
/// are searched identically.
pub proof fn lemma_find_index_frame(
    es1: Seq<CacheEntry>,
    es2: Seq<CacheEntry>,
    p: Seq<char>,
    q: Seq<char>,
    k: Map<Seq<char>, Seq<char>>,
)
    requires
        es1.len() == es2.len(),
        forall|j: int|
            0 <= j < es1.len() ==> (entry_matches(#[trigger] es1[j], p, q, k) <==> entry_matches(
                #[trigger] es2[j],
                p,
                q,
                k,
            )),
    ensures
        spec_find_index(es1, p, q, k) == spec_find_index(es2, p, q, k),
    decreases es1.len(),
{
    if es1.len() == 0 {
    } else {
        assert(entry_matches(es1[0], p, q, k) <==> entry_matches(es2[0], p, q, k));
        assert forall|j: int| 0 <= j < es1.drop_first().len() implies (entry_matches(
            #[trigger] es1.drop_first()[j],
            p,
            q,
            k,
        ) <==> entry_matches(#[trigger] es2.drop_first()[j], p, q, k)) by {
            assert(es1.drop_first()[j] == es1[j + 1]);
            assert(es2.drop_first()[j] == es2[j + 1]);
        }
        lemma_find_index_frame(es1.drop_first(), es2.drop_first(), p, q, k);
    }
}

/// No two entries share a logical key, and every stored key is
/// well-formed.
pub open spec fn entries_wf(es: Seq<CacheEntry>) -> bool {
    &&& forall|i: int| 0 <= i < es.len() ==> (#[trigger] es[i]).key.wf()
    &&& forall|i: int, j: int|
        0 <= i < j < es.len() ==> !entry_matches(
            #[trigger] es[j],
            (#[trigger] es[i]).prefix@,
            es[i].path@,
            es[i].key@,
        )
}

/// How an upsert changes the rows: the row for the logical key now
/// holds `fv` with timestamp `now`, every other row is untouched, and
/// a row was appended exactly when none matched before.
pub open spec fn put_rel(
    old_es: Seq<CacheEntry>,
    new_es: Seq<CacheEntry>,
    p: Seq<char>,
    q: Seq<char>,
    k: Map<Seq<char>, Seq<char>>,
    now: u64,
    fv: FeedView,
) -> bool {
    match spec_find_index(old_es, p, q, k) {
        Some(t) => new_es.len() == old_es.len() && row_is(new_es[t], p, q, k, now, fv) && (
        forall|j: int| 0 <= j < old_es.len() && j != t ==> new_es[j] == old_es[j]),
        None => new_es.len() == old_es.len() + 1 && row_is(
            new_es[old_es.len() as int],
            p,
            q,
            k,
            now,
            fv,
        ) && (forall|j: int| 0 <= j < old_es.len() ==> new_es[j] == old_es[j]),
    }
}

/// The cache store: a set of rows plus the state of the backing
/// connection.
pub struct CacheStore {
    pub entries: Vec<CacheEntry>,
    pub available: bool,
}

impl CacheStore {
    /// Store invariant: see [`entries_wf`].
    pub open spec fn wf(&self) -> bool {
        entries_wf(self.entries@)
    }

    /// An empty, reachable store.
    pub fn new() -> (s: CacheStore)
        ensures
            s.wf(),
            s.entries@.len() == 0,
            s.available,
    {
        CacheStore { entries: Vec::new(), available: true }
    }

    /// Models the backing connection going down or coming back.
    pub fn set_available(&mut self, available: bool)
        ensures
            final(self).entries@ == old(self).entries@,
            final(self).available == available,
            old(self).wf() ==> final(self).wf(),
    {
        self.available = available;
    }

    /// Number of rows held.
    pub fn entry_count(&self) -> (n: usize)
        ensures
            n == self.entries@.len(),
    {
        self.entries.len()
    }

    /// Index of the row for this logical key, if one is present.
    fn find_index(&self, prefix: &String, path: &String, key: &CanonicalKey) -> (r: Option<
        usize,
    >)
        requires
            self.wf(),
            key.wf(),
        ensures
            match r {
                Some(u) => spec_find_index(self.entries@, prefix@, path@, key@) == Some(
                    u as int,
                ),
                None => spec_find_index(self.entries@, prefix@, path@, key@) is None,
            },
    {
        let mut t: usize = 0;
        while t < self.entries.len()
            invariant
                self.wf(),
                key.wf(),
                t <= self.entries@.len(),
                forall|j: int|
                    0 <= j < t ==> !entry_matches(
                        #[trigger] self.entries@[j],
                        prefix@,
                        path@,
                        key@,
                    ),
            decreases self.entries@.len() - t,
        {
            let e = &self.entries[t];
            if e.prefix == *prefix && e.path == *path && e.key.key_eq(key) {
                proof {
                    lemma_find_index_is(self.entries@, prefix@, path@, key@, t as int);
                }
                return Some(t);
            }
            t = t + 1;
        }
        proof {
            lemma_find_index_is(self.entries@, prefix@, path@, key@, self.entries@.len() as int);
        }
        None
    }

    /// The stored timestamp and content for this logical key, if any.
    /// This is the raw row, with no staleness judgement.
    pub fn lookup(&self, prefix: &String, path: &String, key: &CanonicalKey) -> (r: Option<
        (u64, Feed),
    >)
        requires
            self.wf(),
            key.wf(),
        ensures
            match spec_lookup(self.entries@, prefix@, path@, key@) {
                Some(e) => r matches Some(t) && t.0 == e.updated_timestamp && t.1@ == e.content@,
                None => r is None,
            },
    {
        proof {
            lemma_find_index_char(self.entries@, prefix@, path@, key@);
        }
        match self.find_index(prefix, path, key) {
            Some(t) => {
                let e = &self.entries[t];
                Some((e.updated_timestamp, e.content.clone()))
            },
            None => None,
        }
    }

    /// Insert-or-update: refreshes the row for this logical key, or
    /// appends one. Never creates a duplicate.
    pub fn upsert(
        &mut self,
        prefix: &String,
        path: &String,
        key: &CanonicalKey,
        now: u64,
        content: &Feed,
    )
        requires
            old(self).wf(),
            key.wf(),
        ensures
            final(self).wf(),
            final(self).available == old(self).available,
            put_rel(
                old(self).entries@,
                final(self).entries@,
                prefix@,
                path@,
                key@,
                now,
                content@,
            ),
    {
        let entry = CacheEntry {
            prefix: prefix.clone(),
            path: path.clone(),
            key: key.clone(),
            updated_timestamp: now,
            content: content.clone(),
        };
        proof {
            lemma_find_index_char(self.entries@, prefix@, path@, key@);
        }
        let ghost old_es = self.entries@;
        match self.find_index(prefix, path, key) {
            Some(t) => {
                self.entries[t] = entry;
                proof {
                    let new_es = self.entries@;
                    assert forall|a: int, b: int| 0 <= a < b < new_es.len() implies !entry_matches(
                        #[trigger] new_es[b],
                        (#[trigger] new_es[a]).prefix@,
                        new_es[a].path@,
                        new_es[a].key@,
                    ) by {
                        if a == t as int {
                            assert(!entry_matches(old_es[b], old_es[a].prefix@, old_es[a].path@, old_es[a].key@));
                        } else if b == t as int {
                            assert(!entry_matches(old_es[b], old_es[a].prefix@, old_es[a].path@, old_es[a].key@));
                        } else {
                            assert(!entry_matches(old_es[b], old_es[a].prefix@, old_es[a].path@, old_es[a].key@));
                        }
                    }
                }
            },
            None => {
                self.entries.push(entry);
                proof {
                    let new_es = self.entries@;
                    assert forall|a: int, b: int| 0 <= a < b < new_es.len() implies !entry_matches(
                        #[trigger] new_es[b],
                        (#[trigger] new_es[a]).prefix@,
                        new_es[a].path@,
                        new_es[a].key@,
                    ) by {
                        if b == old_es.len() as int {
                            assert(!entry_matches(old_es[a], prefix@, path@, key@));
                        } else {
                            assert(!entry_matches(old_es[b], old_es[a].prefix@, old_es[a].path@, old_es[a].key@));
                        }
                    }
                }
            },
        }
    }
}

} // verus!
