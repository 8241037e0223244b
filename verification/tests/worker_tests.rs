use nabu::config::ServeMode;
use nabu::crates_io::CratesIoSource;
use nabu::errors::{GenerationError, StoreError};
use nabu::feed::Feed;
use nabu::key::{parse_query_string, CanonicalKey};
use nabu::source::SourceBuilder;
use nabu::store::CacheStore;
use nabu::worker::{BeginOutcome, FeedWorker, Response};

const MARKER_NAME: &str = "Nabu";
const MARKER_URI: &str = "https://github.com/DCjanus/nabu";
const DUR: u64 = 10;

fn worker() -> FeedWorker {
    let mut source = CratesIoSource::build_source();
    source.workers.pop().unwrap()
}

fn feed(content: &str) -> Feed {
    Feed { content: String::from(content), generator: None }
}

fn key(raw: &str) -> CanonicalKey {
    parse_query_string(raw).unwrap()
}

fn assert_marker(f: &Feed, content: &str) {
    assert_eq!(f.content, content);
    let g = f.generator.as_ref().unwrap();
    assert_eq!(g.value, MARKER_NAME);
    assert_eq!(g.uri.as_deref(), Some(MARKER_URI));
    assert!(g.version.is_none());
}

#[test]
fn build_source_registers_the_versions_worker() {
    let source = CratesIoSource::build_source();
    assert_eq!(source.prefix, "crates-io");
    assert_eq!(source.workers.len(), 1);
    assert_eq!(source.workers[0].prefix, "crates-io");
    assert_eq!(source.workers[0].path, "crates/versions");
}

#[test]
fn worker_identity_is_normalized() {
    let w = worker();
    assert_eq!(w.prefix, "crates-io");
    assert_eq!(w.path, "crates/versions");
}

#[test]
fn fresh_hit_returns_stored_content_verbatim() {
    let w = worker();
    let mut store = CacheStore::new();
    let k = key("crate=serde");
    w.put_cache(&mut store, 90, &k, &feed("<feed one/>")).unwrap();
    let got = w.get_cache(&store, 95, DUR, &k).unwrap().unwrap();
    // stored without a marker, returned without one: never re-stamped
    assert_eq!(got, feed("<feed one/>"));
}

#[test]
fn staleness_boundary_is_strictly_greater_than() {
    let w = worker();
    let mut store = CacheStore::new();
    let k = key("crate=serde");
    let now: u64 = 100;

    // one tick older than the duration: treated as absent
    w.put_cache(&mut store, now - DUR - 1, &k, &feed("old")).unwrap();
    assert!(w.get_cache(&store, now, DUR, &k).unwrap().is_none());

    // one tick younger: fresh
    w.put_cache(&mut store, now - DUR + 1, &k, &feed("young")).unwrap();
    assert_eq!(w.get_cache(&store, now, DUR, &k).unwrap(), Some(feed("young")));

    // exactly the duration old: still fresh
    w.put_cache(&mut store, now - DUR, &k, &feed("edge")).unwrap();
    assert_eq!(w.get_cache(&store, now, DUR, &k).unwrap(), Some(feed("edge")));
}

#[test]
fn put_cache_twice_leaves_one_row() {
    let w = worker();
    let mut store = CacheStore::new();
    let k = key("crate=serde");
    w.put_cache(&mut store, 50, &k, &feed("same")).unwrap();
    w.put_cache(&mut store, 50, &k, &feed("same")).unwrap();
    assert_eq!(store.entry_count(), 1);
    let (ts, got) = store.lookup(&w.prefix, &w.path, &k).unwrap();
    assert_eq!(ts, 50);
    assert_eq!(got, feed("same"));
}

#[test]
fn put_cache_overwrites_in_place() {
    let w = worker();
    let mut store = CacheStore::new();
    let k = key("crate=serde");
    w.put_cache(&mut store, 50, &k, &feed("first")).unwrap();
    w.put_cache(&mut store, 60, &k, &feed("second")).unwrap();
    assert_eq!(store.entry_count(), 1);
    let (ts, got) = store.lookup(&w.prefix, &w.path, &k).unwrap();
    assert_eq!(ts, 60);
    assert_eq!(got, feed("second"));
}

#[test]
fn equivalent_queries_share_the_cache_row() {
    let w = worker();
    let mut store = CacheStore::new();
    w.put_cache(&mut store, 90, &key("a=1&b=2"), &feed("shared")).unwrap();
    let got = w.get_cache(&store, 95, DUR, &key("b=2&a=1")).unwrap();
    assert_eq!(got, Some(feed("shared")));
    assert_eq!(store.entry_count(), 1);
}

#[test]
fn workers_with_different_prefixes_are_independent() {
    let w1 = worker();
    let w2 = FeedWorker { prefix: String::from("other-source"), path: w1.path.clone() };
    let mut store = CacheStore::new();
    let k = key("crate=serde");
    w1.put_cache(&mut store, 90, &k, &feed("w1")).unwrap();
    assert!(w2.get_cache(&store, 95, DUR, &k).unwrap().is_none());
}

#[test]
fn dev_mode_forces_a_miss_and_still_writes() {
    let w = worker();
    let mut store = CacheStore::new();
    let k = key("crate=serde");
    w.put_cache(&mut store, 94, &k, &feed("fresh enough")).unwrap();

    // a fresh row is there to hit, yet dev mode asks for generation
    let begun = w.begin_request(&store, ServeMode::Dev, 95, DUR, Ok(key("crate=serde")));
    let k2 = match begun {
        BeginOutcome::NeedGeneration(k2) => k2,
        BeginOutcome::Done(_) => panic!("dev mode must not answer from the cache"),
    };
    assert!(k2.key_eq(&k));

    // ... and the generated result is written through
    let resp = w.finish_request(&mut store, 95, &k2, Ok(feed("regenerated")));
    match resp {
        Response::FreshlyGenerated(f) => assert_marker(&f, "regenerated"),
        other => panic!("expected a freshly generated response, got {:?}", other),
    }
    assert_eq!(store.entry_count(), 1);
    let (ts, got) = store.lookup(&w.prefix, &w.path, &k).unwrap();
    assert_eq!(ts, 95);
    assert_marker(&got, "regenerated");
}

#[test]
fn empty_store_generates_stamps_and_persists() {
    let w = worker();
    let mut store = CacheStore::new();
    let resp = w.handle_request(
        &mut store,
        ServeMode::Production,
        100,
        DUR,
        Ok(key("crate=serde")),
        Ok(feed("<feed/>")),
    );
    match resp {
        Response::FreshlyGenerated(f) => assert_marker(&f, "<feed/>"),
        other => panic!("expected a freshly generated response, got {:?}", other),
    }
    assert_eq!(store.entry_count(), 1);
    let (ts, got) = store.lookup(&w.prefix, &w.path, &key("crate=serde")).unwrap();
    assert_eq!(ts, 100);
    assert_marker(&got, "<feed/>");
}

#[test]
fn fresh_row_answers_without_invoking_the_generator() {
    let w = worker();
    let mut store = CacheStore::new();
    let k = key("crate=serde");
    w.put_cache(&mut store, 95, &k, &feed("cached")).unwrap();

    // the first half already answers: no generation is asked for
    let begun = w.begin_request(&store, ServeMode::Production, 100, DUR, Ok(key("crate=serde")));
    match begun {
        BeginOutcome::Done(Response::CacheHit(f)) => assert_eq!(f, feed("cached")),
        _ => panic!("expected a cache hit"),
    }

    // the composed machine ignores whatever the generator would return
    let resp = w.handle_request(
        &mut store,
        ServeMode::Production,
        100,
        DUR,
        Ok(key("crate=serde")),
        Ok(feed("must not appear")),
    );
    assert_eq!(resp, Response::CacheHit(feed("cached")));
    assert_eq!(store.entry_count(), 1);
    let (ts, got) = store.lookup(&w.prefix, &w.path, &k).unwrap();
    assert_eq!(ts, 95);
    assert_eq!(got, feed("cached"));
}

#[test]
fn malformed_query_neither_reads_nor_writes() {
    let w = worker();
    let mut store = CacheStore::new();
    let parsed = parse_query_string("no-equals-sign");
    let resp = w.handle_request(
        &mut store,
        ServeMode::Production,
        100,
        DUR,
        parsed,
        Ok(feed("must not appear")),
    );
    assert_eq!(resp, Response::ParseFailure);
    assert_eq!(store.entry_count(), 0);
}

#[test]
fn unreachable_store_is_an_error_not_a_miss() {
    let w = worker();
    let mut store = CacheStore::new();
    let k = key("crate=serde");
    w.put_cache(&mut store, 95, &k, &feed("cached")).unwrap();
    store.set_available(false);

    // the read fails, no generation is asked for
    let begun = w.begin_request(&store, ServeMode::Production, 100, DUR, Ok(key("crate=serde")));
    assert!(matches!(begun, BeginOutcome::Done(Response::UnexpectedError)));

    let resp = w.handle_request(
        &mut store,
        ServeMode::Production,
        100,
        DUR,
        Ok(key("crate=serde")),
        Ok(feed("must not appear")),
    );
    assert_eq!(resp, Response::UnexpectedError);
    assert_eq!(store.entry_count(), 1);
}

#[test]
fn failed_generation_is_an_error_and_writes_nothing() {
    let w = worker();
    let mut store = CacheStore::new();
    let resp = w.handle_request(
        &mut store,
        ServeMode::Production,
        100,
        DUR,
        Ok(key("crate=serde")),
        Err(GenerationError),
    );
    assert_eq!(resp, Response::UnexpectedError);
    assert_eq!(store.entry_count(), 0);
}

#[test]
fn failed_write_does_not_fail_the_response() {
    let w = worker();
    let mut store = CacheStore::new();
    store.set_available(false);
    let k = key("crate=serde");
    let resp = w.finish_request(&mut store, 100, &k, Ok(feed("generated anyway")));
    match resp {
        Response::FreshlyGenerated(f) => assert_marker(&f, "generated anyway"),
        other => panic!("expected a freshly generated response, got {:?}", other),
    }
    assert_eq!(store.entry_count(), 0);
}

#[test]
fn row_from_the_future_is_a_store_error() {
    let w = worker();
    let mut store = CacheStore::new();
    let k = key("crate=serde");
    w.put_cache(&mut store, 200, &k, &feed("from the future")).unwrap();
    assert_eq!(w.get_cache(&store, 100, DUR, &k), Err(StoreError::FutureTimestamp));
}

#[test]
fn unreachable_store_rejects_writes() {
    let w = worker();
    let mut store = CacheStore::new();
    store.set_available(false);
    let k = key("crate=serde");
    assert_eq!(
        w.put_cache(&mut store, 100, &k, &feed("x")),
        Err(StoreError::Connectivity)
    );
    assert_eq!(store.entry_count(), 0);
}

#[test]
fn other_normalization_failure_is_a_server_error() {
    let w = worker();
    let mut store = CacheStore::new();
    let resp = w.handle_request(
        &mut store,
        ServeMode::Production,
        100,
        DUR,
        Err(nabu::errors::QueryError::Other),
        Ok(feed("must not appear")),
    );
    assert_eq!(resp, Response::UnexpectedError);
    assert_eq!(store.entry_count(), 0);
}
