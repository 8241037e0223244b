use nabu::errors::QueryError;
use nabu::identity::normalize_identity;
use nabu::key::{parse_query_string, CanonicalKey};

fn parsed(raw: &str) -> CanonicalKey {
    parse_query_string(raw).unwrap()
}

#[test]
fn normalize_drops_empty_segments() {
    assert_eq!(normalize_identity("/a//b/"), "a/b");
    assert_eq!(normalize_identity("a/b"), "a/b");
    assert_eq!(normalize_identity("crates-io"), "crates-io");
}

#[test]
fn normalize_degenerate_inputs() {
    assert_eq!(normalize_identity(""), "");
    assert_eq!(normalize_identity("///"), "");
    assert_eq!(normalize_identity("/x/"), "x");
}

#[test]
fn parse_order_does_not_matter() {
    let k1 = parsed("a=1&b=2");
    let k2 = parsed("b=2&a=1");
    assert!(k1.key_eq(&k2));
    assert!(k2.key_eq(&k1));
}

#[test]
fn parse_exact_match_not_containment() {
    let k1 = parsed("a=1");
    let k2 = parsed("a=1&b=2");
    assert!(!k1.key_eq(&k2));
    assert!(!k2.key_eq(&k1));
    let k3 = parsed("a=2");
    assert!(!k1.key_eq(&k3));
}

#[test]
fn parse_get_values() {
    let k = parsed("crate=serde&page=2");
    assert_eq!(k.get(&String::from("crate")).map(String::as_str), Some("serde"));
    assert_eq!(k.get(&String::from("page")).map(String::as_str), Some("2"));
    assert!(k.get(&String::from("missing")).is_none());
}

#[test]
fn parse_empty_query_is_empty_key() {
    let k1 = parsed("");
    let k2 = parsed("");
    assert!(k1.key_eq(&k2));
    assert!(k1.get(&String::from("a")).is_none());
}

#[test]
fn parse_value_may_be_empty_or_hold_equals() {
    let k = parsed("a=&b=c=d");
    assert_eq!(k.get(&String::from("a")).map(String::as_str), Some(""));
    assert_eq!(k.get(&String::from("b")).map(String::as_str), Some("c=d"));
}

#[test]
fn parse_rejects_malformed() {
    assert!(matches!(parse_query_string("a"), Err(QueryError::Parse)));
    assert!(matches!(parse_query_string("=1"), Err(QueryError::Parse)));
    assert!(matches!(parse_query_string("a=1&"), Err(QueryError::Parse)));
    assert!(matches!(parse_query_string("a=1&&b=2"), Err(QueryError::Parse)));
    assert!(matches!(parse_query_string("&a=1"), Err(QueryError::Parse)));
}

#[test]
fn parse_rejects_repeated_name() {
    assert!(matches!(parse_query_string("a=1&a=2"), Err(QueryError::Parse)));
    assert!(matches!(parse_query_string("a=1&b=2&a=1"), Err(QueryError::Parse)));
}
