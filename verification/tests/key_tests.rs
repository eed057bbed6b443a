use rs_query::QueryKey;

#[test]
fn test_simple_key() {
    let key = QueryKey::new("users");
    assert_eq!(key.cache_key(), "users");
}

#[test]
fn test_key_with_params() {
    let key = QueryKey::new("users").with("id", 123);
    assert_eq!(key.cache_key(), "users::id=123");
}

#[test]
fn test_hierarchical_key() {
    let key = QueryKey::new("users").segment("posts").with("id", 456);
    assert_eq!(key.cache_key(), "users::posts::id=456");
}

#[test]
fn test_key_matching() {
    let full = QueryKey::new("users").with("id", 123);
    let pattern = QueryKey::new("users");

    assert!(full.matches(&pattern));
    assert!(!pattern.matches(&full));
}

#[test]
fn test_key_matches_itself_and_transitively() {
    let a = QueryKey::new("users");
    let b = QueryKey::new("users").segment("posts");
    let c = QueryKey::new("users").segment("posts").with("id", 7u64);
    assert!(a.matches(&a));
    assert!(c.matches(&b));
    assert!(b.matches(&a));
    assert!(c.matches(&a));
    assert!(!a.matches(&c));
}

#[test]
fn test_key_static_and_dynamic_segments_differ() {
    let s = QueryKey::new("users").segment("id=1");
    let d = QueryKey::new("users").with("id", 1);
    assert_eq!(s.cache_key(), d.cache_key());
    assert!(!s.matches(&d));
    assert_ne!(s, d);
}

#[test]
fn test_key_values_of_several_types() {
    assert_eq!(QueryKey::new("a").with("n", -42).cache_key(), "a::n=-42");
    assert_eq!(QueryKey::new("a").with("n", 0u32).cache_key(), "a::n=0");
    assert_eq!(QueryKey::new("a").with("n", 18446744073709551615u64).cache_key(), "a::n=18446744073709551615");
    assert_eq!(QueryKey::new("a").with("n", i64::MIN).cache_key(), "a::n=-9223372036854775808");
    assert_eq!(QueryKey::new("a").with("name", "bob").cache_key(), "a::name=bob");
    assert_eq!(QueryKey::new("a").with("name", "x".to_string()).cache_key(), "a::name=x");
    assert_eq!(QueryKey::new("a").with("n", 5usize).cache_key(), "a::n=5");
}

#[test]
fn test_key_clone_and_equality() {
    let k = QueryKey::new("users").with("id", 3);
    let c = k.clone();
    assert_eq!(k, c);
    assert_ne!(k, QueryKey::new("users"));
    assert_eq!(c.cache_key(), "users::id=3");
}
