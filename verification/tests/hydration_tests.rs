use rs_query::{DehydratedQuery, DehydratedState, Duration, HydrateOptions, KeyFilterFn, QueryClient, QueryKey, QueryOptions, QueryStateVariant};

fn query(key: &str, data: &str, stale_time_ms: u64, gc_time_ms: u64) -> DehydratedQuery {
    DehydratedQuery {
        key: key.to_string(),
        data: data.to_string(),
        fetched_at_secs: 0,
        stale_time_ms,
        gc_time_ms,
    }
}

#[test]
fn test_dehydrate_empty_cache() {
    let client: QueryClient<String> = QueryClient::new();
    let state = client.dehydrate(Duration::zero());
    assert!(state.queries.is_empty());
}

#[test]
fn test_dehydrate_with_data() {
    let mut client: QueryClient<String> = QueryClient::new();
    let key = QueryKey::new("users");
    let opts = QueryOptions { stale_time: Duration::from_secs(60), gc_time: Duration::from_secs(300), ..Default::default() };
    client.set_query_data(&key, "user_data".to_string(), opts, Duration::zero());

    let state = client.dehydrate(Duration::zero());
    assert_eq!(state.queries.len(), 1);
    let entry = state.get("users").unwrap();
    assert_eq!(entry.data, "user_data");
    assert_eq!(entry.stale_time_ms, 60_000);
    assert_eq!(entry.gc_time_ms, 300_000);
}

#[test]
fn test_dehydrate_multiple_entries() {
    let mut client: QueryClient<String> = QueryClient::new();
    client.set_query_data(&QueryKey::new("a"), "data_a".to_string(), QueryOptions::default(), Duration::zero());
    client.set_query_data(&QueryKey::new("b"), "data_b".to_string(), QueryOptions::default(), Duration::zero());

    let state = client.dehydrate(Duration::zero());
    assert_eq!(state.queries.len(), 2);
}

#[test]
fn test_hydrate_into_empty_cache() {
    let mut client: QueryClient<String> = QueryClient::new();
    let state = DehydratedState { queries: vec![query("users", "restored", 60_000, 300_000)] };

    client.hydrate(state, HydrateOptions::default(), Duration::zero());

    let data = client.get_query_data(&QueryKey::new("users")).cloned();
    assert_eq!(data, Some("restored".to_string()));
}

#[test]
fn test_hydrate_with_should_overwrite_false() {
    let mut client: QueryClient<String> = QueryClient::new();
    let key = QueryKey::new("users");
    client.set_query_data(&key, "existing".to_string(), QueryOptions::default(), Duration::zero());

    let state = DehydratedState { queries: vec![query("users", "new_data", 0, 0)] };
    let options = HydrateOptions { should_overwrite: false, should_hydrate: None };
    client.hydrate(state, options, Duration::zero());

    assert_eq!(client.get_query_data(&key).cloned(), Some("existing".to_string()));
}

#[test]
fn test_hydrate_with_should_overwrite_true() {
    let mut client: QueryClient<String> = QueryClient::new();
    let key = QueryKey::new("users");
    client.set_query_data(&key, "existing".to_string(), QueryOptions::default(), Duration::zero());

    let state = DehydratedState { queries: vec![query("users", "overwritten", 0, 0)] };
    let options = HydrateOptions { should_overwrite: true, should_hydrate: None };
    client.hydrate(state, options, Duration::zero());

    assert_eq!(client.get_query_data(&key).cloned(), Some("overwritten".to_string()));
}

#[test]
fn test_hydrate_with_filter() {
    let mut client: QueryClient<String> = QueryClient::new();
    let state = DehydratedState { queries: vec![query("users", "user_data", 0, 0), query("posts", "post_data", 0, 0)] };

    let options = HydrateOptions {
        should_overwrite: true,
        should_hydrate: Some(KeyFilterFn::new(|key: &str| key.starts_with("users"))),
    };
    client.hydrate(state, options, Duration::zero());

    let users = client.get_query_data(&QueryKey::new("users")).cloned();
    let posts = client.get_query_data(&QueryKey::new("posts")).cloned();
    assert_eq!(users, Some("user_data".to_string()));
    assert_eq!(posts, None);
}

#[test]
fn test_hydrate_with_filter_rejecting_all() {
    let mut client: QueryClient<String> = QueryClient::new();
    let state = DehydratedState { queries: vec![query("users", "data", 0, 0)] };

    let options = HydrateOptions { should_overwrite: true, should_hydrate: Some(KeyFilterFn::new(|_: &str| false)) };
    client.hydrate(state, options, Duration::zero());

    assert_eq!(client.get_query_data(&QueryKey::new("users")).cloned(), None);
}

#[test]
fn test_hydrate_empty_state() {
    let mut client: QueryClient<String> = QueryClient::new();
    let state = DehydratedState::default();
    client.hydrate(state, HydrateOptions::default(), Duration::zero());
    assert!(client.entries().is_empty());
}

#[test]
fn test_dehydrated_state_default() {
    let state = DehydratedState::default();
    assert!(state.queries.is_empty());
}

#[test]
fn test_dehydrated_query_clone() {
    let q = DehydratedQuery {
        key: "test".to_string(),
        data: "data".to_string(),
        fetched_at_secs: 100,
        stale_time_ms: 500,
        gc_time_ms: 1000,
    };
    let cloned = q.clone();
    assert_eq!(q.key, cloned.key);
    assert_eq!(q.data, cloned.data);
}

#[test]
fn test_dehydrated_query_debug() {
    let q = DehydratedQuery {
        key: "test".to_string(),
        data: "data".to_string(),
        fetched_at_secs: 100,
        stale_time_ms: 500,
        gc_time_ms: 1000,
    };
    let debug = format!("{:?}", q);
    assert!(debug.contains("test"));
}

#[test]
fn test_hydrate_options_default() {
    let opts = HydrateOptions::default();
    assert!(opts.should_overwrite);
    assert!(opts.should_hydrate.is_none());
}

#[test]
fn test_hydrate_options_clone() {
    let opts = HydrateOptions { should_overwrite: false, should_hydrate: Some(KeyFilterFn::new(|_: &str| true)) };
    let cloned = opts.clone();
    assert!(!cloned.should_overwrite);
    assert!(cloned.should_hydrate.is_some());
}

#[test]
fn test_hydrate_options_debug() {
    let opts = HydrateOptions::default();
    let debug = format!("{:?}", opts);
    assert!(debug.contains("should_overwrite"));
}

#[test]
fn test_roundtrip_dehydrate_hydrate() {
    let mut client: QueryClient<String> = QueryClient::new();
    client.set_query_data(
        &QueryKey::new("test"),
        "roundtrip".to_string(),
        QueryOptions { stale_time: Duration::from_secs(30), gc_time: Duration::from_secs(120), ..Default::default() },
        Duration::zero(),
    );

    let state = client.dehydrate(Duration::zero());
    let mut client2: QueryClient<String> = QueryClient::new();
    client2.hydrate(state, HydrateOptions::default(), Duration::zero());

    assert_eq!(client2.get_query_data(&QueryKey::new("test")).cloned(), Some("roundtrip".to_string()));
}

#[test]
fn roundtrip_keeps_stale_and_gc_times() {
    let mut client: QueryClient<String> = QueryClient::new();
    let key = QueryKey::new("test");
    client.set_query_data(
        &key,
        "v".to_string(),
        QueryOptions { stale_time: Duration::from_secs(30), gc_time: Duration::from_secs(120), ..Default::default() },
        Duration::zero(),
    );
    let state = client.dehydrate(Duration::zero());
    let mut client2: QueryClient<String> = QueryClient::new();
    client2.hydrate(state, HydrateOptions::default(), Duration::from_secs(5));
    let o = client2.get_query_options(&key).unwrap();
    assert_eq!(o.stale_time, Duration::from_secs(30));
    assert_eq!(o.gc_time, Duration::from_secs(120));
    assert!(!client2.is_stale(&key, Duration::from_secs(5)));
}

#[test]
fn dehydrate_records_age_in_whole_seconds() {
    let mut client: QueryClient<String> = QueryClient::new();
    let key = QueryKey::new("aged");
    client.set_query_data(&key, "x".to_string(), QueryOptions::default(), Duration::from_secs(10));
    let state = client.dehydrate(Duration::from_millis(12_999));
    assert_eq!(state.get("aged").unwrap().fetched_at_secs, 2);
    let state = client.dehydrate(Duration::from_secs(1));
    assert_eq!(state.get("aged").unwrap().fetched_at_secs, 0);
}

#[test]
fn dehydrated_state_get_missing_key() {
    let state = DehydratedState { queries: vec![query("a", "1", 0, 0)] };
    assert!(state.get("b").is_none());
    assert_eq!(state.get("a").unwrap().data, "1");
}

#[test]
fn hydrate_notes_success_for_each_hydrated_key() {
    let mut client: QueryClient<String> = QueryClient::new();
    client.set_query_data(&QueryKey::new("kept"), "old".to_string(), QueryOptions::default(), Duration::zero());
    client.take_updates();
    let state = DehydratedState { queries: vec![query("kept", "new", 0, 0), query("fresh", "f", 0, 0)] };
    client.hydrate(state, HydrateOptions { should_overwrite: false, should_hydrate: None }, Duration::zero());
    let updates = client.take_updates();
    assert_eq!(updates.len(), 1);
    assert_eq!(updates[0].key, "fresh");
    assert_eq!(updates[0].state_variant, QueryStateVariant::Success);
    assert_eq!(client.get_query_data(&QueryKey::new("kept")).cloned(), Some("old".to_string()));
}
