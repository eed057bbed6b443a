use rs_query::{
    Duration, PlaceholderData, Query, QueryClient, QueryError, QueryKey, QueryObserver, QueryOptions, QueryState,
    QueryStateVariant,
};

fn t0() -> Duration {
    Duration::zero()
}

fn fetched() -> Query<String> {
    Query::new(QueryKey::new("test"), || async { Ok("fetched".to_string()) })
}

/// Hands every pending notice to the observer.
fn deliver(observer: &mut QueryObserver<String>, client: &mut QueryClient<String>, now: Duration) {
    let updates = client.take_updates();
    observer.apply_updates(&updates, client, now);
}

#[test]
fn test_new_observer_idle_when_no_cache() {
    let client: QueryClient<String> = QueryClient::new();
    let observer: QueryObserver<String> = QueryObserver::new(&client, QueryKey::new("test"), t0());
    assert!(observer.state().is_idle());
}

#[test]
fn test_new_observer_reads_cache() {
    let mut client: QueryClient<String> = QueryClient::new();
    let key = QueryKey::new("test");
    client.set_query_data(&key, "cached".to_string(), QueryOptions::default(), t0());
    let observer: QueryObserver<String> = QueryObserver::new(&client, key, t0());
    assert!(observer.state().is_success());
    assert_eq!(observer.state().data(), Some(&"cached".to_string()));
}

#[test]
fn test_from_query_applies_initial_data() {
    let mut client: QueryClient<String> = QueryClient::new();
    let key = QueryKey::new("test");
    let query = fetched().initial_data("initial".to_string());

    let observer = QueryObserver::from_query(&mut client, &query, t0());
    assert_eq!(observer.state().data(), Some(&"initial".to_string()));
    assert_eq!(client.get_query_data(&key).cloned(), Some("initial".to_string()));
}

#[test]
fn test_from_query_does_not_overwrite_existing_cache() {
    let mut client: QueryClient<String> = QueryClient::new();
    let key = QueryKey::new("test");
    client.set_query_data(&key, "existing".to_string(), QueryOptions::default(), t0());

    let query = fetched().initial_data("initial".to_string());
    let observer = QueryObserver::from_query(&mut client, &query, t0());
    assert_eq!(observer.state().data(), Some(&"existing".to_string()));
    assert_eq!(client.get_query_data(&key).cloned(), Some("existing".to_string()));
}

#[test]
fn test_set_loading_with_placeholder() {
    let mut client: QueryClient<String> = QueryClient::new();
    let query = fetched().placeholder_data(PlaceholderData::value("ph".to_string()));

    let mut observer = QueryObserver::from_query(&mut client, &query, t0());
    observer.set_loading(t0());
    assert!(matches!(observer.state(), QueryState::LoadingWithPlaceholder(ref s) if s == "ph"));
}

#[test]
fn test_set_loading_refetching_when_has_data() {
    let mut client: QueryClient<String> = QueryClient::new();
    let key = QueryKey::new("test");
    client.set_query_data(&key, "data".to_string(), QueryOptions::default(), t0());

    let mut observer: QueryObserver<String> = QueryObserver::new(&client, key, t0());
    observer.set_loading(t0());
    assert!(matches!(observer.state(), QueryState::Refetching(ref s) if s == "data"));
}

#[test]
fn test_observer_new_empty_cache() {
    let client: QueryClient<String> = QueryClient::new();
    let key = QueryKey::new("test");
    let observer: QueryObserver<String> = QueryObserver::new(&client, key.clone(), t0());
    assert!(observer.state().is_idle());
    assert_eq!(observer.key(), &key);
}

#[test]
fn test_observer_new_with_data() {
    let mut client: QueryClient<String> = QueryClient::new();
    let key = QueryKey::new("test");
    client.set_query_data(&key, "hello".to_string(), QueryOptions::default(), t0());

    let observer: QueryObserver<String> = QueryObserver::new(&client, key, t0());
    assert!(observer.state().is_success());
    assert_eq!(observer.state().data(), Some(&"hello".to_string()));
}

#[test]
fn test_observer_new_with_stale_data() {
    let mut client: QueryClient<String> = QueryClient::new();
    let key = QueryKey::new("test");
    let opts = QueryOptions { stale_time: Duration::from_millis(1), ..Default::default() };
    client.set_query_data(&key, "stale".to_string(), opts, t0());

    let observer: QueryObserver<String> = QueryObserver::new(&client, key, Duration::from_millis(5));
    assert!(observer.state().is_stale());
}

#[test]
fn test_observer_with_options() {
    let client: QueryClient<String> = QueryClient::new();
    let opts = QueryOptions { stale_time: Duration::from_secs(60), ..Default::default() };
    let observer: QueryObserver<String> = QueryObserver::with_options(&client, QueryKey::new("test"), opts, t0());
    assert_eq!(observer.options().stale_time, Duration::from_secs(60));
}

#[test]
fn test_observer_set_loading_no_data() {
    let client: QueryClient<String> = QueryClient::new();
    let mut observer: QueryObserver<String> = QueryObserver::new(&client, QueryKey::new("test"), t0());
    observer.set_loading(t0());
    assert!(observer.state().is_loading());
    assert!(observer.fetch_started_at().is_some());
}

#[test]
fn test_observer_set_loading_with_data() {
    let client: QueryClient<String> = QueryClient::new();
    let mut observer: QueryObserver<String> = QueryObserver::new(&client, QueryKey::new("test"), t0());
    observer.set_success("existing".to_string());
    observer.set_loading(t0());
    assert!(observer.state().is_refetching());
    assert_eq!(observer.state().data(), Some(&"existing".to_string()));
}

#[test]
fn test_observer_set_success() {
    let client: QueryClient<String> = QueryClient::new();
    let mut observer: QueryObserver<String> = QueryObserver::new(&client, QueryKey::new("test"), t0());
    observer.set_loading(t0());
    observer.set_success("data".to_string());
    assert!(observer.state().is_success());
    assert_eq!(observer.state().data(), Some(&"data".to_string()));
    assert!(observer.fetch_started_at().is_none());
}

#[test]
fn test_observer_set_error_no_stale_data() {
    let client: QueryClient<String> = QueryClient::new();
    let mut observer: QueryObserver<String> = QueryObserver::new(&client, QueryKey::new("test"), t0());
    observer.set_loading(t0());
    observer.set_error(QueryError::network("fail"));
    assert!(observer.state().is_error());
    assert_eq!(observer.state().data(), None);
}

#[test]
fn test_observer_set_error_with_stale_data() {
    let client: QueryClient<String> = QueryClient::new();
    let mut observer: QueryObserver<String> = QueryObserver::new(&client, QueryKey::new("test"), t0());
    observer.set_success("old".to_string());
    observer.set_error(QueryError::Timeout(Duration::from_secs(30)));
    assert!(observer.state().is_error());
    assert_eq!(observer.state().data(), Some(&"old".to_string()));
}

#[test]
fn test_observer_set_stale() {
    let client: QueryClient<String> = QueryClient::new();
    let mut observer: QueryObserver<String> = QueryObserver::new(&client, QueryKey::new("test"), t0());
    observer.set_success("data".to_string());
    observer.set_stale();
    assert!(observer.state().is_stale());
    assert_eq!(observer.state().data(), Some(&"data".to_string()));
}

#[test]
fn test_observer_set_stale_no_data() {
    let client: QueryClient<String> = QueryClient::new();
    let mut observer: QueryObserver<String> = QueryObserver::new(&client, QueryKey::new("test"), t0());
    observer.set_stale();
    assert!(observer.state().is_idle());
}

#[test]
fn test_observer_update_no_data() {
    let client: QueryClient<String> = QueryClient::new();
    let mut observer: QueryObserver<String> = QueryObserver::new(&client, QueryKey::new("test"), t0());
    observer.set_success("data".to_string());
    observer.update(&client, t0());
    assert!(observer.state().is_idle());
}

#[test]
fn test_observer_update_with_fresh_data() {
    let mut client: QueryClient<String> = QueryClient::new();
    let key = QueryKey::new("test");
    client.set_query_data(&key, "fresh".to_string(), QueryOptions::default(), t0());
    let mut observer: QueryObserver<String> = QueryObserver::new(&client, key, t0());
    observer.set_loading(t0());
    observer.update(&client, t0());
    assert!(observer.state().is_success());
}

#[test]
fn test_observer_update_with_stale_data() {
    let mut client: QueryClient<String> = QueryClient::new();
    let key = QueryKey::new("test");
    let opts = QueryOptions { stale_time: Duration::from_millis(1), ..Default::default() };
    client.set_query_data(&key, "stale".to_string(), opts, t0());
    let now = Duration::from_millis(5);

    let mut observer: QueryObserver<String> = QueryObserver::new(&client, key, now);
    observer.set_loading(now);
    observer.update(&client, now);
    assert!(observer.state().is_stale());
}

#[test]
fn test_observer_update_refetching_to_fresh() {
    let mut client: QueryClient<String> = QueryClient::new();
    let key = QueryKey::new("test");
    client.set_query_data(&key, "fresh".to_string(), QueryOptions::default(), t0());
    let mut observer: QueryObserver<String> = QueryObserver::new(&client, key, t0());
    observer.set_success("old".to_string());
    observer.set_loading(t0());
    observer.update(&client, t0());
    assert!(observer.state().is_success());
}

#[test]
fn test_observer_update_refetching_to_stale() {
    let mut client: QueryClient<String> = QueryClient::new();
    let key = QueryKey::new("test");
    let opts = QueryOptions { stale_time: Duration::from_millis(1), ..Default::default() };
    client.set_query_data(&key, "stale".to_string(), opts, t0());
    let now = Duration::from_millis(5);

    let mut observer: QueryObserver<String> = QueryObserver::new(&client, key, now);
    observer.set_success("old".to_string());
    observer.set_loading(now);
    observer.update(&client, now);
    assert!(observer.state().is_stale());
}

#[test]
fn test_observer_try_recv_empty() {
    let mut client: QueryClient<String> = QueryClient::new();
    let mut observer: QueryObserver<String> = QueryObserver::new(&client, QueryKey::new("test"), t0());
    deliver(&mut observer, &mut client, t0());
    assert!(observer.state().is_idle());
}

#[test]
fn test_observer_try_recv_lagged() {
    let mut client: QueryClient<String> = QueryClient::new();
    let key = QueryKey::new("test");
    let cache_key = key.cache_key();
    let mut observer: QueryObserver<String> = QueryObserver::new(&client, key, t0());

    for _ in 0..20 {
        client.notify_subscribers(&cache_key, QueryStateVariant::Success);
    }

    deliver(&mut observer, &mut client, t0());
    // Nothing is cached, so the notices leave the state as it was.
    assert!(observer.state().is_idle());
}

#[test]
fn test_observer_refetch() {
    let mut client: QueryClient<String> = QueryClient::new();
    let key = QueryKey::new("test");
    client.set_query_data(&key, "data".to_string(), QueryOptions::default(), t0());
    let observer: QueryObserver<String> = QueryObserver::new(&client, key.clone(), t0());
    observer.refetch(&mut client);
    assert!(client.is_stale(&key, t0()));
}

#[test]
fn test_observer_clone() {
    let client: QueryClient<String> = QueryClient::new();
    let key = QueryKey::new("test");
    let observer: QueryObserver<String> = QueryObserver::new(&client, key.clone(), t0());
    let cloned = observer.clone();
    assert_eq!(cloned.key(), &key);
    assert!(cloned.state().is_idle());
}

#[test]
fn notices_move_observer_through_states() {
    let mut client: QueryClient<String> = QueryClient::new();
    let key = QueryKey::new("test");
    let mut observer: QueryObserver<String> = QueryObserver::new(&client, key.clone(), t0());

    client.set_query_data(&key, "v1".to_string(), QueryOptions::default(), t0());
    deliver(&mut observer, &mut client, t0());
    assert!(matches!(observer.state(), QueryState::Success(ref s) if s == "v1"));

    client.invalidate_queries(&key);
    deliver(&mut observer, &mut client, t0());
    assert!(matches!(observer.state(), QueryState::Stale(ref s) if s == "v1"));

    observer.handle_update(QueryStateVariant::Loading, &client, Duration::from_secs(2));
    assert!(matches!(observer.state(), QueryState::Refetching(ref s) if s == "v1"));
    assert_eq!(observer.fetch_started_at(), Some(Duration::from_secs(2)));
    assert_eq!(observer.fetch_duration(Duration::from_secs(5)), Some(Duration::from_secs(3)));

    observer.handle_update(QueryStateVariant::Error, &client, t0());
    assert!(observer.state().is_refetching());

    observer.handle_update(QueryStateVariant::Idle, &client, t0());
    assert!(observer.state().is_idle());
}

#[test]
fn fetch_duration_none_without_fetch() {
    let client: QueryClient<String> = QueryClient::new();
    let observer: QueryObserver<String> = QueryObserver::new(&client, QueryKey::new("k"), t0());
    assert_eq!(observer.fetch_duration(Duration::from_secs(1)), None);
}

#[test]
fn new_observer_takes_stored_options() {
    let mut client: QueryClient<String> = QueryClient::new();
    let key = QueryKey::new("k");
    let opts = QueryOptions { gc_time: Duration::from_secs(9), ..Default::default() };
    client.set_query_data(&key, "x".to_string(), opts, t0());
    let observer: QueryObserver<String> = QueryObserver::new(&client, key, t0());
    assert_eq!(observer.options().gc_time, Duration::from_secs(9));
}

#[test]
fn apply_updates_takes_only_the_observed_key_in_order() {
    let mut client: QueryClient<String> = QueryClient::new();
    let key = QueryKey::new("mine");
    client.set_query_data(&key, "v".to_string(), QueryOptions::default(), t0());
    client.take_updates();
    let mut observer: QueryObserver<String> = QueryObserver::new(&client, key.clone(), t0());
    client.notify_subscribers("other", QueryStateVariant::Idle);
    client.notify_subscribers("mine", QueryStateVariant::Loading);
    client.notify_subscribers("other", QueryStateVariant::Success);
    let updates = client.take_updates();
    observer.apply_updates(&updates, &client, Duration::from_secs(4));
    assert!(matches!(observer.state(), QueryState::Refetching(ref s) if s == "v"));
    assert_eq!(observer.fetch_started_at(), Some(Duration::from_secs(4)));

    client.notify_subscribers("mine", QueryStateVariant::Stale);
    client.notify_subscribers("mine", QueryStateVariant::Error);
    let updates = client.take_updates();
    observer.apply_updates(&updates, &client, t0());
    assert!(matches!(observer.state(), QueryState::Stale(ref s) if s == "v"));
}
