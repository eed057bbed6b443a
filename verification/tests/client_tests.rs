use rs_query::{ActivityEvent, Duration, InFlightTask, InfiniteData, QueryClient, QueryKey, QueryOptions, QueryStateVariant};
use tokio_util::sync::CancellationToken;

fn secs(s: u64) -> Duration {
    Duration::from_secs(s)
}

fn millis(ms: u64) -> Duration {
    Duration::from_millis(ms)
}

fn with_stale_time(d: Duration) -> QueryOptions {
    QueryOptions { stale_time: d, ..Default::default() }
}

fn sleeping_task(rt: &tokio::runtime::Runtime) -> InFlightTask {
    let handle = rt.spawn(async {
        tokio::time::sleep(std::time::Duration::from_secs(100)).await;
    });
    InFlightTask { abort_handle: handle.abort_handle(), cancel_token: CancellationToken::new() }
}

fn runtime() -> tokio::runtime::Runtime {
    tokio::runtime::Builder::new_current_thread().enable_time().build().unwrap()
}

#[test]
fn test_set_and_get_query_data() {
    let mut client: QueryClient<String> = QueryClient::new();
    let key = QueryKey::new("test");
    let data = "hello".to_string();

    client.set_query_data(&key, data.clone(), QueryOptions::default(), Duration::zero());
    let retrieved = client.get_query_data(&key).cloned();
    assert_eq!(retrieved, Some(data));
}

#[test]
fn test_get_query_data_stale() {
    let mut client: QueryClient<String> = QueryClient::new();
    let key = QueryKey::new("test");
    let data = "hello".to_string();

    client.set_query_data(&key, data.clone(), with_stale_time(millis(10)), Duration::zero());
    let now = millis(20);

    // Stale data is still returned, and the client knows it is stale.
    assert_eq!(client.get_query_data(&key).cloned(), Some(data));
    assert!(client.is_stale(&key, now));
}

#[test]
fn test_invalidate_queries() {
    let mut client: QueryClient<String> = QueryClient::new();
    let key1 = QueryKey::new("users").with("id", 1);
    let key2 = QueryKey::new("users").with("id", 2);
    let data = "user".to_string();

    client.set_query_data(&key1, data.clone(), QueryOptions::default(), Duration::zero());
    client.set_query_data(&key2, data.clone(), QueryOptions::default(), Duration::zero());

    client.invalidate_queries(&QueryKey::new("users"));

    assert!(client.is_stale(&key1, Duration::zero()));
    assert!(client.is_stale(&key2, Duration::zero()));
}

#[test]
fn test_invalidate_queries_exact_match() {
    let mut client: QueryClient<String> = QueryClient::new();
    let key1 = QueryKey::new("users").with("id", 1);
    let key2 = QueryKey::new("users").with("id", 2);
    let data = "user".to_string();

    client.set_query_data(&key1, data.clone(), QueryOptions::default(), Duration::zero());
    client.set_query_data(&key2, data.clone(), QueryOptions::default(), Duration::zero());

    client.invalidate_queries(&key1);

    assert!(client.is_stale(&key1, Duration::zero()));
    assert!(!client.is_stale(&key2, Duration::zero()));
}

#[test]
fn test_subscribe_and_notify() {
    let mut client: QueryClient<String> = QueryClient::new();
    let key = QueryKey::new("test");
    let cache_key = key.cache_key();

    client.set_query_data(&key, "data".to_string(), QueryOptions::default(), Duration::zero());

    let updates = client.take_updates();
    assert_eq!(updates.len(), 1);
    assert_eq!(updates[0].key, cache_key);
    assert!(matches!(updates[0].state_variant, QueryStateVariant::Success));
    assert!(client.take_updates().is_empty());
}

#[test]
fn test_garbage_collection() {
    let mut client: QueryClient<String> = QueryClient::new();
    let key = QueryKey::new("test");
    let options = QueryOptions { gc_time: millis(50), ..Default::default() };

    client.set_query_data(&key, "data".to_string(), options, Duration::zero());
    assert!(client.get_query_data(&key).is_some());

    client.gc(millis(60));

    assert!(client.get_query_data(&key).is_none());
}

#[test]
fn test_refetch_all_stale() {
    let mut client: QueryClient<String> = QueryClient::new();
    let key = QueryKey::new("test");
    let options = QueryOptions { stale_time: millis(10), refetch_on_window_focus: true, ..Default::default() };

    client.set_query_data(&key, "data".to_string(), options, Duration::zero());
    client.take_updates();
    let now = millis(20);

    assert!(client.is_stale(&key, now));

    client.refetch_all_stale(now);
    let updates = client.take_updates();
    assert_eq!(updates.len(), 1);
    assert_eq!(updates[0].key, "test");
    assert_eq!(updates[0].state_variant, QueryStateVariant::Stale);
}

#[test]
fn test_is_in_flight_and_abort_handle() {
    let rt = runtime();
    let mut client: QueryClient<String> = QueryClient::new();
    let key = QueryKey::new("test");

    assert!(!client.is_in_flight(&key));

    client.set_in_flight(&key, sleeping_task(&rt));
    assert!(client.is_in_flight(&key));

    client.clear_in_flight(&key);
    assert!(!client.is_in_flight(&key));
}

#[test]
fn test_get_query_options() {
    let mut client: QueryClient<String> = QueryClient::new();
    let key = QueryKey::new("test");
    let options = QueryOptions { stale_time: secs(60), gc_time: secs(300), ..Default::default() };

    assert!(client.get_query_options(&key).is_none());

    client.set_query_data(&key, "data".to_string(), options, Duration::zero());
    let retrieved = client.get_query_options(&key).unwrap();
    assert_eq!(retrieved.stale_time, secs(60));
    assert_eq!(retrieved.gc_time, secs(300));
}

#[test]
fn test_get_infinite_data() {
    let mut client: QueryClient<InfiniteData<Vec<i32>, i32>> = QueryClient::new();
    let key = QueryKey::new("test");

    assert!(client.get_infinite_data(&key).is_none());

    let data = InfiniteData::with_first_page(vec![1, 2, 3], 0);
    client.set_query_data(&key, data.clone(), QueryOptions::default(), Duration::zero());

    let retrieved = client.get_infinite_data(&key).unwrap();
    assert_eq!(retrieved.page_count(), 1);
    assert_eq!(retrieved.pages[0], vec![1, 2, 3]);
}

#[test]
fn test_set_infinite_data() {
    let mut client: QueryClient<InfiniteData<Vec<i32>, i32>> = QueryClient::new();
    let key = QueryKey::new("test");
    let data = InfiniteData::with_first_page(vec![1, 2, 3], 0);
    client.set_infinite_data(&key, data, QueryOptions::default(), Duration::zero());

    let retrieved = client.get_query_data(&key).cloned();
    assert!(retrieved.is_some());
    assert_eq!(retrieved.unwrap().pages[0], vec![1, 2, 3]);
}

#[test]
fn test_is_stale_no_cache() {
    let client: QueryClient<String> = QueryClient::new();
    let key = QueryKey::new("nonexistent");
    assert!(!client.is_stale(&key, Duration::zero()));
}

#[test]
fn test_is_stale_not_stale() {
    let mut client: QueryClient<String> = QueryClient::new();
    let key = QueryKey::new("test");
    client.set_query_data(&key, "data".to_string(), QueryOptions::default(), Duration::zero());
    assert!(!client.is_stale(&key, Duration::zero()));
}

#[test]
fn test_is_stale_flag_stale() {
    let mut client: QueryClient<String> = QueryClient::new();
    let key = QueryKey::new("test");
    client.set_query_data(&key, "data".to_string(), QueryOptions::default(), Duration::zero());
    client.invalidate_queries(&key);
    assert!(client.is_stale(&key, Duration::zero()));
}

#[test]
fn test_is_stale_zero_stale_time() {
    let mut client: QueryClient<String> = QueryClient::new();
    let key = QueryKey::new("test");
    // A zero stale time never makes data stale by age.
    client.set_query_data(&key, "data".to_string(), with_stale_time(Duration::zero()), Duration::zero());
    assert!(!client.is_stale(&key, millis(10)));
}

#[test]
fn test_get_query_data_no_cache() {
    let client: QueryClient<String> = QueryClient::new();
    let key = QueryKey::new("nonexistent");
    assert!(client.get_query_data(&key).is_none());
}

#[test]
fn test_set_query_data_structural_sharing_disabled() {
    let mut client: QueryClient<String> = QueryClient::new();
    let key = QueryKey::new("test");
    let options = QueryOptions { structural_sharing: false, ..Default::default() };

    client.set_query_data(&key, "first".to_string(), options, Duration::zero());
    client.set_query_data(&key, "second".to_string(), options, Duration::zero());

    assert_eq!(client.get_query_data(&key).cloned(), Some("second".to_string()));
}

#[test]
fn test_set_query_data_structural_sharing_enabled_no_old_data() {
    let mut client: QueryClient<String> = QueryClient::new();
    let key = QueryKey::new("test");
    let options = QueryOptions { structural_sharing: true, ..Default::default() };

    client.set_query_data(&key, "data".to_string(), options, Duration::zero());
    assert_eq!(client.get_query_data(&key).cloned(), Some("data".to_string()));
}

#[test]
fn client_test_append_infinite_page() {
    let mut client: QueryClient<InfiniteData<Vec<i32>, i32>> = QueryClient::new();
    let key = QueryKey::new("test");

    let data = InfiniteData::with_first_page(vec![1, 2], 0);
    client.set_query_data(&key, data, QueryOptions::default(), Duration::zero());

    let result = client.append_infinite_page(&key, vec![3, 4], 1, None, Duration::zero());
    assert!(result.is_some());
    let result = result.unwrap();
    assert_eq!(result.page_count(), 2);
    assert_eq!(result.pages[0], vec![1, 2]);
    assert_eq!(result.pages[1], vec![3, 4]);
    assert_eq!(result.page_params, vec![0, 1]);
}

#[test]
fn client_test_append_infinite_page_with_max_pages_eviction() {
    let mut client: QueryClient<InfiniteData<Vec<i32>, i32>> = QueryClient::new();
    let key = QueryKey::new("test");

    let data = InfiniteData::with_first_page(vec![1], 0);
    client.set_query_data(&key, data, QueryOptions::default(), Duration::zero());

    client.append_infinite_page(&key, vec![2], 1, Some(2), Duration::zero());

    let result = client.append_infinite_page(&key, vec![3], 2, Some(2), Duration::zero());
    assert!(result.is_some());
    let result = result.unwrap();
    assert_eq!(result.page_count(), 2);
    assert_eq!(result.pages[0], vec![2]);
    assert_eq!(result.pages[1], vec![3]);
}

#[test]
fn client_test_append_infinite_page_with_max_pages_no_eviction() {
    let mut client: QueryClient<InfiniteData<Vec<i32>, i32>> = QueryClient::new();
    let key = QueryKey::new("test");

    let data = InfiniteData::with_first_page(vec![1], 0);
    client.set_query_data(&key, data, QueryOptions::default(), Duration::zero());

    let result = client.append_infinite_page(&key, vec![2], 1, Some(3), Duration::zero());
    assert!(result.is_some());
    assert_eq!(result.unwrap().page_count(), 2);
}

#[test]
fn client_test_append_infinite_page_no_existing_data() {
    let mut client: QueryClient<InfiniteData<Vec<i32>, i32>> = QueryClient::new();
    let key = QueryKey::new("test");
    let result = client.append_infinite_page(&key, vec![1], 0, None, Duration::zero());
    assert!(result.is_none());
}

#[test]
fn client_test_prepend_infinite_page() {
    let mut client: QueryClient<InfiniteData<Vec<i32>, i32>> = QueryClient::new();
    let key = QueryKey::new("test");

    let data = InfiniteData::with_first_page(vec![3, 4], 1);
    client.set_query_data(&key, data, QueryOptions::default(), Duration::zero());

    let result = client.prepend_infinite_page(&key, vec![1, 2], 0, None, Duration::zero());
    assert!(result.is_some());
    let result = result.unwrap();
    assert_eq!(result.page_count(), 2);
    assert_eq!(result.pages[0], vec![1, 2]);
    assert_eq!(result.pages[1], vec![3, 4]);
    assert_eq!(result.page_params, vec![0, 1]);
}

#[test]
fn client_test_prepend_infinite_page_with_max_pages_eviction() {
    let mut client: QueryClient<InfiniteData<Vec<i32>, i32>> = QueryClient::new();
    let key = QueryKey::new("test");

    let data = InfiniteData::with_first_page(vec![3], 2);
    client.set_query_data(&key, data, QueryOptions::default(), Duration::zero());

    client.prepend_infinite_page(&key, vec![2], 1, Some(2), Duration::zero());
    let result = client.prepend_infinite_page(&key, vec![1], 0, Some(2), Duration::zero());

    assert!(result.is_some());
    let result = result.unwrap();
    assert_eq!(result.page_count(), 2);
    assert_eq!(result.pages[0], vec![1]);
    assert_eq!(result.pages[1], vec![2]);
    assert_eq!(result.page_params, vec![0, 1]);
}

#[test]
fn client_test_prepend_infinite_page_with_max_pages_no_eviction() {
    let mut client: QueryClient<InfiniteData<Vec<i32>, i32>> = QueryClient::new();
    let key = QueryKey::new("test");

    let data = InfiniteData::with_first_page(vec![2], 1);
    client.set_query_data(&key, data, QueryOptions::default(), Duration::zero());

    let result = client.prepend_infinite_page(&key, vec![1], 0, Some(3), Duration::zero());
    assert!(result.is_some());
    assert_eq!(result.unwrap().page_count(), 2);
}

#[test]
fn client_test_prepend_infinite_page_no_existing_data() {
    let mut client: QueryClient<InfiniteData<Vec<i32>, i32>> = QueryClient::new();
    let key = QueryKey::new("test");
    let result = client.prepend_infinite_page(&key, vec![1], 0, None, Duration::zero());
    assert!(result.is_none());
}

#[test]
fn test_invalidate_queries_with_abort_handle() {
    let rt = runtime();
    let mut client: QueryClient<String> = QueryClient::new();
    let key = QueryKey::new("test");
    client.set_query_data(&key, "data".to_string(), QueryOptions::default(), Duration::zero());

    client.set_in_flight(&key, sleeping_task(&rt));
    assert!(client.is_in_flight(&key));

    // Invalidation cancels the in-flight fetch.
    client.invalidate_queries(&key);

    assert!(!client.is_in_flight(&key));
    assert!(client.is_stale(&key, Duration::zero()));
}

#[test]
fn test_cancel_query_with_handle() {
    let rt = runtime();
    let mut client: QueryClient<String> = QueryClient::new();
    let key = QueryKey::new("test");

    let task = sleeping_task(&rt);
    let token = task.cancel_token.clone();
    client.set_in_flight(&key, task);
    assert!(client.is_in_flight(&key));

    client.cancel_query(&key);

    assert!(!client.is_in_flight(&key));
    assert!(token.is_cancelled());
}

#[test]
fn test_cancel_query_no_handle() {
    let mut client: QueryClient<String> = QueryClient::new();
    let key = QueryKey::new("test");
    client.cancel_query(&key);
    assert!(!client.is_in_flight(&key));
}

#[test]
fn test_clear_with_abort_handles() {
    let rt = runtime();
    let mut client: QueryClient<String> = QueryClient::new();
    let key1 = QueryKey::new("test1");
    let key2 = QueryKey::new("test2");

    client.set_in_flight(&key1, sleeping_task(&rt));
    client.set_in_flight(&key2, sleeping_task(&rt));

    assert!(client.is_in_flight(&key1));
    assert!(client.is_in_flight(&key2));

    client.clear();

    assert!(!client.is_in_flight(&key1));
    assert!(!client.is_in_flight(&key2));
}

#[test]
fn test_clear_empty() {
    let mut client: QueryClient<String> = QueryClient::new();
    client.clear();
    assert!(client.entries().is_empty());
}

#[test]
fn test_refetch_all_stale_not_stale() {
    let mut client: QueryClient<String> = QueryClient::new();
    let key = QueryKey::new("test");
    let options = QueryOptions { stale_time: secs(60), refetch_on_window_focus: true, ..Default::default() };

    client.set_query_data(&key, "data".to_string(), options, Duration::zero());
    client.take_updates();

    client.refetch_all_stale(Duration::zero());
    assert!(!client.is_stale(&key, Duration::zero()));
    assert!(client.take_updates().is_empty());
}

#[test]
fn test_refetch_all_stale_refetch_disabled() {
    let mut client: QueryClient<String> = QueryClient::new();
    let key = QueryKey::new("test");
    let options = QueryOptions { stale_time: millis(1), refetch_on_window_focus: false, ..Default::default() };

    client.set_query_data(&key, "data".to_string(), options, Duration::zero());
    client.take_updates();
    let now = millis(5);

    assert!(client.is_stale(&key, now));

    client.refetch_all_stale(now);
    assert!(client.is_stale(&key, now));
    assert!(client.take_updates().is_empty());
}

#[test]
fn test_refetch_all_stale_empty_cache() {
    let mut client: QueryClient<String> = QueryClient::new();
    client.refetch_all_stale(Duration::zero());
    assert!(client.take_updates().is_empty());
}

#[test]
fn test_refetch_all_stale_flag_stale_with_refetch_enabled() {
    let mut client: QueryClient<String> = QueryClient::new();
    let key = QueryKey::new("test");
    let options = QueryOptions { stale_time: Duration::zero(), refetch_on_window_focus: true, ..Default::default() };

    client.set_query_data(&key, "data".to_string(), options, Duration::zero());
    client.invalidate_queries(&key);
    client.take_updates();

    client.refetch_all_stale(Duration::zero());
    assert!(client.is_stale(&key, Duration::zero()));
    let updates = client.take_updates();
    assert_eq!(updates.len(), 1);
    assert_eq!(updates[0].state_variant, QueryStateVariant::Stale);
}

#[test]
fn test_notify_subscribers_no_subscribers() {
    let mut client: QueryClient<String> = QueryClient::new();
    client.notify_subscribers("nonexistent", QueryStateVariant::Success);
    let updates = client.take_updates();
    assert_eq!(updates.len(), 1);
    assert_eq!(updates[0].key, "nonexistent");
}

#[test]
fn test_client_default() {
    let client: QueryClient<String> = QueryClient::default();
    assert!(client.entries().is_empty());
}

#[test]
fn test_gc_retains_fresh_entries() {
    let mut client: QueryClient<String> = QueryClient::new();
    let key = QueryKey::new("test");
    let options = QueryOptions { gc_time: secs(300), ..Default::default() };

    client.set_query_data(&key, "data".to_string(), options, Duration::zero());
    client.gc(Duration::zero());
    assert!(client.get_query_data(&key).is_some());
}

#[test]
fn test_invalidate_queries_no_matching_keys() {
    let mut client: QueryClient<String> = QueryClient::new();
    let key = QueryKey::new("users");
    client.set_query_data(&key, "data".to_string(), QueryOptions::default(), Duration::zero());

    client.invalidate_queries(&QueryKey::new("posts"));
    assert!(!client.is_stale(&key, Duration::zero()));
}

#[test]
fn test_invalidate_queries_prefix_match() {
    let mut client: QueryClient<String> = QueryClient::new();
    let key1 = QueryKey::new("users").with("id", 1);
    let key2 = QueryKey::new("users").with("id", 2);
    let key3 = QueryKey::new("posts").with("id", 1);

    client.set_query_data(&key1, "u1".to_string(), QueryOptions::default(), Duration::zero());
    client.set_query_data(&key2, "u2".to_string(), QueryOptions::default(), Duration::zero());
    client.set_query_data(&key3, "p1".to_string(), QueryOptions::default(), Duration::zero());

    client.invalidate_queries(&QueryKey::new("users"));

    assert!(client.is_stale(&key1, Duration::zero()));
    assert!(client.is_stale(&key2, Duration::zero()));
    assert!(!client.is_stale(&key3, Duration::zero()));
}

#[test]
fn test_subscribe_creates_sender_lazily() {
    let mut client: QueryClient<String> = QueryClient::new();
    let cache_key = "new_key".to_string();

    client.notify_subscribers(&cache_key, QueryStateVariant::Loading);

    let updates = client.take_updates();
    assert_eq!(updates.len(), 1);
    assert!(matches!(updates[0].state_variant, QueryStateVariant::Loading));
}

#[test]
fn test_set_query_data_resets_stale_flag() {
    let mut client: QueryClient<String> = QueryClient::new();
    let key = QueryKey::new("test");

    client.set_query_data(&key, "data".to_string(), QueryOptions::default(), Duration::zero());
    client.invalidate_queries(&key);
    assert!(client.is_stale(&key, Duration::zero()));

    client.set_query_data(&key, "fresh".to_string(), QueryOptions::default(), Duration::zero());
    assert!(!client.is_stale(&key, Duration::zero()));
}

#[test]
fn test_is_fetching_reflects_counter() {
    let mut client: QueryClient<String> = QueryClient::new();
    assert!(!client.is_fetching());
    client.inc_fetching();
    assert!(client.is_fetching());
    client.dec_fetching();
    assert!(!client.is_fetching());
}

#[test]
fn test_is_mutating_reflects_counter() {
    let mut client: QueryClient<String> = QueryClient::new();
    assert!(!client.is_mutating());
    client.inc_mutating();
    assert!(client.is_mutating());
    client.dec_mutating();
    assert!(!client.is_mutating());
}

#[test]
fn test_fetching_count_exact() {
    let mut client: QueryClient<String> = QueryClient::new();
    assert_eq!(client.fetching_count(), 0);
    client.inc_fetching();
    assert_eq!(client.fetching_count(), 1);
    client.inc_fetching();
    assert_eq!(client.fetching_count(), 2);
    client.dec_fetching();
    assert_eq!(client.fetching_count(), 1);
}

#[test]
fn test_activity_events_emitted() {
    let mut client: QueryClient<String> = QueryClient::new();

    client.inc_fetching();
    client.inc_mutating();
    client.dec_fetching();
    client.dec_mutating();

    let events = client.take_activity();
    assert_eq!(
        events,
        vec![
            ActivityEvent::FetchingCountChanged(1),
            ActivityEvent::MutatingCountChanged(1),
            ActivityEvent::FetchingCountChanged(0),
            ActivityEvent::MutatingCountChanged(0),
        ]
    );
    assert!(client.take_activity().is_empty());
}

#[test]
fn set_in_flight_replaces_previous_task_without_cancelling_it() {
    let rt = runtime();
    let mut client: QueryClient<String> = QueryClient::new();
    let key = QueryKey::new("test");
    let first = sleeping_task(&rt);
    let first_token = first.cancel_token.clone();
    client.set_in_flight(&key, first);
    client.set_in_flight(&key, sleeping_task(&rt));
    assert!(client.is_in_flight(&key));
    assert!(!first_token.is_cancelled());
}

#[test]
fn gc_keeps_entries_younger_than_gc_time_only() {
    let mut client: QueryClient<String> = QueryClient::new();
    let short = QueryKey::new("short");
    let long = QueryKey::new("long");
    client.set_query_data(&short, "s".to_string(), QueryOptions { gc_time: millis(50), ..Default::default() }, Duration::zero());
    client.set_query_data(&long, "l".to_string(), QueryOptions { gc_time: secs(10), ..Default::default() }, Duration::zero());
    // Exactly at the gc time the entry goes.
    client.gc(millis(50));
    assert!(client.get_query_data(&short).is_none());
    assert_eq!(client.get_query_data(&long).cloned(), Some("l".to_string()));
}

#[test]
fn stale_only_after_stale_time_has_passed() {
    let mut client: QueryClient<String> = QueryClient::new();
    let key = QueryKey::new("k");
    client.set_query_data(&key, "v".to_string(), with_stale_time(millis(10)), millis(100));
    assert!(!client.is_stale(&key, millis(110)));
    assert!(client.is_stale(&key, millis(111)));
    // A clock reading before the write counts as no age at all.
    assert!(!client.is_stale(&key, millis(5)));
}

#[test]
fn invalidation_notes_stale_for_each_matching_key_in_order() {
    let mut client: QueryClient<String> = QueryClient::new();
    client.set_query_data(&QueryKey::new("users").with("id", 1), "a".to_string(), QueryOptions::default(), Duration::zero());
    client.set_query_data(&QueryKey::new("posts"), "b".to_string(), QueryOptions::default(), Duration::zero());
    client.set_query_data(&QueryKey::new("users").with("id", 2), "c".to_string(), QueryOptions::default(), Duration::zero());
    client.take_updates();
    client.invalidate_queries(&QueryKey::new("users"));
    let updates = client.take_updates();
    let keys: Vec<String> = updates.iter().map(|u| u.key.clone()).collect();
    assert_eq!(keys, vec!["users::id=1".to_string(), "users::id=2".to_string()]);
    assert!(updates.iter().all(|u| u.state_variant == QueryStateVariant::Stale));
}

#[test]
fn invalidation_keeps_data() {
    let mut client: QueryClient<String> = QueryClient::new();
    let key = QueryKey::new("users");
    client.set_query_data(&key, "kept".to_string(), QueryOptions::default(), Duration::zero());
    client.invalidate_queries(&key);
    assert_eq!(client.get_query_data(&key).cloned(), Some("kept".to_string()));
}

#[test]
fn replace_query_data_keeps_options_and_needs_an_entry() {
    let mut client: QueryClient<String> = QueryClient::new();
    let key = QueryKey::new("k");
    assert!(!client.replace_query_data(&key, "x".to_string(), Duration::zero()));
    assert!(client.get_query_data(&key).is_none());
    client.set_query_data(&key, "a".to_string(), with_stale_time(secs(7)), Duration::zero());
    assert!(client.replace_query_data(&key, "b".to_string(), secs(1)));
    assert_eq!(client.get_query_data(&key).cloned(), Some("b".to_string()));
    assert_eq!(client.get_query_options(&key).unwrap().stale_time, secs(7));
}

#[test]
fn contains_cache_key_after_set() {
    let mut client: QueryClient<String> = QueryClient::new();
    client.set_query_data(&QueryKey::new("users").with("id", 3), "u".to_string(), QueryOptions::default(), Duration::zero());
    assert!(client.contains_cache_key("users::id=3"));
    assert!(!client.contains_cache_key("users"));
}

#[test]
fn remove_query_drops_only_that_key() {
    let mut client: QueryClient<String> = QueryClient::new();
    client.set_query_data(&QueryKey::new("a"), "1".to_string(), QueryOptions::default(), Duration::zero());
    client.set_query_data(&QueryKey::new("b"), "2".to_string(), QueryOptions::default(), Duration::zero());
    assert!(client.remove_query("a"));
    assert!(!client.remove_query("a"));
    assert!(client.get_query_data(&QueryKey::new("a")).is_none());
    assert_eq!(client.get_query_data(&QueryKey::new("b")).cloned(), Some("2".to_string()));
}

#[test]
fn invalidate_matches_whole_segments_only() {
    let mut client: QueryClient<String> = QueryClient::new();
    let one = QueryKey::new("users").with("id", 1);
    let ten = QueryKey::new("users").with("id", 10);
    let users2 = QueryKey::new("users2");
    let users = QueryKey::new("users");
    client.set_query_data(&one, "1".to_string(), QueryOptions::default(), Duration::zero());
    client.set_query_data(&ten, "10".to_string(), QueryOptions::default(), Duration::zero());
    client.set_query_data(&users2, "u2".to_string(), QueryOptions::default(), Duration::zero());
    client.set_query_data(&users, "all".to_string(), QueryOptions::default(), Duration::zero());
    client.take_updates();

    client.invalidate_queries(&QueryKey::new("users").with("id", 1));
    assert!(client.is_stale(&one, Duration::zero()));
    assert!(!client.is_stale(&ten, Duration::zero()));
    assert!(!client.is_stale(&users2, Duration::zero()));
    assert!(!client.is_stale(&users, Duration::zero()));

    client.invalidate_queries(&QueryKey::new("users"));
    assert!(client.is_stale(&ten, Duration::zero()));
    assert!(client.is_stale(&users, Duration::zero()));
    assert!(!client.is_stale(&users2, Duration::zero()));
    let notes: Vec<String> = client.take_updates().into_iter().map(|u| u.key).collect();
    assert_eq!(notes, vec!["users::id=1".to_string(), "users::id=1".to_string(), "users::id=10".to_string(), "users".to_string()]);
}
