use std::sync::atomic::{AtomicBool, AtomicUsize, Ordering};
use std::sync::{Arc, Mutex};
use rs_query::{Duration, Mutation, QueryClient, QueryError, QueryKey, QueryOptions, RollbackFn};

type Client = Mutex<QueryClient<String>>;

fn run<T>(f: impl std::future::Future<Output = T>) -> T {
    tokio::runtime::Builder::new_current_thread().build().unwrap().block_on(f)
}

fn set(client: &Client, key: &QueryKey, data: &str) {
    client.lock().unwrap().set_query_data(key, data.to_string(), QueryOptions::default(), Duration::zero());
}

fn get(client: &Client, key: &QueryKey) -> Option<String> {
    client.lock().unwrap().get_query_data(key).cloned()
}

fn formatted() -> Mutation<String, i32, Client> {
    Mutation::new(|param: i32| async move { Ok(format!("result_{}", param)) })
}

#[test]
fn test_mutation_creation() {
    let mutation = formatted();
    assert_eq!(mutation.invalidates_keys.len(), 0);
    assert!(mutation.on_mutate.is_none());
    assert!(mutation.on_success.is_none());
    assert!(mutation.on_error.is_none());
    assert_eq!(run((mutation.mutate_fn.f)(42)).unwrap(), "result_42");
}

#[test]
fn test_mutation_with_invalidation() {
    let mutation = formatted().invalidates_key(QueryKey::new("users")).invalidates_key(QueryKey::new("posts"));
    assert_eq!(mutation.invalidates_keys.len(), 2);
    assert_eq!(run((mutation.mutate_fn.f)(1)).unwrap(), "result_1");
}

#[test]
fn test_mutation_with_on_mutate() {
    let key = QueryKey::new("users");
    let key_for_test = key.clone();
    let mutation = formatted().on_mutate(move |client: &Client, _params: &i32| {
        set(client, &key, "optimistic");
        let key_for_rollback = key.clone();
        Ok(RollbackFn::new(move |client: &Client| set(client, &key_for_rollback, "rolled_back")))
    });
    assert!(mutation.on_mutate.is_some());

    let client: Client = Mutex::new(QueryClient::new());
    let rollback = mutation.on_mutate.as_ref().unwrap().call(&client, &1).unwrap();
    assert_eq!(get(&client, &key_for_test), Some("optimistic".to_string()));
    rollback.call(&client);
    assert_eq!(get(&client, &key_for_test), Some("rolled_back".to_string()));
    assert_eq!(run((mutation.mutate_fn.f)(5)).unwrap(), "result_5");
}

#[test]
fn test_mutation_invalidates_vec() {
    let mutation = formatted().invalidates(vec![QueryKey::new("users"), QueryKey::new("posts")]);
    assert_eq!(mutation.invalidates_keys.len(), 2);
    assert_eq!(run((mutation.mutate_fn.f)(3)).unwrap(), "result_3");
}

#[test]
fn test_mutation_invalidates_vec_empty() {
    let mutation = formatted().invalidates(vec![]);
    assert_eq!(mutation.invalidates_keys.len(), 0);
    assert_eq!(run((mutation.mutate_fn.f)(9)).unwrap(), "result_9");
}

#[test]
fn test_mutation_on_success() {
    let called = Arc::new(AtomicBool::new(false));
    let called_clone = called.clone();
    let mutation = formatted().on_success(move |_data: &String, _params: &i32| {
        called_clone.store(true, Ordering::SeqCst);
    });
    mutation.on_success.as_ref().unwrap().call(&"result_1".to_string(), &1);
    assert!(called.load(Ordering::SeqCst));
}

#[test]
fn test_mutation_on_error() {
    let called = Arc::new(AtomicBool::new(false));
    let called_clone = called.clone();
    let mutation = formatted().on_error(move |_error: &QueryError, _params: &i32| {
        called_clone.store(true, Ordering::SeqCst);
    });
    mutation.on_error.as_ref().unwrap().call(&QueryError::custom("fail"), &1);
    assert!(called.load(Ordering::SeqCst));
}

#[test]
fn test_mutation_clone() {
    let called = Arc::new(AtomicBool::new(false));
    let called_clone = called.clone();
    let mutation = formatted().invalidates_key(QueryKey::new("users")).on_success(move |_d: &String, _p: &i32| {
        called_clone.store(true, Ordering::SeqCst);
    });
    let cloned = mutation.clone();
    assert_eq!(cloned.invalidates_keys.len(), 1);
    assert!(cloned.on_success.is_some());
    cloned.on_success.as_ref().unwrap().call(&"data".to_string(), &1);
    assert!(called.load(Ordering::SeqCst));
    assert_eq!(run((cloned.mutate_fn.f)(11)).unwrap(), "result_11");
}

#[test]
fn test_mutation_on_mutate_returns_error() {
    let client: Client = Mutex::new(QueryClient::new());
    let mutation = formatted()
        .on_mutate(|_client: &Client, _params: &i32| Err(QueryError::custom("optimistic failed")));
    assert!(mutation.on_mutate.as_ref().unwrap().call(&client, &1).is_err());
}

#[test]
fn test_mutation_fn_executes_error() {
    let mutation: Mutation<String, i32, Client> =
        Mutation::new(|_param: i32| async move { Err(QueryError::custom("fail")) });
    let result = run((mutation.mutate_fn.f)(1));
    assert_eq!(result.unwrap_err().message(), "fail");
}

#[test]
fn test_mutation_clone_fn_independent_execution() {
    let call_count = Arc::new(AtomicUsize::new(0));
    let count_clone = call_count.clone();
    let mutation: Mutation<i32, i32, Client> = Mutation::new(move |param: i32| {
        let c = count_clone.clone();
        async move {
            c.fetch_add(1, Ordering::SeqCst);
            Ok(param)
        }
    });
    let cloned = mutation.clone();
    let _ = run((mutation.mutate_fn.f)(1));
    let _ = run((cloned.mutate_fn.f)(2));
    assert_eq!(call_count.load(Ordering::SeqCst), 2);
}

#[test]
fn test_mutation_invalidates_replaces_keys() {
    let mutation = formatted()
        .invalidates_key(QueryKey::new("users"))
        .invalidates_key(QueryKey::new("posts"))
        .invalidates(vec![QueryKey::new("comments")]);
    assert_eq!(mutation.invalidates_keys.len(), 1);
    assert_eq!(mutation.invalidates_keys[0].cache_key(), "comments");
}

#[test]
fn begin_and_finish_run_the_hooks_in_order() {
    let key = QueryKey::new("users");
    let key_for_hook = key.clone();
    let mutation = formatted().on_mutate(move |client: &Client, _params: &i32| {
        set(client, &key_for_hook, "optimistic");
        let key_for_rollback = key_for_hook.clone();
        Ok(RollbackFn::new(move |client: &Client| set(client, &key_for_rollback, "rolled_back")))
    });
    let client: Client = Mutex::new(QueryClient::new());

    // Success: the rollback does not run.
    let rollback = mutation.begin(&client, &1).unwrap();
    assert!(rollback.is_some());
    assert_eq!(get(&client, &key), Some("optimistic".to_string()));
    let ok = Mutation::<String, i32, Client>::finish(rollback, &client, Ok("done".to_string()));
    assert_eq!(ok.unwrap(), "done");
    assert_eq!(get(&client, &key), Some("optimistic".to_string()));

    // Failure: the rollback runs once and the error is handed on.
    let rollback = mutation.begin(&client, &2).unwrap();
    let failed = Mutation::<String, i32, Client>::finish(rollback, &client, Err(QueryError::custom("boom")));
    assert!(matches!(failed, Err(QueryError::Custom(ref m)) if m == "boom"));
    assert_eq!(get(&client, &key), Some("rolled_back".to_string()));

    // Without a hook nothing is to be rolled back; a failing hook ends the mutation.
    assert!(formatted().begin(&client, &3).unwrap().is_none());
    let refusing = formatted().on_mutate(|_c: &Client, _p: &i32| Err(QueryError::custom("no")));
    assert!(matches!(refusing.begin(&client, &4), Err(QueryError::Custom(ref m)) if m == "no"));
}
