use vstd::prelude::*;
use std::future::Future;
use std::time::Instant;
use crate::callbacks::{FetchFn, SelectFn};
use crate::duration::Duration;
use crate::error::QueryError;
use crate::key::QueryKey;
use crate::options::{PlaceholderData, QueryOptions, RetryConfig};

verus! {

#[verifier::external_type_specification]
#[verifier::external_body]
pub struct ExInstant(Instant);

/// Reads the system's monotonic clock (`Instant::now`); nothing is claimed of
/// the reading, which depends on the time of the call.
#[verifier::external_body]
fn instant_now() -> Instant {
    Instant::now()
}

/// A query definition: a unique key, an async fetch function, and
/// configuration options.
#[verifier::reject_recursive_types(T)]
pub struct Query<T> {
    /// Query key.
    pub key: QueryKey,
    /// Function to fetch data.
    pub fetch_fn: FetchFn<T>,
    /// Optional select transformation.
    pub select: Option<SelectFn<T>>,
    /// Query options.
    pub options: QueryOptions,
    /// Initial data to seed the cache.
    pub initial_data: Option<T>,
    /// When the initial data was set.
    pub initial_data_updated_at: Option<Instant>,
    /// Placeholder data shown during loading.
    pub placeholder_data: Option<PlaceholderData<T>>,
}

impl<T> Query<T> {
    /// Everything but the options stays as in `other`: the key, the fetch
    /// and select functions, the initial data with its time and the
    /// placeholder.
    pub open spec fn same_but_options(&self, other: &Query<T>) -> bool {
        &&& self.key@ == other.key@
        &&& self.fetch_fn == other.fetch_fn
        &&& self.select == other.select
        &&& self.initial_data == other.initial_data
        &&& self.initial_data_updated_at == other.initial_data_updated_at
        &&& self.placeholder_data == other.placeholder_data
    }

    /// Create a new query with default options.
    pub fn new<F, Fut>(key: QueryKey, fetch_fn: F) -> (q: Query<T>) where
        F: Fn() -> Fut + Send + Sync + 'static,
        Fut: Future<Output = Result<T, QueryError>> + Send + 'static,
        ensures
            q.key@ == key@,
            q.select is None,
            q.options.is_default(),
            q.initial_data is None,
            q.initial_data_updated_at is None,
            q.placeholder_data is None,
    {
        Query {
            key,
            fetch_fn: FetchFn::new(fetch_fn),
            select: None,
            options: QueryOptions::default(),
            initial_data: None,
            initial_data_updated_at: None,
            placeholder_data: None,
        }
    }

    /// Set initial data to seed the cache, stamped with the current time.
    pub fn initial_data(self, data: T) -> (q: Query<T>)
        ensures
            q.key@ == self.key@,
            q.fetch_fn == self.fetch_fn,
            q.select == self.select,
            q.options == self.options,
            q.initial_data == Some(data),
            q.initial_data_updated_at is Some,
            q.placeholder_data == self.placeholder_data,
    {
        Query { initial_data: Some(data), initial_data_updated_at: Some(instant_now()), ..self }
    }

    /// Set placeholder data shown during loading.
    pub fn placeholder_data(self, data: PlaceholderData<T>) -> (q: Query<T>)
        ensures
            q.key@ == self.key@,
            q.fetch_fn == self.fetch_fn,
            q.select == self.select,
            q.options == self.options,
            q.initial_data == self.initial_data,
            q.initial_data_updated_at == self.initial_data_updated_at,
            q.placeholder_data == Some(data),
    {
        Query { placeholder_data: Some(data), ..self }
    }

    /// Set stale time.
    pub fn stale_time(self, duration: Duration) -> (q: Query<T>)
        ensures
            q.same_but_options(&self),
            q.options == (QueryOptions { stale_time: duration, ..self.options }),
    {
        let options = QueryOptions { stale_time: duration, ..self.options };
        Query { options, ..self }
    }

    /// Set GC time.
    pub fn gc_time(self, duration: Duration) -> (q: Query<T>)
        ensures
            q.same_but_options(&self),
            q.options == (QueryOptions { gc_time: duration, ..self.options }),
    {
        let options = QueryOptions { gc_time: duration, ..self.options };
        Query { options, ..self }
    }

    /// Set retry options.
    pub fn retry(self, retry: RetryConfig) -> (q: Query<T>)
        ensures
            q.same_but_options(&self),
            q.options == (QueryOptions { retry, ..self.options }),
    {
        let options = QueryOptions { retry, ..self.options };
        Query { options, ..self }
    }

    /// Set whether query is enabled.
    pub fn enabled(self, enabled: bool) -> (q: Query<T>)
        ensures
            q.same_but_options(&self),
            q.options == (QueryOptions { enabled, ..self.options }),
    {
        let options = QueryOptions { enabled, ..self.options };
        Query { options, ..self }
    }

    /// Set select transformation.
    pub fn select<F>(self, f: F) -> (q: Query<T>) where F: Fn(&T) -> T + Send + Sync + 'static
        ensures
            q.key@ == self.key@,
            q.fetch_fn == self.fetch_fn,
            q.select is Some,
            q.options == self.options,
            q.initial_data == self.initial_data,
            q.initial_data_updated_at == self.initial_data_updated_at,
            q.placeholder_data == self.placeholder_data,
    {
        Query { select: Some(SelectFn::new(f)), ..self }
    }

    /// Set refetch interval.
    pub fn refetch_interval(self, duration: Duration) -> (q: Query<T>)
        ensures
            q.same_but_options(&self),
            q.options == (QueryOptions { refetch_interval: duration, ..self.options }),
    {
        let options = QueryOptions { refetch_interval: duration, ..self.options };
        Query { options, ..self }
    }

    /// Set refetch on window focus.
    pub fn refetch_on_window_focus(self, enabled: bool) -> (q: Query<T>)
        ensures
            q.same_but_options(&self),
            q.options == (QueryOptions { refetch_on_window_focus: enabled, ..self.options }),
    {
        let options = QueryOptions { refetch_on_window_focus: enabled, ..self.options };
        Query { options, ..self }
    }

    /// Set structural sharing (which compares data, so `T: PartialEq`).
    pub fn structural_sharing(self, enabled: bool) -> (q: Query<T>) where T: PartialEq
        ensures
            q.same_but_options(&self),
            q.options == (QueryOptions { structural_sharing: enabled, ..self.options }),
    {
        let options = QueryOptions { structural_sharing: enabled, ..self.options };
        Query { options, ..self }
    }

    /// Set full query options.
    pub fn options(self, options: QueryOptions) -> (q: Query<T>)
        ensures
            q.same_but_options(&self),
            q.options == options,
    {
        Query { options, ..self }
    }
}

fn clone_select<T>(f: &Option<SelectFn<T>>) -> (r: Option<SelectFn<T>>)
    ensures
        r is Some == f is Some,
{
    match f {
        Some(g) => Some(g.clone()),
        None => None,
    }
}

fn clone_option<T: Clone>(v: &Option<T>) -> (r: Option<T>)
    ensures
        match r {
            Some(c) => *v matches Some(x) && cloned(x, c),
            None => v is None,
        },
{
    match v {
        Some(x) => Some(x.clone()),
        None => None,
    }
}

impl<T: Clone> Clone for Query<T> {
    fn clone(&self) -> (q: Query<T>)
        ensures
            q.key@ == self.key@,
            q.select is Some == self.select is Some,
            q.options == self.options,
            match q.initial_data {
                Some(c) => self.initial_data matches Some(x) && cloned(x, c),
                None => self.initial_data is None,
            },
            q.initial_data_updated_at == self.initial_data_updated_at,
            q.placeholder_data is Some == self.placeholder_data is Some,
    {
        let placeholder_data = match &self.placeholder_data {
            Some(p) => Some(p.clone()),
            None => None,
        };
        Query {
            key: self.key.clone(),
            fetch_fn: self.fetch_fn.clone(),
            select: clone_select(&self.select),
            options: self.options,
            initial_data: clone_option(&self.initial_data),
            initial_data_updated_at: self.initial_data_updated_at,
            placeholder_data,
        }
    }
}

} // verus!
