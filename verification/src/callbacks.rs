//! Holders for the user's functions that a query definition carries.
//!
//! Each holder keeps the caller's function in a private field, shared (or,
//! for a rollback, boxed). Where the library calls a function itself, the
//! holder names what the function can give for given arguments, and a call
//! is known to give such a result for exactly the arguments handed to it.
use vstd::prelude::*;
use std::future::Future;
use std::pin::Pin;
use std::sync::Arc;
use crate::error::QueryError;

verus! {

#[verifier::external_type_specification]
#[verifier::external_body]
pub struct ExFormatter<'a>(std::fmt::Formatter<'a>);

#[verifier::external_type_specification]
#[verifier::external_body]
pub struct ExFmtError(std::fmt::Error);

/// What a placeholder holder keeps: a caller's function from the previous
/// data, if any, to placeholder data.
pub(crate) trait PlaceholderCall<T>: Send + Sync {
    /// `r` is a result the function can give for `previous`.
    spec fn gives(&self, previous: Option<T>, r: T) -> bool;

    /// The function accepts `previous`.
    spec fn accepts(&self, previous: Option<&T>) -> bool;

    fn call_with(&self, previous: Option<&T>) -> (r: T)
        requires
            self.accepts(previous),
        ensures
            self.gives(match previous {
                Some(p) => Some(*p),
                None => None,
            }, r),
    ;
}

impl<T, F: Fn(Option<&T>) -> T + Send + Sync> PlaceholderCall<T> for F {
    closed spec fn gives(&self, previous: Option<T>, r: T) -> bool {
        exists|a: Option<&T>| #![trigger call_ensures(*self, (a,), r)]
            (match a {
                Some(p) => previous == Some(*p),
                None => previous is None,
            }) && call_ensures(*self, (a,), r)
    }

    closed spec fn accepts(&self, previous: Option<&T>) -> bool {
        call_requires(*self, (previous,))
    }

    fn call_with(&self, previous: Option<&T>) -> (r: T) {
        self(previous)
    }
}

/// A function that computes placeholder data from the previous data, if any.
#[verifier::reject_recursive_types(T)]
pub struct PlaceholderFn<T> {
    f: Arc<dyn PlaceholderCall<T>>,
}

impl<T> PlaceholderFn<T> {
    /// `r` is a result the held function can give for `previous`.
    pub closed spec fn gives(&self, previous: Option<T>, r: T) -> bool {
        (*self.f).gives(previous, r)
    }

    /// Wraps the caller's function; nothing is claimed of it.
    #[verifier::external_body]
    pub fn new<F>(f: F) -> Self where F: Fn(Option<&T>) -> T + Send + Sync + 'static {
        PlaceholderFn { f: Arc::new(f) }
    }

    /// Calls the caller's function with the previous data. The contract
    /// claims that what comes back is a result of that function for exactly
    /// this argument; of which result, nothing.
    #[verifier::external_body]
    pub fn call(&self, previous: Option<&T>) -> (r: T)
        ensures
            self.gives(match previous {
                Some(p) => Some(*p),
                None => None,
            }, r),
    {
        self.f.call_with(previous)
    }
}

impl<T> Clone for PlaceholderFn<T> {
    /// Shares the same function (`Arc::clone`).
    #[verifier::external_body]
    fn clone(&self) -> Self {
        PlaceholderFn { f: Arc::clone(&self.f) }
    }
}

impl<T> std::fmt::Debug for PlaceholderFn<T> {
    /// Writes `Function`; the function itself cannot be shown.
    #[verifier::external_body]
    fn fmt(&self, f: &mut std::fmt::Formatter<'_>) -> std::fmt::Result {
        f.write_str("Function")
    }
}

/// What a select holder keeps: a caller's transformation of data.
pub(crate) trait SelectCall<T>: Send + Sync {
    /// `r` is a result the transformation can give for `data`.
    spec fn gives(&self, data: T, r: T) -> bool;

    /// The transformation accepts `data`.
    spec fn accepts(&self, data: &T) -> bool;

    fn call_with(&self, data: &T) -> (r: T)
        requires
            self.accepts(data),
        ensures
            self.gives(*data, r),
    ;
}

impl<T, F: Fn(&T) -> T + Send + Sync> SelectCall<T> for F {
    closed spec fn gives(&self, data: T, r: T) -> bool {
        call_ensures(*self, (&data,), r)
    }

    closed spec fn accepts(&self, data: &T) -> bool {
        call_requires(*self, (data,))
    }

    fn call_with(&self, data: &T) -> (r: T) {
        self(data)
    }
}

/// A transformation applied to fetched data before it is cached.
#[verifier::reject_recursive_types(T)]
pub struct SelectFn<T> {
    f: Arc<dyn SelectCall<T>>,
}

impl<T> SelectFn<T> {
    /// `r` is a result the held transformation can give for `data`.
    pub closed spec fn gives(&self, data: T, r: T) -> bool {
        (*self.f).gives(data, r)
    }

    /// Wraps the caller's function; nothing is claimed of it.
    #[verifier::external_body]
    pub fn new<F>(f: F) -> Self where F: Fn(&T) -> T + Send + Sync + 'static {
        SelectFn { f: Arc::new(f) }
    }

    /// Calls the caller's function on `data`. The contract claims that what
    /// comes back is a result of that function for exactly this argument; of
    /// which result, nothing.
    #[verifier::external_body]
    pub fn call(&self, data: &T) -> (r: T)
        ensures
            self.gives(*data, r),
    {
        self.f.call_with(data)
    }
}

impl<T> Clone for SelectFn<T> {
    /// Shares the same function (`Arc::clone`).
    #[verifier::external_body]
    fn clone(&self) -> Self {
        SelectFn { f: Arc::clone(&self.f) }
    }
}

/// The future that a fetch function returns.
pub type FetchFuture<T> = Pin<Box<dyn Future<Output = Result<T, QueryError>> + Send>>;

/// An asynchronous fetch function that takes no argument.
#[verifier::external_body]
#[verifier::reject_recursive_types(T)]
pub struct FetchFn<T> {
    /// The function; calling it starts a fetch.
    pub f: Arc<dyn Fn() -> FetchFuture<T> + Send + Sync>,
}

impl<T> FetchFn<T> {
    /// Wraps the caller's async function; nothing is claimed of it.
    #[verifier::external_body]
    pub fn new<F, Fut>(f: F) -> Self where
        F: Fn() -> Fut + Send + Sync + 'static,
        Fut: Future<Output = Result<T, QueryError>> + Send + 'static,
     {
        FetchFn { f: Arc::new(move || -> FetchFuture<T> { Box::pin(f()) }) }
    }
}

impl<T> Clone for FetchFn<T> {
    /// Shares the same function (`Arc::clone`).
    #[verifier::external_body]
    fn clone(&self) -> Self {
        FetchFn { f: Arc::clone(&self.f) }
    }
}

/// An asynchronous function that takes a parameter: a page fetch, or a
/// mutation's request.
#[verifier::external_body]
#[verifier::reject_recursive_types(T)]
#[verifier::reject_recursive_types(P)]
pub struct PageFetchFn<T, P> {
    /// The function; calling it with a page parameter starts a fetch.
    pub f: Arc<dyn Fn(P) -> FetchFuture<T> + Send + Sync>,
}

impl<T, P> PageFetchFn<T, P> {
    /// Wraps the caller's async function; nothing is claimed of it.
    #[verifier::external_body]
    pub fn new<F, Fut>(f: F) -> Self where
        F: Fn(P) -> Fut + Send + Sync + 'static,
        Fut: Future<Output = Result<T, QueryError>> + Send + 'static,
     {
        PageFetchFn { f: Arc::new(move |p: P| -> FetchFuture<T> { Box::pin(f(p)) }) }
    }
}

impl<T, P> Clone for PageFetchFn<T, P> {
    /// Shares the same function (`Arc::clone`).
    #[verifier::external_body]
    fn clone(&self) -> Self {
        PageFetchFn { f: Arc::clone(&self.f) }
    }
}

/// What a page-parameter holder keeps: a caller's function from a page and
/// all pages to an optional parameter.
pub(crate) trait ParamCall<T, P>: Send + Sync {
    /// `r` is a result the function can give for `page` and `pages`.
    spec fn gives(&self, page: T, pages: Seq<T>, r: Option<P>) -> bool;

    /// The function accepts `page` and `pages`.
    spec fn accepts(&self, page: T, pages: &[T]) -> bool;

    fn call_with(&self, page: &T, pages: &[T]) -> (r: Option<P>)
        requires
            self.accepts(*page, pages),
        ensures
            self.gives(*page, pages@, r),
    ;
}

impl<T, P, F: Fn(&T, &[T]) -> Option<P> + Send + Sync> ParamCall<T, P> for F {
    closed spec fn gives(&self, page: T, pages: Seq<T>, r: Option<P>) -> bool {
        exists|s: &[T]| s@ == pages && #[trigger] call_ensures(*self, (&page, s), r)
    }

    closed spec fn accepts(&self, page: T, pages: &[T]) -> bool {
        call_requires(*self, (&page, pages))
    }

    fn call_with(&self, page: &T, pages: &[T]) -> (r: Option<P>) {
        self(page, pages)
    }
}

/// A function that derives the next (or previous) page parameter from a page
/// and all pages, or `None` when there is no such page.
#[verifier::reject_recursive_types(T)]
#[verifier::reject_recursive_types(P)]
pub struct PageParamFn<T, P> {
    f: Arc<dyn ParamCall<T, P>>,
}

impl<T, P> PageParamFn<T, P> {
    /// `r` is a result the held function can give for `page` and `pages`.
    pub closed spec fn gives(&self, page: T, pages: Seq<T>, r: Option<P>) -> bool {
        (*self.f).gives(page, pages, r)
    }

    /// Wraps the caller's function; nothing is claimed of it.
    #[verifier::external_body]
    pub fn new<F>(f: F) -> Self where F: Fn(&T, &[T]) -> Option<P> + Send + Sync + 'static {
        PageParamFn { f: Arc::new(f) }
    }

    /// Calls the caller's function with `page` and `pages`. The contract
    /// claims that what comes back is a result of that function for exactly
    /// these arguments; of which result, nothing.
    #[verifier::external_body]
    pub fn call(&self, page: &T, pages: &[T]) -> (r: Option<P>)
        ensures
            self.gives(*page, pages@, r),
    {
        self.f.call_with(page, pages)
    }
}

impl<T, P> Clone for PageParamFn<T, P> {
    /// Shares the same function (`Arc::clone`).
    #[verifier::external_body]
    fn clone(&self) -> Self {
        PageParamFn { f: Arc::clone(&self.f) }
    }
}

/// A user function run before a mutation's request, for optimistic updates:
/// it gets the client handle `C` and the parameters, and either fails or
/// gives a rollback.
#[verifier::external_body]
#[verifier::reject_recursive_types(P)]
#[verifier::reject_recursive_types(C)]
pub struct OnMutateFn<P, C> {
    f: Arc<dyn Fn(&C, &P) -> Result<RollbackFn<C>, QueryError> + Send + Sync>,
}

impl<P, C> OnMutateFn<P, C> {
    /// Wraps the caller's function; nothing is claimed of it.
    #[verifier::external_body]
    pub fn new<F>(f: F) -> Self where F: Fn(&C, &P) -> Result<RollbackFn<C>, QueryError> + Send + Sync + 'static {
        OnMutateFn { f: Arc::new(f) }
    }

    /// Calls the caller's function; nothing is claimed of the result.
    #[verifier::external_body]
    pub fn call(&self, client: &C, params: &P) -> Result<RollbackFn<C>, QueryError> {
        (self.f)(client, params)
    }
}

impl<P, C> Clone for OnMutateFn<P, C> {
    /// Shares the same function (`Arc::clone`).
    #[verifier::external_body]
    fn clone(&self) -> Self {
        OnMutateFn { f: Arc::clone(&self.f) }
    }
}

/// What a rollback holder keeps: a caller's function run once on the
/// client handle.
pub(crate) trait RollbackCall<C>: Send + Sync {
    /// The function has run on `client`, ending with `done`.
    spec fn ran(&self, client: C, done: ()) -> bool;

    /// The function accepts `client`.
    spec fn accepts(&self, client: &C) -> bool;

    fn run(self: Box<Self>, client: &C) -> (done: ())
        requires
            self.accepts(client),
        ensures
            self.ran(*client, done),
    ;
}

impl<C, F: FnOnce(&C) + Send + Sync> RollbackCall<C> for F {
    closed spec fn ran(&self, client: C, done: ()) -> bool {
        call_ensures(*self, (&client,), done)
    }

    closed spec fn accepts(&self, client: &C) -> bool {
        call_requires(*self, (client,))
    }

    fn run(self: Box<Self>, client: &C) -> (done: ()) {
        (*self)(client)
    }
}

/// A function that undoes an optimistic update, run at most once.
#[verifier::reject_recursive_types(C)]
pub struct RollbackFn<C> {
    f: Box<dyn RollbackCall<C>>,
}

impl<C> RollbackFn<C> {
    /// The held function has run on `client`, ending with `done`.
    pub closed spec fn ran(&self, client: C, done: ()) -> bool {
        (*self.f).ran(client, done)
    }

    /// Wraps the caller's function; nothing is claimed of it.
    #[verifier::external_body]
    pub fn new<F>(f: F) -> Self where F: FnOnce(&C) + Send + Sync + 'static {
        RollbackFn { f: Box::new(f) }
    }

    /// Runs the caller's function on `client`, using it up. The contract
    /// claims that the function ran on exactly this client handle.
    #[verifier::external_body]
    pub fn call(self, client: &C) -> (done: ())
        ensures
            self.ran(*client, done),
    {
        self.f.run(client)
    }
}

/// A function told of a mutation's result and parameters.
#[verifier::external_body]
#[verifier::reject_recursive_types(T)]
#[verifier::reject_recursive_types(P)]
pub struct OnSuccessFn<T, P> {
    f: Arc<dyn Fn(&T, &P) + Send + Sync>,
}

impl<T, P> OnSuccessFn<T, P> {
    /// Wraps the caller's function; nothing is claimed of it.
    #[verifier::external_body]
    pub fn new<F>(f: F) -> Self where F: Fn(&T, &P) + Send + Sync + 'static {
        OnSuccessFn { f: Arc::new(f) }
    }

    /// Calls the caller's function.
    #[verifier::external_body]
    pub fn call(&self, data: &T, params: &P) {
        (self.f)(data, params)
    }
}

impl<T, P> Clone for OnSuccessFn<T, P> {
    /// Shares the same function (`Arc::clone`).
    #[verifier::external_body]
    fn clone(&self) -> Self {
        OnSuccessFn { f: Arc::clone(&self.f) }
    }
}

/// A function told of a mutation's error and parameters.
#[verifier::external_body]
#[verifier::reject_recursive_types(P)]
pub struct OnErrorFn<P> {
    f: Arc<dyn Fn(&QueryError, &P) + Send + Sync>,
}

impl<P> OnErrorFn<P> {
    /// Wraps the caller's function; nothing is claimed of it.
    #[verifier::external_body]
    pub fn new<F>(f: F) -> Self where F: Fn(&QueryError, &P) + Send + Sync + 'static {
        OnErrorFn { f: Arc::new(f) }
    }

    /// Calls the caller's function.
    #[verifier::external_body]
    pub fn call(&self, error: &QueryError, params: &P) {
        (self.f)(error, params)
    }
}

impl<P> Clone for OnErrorFn<P> {
    /// Shares the same function (`Arc::clone`).
    #[verifier::external_body]
    fn clone(&self) -> Self {
        OnErrorFn { f: Arc::clone(&self.f) }
    }
}

} // verus!
