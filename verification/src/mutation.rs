//! Mutation definitions.
use vstd::prelude::*;
use std::future::Future;
use crate::callbacks::{OnErrorFn, OnMutateFn, OnSuccessFn, PageFetchFn, RollbackFn};
use crate::error::QueryError;
use crate::key::QueryKey;

verus! {

/// Definition of a mutation with parameters `P` and result `T`; its
/// optimistic-update hook gets the client handle `C`.
#[verifier::reject_recursive_types(T)]
#[verifier::reject_recursive_types(P)]
#[verifier::reject_recursive_types(C)]
pub struct Mutation<T, P, C> {
    /// The request.
    pub mutate_fn: PageFetchFn<T, P>,
    /// The keys invalidated when the request succeeds, in order.
    pub invalidates_keys: Vec<QueryKey>,
    /// Run before the request; may fail, or give a rollback for failure.
    pub on_mutate: Option<OnMutateFn<P, C>>,
    /// Told of the result on success.
    pub on_success: Option<OnSuccessFn<T, P>>,
    /// Told of the error on failure.
    pub on_error: Option<OnErrorFn<P>>,
}

/// The views of a list of keys.
pub open spec fn key_views(keys: Seq<QueryKey>) -> Seq<Seq<crate::key::SegmentView>> {
    keys.map_values(|k: QueryKey| k@)
}

fn clone_keys(keys: &Vec<QueryKey>) -> (r: Vec<QueryKey>)
    ensures
        key_views(r@) == key_views(keys@),
{
    let n = keys.len();
    let mut out: Vec<QueryKey> = Vec::new();
    let mut i: usize = 0;
    while i < n
        invariant
            n == keys@.len(),
            i <= n,
            key_views(out@) == key_views(keys@.take(i as int)),
        decreases n - i,
    {
        let k = keys[i].clone();
        let ghost before = out@;
        out.push(k);
        proof {
            assert(out@ == before.push(k));
            assert(key_views(before.push(k)) =~= key_views(before).push(k@));
            assert(keys@.take(i + 1) =~= keys@.take(i as int).push(keys@[i as int]));
            assert(key_views(keys@.take(i as int).push(keys@[i as int])) =~= key_views(keys@.take(i as int)).push(keys@[i as int]@));
        }
        i = i + 1;
    }
    assert(keys@.take(n as int) =~= keys@);
    out
}

impl<T, P, C> Clone for Mutation<T, P, C> {
    /// The same functions, and a copy of the keys.
    fn clone(&self) -> (m: Mutation<T, P, C>)
        ensures
            key_views(m.invalidates_keys@) == key_views(self.invalidates_keys@),
            m.on_mutate is Some == self.on_mutate is Some,
            m.on_success is Some == self.on_success is Some,
            m.on_error is Some == self.on_error is Some,
    {
        Mutation {
            mutate_fn: self.mutate_fn.clone(),
            invalidates_keys: clone_keys(&self.invalidates_keys),
            on_mutate: match &self.on_mutate {
                Some(f) => Some(f.clone()),
                None => None,
            },
            on_success: match &self.on_success {
                Some(f) => Some(f.clone()),
                None => None,
            },
            on_error: match &self.on_error {
                Some(f) => Some(f.clone()),
                None => None,
            },
        }
    }
}

impl<T, P, C> Mutation<T, P, C> {
    /// A mutation with the given request, invalidating nothing, with no hooks.
    pub fn new<F, Fut>(mutate_fn: F) -> (m: Mutation<T, P, C>) where
        F: Fn(P) -> Fut + Send + Sync + 'static,
        Fut: Future<Output = Result<T, QueryError>> + Send + 'static,
        ensures
            m.invalidates_keys@.len() == 0,
            m.on_mutate is None,
            m.on_success is None,
            m.on_error is None,
    {
        Mutation {
            mutate_fn: PageFetchFn::new(mutate_fn),
            invalidates_keys: Vec::new(),
            on_mutate: None,
            on_success: None,
            on_error: None,
        }
    }

    /// Also invalidate `key` on success, after the keys already given.
    pub fn invalidates_key(self, key: QueryKey) -> (m: Mutation<T, P, C>)
        ensures
            m.mutate_fn == self.mutate_fn,
            m.invalidates_keys@ == self.invalidates_keys@.push(key),
            m.on_mutate == self.on_mutate,
            m.on_success == self.on_success,
            m.on_error == self.on_error,
    {
        let mut m = self;
        m.invalidates_keys.push(key);
        m
    }

    /// Invalidate exactly `keys` on success, replacing the keys given before.
    pub fn invalidates(self, keys: Vec<QueryKey>) -> (m: Mutation<T, P, C>)
        ensures
            m.mutate_fn == self.mutate_fn,
            m.invalidates_keys@ == keys@,
            m.on_mutate == self.on_mutate,
            m.on_success == self.on_success,
            m.on_error == self.on_error,
    {
        Mutation { invalidates_keys: keys, ..self }
    }

    /// Set the hook run before the request.
    pub fn on_mutate<F>(self, f: F) -> (m: Mutation<T, P, C>) where
        F: Fn(&C, &P) -> Result<RollbackFn<C>, QueryError> + Send + Sync + 'static,
        ensures
            m.mutate_fn == self.mutate_fn,
            m.invalidates_keys@ == self.invalidates_keys@,
            m.on_mutate is Some,
            m.on_success == self.on_success,
            m.on_error == self.on_error,
    {
        Mutation { on_mutate: Some(OnMutateFn::new(f)), ..self }
    }

    /// Set the hook told of success.
    pub fn on_success<F>(self, f: F) -> (m: Mutation<T, P, C>) where
        F: Fn(&T, &P) + Send + Sync + 'static,
        ensures
            m.mutate_fn == self.mutate_fn,
            m.invalidates_keys@ == self.invalidates_keys@,
            m.on_mutate == self.on_mutate,
            m.on_success is Some,
            m.on_error == self.on_error,
    {
        Mutation { on_success: Some(OnSuccessFn::new(f)), ..self }
    }

    /// Set the hook told of failure.
    pub fn on_error<F>(self, f: F) -> (m: Mutation<T, P, C>) where
        F: Fn(&QueryError, &P) + Send + Sync + 'static,
        ensures
            m.mutate_fn == self.mutate_fn,
            m.invalidates_keys@ == self.invalidates_keys@,
            m.on_mutate == self.on_mutate,
            m.on_success == self.on_success,
            m.on_error is Some,
    {
        Mutation { on_error: Some(OnErrorFn::new(f)), ..self }
    }

    /// The optimistic-update phase, before the request: without a hook the
    /// request goes ahead with nothing to roll back; with one, the hook's
    /// failure ends the mutation with its error, and its success gives the
    /// rollback for a failed request.
    pub fn begin(&self, client: &C, params: &P) -> (r: Result<Option<RollbackFn<C>>, QueryError>)
        ensures
            self.on_mutate is None ==> r matches Ok(None),
            self.on_mutate is Some ==> !(r matches Ok(None)),
    {
        match &self.on_mutate {
            Some(hook) => match hook.call(client, params) {
                Ok(rb) => Ok(Some(rb)),
                Err(e) => Err(e),
            },
            None => Ok(None),
        }
    }

    /// After the request: when it failed, the rollback (if any) runs, once;
    /// the request's result is handed on to be settled.
    pub fn finish(rollback: Option<RollbackFn<C>>, client: &C, result: Result<T, QueryError>) -> (r: Result<T, QueryError>)
        ensures
            r == result,
            rollback matches Some(rb) ==> (result is Err ==> rb.ran(*client, ())),
    {
        if result.is_err() {
            if let Some(rb) = rollback {
                rb.call(client);
            }
        }
        result
    }
}

} // verus!
