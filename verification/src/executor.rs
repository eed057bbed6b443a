use vstd::prelude::*;
use crate::client::{marked_stale, stale_notices, stored_by_set, ActivityEvent, CacheEntry, QueryClient};
use crate::infinite::{drop_front, overflow, same_or_cloned, InfiniteData, InfiniteQuery};
use crate::duration::{Duration, MAX_NANOS};
use crate::error::QueryError;
use crate::key::{join_segments, key_text_prefix, QueryKey};
use crate::observer::{loading_from, seeded_from_query, QueryObserver};
use crate::options::{placeholder_copied, RetryConfig};
use crate::query::Query;
use crate::state::{MutationState, QueryState, QueryStateVariant};

verus! {

/// Whether a failed fetch may be retried at all: the error is retryable and
/// the configuration allows retries.
pub fn should_retry(error: &QueryError, config: &RetryConfig) -> (b: bool)
    ensures
        b == (error.retryable() && config.max_retries > 0),
{
    error.is_retryable() && config.max_retries > 0
}

/// What a query run does after one fetch attempt.
pub enum FetchDecision<T> {
    /// The fetch succeeded: store and report the data.
    Succeed(T),
    /// The fetch failed but may be tried again after this delay.
    RetryAfter(Duration),
    /// The run ends with this error.
    Fail(QueryError),
}

/// Decides what follows fetch attempt number `attempt` (0 for the first
/// request): success ends the run, a cancellation or a non-retryable error
/// ends it with that error, and a retryable error is retried after the
/// configured delay while `attempt` is below the retry limit.
pub fn decide_after_fetch<T>(config: &RetryConfig, attempt: u32, result: Result<T, QueryError>) -> (d: FetchDecision<T>)
    requires
        retry_delay_fits(*config, attempt as nat, result),
    ensures
        match result {
            Ok(data) => d == FetchDecision::Succeed(data),
            Err(e) => if retries_after(*config, attempt as nat, Some(e)) {
                d matches FetchDecision::RetryAfter(delay) && delay.nanos() == config.delay_nanos(attempt as nat)
            } else {
                d == FetchDecision::<T>::Fail(e)
            },
        },
{
    match result {
        Ok(data) => FetchDecision::Succeed(data),
        Err(e) => {
            if e.is_retryable() && config.should_retry(attempt) {
                FetchDecision::RetryAfter(config.delay_for_attempt(attempt))
            } else {
                FetchDecision::Fail(e)
            }
        },
    }
}

/// Whether the run goes on after attempt `attempt` ends with `outcome`
/// (`None` for success): exactly when `decide_after_fetch` decides to retry.
pub open spec fn retries_after(config: RetryConfig, attempt: nat, outcome: Option<QueryError>) -> bool {
    outcome matches Some(e) && e.retryable() && attempt < config.max_retries
}

/// When attempt `attempt` ends with `result` and a retry follows, the delay
/// before it fits in a `Duration`.
pub open spec fn retry_delay_fits<T>(config: RetryConfig, attempt: nat, result: Result<T, QueryError>) -> bool {
    match result {
        Ok(_) => true,
        Err(e) => retries_after(config, attempt, Some(e)) ==> config.delay_nanos(attempt) <= MAX_NANOS,
    }
}

/// How many fetches a run makes, from attempt `attempt` on, when its
/// attempts end with `outcomes` in turn.
pub open spec fn attempts_made(config: RetryConfig, outcomes: Seq<Option<QueryError>>, attempt: nat) -> nat
    decreases outcomes.len(),
{
    if outcomes.len() == 0 {
        0
    } else if retries_after(config, attempt, outcomes[0]) {
        1 + attempts_made(config, outcomes.drop_first(), attempt + 1)
    } else {
        1
    }
}

proof fn lemma_attempts_made(config: RetryConfig, outcomes: Seq<Option<QueryError>>, attempt: nat)
    requires
        attempt <= config.max_retries,
    ensures
        attempts_made(config, outcomes, attempt) <= config.max_retries - attempt + 1,
    decreases outcomes.len(),
{
    if outcomes.len() > 0 && retries_after(config, attempt, outcomes[0]) {
        lemma_attempts_made(config, outcomes.drop_first(), attempt + 1);
    }
}

/// Whatever the fetches return, a run makes at most `max_retries + 1`
/// fetches: the first request and at most `max_retries` retries.
pub proof fn law_attempts_bounded(config: RetryConfig, outcomes: Seq<Option<QueryError>>)
    ensures
        attempts_made(config, outcomes, 0) <= config.max_retries + 1,
{
    lemma_attempts_made(config, outcomes, 0);
}

/// A run whose first attempt fails with an error that is not retryable makes
/// exactly one fetch.
pub proof fn law_no_retry_when_not_retryable(config: RetryConfig, outcomes: Seq<Option<QueryError>>)
    requires
        outcomes.len() > 0,
        outcomes[0] matches Some(e) && !e.retryable(),
    ensures
        attempts_made(config, outcomes, 0) == 1,
{
}

/// The state a run that ends with `error` reports, showing the data cached
/// before, if any.
pub fn failure_state<T>(error: QueryError, stale_data: Option<T>) -> (s: QueryState<T>)
    ensures
        s == (QueryState::Error { error, stale_data }),
{
    QueryState::Error { error, stale_data }
}

/// How a query run begins.
#[derive(Clone, Copy, Debug, PartialEq, Eq, Structural)]
pub enum QueryStart {
    /// The query is disabled: its initial state is reported and nothing is fetched.
    Disabled,
    /// A fetch for the same key is already running: nothing more is done.
    AlreadyInFlight,
    /// The run starts: the loading state is reported and the fetch begins.
    Started,
}

/// What follows one fetch attempt of a query run.
pub enum AttemptOutcome<T> {
    /// The run ends with this state.
    Done(QueryState<T>),
    /// The fetch is tried again after this delay.
    RetryAfter(Duration),
}

/// The state a run reports when it ends with `error`, given what was cached
/// under the key: the error, with (a clone of) the cached data if any.
pub open spec fn failed_with<T: Clone>(s: QueryState<T>, error: QueryError, cached: Option<T>) -> bool {
    s matches QueryState::Error { error: e, stale_data }
        && e == error
        && match stale_data {
            Some(c) => cached matches Some(d) && cloned(d, c),
            None => cached is None,
        }
}

impl<T: Clone + PartialEq> QueryClient<T> {
    /// The data cached under the cache key `k`, if any.
    pub open spec fn cached_data(&self, k: Seq<char>) -> Option<T> {
        if self.cache().contains_key(k) {
            Some(*self.cache()[k].data)
        } else {
            None
        }
    }

    /// The decisions that begin a query run at `now`: an observer is created
    /// from the query (storing its initial data when nothing is cached); a
    /// disabled query stops there; when a fetch for the key is already in
    /// flight the run is dropped; otherwise the observer starts loading and
    /// the fetching count goes up.
    pub fn start_query(&mut self, query: &Query<T>, now: Duration) -> (r: (QueryObserver<T>, QueryStart))
        requires
            old(self).wf(),
            old(self).fetching() < usize::MAX,
        ensures
            final(self).wf(),
            r.0.spec_key()@ == query.key@,
            r.0.spec_options() == query.options,
            match query.placeholder_data {
                Some(p) => r.0.spec_placeholder() matches Some(c) && placeholder_copied(p, c),
                None => r.0.spec_placeholder() is None,
            },
            (r.1 == QueryStart::Disabled) == !query.options.enabled,
            (r.1 == QueryStart::AlreadyInFlight) == (query.options.enabled && old(self).in_flight_keys().contains(
                join_segments(query.key@),
            )),
            exists|s0: QueryState<T>, mid: QueryClient<T>| {
                &&& #[trigger] seeded_from_query(*old(self), mid, *query, now, s0)
                &&& final(self).cache() == mid.cache()
                &&& final(self).pending_updates() == mid.pending_updates()
                &&& final(self).in_flight_keys() == old(self).in_flight_keys()
                &&& final(self).mutating() == old(self).mutating()
                &&& if r.1 == QueryStart::Started {
                    &&& loading_from(s0, r.0.spec_placeholder(), r.0.spec_state())
                    &&& r.0.spec_fetch_started_at() == Some(now)
                    &&& final(self).fetching() == old(self).fetching() + 1
                    &&& final(self).pending_activity() == old(self).pending_activity().push(
                        ActivityEvent::FetchingCountChanged((old(self).fetching() + 1) as usize),
                    )
                } else {
                    &&& r.0.spec_state() == s0
                    &&& r.0.spec_fetch_started_at() is None
                    &&& final(self).fetching() == old(self).fetching()
                    &&& final(self).pending_activity() == old(self).pending_activity()
                }
            },
    {
        let ghost before = *self;
        let mut observer = QueryObserver::from_query(self, query, now);
        let ghost mid = *self;
        let ghost s0 = observer.spec_state();
        if !query.options.enabled {
            assert(seeded_from_query(before, mid, *query, now, s0));
            return (observer, QueryStart::Disabled);
        }
        if self.is_in_flight(&query.key) {
            assert(seeded_from_query(before, mid, *query, now, s0));
            return (observer, QueryStart::AlreadyInFlight);
        }
        observer.set_loading(now);
        self.inc_fetching();
        assert(seeded_from_query(before, mid, *query, now, s0));
        (observer, QueryStart::Started)
    }

    /// The decisions after fetch attempt number `attempt` (0 for the first
    /// request) of a run at `now`. Fetched data goes through the query's
    /// `select`, when it has one, and is stored with the query's options; the
    /// run then ends with `Success` showing the cached data. A failure that
    /// may be retried (see `decide_after_fetch`) leaves everything as it was
    /// and asks for a retry after the configured delay; any other failure ends
    /// the run with the error, showing the data cached before.
    pub fn settle_attempt(&mut self, query: &Query<T>, attempt: u32, result: Result<T, QueryError>, now: Duration) -> (r: AttemptOutcome<T>)
        requires
            old(self).wf(),
            retry_delay_fits(query.options.retry, attempt as nat, result),
        ensures
            final(self).wf(),
            final(self).in_flight_keys() == old(self).in_flight_keys(),
            final(self).fetching() == old(self).fetching(),
            final(self).mutating() == old(self).mutating(),
            final(self).pending_activity() == old(self).pending_activity(),
            ({
                let k = join_segments(query.key@);
                match result {
                    Ok(data) => exists|v: T| {
                        &&& (query.select is None ==> v == data)
                        &&& (query.select matches Some(f) ==> f.gives(data, v))
                        &&& #[trigger] stored_by_set(old(self).cache(), final(self).cache(), k, v, query.options, now)
                        &&& final(self).pending_updates() == old(self).pending_updates().push((k, QueryStateVariant::Success))
                        &&& r matches AttemptOutcome::Done(QueryState::Success(d)) && cloned(*final(self).cache()[k].data, d)
                    },
                    Err(e) => {
                        &&& final(self).cache() == old(self).cache()
                        &&& final(self).pending_updates() == old(self).pending_updates()
                        &&& if retries_after(query.options.retry, attempt as nat, Some(e)) {
                            r matches AttemptOutcome::RetryAfter(delay) && delay.nanos()
                                == query.options.retry.delay_nanos(attempt as nat)
                        } else {
                            r matches AttemptOutcome::Done(s) && failed_with(s, e, old(self).cached_data(k))
                        }
                    },
                }
            }),
    {
        match decide_after_fetch(&query.options.retry, attempt, result) {
            FetchDecision::Succeed(data) => {
                let value = match &query.select {
                    Some(f) => f.call(&data),
                    None => data,
                };
                let ghost v = value;
                self.set_query_data(&query.key, value, query.options, now);
                let shown = self.get_query_data(&query.key).unwrap().clone();
                assert(stored_by_set(old(self).cache(), self.cache(), join_segments(query.key@), v, query.options, now));
                AttemptOutcome::Done(QueryState::Success(shown))
            },
            FetchDecision::RetryAfter(delay) => AttemptOutcome::RetryAfter(delay),
            FetchDecision::Fail(e) => {
                let stale_data = match self.get_query_data(&query.key) {
                    Some(d) => Some(d.clone()),
                    None => None,
                };
                AttemptOutcome::Done(failure_state(e, stale_data))
            },
        }
    }
}

/// Some pattern of `ps` covers the cache key `k` segment by segment.
pub open spec fn matched_by_any(ps: Seq<Seq<char>>, k: Seq<char>) -> bool {
    exists|i: int| 0 <= i < ps.len() && key_text_prefix(#[trigger] ps[i], k)
}

/// What invalidating by each pattern of `ps` in turn does to a cache: the
/// same keys, each entry matched by some pattern marked stale, the others
/// unchanged.
pub open spec fn invalidated_all<V>(old: Map<Seq<char>, CacheEntry<V>>, new: Map<Seq<char>, CacheEntry<V>>, ps: Seq<Seq<char>>) -> bool {
    &&& new.dom() == old.dom()
    &&& forall|k: Seq<char>| #[trigger] old.contains_key(k) ==> new[k] == if matched_by_any(ps, k) {
        marked_stale(old[k])
    } else {
        old[k]
    }
}

/// The `Stale` notices of invalidating by each pattern of `ps` in turn, over
/// the cache keys `keys`.
pub open spec fn stale_notices_all(keys: Seq<Seq<char>>, ps: Seq<Seq<char>>) -> Seq<(Seq<char>, QueryStateVariant)>
    decreases ps.len(),
{
    if ps.len() == 0 {
        Seq::empty()
    } else {
        stale_notices_all(keys, ps.drop_last()) + stale_notices(keys, ps.last())
    }
}

/// The cache keys of a list of query keys.
pub open spec fn cache_keys_of(keys: Seq<QueryKey>) -> Seq<Seq<char>> {
    keys.map_values(|k: QueryKey| join_segments(k@))
}

impl<V> QueryClient<V> {
    /// The decisions after a mutation's request returns: on success every key
    /// the mutation invalidates is invalidated, in order, and the run reports
    /// `Success`; on failure nothing changes here (a rollback is the caller's)
    /// and the run reports the error.
    pub fn settle_mutation<T>(&mut self, invalidates: &Vec<QueryKey>, result: Result<T, QueryError>) -> (s: MutationState<T>)
        requires
            old(self).wf(),
        ensures
            final(self).wf(),
            final(self).fetching() == old(self).fetching(),
            final(self).mutating() == old(self).mutating(),
            final(self).pending_activity() == old(self).pending_activity(),
            match result {
                Ok(d) => {
                    let ps = cache_keys_of(invalidates@);
                    &&& s == MutationState::Success(d)
                    &&& invalidated_all(old(self).cache(), final(self).cache(), ps)
                    &&& final(self).entry_keys() == old(self).entry_keys()
                    &&& forall|x: Seq<char>| #[trigger] final(self).in_flight_keys().contains(x) <==> (
                        old(self).in_flight_keys().contains(x) && !(old(self).cache().contains_key(x)
                            && matched_by_any(ps, x)))
                    &&& final(self).pending_updates() == old(self).pending_updates() + stale_notices_all(
                        old(self).entry_keys(),
                        ps,
                    )
                },
                Err(e) => {
                    &&& s == MutationState::<T>::Error(e)
                    &&& final(self).cache() == old(self).cache()
                    &&& final(self).in_flight_keys() == old(self).in_flight_keys()
                    &&& final(self).pending_updates() == old(self).pending_updates()
                },
            },
    {
        match result {
            Ok(d) => {
                let ghost ps = cache_keys_of(invalidates@);
                let ghost old_cache = self.cache();
                let ghost old_keys = self.entry_keys();
                let ghost old_flights = self.in_flight_keys();
                let ghost old_updates = self.pending_updates();
                let n = invalidates.len();
                let mut i: usize = 0;
                while i < n
                    invariant
                        self.wf(),
                        n == invalidates@.len(),
                        ps == cache_keys_of(invalidates@),
                        i <= n,
                        invalidated_all(old_cache, self.cache(), ps.take(i as int)),
                        self.entry_keys() == old_keys,
                        forall|x: Seq<char>| #[trigger] self.in_flight_keys().contains(x) <==> (
                            old_flights.contains(x) && !(old_cache.contains_key(x) && matched_by_any(ps.take(i as int), x))),
                        self.pending_updates() == old_updates + stale_notices_all(old_keys, ps.take(i as int)),
                        self.fetching() == old(self).fetching(),
                        self.mutating() == old(self).mutating(),
                        self.pending_activity() == old(self).pending_activity(),
                    decreases n - i,
                {
                    let ghost before = self.cache();
                    let ghost flights_before = self.in_flight_keys();
                    let ghost updates_before = self.pending_updates();
                    self.invalidate_queries(&invalidates[i]);
                    proof {
                        let p = ps[i as int];
                        assert(p == join_segments(invalidates@[i as int]@));
                        let t = ps.take(i as int);
                        let t1 = ps.take(i + 1);
                        assert(t1.drop_last() =~= t);
                        assert(t1.last() == p);
                        assert forall|k: Seq<char>| matched_by_any(t1, k) <==> (matched_by_any(t, k) || key_text_prefix(p, k)) by {
                            if matched_by_any(t1, k) {
                                let j = choose|j: int| 0 <= j < t1.len() && key_text_prefix(#[trigger] t1[j], k);
                                if j < i {
                                    assert(t[j] == t1[j]);
                                }
                            }
                            if matched_by_any(t, k) {
                                let j = choose|j: int| 0 <= j < t.len() && key_text_prefix(#[trigger] t[j], k);
                                assert(t1[j] == t[j]);
                            }
                            if key_text_prefix(p, k) {
                                assert(t1[i as int] == p);
                            }
                        }
                        assert forall|k: Seq<char>| #[trigger] old_cache.contains_key(k) implies self.cache()[k] == if matched_by_any(t1, k) {
                            marked_stale(old_cache[k])
                        } else {
                            old_cache[k]
                        } by {
                            assert(before.contains_key(k));
                        }
                        assert(self.cache().dom() =~= old_cache.dom());
                        assert forall|x: Seq<char>| #[trigger] self.in_flight_keys().contains(x) <==> (
                            old_flights.contains(x) && !(old_cache.contains_key(x) && matched_by_any(t1, x))) by {
                            assert(before.contains_key(x) == old_cache.contains_key(x));
                        }
                        assert(self.pending_updates() =~= old_updates + stale_notices_all(old_keys, t1));
                    }
                    i = i + 1;
                }
                proof {
                    assert(ps.take(n as int) =~= ps);
                }
                MutationState::Success(d)
            },
            Err(e) => MutationState::Error(e),
        }
    }
}

} // verus!
