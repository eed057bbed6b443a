use vstd::prelude::*;
use crate::client::{entry_stale, invalidated, stale_notices, update_view, QueryClient};
use crate::duration::Duration;
use crate::error::QueryError;
use crate::key::{join_segments, key_text_prefix, QueryKey};
use crate::options::{placeholder_copied, PlaceholderData, QueryOptions};
use crate::query::Query;
use crate::state::{QueryState, QueryStateUpdate, QueryStateVariant};

verus! {

/// The state an observer of cache key `k` reads from a cache at `now`:
/// `Stale` or `Success` with (a clone of) the cached data, or `Idle` when
/// nothing is cached.
pub open spec fn read_from_cache<T: Clone>(client: &QueryClient<T>, k: Seq<char>, now: Duration, s: QueryState<T>) -> bool {
    if client.cache().contains_key(k) {
        let e = client.cache()[k];
        if entry_stale(e, now) {
            s matches QueryState::Stale(d) && cloned(*e.data, d)
        } else {
            s matches QueryState::Success(d) && cloned(*e.data, d)
        }
    } else {
        s is Idle
    }
}

/// The state that starting a load from `s` gives: `Refetching` with (a
/// clone of) the data shown so far, else `LoadingWithPlaceholder` when a
/// placeholder is configured, else `Loading`.
pub open spec fn loading_from<T: Clone>(s: QueryState<T>, placeholder: Option<PlaceholderData<T>>, next: QueryState<T>) -> bool {
    match s.spec_data() {
        Some(d) => next matches QueryState::Refetching(c) && cloned(d, c),
        None => match placeholder {
            Some(PlaceholderData::Value(v)) => next matches QueryState::LoadingWithPlaceholder(c) && cloned(v, c),
            Some(PlaceholderData::Function(_)) => next is LoadingWithPlaceholder,
            None => next is Loading,
        },
    }
}

/// What creating an observer from `query` at `now` does to a client `old`,
/// giving `new` and the observer's state `s`: when the query's key holds
/// data, nothing changes and `s` is read from the cache; otherwise, when the
/// query has initial data, (a clone of) it is stored with the query's
/// options, a `Success` is noted and `s` is `Success` with it; otherwise
/// nothing changes and `s` is `Idle`.
pub open spec fn seeded_from_query<T: Clone>(old: QueryClient<T>, new: QueryClient<T>, query: Query<T>, now: Duration, s: QueryState<T>) -> bool {
    let k = join_segments(query.key@);
    &&& new.in_flight_keys() == old.in_flight_keys()
    &&& new.fetching() == old.fetching()
    &&& new.mutating() == old.mutating()
    &&& new.pending_activity() == old.pending_activity()
    &&& if old.cache().contains_key(k) {
        &&& read_from_cache(&old, k, now, s)
        &&& new.cache() == old.cache()
        &&& new.pending_updates() == old.pending_updates()
    } else {
        match query.initial_data {
            Some(init) => {
                &&& s matches QueryState::Success(d) && cloned(init, d)
                &&& new.cache().contains_key(k)
                &&& new.cache().remove(k) == old.cache().remove(k)
                &&& cloned(init, *new.cache()[k].data)
                &&& new.cache()[k].options == query.options
                &&& new.cache()[k].fetched_at == now
                &&& !new.cache()[k].is_stale
                &&& new.pending_updates() == old.pending_updates().push((k, QueryStateVariant::Success))
            },
            None => {
                &&& s is Idle
                &&& new.cache() == old.cache()
                &&& new.pending_updates() == old.pending_updates()
            },
        }
    }
}

/// What one change notice for the observed key `k` does to an observer's
/// state and fetch start, `before` to `after`: `Success` and `Stale` show
/// (a clone of) the cached data when there is any, `Loading` and
/// `Refetching` start loading at `now`, `Idle` resets, and `Error` changes
/// nothing.
pub open spec fn notice_step<T: Clone>(
    client: &QueryClient<T>,
    k: Seq<char>,
    now: Duration,
    placeholder: Option<PlaceholderData<T>>,
    variant: QueryStateVariant,
    before: (QueryState<T>, Option<Duration>),
    after: (QueryState<T>, Option<Duration>),
) -> bool {
    match variant {
        QueryStateVariant::Success => {
            &&& after.1 == before.1
            &&& if client.cache().contains_key(k) {
                after.0 matches QueryState::Success(d) && cloned(*client.cache()[k].data, d)
            } else {
                after.0 == before.0
            }
        },
        QueryStateVariant::Stale => {
            &&& after.1 == before.1
            &&& if client.cache().contains_key(k) {
                after.0 matches QueryState::Stale(d) && cloned(*client.cache()[k].data, d)
            } else {
                after.0 == before.0
            }
        },
        QueryStateVariant::Loading | QueryStateVariant::Refetching => {
            &&& loading_from(before.0, placeholder, after.0)
            &&& after.1 == Some(now)
        },
        QueryStateVariant::Error => after == before,
        QueryStateVariant::Idle => after.0 is Idle && after.1 == before.1,
    }
}

/// Change notices as the specifications see them.
pub open spec fn updates_view(updates: Seq<QueryStateUpdate>) -> Seq<(Seq<char>, QueryStateVariant)> {
    updates.map_values(|u: QueryStateUpdate| update_view(u))
}

/// The notices for the key `k` among `updates`, in order.
pub open spec fn notices_for(updates: Seq<(Seq<char>, QueryStateVariant)>, k: Seq<char>) -> Seq<QueryStateVariant>
    decreases updates.len(),
{
    if updates.len() == 0 {
        Seq::empty()
    } else {
        let rest = notices_for(updates.drop_last(), k);
        if updates.last().0 == k {
            rest.push(updates.last().1)
        } else {
            rest
        }
    }
}

/// `states` lists the observer's state and fetch start before each of the
/// notices `variants` and after the last: each notice leads from one to the
/// next.
pub open spec fn notice_chain<T: Clone>(
    client: &QueryClient<T>,
    k: Seq<char>,
    now: Duration,
    placeholder: Option<PlaceholderData<T>>,
    variants: Seq<QueryStateVariant>,
    states: Seq<(QueryState<T>, Option<Duration>)>,
) -> bool {
    &&& states.len() == variants.len() + 1
    &&& forall|i: int, j: int|
        0 <= i < variants.len() && j == i + 1 ==> #[trigger] notice_step(client, k, now, placeholder, variants[i], states[i], states[j])
}

/// An observer of one query: its current state, the options it was created
/// with, its placeholder data and when the current fetch started.
#[derive(Clone)]
#[verifier::reject_recursive_types(T)]
pub struct QueryObserver<T> {
    key: QueryKey,
    state: QueryState<T>,
    options: QueryOptions,
    fetch_started_at: Option<Duration>,
    placeholder_data: Option<PlaceholderData<T>>,
}

impl<T: Clone> QueryObserver<T> {
    pub closed spec fn spec_key(&self) -> QueryKey {
        self.key
    }

    /// The cache key of the key the observer tracks.
    pub open spec fn key_view(&self) -> Seq<char> {
        join_segments(self.spec_key()@)
    }

    pub closed spec fn spec_state(&self) -> QueryState<T> {
        self.state
    }

    pub closed spec fn spec_options(&self) -> QueryOptions {
        self.options
    }

    pub closed spec fn spec_fetch_started_at(&self) -> Option<Duration> {
        self.fetch_started_at
    }

    pub closed spec fn spec_placeholder(&self) -> Option<PlaceholderData<T>> {
        self.placeholder_data
    }

    fn state_from_cache(client: &QueryClient<T>, key: &QueryKey, now: Duration) -> (s: QueryState<T>)
        requires
            client.wf(),
        ensures
            read_from_cache(client, join_segments(key@), now, s),
    {
        match client.get_query_data(key) {
            Some(d) => {
                let data = d.clone();
                if client.is_stale(key, now) {
                    QueryState::Stale(data)
                } else {
                    QueryState::Success(data)
                }
            },
            None => QueryState::Idle,
        }
    }

    /// An observer of `key` that reads the cached state at `now`, with the
    /// options the data was stored with (default when nothing is cached).
    pub fn new(client: &QueryClient<T>, key: QueryKey, now: Duration) -> (o: QueryObserver<T>)
        requires
            client.wf(),
        ensures
            o.spec_key()@ == key@,
            read_from_cache(client, join_segments(key@), now, o.spec_state()),
            if client.cache().contains_key(join_segments(key@)) {
                o.spec_options() == client.cache()[join_segments(key@)].options
            } else {
                o.spec_options().is_default()
            },
            o.spec_fetch_started_at() is None,
            o.spec_placeholder() is None,
    {
        let state = Self::state_from_cache(client, &key, now);
        let options = match client.get_query_options(&key) {
            Some(o) => o,
            None => QueryOptions::default(),
        };
        QueryObserver { key, state, options, fetch_started_at: None, placeholder_data: None }
    }

    /// An observer of `key` that reads the cached state at `now`, with the
    /// given options.
    pub fn with_options(client: &QueryClient<T>, key: QueryKey, options: QueryOptions, now: Duration) -> (o: QueryObserver<T>)
        requires
            client.wf(),
        ensures
            o.spec_key()@ == key@,
            read_from_cache(client, join_segments(key@), now, o.spec_state()),
            o.spec_options() == options,
            o.spec_fetch_started_at() is None,
            o.spec_placeholder() is None,
    {
        let state = Self::state_from_cache(client, &key, now);
        QueryObserver { key, state, options, fetch_started_at: None, placeholder_data: None }
    }

    /// Returns a reference to the current query state.
    pub fn state(&self) -> (s: &QueryState<T>)
        ensures
            *s == self.spec_state(),
    {
        &self.state
    }

    /// Returns the query key this observer is tracking.
    pub fn key(&self) -> (k: &QueryKey)
        ensures
            *k == self.spec_key(),
    {
        &self.key
    }

    /// Returns the options of the observed query.
    pub fn options(&self) -> (o: QueryOptions)
        ensures
            o == self.spec_options(),
    {
        self.options
    }

    /// When the current fetch started, if one is running.
    pub fn fetch_started_at(&self) -> (t: Option<Duration>)
        ensures
            t == self.spec_fetch_started_at(),
    {
        self.fetch_started_at
    }

    /// How long the current fetch has been running at `now`, if one is.
    pub fn fetch_duration(&self, now: Duration) -> (d: Option<Duration>)
        ensures
            match d {
                Some(x) => self.spec_fetch_started_at() matches Some(t)
                    && x.nanos() == crate::client::age(t, now),
                None => self.spec_fetch_started_at() is None,
            },
    {
        match self.fetch_started_at {
            Some(t) => Some(now.saturating_sub(t)),
            None => None,
        }
    }

    /// Transition to a loading state at clock reading `now`: `Refetching`
    /// when there is data to show, else `LoadingWithPlaceholder` when a
    /// placeholder is configured, else `Loading`.
    pub fn set_loading(&mut self, now: Duration)
        ensures
            final(self).spec_fetch_started_at() == Some(now),
            loading_from(old(self).spec_state(), old(self).spec_placeholder(), final(self).spec_state()),
            final(self).spec_key() == old(self).spec_key(),
            final(self).spec_options() == old(self).spec_options(),
            final(self).spec_placeholder() == old(self).spec_placeholder(),
    {
        self.fetch_started_at = Some(now);
        match self.state.data_cloned() {
            Some(data) => {
                self.state = QueryState::Refetching(data);
            },
            None => {
                match &self.placeholder_data {
                    Some(p) => {
                        let resolved = p.resolve(None);
                        self.state = QueryState::LoadingWithPlaceholder(resolved);
                    },
                    None => {
                        self.state = QueryState::Loading;
                    },
                }
            },
        }
    }

    /// The fetch succeeded with `data`.
    pub fn set_success(&mut self, data: T)
        ensures
            final(self).spec_state() == QueryState::Success(data),
            final(self).spec_fetch_started_at() is None,
            final(self).spec_key() == old(self).spec_key(),
            final(self).spec_options() == old(self).spec_options(),
            final(self).spec_placeholder() == old(self).spec_placeholder(),
    {
        self.state = QueryState::Success(data);
        self.fetch_started_at = None;
    }

    /// The fetch failed with `error`; the data shown so far stays visible.
    pub fn set_error(&mut self, error: QueryError)
        ensures
            final(self).spec_state() matches QueryState::Error { error: e, stale_data }
                && e == error
                && match stale_data {
                    Some(c) => old(self).spec_state().spec_data() matches Some(d) && cloned(d, c),
                    None => old(self).spec_state().spec_data() is None,
                },
            final(self).spec_fetch_started_at() is None,
            final(self).spec_key() == old(self).spec_key(),
            final(self).spec_options() == old(self).spec_options(),
            final(self).spec_placeholder() == old(self).spec_placeholder(),
    {
        let stale_data = self.state.data_cloned();
        self.state = QueryState::Error { error, stale_data };
        self.fetch_started_at = None;
    }

    /// Mark the data shown as stale; nothing changes when there is none.
    pub fn set_stale(&mut self)
        ensures
            match old(self).spec_state().spec_data() {
                Some(d) => final(self).spec_state() matches QueryState::Stale(c) && cloned(d, c),
                None => final(self).spec_state() == old(self).spec_state(),
            },
            final(self).spec_fetch_started_at() == old(self).spec_fetch_started_at(),
            final(self).spec_key() == old(self).spec_key(),
            final(self).spec_options() == old(self).spec_options(),
            final(self).spec_placeholder() == old(self).spec_placeholder(),
    {
        match self.state.data_cloned() {
            Some(data) => {
                self.state = QueryState::Stale(data);
            },
            None => {},
        }
    }

    /// Refresh the observer's state from the cache at `now`.
    pub fn update(&mut self, client: &QueryClient<T>, now: Duration)
        requires
            client.wf(),
        ensures
            read_from_cache(client, old(self).key_view(), now, final(self).spec_state()),
            final(self).spec_fetch_started_at() == old(self).spec_fetch_started_at(),
            final(self).spec_key() == old(self).spec_key(),
            final(self).spec_options() == old(self).spec_options(),
            final(self).spec_placeholder() == old(self).spec_placeholder(),
    {
        self.state = Self::state_from_cache(client, &self.key, now);
    }

    /// React to a change noted for the observed key: `Success` and `Stale`
    /// show the cached data (when there is any), `Loading` and `Refetching`
    /// start loading, `Idle` resets, and `Error` leaves the state to the
    /// runner that reports it.
    pub fn handle_update(&mut self, variant: QueryStateVariant, client: &QueryClient<T>, now: Duration)
        requires
            client.wf(),
        ensures
            final(self).spec_key() == old(self).spec_key(),
            final(self).spec_options() == old(self).spec_options(),
            final(self).spec_placeholder() == old(self).spec_placeholder(),
            notice_step(
                client,
                old(self).key_view(),
                now,
                old(self).spec_placeholder(),
                variant,
                (old(self).spec_state(), old(self).spec_fetch_started_at()),
                (final(self).spec_state(), final(self).spec_fetch_started_at()),
            ),
    {
        match variant {
            QueryStateVariant::Success => {
                match client.get_query_data(&self.key) {
                    Some(d) => {
                        self.state = QueryState::Success(d.clone());
                    },
                    None => {},
                }
            },
            QueryStateVariant::Stale => {
                match client.get_query_data(&self.key) {
                    Some(d) => {
                        self.state = QueryState::Stale(d.clone());
                    },
                    None => {},
                }
            },
            QueryStateVariant::Loading | QueryStateVariant::Refetching => {
                self.set_loading(now);
            },
            QueryStateVariant::Error => {},
            QueryStateVariant::Idle => {
                self.state = QueryState::Idle;
            },
        }
    }

    /// Take the change notices recorded by a client, oldest first: those for
    /// the observed key are handled in turn (see `handle_update`), the others
    /// are passed over.
    pub fn apply_updates(&mut self, updates: &Vec<QueryStateUpdate>, client: &QueryClient<T>, now: Duration)
        requires
            client.wf(),
        ensures
            final(self).spec_key() == old(self).spec_key(),
            final(self).spec_options() == old(self).spec_options(),
            final(self).spec_placeholder() == old(self).spec_placeholder(),
            exists|states: Seq<(QueryState<T>, Option<Duration>)>| {
                &&& #[trigger] notice_chain(
                    client,
                    old(self).key_view(),
                    now,
                    old(self).spec_placeholder(),
                    notices_for(updates_view(updates@), old(self).key_view()),
                    states,
                )
                &&& states[0] == (old(self).spec_state(), old(self).spec_fetch_started_at())
                &&& states.last() == (final(self).spec_state(), final(self).spec_fetch_started_at())
            },
    {
        let ghost k = self.key_view();
        let ghost ph = self.spec_placeholder();
        let ghost start = (self.spec_state(), self.spec_fetch_started_at());
        let ghost views = updates_view(updates@);
        let ghost mut states: Seq<(QueryState<T>, Option<Duration>)> = seq![start];
        let key = self.key.cache_key();
        let n = updates.len();
        let mut i: usize = 0;
        while i < n
            invariant
                n == updates@.len(),
                views == updates_view(updates@),
                client.wf(),
                i <= n,
                key@ == k,
                k == self.key_view(),
                self.spec_key() == old(self).spec_key(),
                self.spec_options() == old(self).spec_options(),
                ph == self.spec_placeholder(),
                ph == old(self).spec_placeholder(),
                notice_chain(client, k, now, ph, notices_for(views.take(i as int), k), states),
                states[0] == start,
                states.last() == (self.spec_state(), self.spec_fetch_started_at()),
            decreases n - i,
        {
            let u = &updates[i];
            let ghost mid = (self.spec_state(), self.spec_fetch_started_at());
            let ghost vs0 = notices_for(views.take(i as int), k);
            proof {
                assert(views.take(i + 1).drop_last() =~= views.take(i as int));
                assert(views.take(i + 1).last() == views[i as int]);
                assert(views[i as int] == update_view(*u));
            }
            if u.key.eq(&key) {
                self.handle_update(u.state_variant, client, now);
                proof {
                    let vs = notices_for(views.take(i + 1), k);
                    let end = (self.spec_state(), self.spec_fetch_started_at());
                    let next = states.push(end);
                    assert(vs == vs0.push(u.state_variant));
                    assert forall|a: int, b: int| 0 <= a < vs.len() && b == a + 1 implies #[trigger] notice_step(
                        client,
                        k,
                        now,
                        ph,
                        vs[a],
                        next[a],
                        next[b],
                    ) by {
                        if a < vs0.len() {
                            assert(vs[a] == vs0[a]);
                            assert(next[a] == states[a] && next[b] == states[b]);
                            assert(notice_step(client, k, now, ph, vs0[a], states[a], states[b]));
                        } else {
                            assert(next[a] == mid);
                            assert(next[b] == end);
                        }
                    }
                    states = next;
                }
            } else {
                assert(notices_for(views.take(i + 1), k) == vs0);
            }
            i = i + 1;
        }
        assert(views.take(n as int) =~= views);
    }

    /// Invalidate the observed key in the client, as `invalidate_queries`
    /// does (the key and the keys that extend it are marked stale, their
    /// in-flight fetches cancelled and `Stale` noted); the refetch itself is
    /// started separately.
    pub fn refetch(&self, client: &mut QueryClient<T>)
        requires
            old(client).wf(),
        ensures
            final(client).wf(),
            ({
                let p = self.key_view();
                &&& invalidated(old(client).cache(), final(client).cache(), p)
                &&& final(client).entry_keys() == old(client).entry_keys()
                &&& forall|x: Seq<char>| #[trigger] final(client).in_flight_keys().contains(x) <==> (
                    old(client).in_flight_keys().contains(x) && !(old(client).cache().contains_key(x)
                        && key_text_prefix(p, x)))
                &&& final(client).pending_updates() == old(client).pending_updates() + stale_notices(
                    old(client).entry_keys(),
                    p,
                )
            }),
            final(client).fetching() == old(client).fetching(),
            final(client).mutating() == old(client).mutating(),
            final(client).pending_activity() == old(client).pending_activity(),
            old(client).cache().contains_key(self.key_view()) ==> final(client).cache()[self.key_view()].is_stale,
    {
        client.invalidate_queries(&self.key);
        assert(key_text_prefix(self.key_view(), self.key_view()));
    }
}

impl<T: Clone + PartialEq> QueryObserver<T> {
    /// An observer created from a query definition at `now`: the cached
    /// state when the key holds data; otherwise, when the query has initial
    /// data, that data is stored in the client and shown as `Success`;
    /// otherwise `Idle`. The observer keeps the query's options and
    /// placeholder.
    pub fn from_query(client: &mut QueryClient<T>, query: &Query<T>, now: Duration) -> (o: QueryObserver<T>)
        requires
            old(client).wf(),
        ensures
            final(client).wf(),
            o.spec_key()@ == query.key@,
            o.spec_options() == query.options,
            o.spec_fetch_started_at() is None,
            seeded_from_query(*old(client), *final(client), *query, now, o.spec_state()),
            match query.placeholder_data {
                Some(p) => o.spec_placeholder() matches Some(c) && placeholder_copied(p, c),
                None => o.spec_placeholder() is None,
            },
    {
        let key = query.key.clone();
        let state = if client.get_query_data(&key).is_some() {
            Self::state_from_cache(client, &key, now)
        } else {
            match &query.initial_data {
                Some(init) => {
                    let stored = init.clone();
                    client.set_query_data(&key, stored, query.options, now);
                    QueryState::Success(init.clone())
                },
                None => QueryState::Idle,
            }
        };
        let placeholder_data = match &query.placeholder_data {
            Some(p) => Some(p.clone()),
            None => None,
        };
        QueryObserver { key, state, options: query.options, fetch_started_at: None, placeholder_data }
    }
}

} // verus!
