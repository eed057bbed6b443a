use vstd::prelude::*;
use vstd::string::*;
use std::sync::Arc;
use crate::client::{age, entry_keys_distinct, CacheEntry, QueryClient};
use crate::duration::{Duration, NANOS_PER_MILLI, NANOS_PER_SEC};
use crate::key::{join_segments, QueryKey, SegmentView};
use crate::options::{QueryOptions, RetryConfig};
use crate::state::QueryStateVariant;

verus! {

/// Cached data that can be written as text and read back from it.
pub trait CacheText: Sized {
    /// The text of the data, when it is text.
    spec fn text_view(&self) -> Option<Seq<char>>;

    /// The data as text, when it is text.
    fn as_text(&self) -> (r: Option<String>)
        ensures
            match r {
                Some(t) => self.text_view() == Some(t@),
                None => self.text_view() is None,
            },
    ;

    /// Data holding the given text.
    fn from_text(text: String) -> (v: Self)
        ensures
            v.text_view() == Some(text@),
    ;
}

impl CacheText for String {
    open spec fn text_view(&self) -> Option<Seq<char>> {
        Some(self@)
    }

    fn as_text(&self) -> (r: Option<String>) {
        Some(self.clone())
    }

    fn from_text(text: String) -> (v: String) {
        text
    }
}

/// A single dehydrated query entry.
#[derive(Clone, Debug)]
pub struct DehydratedQuery {
    pub key: String,
    pub data: String,
    pub fetched_at_secs: u64,
    pub stale_time_ms: u64,
    pub gc_time_ms: u64,
}

/// A dehydrated entry as the specifications see it: key, data, age in
/// seconds, stale time and gc time in milliseconds.
pub type DehydratedView = (Seq<char>, Seq<char>, u64, u64, u64);

pub open spec fn dehydrated_view(q: DehydratedQuery) -> DehydratedView {
    (q.key@, q.data@, q.fetched_at_secs, q.stale_time_ms, q.gc_time_ms)
}

/// Dehydrated state: the serialisable query cache entries, one per key.
#[derive(Clone, Debug, Default)]
pub struct DehydratedState {
    pub queries: Vec<DehydratedQuery>,
}

/// What a key filter holder keeps: a caller's function from a cache key to
/// whether the query is hydrated.
pub(crate) trait FilterCall: Send + Sync {
    /// `b` is an answer the function can give for the key `key`.
    spec fn gives(&self, key: Seq<char>, b: bool) -> bool;

    /// The function accepts `key`.
    spec fn accepts(&self, key: &str) -> bool;

    fn call_with(&self, key: &str) -> (b: bool)
        requires
            self.accepts(key),
        ensures
            self.gives(key@, b),
    ;
}

impl<F: Fn(&str) -> bool + Send + Sync> FilterCall for F {
    closed spec fn gives(&self, key: Seq<char>, b: bool) -> bool {
        exists|s: &str| s@ == key && #[trigger] call_ensures(*self, (s,), b)
    }

    closed spec fn accepts(&self, key: &str) -> bool {
        call_requires(*self, (key,))
    }

    fn call_with(&self, key: &str) -> (b: bool) {
        self(key)
    }
}

/// A function that decides, from its cache key, whether a query is hydrated.
pub struct KeyFilterFn {
    f: Arc<dyn FilterCall>,
}

impl KeyFilterFn {
    /// `b` is an answer the held function can give for the key `key`.
    pub closed spec fn gives(&self, key: Seq<char>, b: bool) -> bool {
        (*self.f).gives(key, b)
    }

    /// Wraps the caller's function; nothing is claimed of it.
    #[verifier::external_body]
    pub fn new<F>(f: F) -> Self where F: Fn(&str) -> bool + Send + Sync + 'static {
        KeyFilterFn { f: Arc::new(f) }
    }

    /// Calls the caller's function on `key`. The contract claims that what
    /// comes back is an answer of that function for exactly this key; of
    /// which answer, nothing.
    #[verifier::external_body]
    pub fn call(&self, key: &str) -> (b: bool)
        ensures
            self.gives(key@, b),
    {
        self.f.call_with(key)
    }
}

impl Clone for KeyFilterFn {
    /// Shares the same function (`Arc::clone`).
    #[verifier::external_body]
    fn clone(&self) -> Self {
        KeyFilterFn { f: Arc::clone(&self.f) }
    }
}

impl std::fmt::Debug for KeyFilterFn {
    /// Writes `"[Fn]"`; the function itself cannot be shown.
    #[verifier::external_body]
    fn fmt(&self, f: &mut std::fmt::Formatter<'_>) -> std::fmt::Result {
        f.write_str("\"[Fn]\"")
    }
}

/// Options for hydrating the query cache.
#[derive(Clone, Debug)]
pub struct HydrateOptions {
    /// Whether hydrated entries replace entries already cached.
    pub should_overwrite: bool,
    /// Which keys to hydrate; all when absent.
    pub should_hydrate: Option<KeyFilterFn>,
}

impl Default for HydrateOptions {
    fn default() -> (o: HydrateOptions)
        ensures
            o.should_overwrite,
            o.should_hydrate is None,
    {
        HydrateOptions { should_overwrite: true, should_hydrate: None }
    }
}

/// The dehydrated form of a cache entry at clock reading `now`, when its
/// data is text.
pub open spec fn dehydrate_entry<V: CacheText>(e: CacheEntry<V>, now: Duration) -> Option<DehydratedView> {
    match (*e.data).text_view() {
        Some(t) => Some(
            (
                e.key@,
                t,
                (age(e.fetched_at, now) / NANOS_PER_SEC as nat) as u64,
                (e.options.stale_time.nanos() / NANOS_PER_MILLI as nat) as u64,
                (e.options.gc_time.nanos() / NANOS_PER_MILLI as nat) as u64,
            ),
        ),
        None => None,
    }
}

/// The dehydrated forms of the entries whose data is text, in order.
pub open spec fn dehydrate_entries<V: CacheText>(s: Seq<CacheEntry<V>>, now: Duration) -> Seq<DehydratedView>
    decreases s.len(),
{
    if s.len() == 0 {
        Seq::empty()
    } else {
        let rest = dehydrate_entries(s.drop_last(), now);
        match dehydrate_entry(s.last(), now) {
            Some(d) => rest.push(d),
            None => rest,
        }
    }
}

/// No two dehydrated entries have the same key.
pub open spec fn dehydrated_keys_distinct(s: Seq<DehydratedQuery>) -> bool {
    forall|i: int, j: int| 0 <= i < j < s.len() ==> #[trigger] s[i].key@ != #[trigger] s[j].key@
}

/// The options a hydrated entry gets: the stored stale and gc times, the
/// rest default.
pub open spec fn hydrated_options(o: QueryOptions, q: DehydratedQuery) -> bool {
    &&& o.stale_time.nanos() == q.stale_time_ms * NANOS_PER_MILLI
    &&& o.gc_time.nanos() == q.gc_time_ms * NANOS_PER_MILLI
    &&& o.retry.max_retries == 3
    &&& o.retry.base_delay.nanos() == 500_000_000
    &&& o.retry.exponential_backoff
    &&& o.enabled
    &&& o.refetch_on_window_focus
    &&& o.refetch_interval.nanos() == 0
    &&& o.structural_sharing
}

/// Hydrating `q` replaces what is cached under its key: with overwriting,
/// or when nothing is cached there.
pub open spec fn hydrate_candidate<V>(old: Map<Seq<char>, CacheEntry<V>>, q: DehydratedQuery, overwrite: bool) -> bool {
    overwrite || !old.contains_key(q.key@)
}

/// The entry under `q`'s key holds `q` as hydrated at `now`: its text is
/// `q`'s data (or, by structural sharing, it kept the equal data it held
/// before), with `q`'s stale and gc times.
pub open spec fn holds_hydrated<V: CacheText>(
    cache: Map<Seq<char>, CacheEntry<V>>,
    old: Map<Seq<char>, CacheEntry<V>>,
    q: DehydratedQuery,
    now: Duration,
) -> bool {
    let k = q.key@;
    &&& cache.contains_key(k)
    &&& cache[k].key@ == k
    &&& ((*cache[k].data).text_view() == Some(q.data@) || (old.contains_key(k) && cache[k].data == old[k].data))
    &&& cache[k].fetched_at == now
    &&& cache[k].last_accessed == now
    &&& !cache[k].is_stale
    &&& hydrated_options(cache[k].options, q)
}

/// The `Success` notices hydration writes when every query may be hydrated.
pub open spec fn hydrate_notices<V>(
    qs: Seq<DehydratedQuery>,
    old: Map<Seq<char>, CacheEntry<V>>,
    overwrite: bool,
) -> Seq<(Seq<char>, QueryStateVariant)>
    decreases qs.len(),
{
    if qs.len() == 0 {
        Seq::empty()
    } else {
        let rest = hydrate_notices(qs.drop_last(), old, overwrite);
        if hydrate_candidate(old, qs.last(), overwrite) {
            rest.push((qs.last().key@, QueryStateVariant::Success))
        } else {
            rest
        }
    }
}

/// The key `k` holds the same as in `old` (or is absent from both).
pub open spec fn untouched<V>(cache: Map<Seq<char>, CacheEntry<V>>, old: Map<Seq<char>, CacheEntry<V>>, k: Seq<char>) -> bool {
    &&& cache.contains_key(k) == old.contains_key(k)
    &&& old.contains_key(k) ==> cache[k] == old[k]
}

/// What hydrating the query `q` does to its key, with the filter `filter`:
/// either the key is untouched, and then, when `q` is a candidate, the filter
/// answered `false` for its key; or `q` is a candidate now held as hydrated,
/// and then the filter, if any, answered `true` for its key.
pub open spec fn hydrated_one<V: CacheText>(
    old: Map<Seq<char>, CacheEntry<V>>,
    new: Map<Seq<char>, CacheEntry<V>>,
    q: DehydratedQuery,
    overwrite: bool,
    filter: Option<KeyFilterFn>,
    now: Duration,
) -> bool {
    ||| (untouched(new, old, q.key@) && (hydrate_candidate(old, q, overwrite) ==> (filter matches Some(f)
        && f.gives(q.key@, false))))
    ||| (hydrate_candidate(old, q, overwrite) && holds_hydrated(new, old, q, now) && (filter matches Some(f)
        ==> f.gives(q.key@, true)))
}

/// A filter skips only the queries it rejects: when hydrating leaves a
/// candidate query's key uncached, a filter was given and answered `false`
/// for that key; and a query that is hydrated under a filter was accepted.
pub proof fn law_filter_skips_only_rejected<V: CacheText>(
    old: Map<Seq<char>, CacheEntry<V>>,
    new: Map<Seq<char>, CacheEntry<V>>,
    q: DehydratedQuery,
    overwrite: bool,
    filter: Option<KeyFilterFn>,
    now: Duration,
)
    requires
        hydrated_one(old, new, q, overwrite, filter, now),
    ensures
        hydrate_candidate(old, q, overwrite) && !new.contains_key(q.key@) ==> (filter matches Some(f) && f.gives(
            q.key@,
            false,
        )),
        !old.contains_key(q.key@) && new.contains_key(q.key@) ==> (filter matches Some(f) ==> f.gives(q.key@, true)),
{
}

/// What hydrating the queries `qs` does to a cache `old`, giving `new`: keys
/// not among the queries are untouched; each query's key is either untouched
/// (possible only when a filter is given or the query is no candidate) or
/// holds the query as hydrated (possible only for a candidate).
pub open spec fn hydrated_from<V: CacheText>(
    old: Map<Seq<char>, CacheEntry<V>>,
    new: Map<Seq<char>, CacheEntry<V>>,
    qs: Seq<DehydratedQuery>,
    overwrite: bool,
    no_filter: bool,
    now: Duration,
) -> bool {
    &&& forall|k: Seq<char>|
        (forall|i: int| 0 <= i < qs.len() ==> #[trigger] qs[i].key@ != k) ==> #[trigger] untouched(new, old, k)
    &&& forall|i: int| 0 <= i < qs.len() ==> {
        let q = #[trigger] qs[i];
        ||| (untouched(new, old, q.key@) && (no_filter ==> !hydrate_candidate(old, q, overwrite)))
        ||| (hydrate_candidate(old, q, overwrite) && holds_hydrated(new, old, q, now))
    }
}

impl DehydratedState {
    /// The entry with the given key, if any.
    pub fn get(&self, key: &str) -> (r: Option<&DehydratedQuery>)
        ensures
            match r {
                Some(q) => q.key@ == key@ && self.queries@.contains(*q),
                None => forall|i: int| 0 <= i < self.queries@.len() ==> #[trigger] self.queries@[i].key@ != key@,
            },
    {
        let k = String::from_str(key);
        let n = self.queries.len();
        let mut i: usize = 0;
        while i < n
            invariant
                n == self.queries@.len(),
                i <= n,
                k@ == key@,
                forall|j: int| 0 <= j < i ==> #[trigger] self.queries@[j].key@ != key@,
            decreases n - i,
        {
            if self.queries[i].key.eq(&k) {
                assert(self.queries@[i as int] == self.queries@[i as int]);
                return Some(&self.queries[i]);
            }
            i = i + 1;
        }
        None
    }
}

fn hydrate_query_options(q: &DehydratedQuery) -> (o: QueryOptions)
    ensures
        hydrated_options(o, *q),
{
    QueryOptions {
        stale_time: Duration::from_millis(q.stale_time_ms),
        gc_time: Duration::from_millis(q.gc_time_ms),
        ..QueryOptions::default()
    }
}

impl<V: CacheText> QueryClient<V> {
    /// Write every entry whose data is text in dehydrated form, in order;
    /// entries whose data is not text are left out.
    pub fn dehydrate(&self, now: Duration) -> (state: DehydratedState)
        requires
            self.wf(),
        ensures
            state.queries@.map_values(|q: DehydratedQuery| dehydrated_view(q)) == dehydrate_entries(
                self.entry_list(),
                now,
            ),
            dehydrated_keys_distinct(state.queries@),
    {
        let entries = self.entries();
        let n = entries.len();
        let mut queries: Vec<DehydratedQuery> = Vec::new();
        let mut i: usize = 0;
        while i < n
            invariant
                n == entries@.len(),
                entries@ == self.entry_list(),
                i <= n,
                queries@.map_values(|q: DehydratedQuery| dehydrated_view(q)) == dehydrate_entries(
                    entries@.take(i as int),
                    now,
                ),
            decreases n - i,
        {
            let e = &entries[i];
            let ghost before = queries@;
            match e.data.as_text() {
                Some(text) => {
                    let age = now.saturating_sub(e.fetched_at);
                    let q = DehydratedQuery {
                        key: e.key.clone(),
                        data: text,
                        fetched_at_secs: age.as_secs(),
                        stale_time_ms: e.options.stale_time.as_millis() as u64,
                        gc_time_ms: e.options.gc_time.as_millis() as u64,
                    };
                    queries.push(q);
                    assert(queries@ == before.push(q));
                },
                None => {},
            }
            proof {
                assert(entries@.take(i + 1).drop_last() =~= entries@.take(i as int));
                assert(entries@.take(i + 1).last() == entries@[i as int]);
                assert(queries@.map_values(|q: DehydratedQuery| dehydrated_view(q)) =~= dehydrate_entries(
                    entries@.take(i + 1),
                    now,
                ));
            }
            i = i + 1;
        }
        assert(entries@.take(n as int) =~= entries@);
        proof {
            self.lemma_wf_keys_distinct();
            lemma_dehydrate_keys_distinct(self.entry_list(), now);
            let r = dehydrate_entries(self.entry_list(), now);
            assert forall|a: int, b: int| 0 <= a < b < queries@.len() implies #[trigger] queries@[a].key@
                != #[trigger] queries@[b].key@ by {
                assert(dehydrated_view(queries@[a]) == r[a]);
                assert(dehydrated_view(queries@[b]) == r[b]);
            }
        }
        DehydratedState { queries }
    }
}

impl<V: CacheText + PartialEq> QueryClient<V> {
    /// Restore entries from dehydrated state at clock reading `now`.
    ///
    /// A query is skipped when the filter rejects its key, or when overwriting
    /// is off and its key is already cached; otherwise its text is stored
    /// under its key with its stale and gc times and default other options.
    pub fn hydrate(&mut self, state: DehydratedState, options: HydrateOptions, now: Duration)
        requires
            old(self).wf(),
            dehydrated_keys_distinct(state.queries@),
        ensures
            final(self).wf(),
            hydrated_from(old(self).cache(), final(self).cache(), state.queries@, options.should_overwrite,
                options.should_hydrate is None, now),
            forall|j: int| 0 <= j < state.queries@.len() ==> hydrated_one(old(self).cache(), final(self).cache(),
                #[trigger] state.queries@[j], options.should_overwrite, options.should_hydrate, now),
            options.should_hydrate is None ==> final(self).pending_updates() == old(self).pending_updates()
                + hydrate_notices(state.queries@, old(self).cache(), options.should_overwrite),
            final(self).in_flight_keys() == old(self).in_flight_keys(),
            final(self).fetching() == old(self).fetching(),
            final(self).mutating() == old(self).mutating(),
            final(self).pending_activity() == old(self).pending_activity(),
    {
        let qs = &state.queries;
        let n = qs.len();
        let ghost old_cache = self.cache();
        let ghost old_updates = self.pending_updates();
        let mut i: usize = 0;
        while i < n
            invariant
                self.wf(),
                n == qs@.len(),
                i <= n,
                dehydrated_keys_distinct(qs@),
                forall|k: Seq<char>|
                    (forall|j: int| 0 <= j < i ==> qs@[j].key@ != k)
                        ==> #[trigger] untouched(self.cache(), old_cache, k),
                forall|j: int| 0 <= j < i ==> hydrated_one(old_cache, self.cache(), #[trigger] qs@[j],
                    options.should_overwrite, options.should_hydrate, now),
                options.should_hydrate is None ==> self.pending_updates() == old_updates
                    + hydrate_notices(qs@.take(i as int), old_cache, options.should_overwrite),
                self.in_flight_keys() == old(self).in_flight_keys(),
                self.fetching() == old(self).fetching(),
                self.mutating() == old(self).mutating(),
                self.pending_activity() == old(self).pending_activity(),
            decreases n - i,
        {
            let q = &qs[i];
            let ghost cache_before = self.cache();
            let ghost updates_before = self.pending_updates();
            let ghost k = q.key@;
            proof {
                assert(qs@.take(i + 1).drop_last() =~= qs@.take(i as int));
                assert(qs@.take(i + 1).last() == qs@[i as int]);
                // The key of `q` has not been touched yet.
                assert forall|j: int| 0 <= j < i implies #[trigger] qs@[j].key@ != k by {
                    assert(qs@[j].key@ != qs@[i as int].key@);
                }
                assert(untouched(self.cache(), old_cache, k));
            }
            let accepted = match &options.should_hydrate {
                Some(filter) => filter.call(q.key.as_str()),
                None => true,
            };
            let skip_existing = !options.should_overwrite && self.contains_cache_key(q.key.as_str());
            if accepted && !skip_existing {
                let query_key = QueryKey::new(q.key.as_str());
                proof {
                    assert(query_key@ =~= seq![SegmentView::Static(k)]);
                    assert(join_segments(query_key@) == k);
                }
                let data = V::from_text(q.data.clone());
                let query_options = hydrate_query_options(q);
                let ghost data_view = data;
                self.set_query_data(&query_key, data, query_options, now);
                proof {
                    let e = self.cache()[k];
                    assert(untouched(cache_before, old_cache, k));
                    assert(hydrate_candidate(old_cache, *q, options.should_overwrite));
                    assert(data_view.text_view() == Some(q.data@));
                    assert((*e.data).text_view() == Some(q.data@) || (old_cache.contains_key(k) && e.data == old_cache[k].data));
                    assert(holds_hydrated(self.cache(), old_cache, *q, now));
                    assert forall|k2: Seq<char>| k2 != k implies (#[trigger] self.cache().contains_key(k2) == cache_before.contains_key(k2)
                        && (cache_before.contains_key(k2) ==> self.cache()[k2] == cache_before[k2])) by {
                        assert(self.cache().remove(k).contains_key(k2) == self.cache().contains_key(k2));
                        assert(cache_before.remove(k).contains_key(k2) == cache_before.contains_key(k2));
                        if cache_before.contains_key(k2) {
                            assert(self.cache().remove(k)[k2] == self.cache()[k2]);
                            assert(cache_before.remove(k)[k2] == cache_before[k2]);
                        }
                    }
                    assert forall|j: int| 0 <= j < i + 1 implies hydrated_one(old_cache, self.cache(), #[trigger] qs@[j],
                        options.should_overwrite, options.should_hydrate, now) by {
                        if j == i {
                            assert(qs@[j] == *q);
                        }
                        if j < i {
                            assert(qs@[j].key@ != k);
                            let q2 = qs@[j];
                            let k2 = q2.key@;
                            assert(self.cache().contains_key(k2) == cache_before.contains_key(k2));
                            if cache_before.contains_key(k2) {
                                assert(self.cache()[k2] == cache_before[k2]);
                            }
                            if holds_hydrated(cache_before, old_cache, q2, now) {
                                assert(holds_hydrated(self.cache(), old_cache, q2, now));
                            }
                        }
                    }
                    assert forall|k2: Seq<char>|
                        (forall|j: int| 0 <= j < i + 1 ==> qs@[j].key@ != k2)
                            implies #[trigger] untouched(self.cache(), old_cache, k2) by {
                        assert(qs@[i as int].key@ != k2);
                        assert(forall|j: int| 0 <= j < i ==> qs@[j].key@ != k2);
                        assert(untouched(cache_before, old_cache, k2));
                        assert(self.cache().contains_key(k2) == cache_before.contains_key(k2));
                    }
                    if options.should_hydrate is None {
                        assert(self.pending_updates() =~= old_updates
                            + hydrate_notices(qs@.take(i + 1), old_cache, options.should_overwrite));
                    }
                }
            } else {
                proof {
                    assert(hydrated_one(old_cache, self.cache(), qs@[i as int], options.should_overwrite,
                        options.should_hydrate, now));
                    assert forall|k2: Seq<char>|
                        (forall|j: int| 0 <= j < i + 1 ==> qs@[j].key@ != k2)
                            implies #[trigger] untouched(self.cache(), old_cache, k2) by {
                        assert(forall|j: int| 0 <= j < i ==> qs@[j].key@ != k2);
                    }
                    if options.should_hydrate is None {
                        assert(!hydrate_candidate(old_cache, *q, options.should_overwrite));
                        assert(self.pending_updates() =~= old_updates
                            + hydrate_notices(qs@.take(i + 1), old_cache, options.should_overwrite));
                    }
                }
            }
            i = i + 1;
        }
        proof {
            assert(qs@.take(n as int) =~= qs@);
            assert forall|j: int| 0 <= j < qs@.len() implies {
                let q = #[trigger] qs@[j];
                ||| (untouched(self.cache(), old_cache, q.key@) && (options.should_hydrate is None ==> !hydrate_candidate(old_cache, q, options.should_overwrite)))
                ||| (hydrate_candidate(old_cache, q, options.should_overwrite) && holds_hydrated(self.cache(), old_cache, q, now))
            } by {
                assert(hydrated_one(old_cache, self.cache(), qs@[j], options.should_overwrite, options.should_hydrate, now));
            }
        }
    }
}

/// Every dehydrated form comes from an entry, and every entry with text data
/// has its dehydrated form in the result.
proof fn lemma_dehydrate_entries<V: CacheText>(s: Seq<CacheEntry<V>>, now: Duration)
    ensures
        forall|j: int| 0 <= j < dehydrate_entries(s, now).len() ==> exists|i: int|
            0 <= i < s.len() && dehydrate_entry(#[trigger] s[i], now) == Some(
                #[trigger] dehydrate_entries(s, now)[j],
            ),
        forall|i: int| 0 <= i < s.len() && (#[trigger] dehydrate_entry(s[i], now)) is Some ==> exists|j: int|
            0 <= j < dehydrate_entries(s, now).len() && dehydrate_entries(s, now)[j] == dehydrate_entry(
                s[i],
                now,
            )->0,
    decreases s.len(),
{
    if s.len() > 0 {
        let t = s.drop_last();
        lemma_dehydrate_entries(t, now);
        let r = dehydrate_entries(s, now);
        let rt = dehydrate_entries(t, now);
        assert forall|j: int| 0 <= j < r.len() implies exists|i: int|
            0 <= i < s.len() && dehydrate_entry(#[trigger] s[i], now) == Some(#[trigger] r[j]) by {
            if j < rt.len() {
                assert(r[j] == rt[j]);
                let i = choose|i: int| 0 <= i < t.len() && dehydrate_entry(#[trigger] t[i], now) == Some(#[trigger] rt[j]);
                assert(s[i] == t[i]);
            } else {
                assert(s[s.len() - 1] == s.last());
            }
        }
        assert forall|i: int| 0 <= i < s.len() && (#[trigger] dehydrate_entry(s[i], now)) is Some implies exists|j: int|
            0 <= j < r.len() && r[j] == dehydrate_entry(s[i], now)->0 by {
            if i < t.len() {
                assert(t[i] == s[i]);
                let j = choose|j: int| 0 <= j < rt.len() && rt[j] == dehydrate_entry(t[i], now)->0;
                assert(r[j] == rt[j]);
            } else {
                assert(r[r.len() - 1] == dehydrate_entry(s.last(), now)->0);
            }
        }
    }
}

/// Dehydrating a cache whose keys are distinct gives distinct keys.
proof fn lemma_dehydrate_keys_distinct<V: CacheText>(s: Seq<CacheEntry<V>>, now: Duration)
    requires
        entry_keys_distinct(s),
    ensures
        forall|a: int, b: int| 0 <= a < b < dehydrate_entries(s, now).len() ==>
            (#[trigger] dehydrate_entries(s, now)[a]).0 != (#[trigger] dehydrate_entries(s, now)[b]).0,
    decreases s.len(),
{
    if s.len() > 0 {
        let t = s.drop_last();
        assert(entry_keys_distinct(t));
        lemma_dehydrate_keys_distinct(t, now);
        lemma_dehydrate_entries(t, now);
        let r = dehydrate_entries(s, now);
        let rt = dehydrate_entries(t, now);
        assert forall|a: int, b: int| 0 <= a < b < r.len() implies (#[trigger] r[a]).0 != (#[trigger] r[b]).0 by {
            if b < rt.len() {
                assert(r[a] == rt[a] && r[b] == rt[b]);
            } else {
                assert(r[a] == rt[a]);
                let i = choose|i: int| 0 <= i < t.len() && dehydrate_entry(#[trigger] t[i], now) == Some(#[trigger] rt[a]);
                assert(r[b].0 == s.last().key@);
                assert(s[i] == t[i]);
                assert(s[i].key@ != s[s.len() - 1].key@);
            }
        }
    }
}

/// A span that dehydration writes without loss: a whole number of
/// milliseconds that fits in a `u64`.
pub open spec fn whole_millis(d: Duration) -> bool {
    &&& d.nanos() % (NANOS_PER_MILLI as nat) == 0
    &&& d.nanos() / (NANOS_PER_MILLI as nat) <= u64::MAX
}

/// A stored time read back from the milliseconds written for it is the time
/// itself, when it is a whole number of milliseconds.
proof fn lemma_millis_round_trip(d: Duration, ms: u64, back: nat)
    requires
        whole_millis(d),
        ms == (d.nanos() / (NANOS_PER_MILLI as nat)) as u64,
        back == ms * NANOS_PER_MILLI,
    ensures
        back == d.nanos(),
{
    vstd::arithmetic::div_mod::lemma_fundamental_div_mod(d.nanos() as int, NANOS_PER_MILLI as int);
}

/// Hydrating, with the default options, a fresh client from what another
/// client dehydrated restores every text entry of the other client under the
/// same key with the same text, and with the same stale and gc times where
/// those are whole milliseconds (dehydration writes times in milliseconds).
pub proof fn law_hydrate_restores_dehydrated<V: CacheText>(
    source: Seq<CacheEntry<V>>,
    dehydrated_at: Duration,
    queries: Seq<DehydratedQuery>,
    restored: Map<Seq<char>, CacheEntry<V>>,
    hydrated_at: Duration,
)
    requires
        entry_keys_distinct(source),
        queries.map_values(|q: DehydratedQuery| dehydrated_view(q)) == dehydrate_entries(source, dehydrated_at),
        hydrated_from(Map::empty(), restored, queries, true, true, hydrated_at),
    ensures
        dehydrated_keys_distinct(queries),
        forall|i: int| 0 <= i < source.len() && ((*(#[trigger] source[i]).data).text_view() is Some) ==> {
            &&& restored.contains_key(source[i].key@)
            &&& (*restored[source[i].key@].data).text_view() == (*source[i].data).text_view()
            &&& whole_millis(source[i].options.stale_time) ==> restored[source[i].key@].options.stale_time.nanos()
                == source[i].options.stale_time.nanos()
            &&& whole_millis(source[i].options.gc_time) ==> restored[source[i].key@].options.gc_time.nanos()
                == source[i].options.gc_time.nanos()
        },
{
    lemma_dehydrate_entries(source, dehydrated_at);
    lemma_dehydrate_keys_distinct(source, dehydrated_at);
    let r = dehydrate_entries(source, dehydrated_at);
    assert(queries.len() == r.len());
    assert forall|a: int, b: int| 0 <= a < b < queries.len() implies #[trigger] queries[a].key@ != #[trigger] queries[b].key@ by {
        assert(dehydrated_view(queries[a]) == r[a]);
        assert(dehydrated_view(queries[b]) == r[b]);
    }
    assert forall|i: int| 0 <= i < source.len() && ((*(#[trigger] source[i]).data).text_view() is Some) implies {
        &&& restored.contains_key(source[i].key@)
        &&& (*restored[source[i].key@].data).text_view() == (*source[i].data).text_view()
        &&& whole_millis(source[i].options.stale_time) ==> restored[source[i].key@].options.stale_time.nanos()
            == source[i].options.stale_time.nanos()
        &&& whole_millis(source[i].options.gc_time) ==> restored[source[i].key@].options.gc_time.nanos()
            == source[i].options.gc_time.nanos()
    } by {
        assert(dehydrate_entry(source[i], dehydrated_at) is Some);
        let j = choose|j: int| 0 <= j < r.len() && r[j] == dehydrate_entry(source[i], dehydrated_at)->0;
        assert(dehydrated_view(queries[j]) == r[j]);
        let q = queries[j];
        assert(hydrate_candidate(Map::<Seq<char>, CacheEntry<V>>::empty(), q, true));
        assert(holds_hydrated(restored, Map::<Seq<char>, CacheEntry<V>>::empty(), q, hydrated_at));
        let o = source[i].options;
        let ro = restored[source[i].key@].options;
        if whole_millis(o.stale_time) {
            lemma_millis_round_trip(o.stale_time, q.stale_time_ms, ro.stale_time.nanos());
        }
        if whole_millis(o.gc_time) {
            lemma_millis_round_trip(o.gc_time, q.gc_time_ms, ro.gc_time.nanos());
        }
    }
}

} // verus!
