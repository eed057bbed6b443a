use vstd::prelude::*;
use vstd::string::*;
use vstd::std_specs::cmp::PartialEqSpec;
use std::sync::Arc;
use crate::duration::Duration;
use crate::focus_manager::FocusManager;
use crate::infinite::{drop_back, drop_front, overflow, same_or_cloned, InfiniteData};
use crate::key::{join_segments, key_text_prefix, text_prefix, QueryKey};
use crate::options::QueryOptions;
use crate::state::{QueryStateUpdate, QueryStateVariant};
use dashmap::DashMap;
use tokio::task::AbortHandle;
use tokio_util::sync::CancellationToken;

verus! {

/// Activity events for the global fetching and mutating counts.
#[derive(Clone, Copy, Debug, PartialEq, Eq, Structural)]
pub enum ActivityEvent {
    FetchingCountChanged(usize),
    MutatingCountChanged(usize),
}

/// One cached query result.
pub struct CacheEntry<V> {
    /// The cache key (see [`QueryKey::cache_key`]).
    pub key: String,
    /// The cached data.
    pub data: Arc<V>,
    /// Clock reading when the data was stored.
    pub fetched_at: Duration,
    /// Clock reading when the entry was last written.
    pub last_accessed: Duration,
    /// The options the data was stored with.
    pub options: QueryOptions,
    /// Whether the entry was explicitly marked stale.
    pub is_stale: bool,
}

/// How long ago `since` was at clock reading `now` (zero if `since` is later).
pub open spec fn age(since: Duration, now: Duration) -> nat {
    if now.nanos() >= since.nanos() {
        (now.nanos() - since.nanos()) as nat
    } else {
        0
    }
}

/// Whether an entry is stale at `now`: marked stale, or older than a non-zero
/// stale time. A zero stale time never makes data stale by age.
pub open spec fn entry_stale<V>(e: CacheEntry<V>, now: Duration) -> bool {
    ||| e.is_stale
    ||| (e.options.stale_time.nanos() != 0 && age(e.fetched_at, now) > e.options.stale_time.nanos())
}

/// Whether garbage collection at `now` keeps an entry: it was written less
/// than its gc time ago.
pub open spec fn entry_kept<V>(e: CacheEntry<V>, now: Duration) -> bool {
    age(e.last_accessed, now) < e.options.gc_time.nanos()
}

/// The cached entries by key: later entries of the sequence win.
pub open spec fn entries_map<V>(s: Seq<CacheEntry<V>>) -> Map<Seq<char>, CacheEntry<V>>
    decreases s.len(),
{
    if s.len() == 0 {
        Map::empty()
    } else {
        entries_map(s.drop_last()).insert(s.last().key@, s.last())
    }
}

/// No two entries have the same key.
pub open spec fn entry_keys_distinct<V>(s: Seq<CacheEntry<V>>) -> bool {
    forall|i: int, j: int| 0 <= i < j < s.len() ==> #[trigger] s[i].key@ != #[trigger] s[j].key@
}

proof fn lemma_entries_map_domain<V>(s: Seq<CacheEntry<V>>, k: Seq<char>)
    ensures
        entries_map(s).contains_key(k) <==> exists|i: int| 0 <= i < s.len() && #[trigger] s[i].key@ == k,
    decreases s.len(),
{
    if s.len() > 0 {
        lemma_entries_map_domain(s.drop_last(), k);
        if entries_map(s.drop_last()).contains_key(k) {
            let i = choose|i: int| 0 <= i < s.drop_last().len() && #[trigger] s.drop_last()[i].key@ == k;
            assert(s[i].key@ == k);
        }
        if exists|i: int| 0 <= i < s.len() && #[trigger] s[i].key@ == k {
            let i = choose|i: int| 0 <= i < s.len() && #[trigger] s[i].key@ == k;
            if i < s.len() - 1 {
                assert(s.drop_last()[i].key@ == k);
            }
        }
    }
}

pub(crate) proof fn lemma_entries_map_index<V>(s: Seq<CacheEntry<V>>, i: int)
    requires
        entry_keys_distinct(s),
        0 <= i < s.len(),
    ensures
        entries_map(s).contains_key(s[i].key@),
        entries_map(s)[s[i].key@] == s[i],
    decreases s.len(),
{
    if i < s.len() - 1 {
        let t = s.drop_last();
        assert(entry_keys_distinct(t));
        lemma_entries_map_index(t, i);
        assert(t[i] == s[i]);
        assert(s.last().key@ != s[i].key@);
    }
}

/// Every key of the map is the key of some entry, with that entry as value.
pub(crate) proof fn lemma_entries_map_value<V>(s: Seq<CacheEntry<V>>, k: Seq<char>) -> (i: int)
    requires
        entry_keys_distinct(s),
        entries_map(s).contains_key(k),
    ensures
        0 <= i < s.len(),
        s[i].key@ == k,
        entries_map(s)[k] == s[i],
{
    lemma_entries_map_domain(s, k);
    let i = choose|i: int| 0 <= i < s.len() && #[trigger] s[i].key@ == k;
    lemma_entries_map_index(s, i);
    i
}

/// Two sequences of entries with the same keys in the same places have maps
/// with the same keys, each mapping to the entry at its place.
proof fn lemma_entries_map_pointwise<V>(s: Seq<CacheEntry<V>>, t: Seq<CacheEntry<V>>)
    requires
        entry_keys_distinct(s),
        s.len() == t.len(),
        forall|i: int| 0 <= i < s.len() ==> #[trigger] t[i].key@ == s[i].key@,
    ensures
        entry_keys_distinct(t),
        entries_map(t).dom() == entries_map(s).dom(),
        forall|i: int| 0 <= i < s.len() ==> entries_map(t)[#[trigger] s[i].key@] == t[i],
{
    assert(entry_keys_distinct(t)) by {
        assert forall|i: int, j: int| 0 <= i < j < t.len() implies #[trigger] t[i].key@ != #[trigger] t[j].key@ by {
            assert(s[i].key@ != s[j].key@);
        }
    }
    assert forall|k: Seq<char>| entries_map(t).contains_key(k) <==> entries_map(s).contains_key(k) by {
        lemma_entries_map_domain(s, k);
        lemma_entries_map_domain(t, k);
        if exists|i: int| 0 <= i < s.len() && #[trigger] s[i].key@ == k {
            let i = choose|i: int| 0 <= i < s.len() && #[trigger] s[i].key@ == k;
            assert(t[i].key@ == k);
        }
        if exists|i: int| 0 <= i < t.len() && #[trigger] t[i].key@ == k {
            let i = choose|i: int| 0 <= i < t.len() && #[trigger] t[i].key@ == k;
            assert(s[i].key@ == k);
        }
    }
    assert(entries_map(t).dom() =~= entries_map(s).dom());
    assert forall|i: int| 0 <= i < s.len() implies entries_map(t)[#[trigger] s[i].key@] == t[i] by {
        lemma_entries_map_index(t, i);
    }
}

/// A state-change notice for the key `k`, as the specifications see it.
pub open spec fn update_view(u: QueryStateUpdate) -> (Seq<char>, QueryStateVariant) {
    (u.key@, u.state_variant)
}

proof fn lemma_entries_map_update<V>(s: Seq<CacheEntry<V>>, i: int, e: CacheEntry<V>)
    requires
        entry_keys_distinct(s),
        0 <= i < s.len(),
        e.key@ == s[i].key@,
    ensures
        entry_keys_distinct(s.update(i, e)),
        entries_map(s.update(i, e)) == entries_map(s).insert(e.key@, e),
{
    let t = s.update(i, e);
    lemma_entries_map_pointwise(s, t);
    lemma_entries_map_index(s, i);
    assert(entries_map(t).dom() =~= entries_map(s).insert(e.key@, e).dom());
    assert forall|k: Seq<char>| #[trigger] entries_map(t).contains_key(k) implies entries_map(t)[k]
        == entries_map(s).insert(e.key@, e)[k] by {
        let j = lemma_entries_map_value(s, k);
        assert(entries_map(t)[s[j].key@] == t[j]);
        if j == i {
        } else {
            assert(s[j].key@ != s[i].key@);
            assert(t[j] == s[j]);
        }
    }
    assert(entries_map(t) =~= entries_map(s).insert(e.key@, e));
}

proof fn lemma_entries_map_push<V>(s: Seq<CacheEntry<V>>, e: CacheEntry<V>)
    requires
        entry_keys_distinct(s),
        !entries_map(s).contains_key(e.key@),
    ensures
        entry_keys_distinct(s.push(e)),
        entries_map(s.push(e)) == entries_map(s).insert(e.key@, e),
{
    let t = s.push(e);
    assert(t.drop_last() =~= s);
    assert forall|i: int, j: int| 0 <= i < j < t.len() implies #[trigger] t[i].key@ != #[trigger] t[j].key@ by {
        if j == s.len() {
            lemma_entries_map_domain(s, e.key@);
            assert(s[i].key@ == t[i].key@);
        } else {
            assert(t[i] == s[i] && t[j] == s[j]);
        }
    }
}

/// The `Stale` notices for the keys that `p` covers segment by segment, in order.
pub open spec fn stale_notices(keys: Seq<Seq<char>>, p: Seq<char>) -> Seq<(Seq<char>, QueryStateVariant)>
    decreases keys.len(),
{
    if keys.len() == 0 {
        Seq::empty()
    } else {
        let rest = stale_notices(keys.drop_last(), p);
        if key_text_prefix(p, keys.last()) {
            rest.push((keys.last(), QueryStateVariant::Stale))
        } else {
            rest
        }
    }
}

/// Whether refreshing on focus at `now` marks the entry: it is stale and
/// asks to be refetched on window focus.
pub open spec fn refetched_on_focus<V>(e: CacheEntry<V>, now: Duration) -> bool {
    entry_stale(e, now) && e.options.refetch_on_window_focus
}

/// The `Stale` notices for the entries that refreshing on focus marks, in order.
pub open spec fn focus_notices<V>(s: Seq<CacheEntry<V>>, now: Duration) -> Seq<(Seq<char>, QueryStateVariant)>
    decreases s.len(),
{
    if s.len() == 0 {
        Seq::empty()
    } else {
        let rest = focus_notices(s.drop_last(), now);
        if refetched_on_focus(s.last(), now) {
            rest.push((s.last().key@, QueryStateVariant::Stale))
        } else {
            rest
        }
    }
}

/// The entry marked stale.
pub open spec fn marked_stale<V>(e: CacheEntry<V>) -> CacheEntry<V> {
    CacheEntry { is_stale: true, ..e }
}

/// Whether the cache key `p` covers the cache key `s` segment by segment:
/// `s` is `p`, or `s` starts with `p` followed by `::`.
pub fn key_starts_with(s: &str, p: &str) -> (b: bool)
    ensures
        b == key_text_prefix(p@, s@),
{
    let n = p.unicode_len();
    let m = s.unicode_len();
    let ghost q = p@ + seq![':', ':'];
    if m < n || (m != n && m - n < 2) {
        proof {
            if m != n {
                assert(!text_prefix(q, s@));
            }
        }
        return false;
    }
    let mut i: usize = 0;
    while i < n
        invariant
            n == p@.len(),
            m == s@.len(),
            n <= m,
            m == n || n + 2 <= m,
            q == p@ + seq![':', ':'],
            i <= n,
            forall|j: int| 0 <= j < i ==> s@[j] == p@[j],
        decreases n - i,
    {
        if s.get_char(i) != p.get_char(i) {
            proof {
                assert(s@ != p@) by {
                    if m == n {
                        assert(s@[i as int] != p@[i as int]);
                    }
                }
                if n + 2 <= m {
                    assert(s@.subrange(0, q.len() as int)[i as int] != q[i as int]);
                }
            }
            return false;
        }
        i = i + 1;
    }
    if m == n {
        assert(s@ =~= p@);
        return true;
    }
    let c0 = s.get_char(n);
    let c1 = s.get_char(n + 1);
    let b = c0 == ':' && c1 == ':';
    proof {
        assert(s@ != p@);
        if b {
            assert(s@.subrange(0, q.len() as int) =~= q);
        } else if c0 != ':' {
            assert(s@.subrange(0, q.len() as int)[n as int] != q[n as int]);
        } else {
            assert(s@.subrange(0, q.len() as int)[n + 1] != q[n + 1]);
        }
    }
    b
}

#[verifier::external_type_specification]
#[verifier::external_body]
pub struct ExCancellationToken(CancellationToken);

#[verifier::external_type_specification]
#[verifier::external_body]
pub struct ExAbortHandle(AbortHandle);

/// Calls `tokio_util::sync::CancellationToken::cancel`, which signals every
/// clone of the token; it returns nothing and nothing is claimed of it.
#[verifier::external_body]
fn cancel_token(token: &CancellationToken) {
    token.cancel()
}

/// Calls `tokio::task::AbortHandle::abort`, which asks the runtime to stop
/// the task; it returns nothing and nothing is claimed of it.
#[verifier::external_body]
fn abort_task(handle: &AbortHandle) {
    handle.abort()
}

/// The entries of `s` that `f` keeps, by key: exactly the keys of `s` whose
/// entry `f` keeps, each with its entry.
proof fn lemma_entries_map_filter<V>(s: Seq<CacheEntry<V>>, f: spec_fn(CacheEntry<V>) -> bool)
    requires
        entry_keys_distinct(s),
    ensures
        entry_keys_distinct(s.filter(f)),
        forall|k: Seq<char>| #[trigger] entries_map(s.filter(f)).contains_key(k) <==> (
            entries_map(s).contains_key(k) && f(entries_map(s)[k])),
        forall|k: Seq<char>| #[trigger] entries_map(s.filter(f)).contains_key(k) ==> entries_map(s.filter(f))[k]
            == entries_map(s)[k],
    decreases s.len(),
{
    reveal_with_fuel(Seq::filter, 1);
    if s.len() > 0 {
        let t = s.drop_last();
        let e = s.last();
        assert(entry_keys_distinct(t));
        lemma_entries_map_filter(t, f);
        lemma_entries_map_domain(t, e.key@);
        assert(!entries_map(t).contains_key(e.key@)) by {
            if entries_map(t).contains_key(e.key@) {
                let j = choose|j: int| 0 <= j < t.len() && #[trigger] t[j].key@ == e.key@;
                assert(s[j].key@ == s[s.len() - 1].key@);
            }
        }
        if f(e) {
            assert(s.filter(f) == t.filter(f).push(e));
            assert(!entries_map(t.filter(f)).contains_key(e.key@));
            lemma_entries_map_push(t.filter(f), e);
        } else {
            assert(s.filter(f) == t.filter(f));
        }
    }
}

/// An in-flight fetch that can be cancelled.
pub struct InFlightTask {
    pub abort_handle: AbortHandle,
    pub cancel_token: CancellationToken,
}

impl InFlightTask {
    /// Signals the task's token and aborts the task.
    pub fn cancel(&self) {
        cancel_token(&self.cancel_token);
        abort_task(&self.abort_handle);
    }
}

#[verifier::external_type_specification]
#[verifier::external_body]
#[verifier::reject_recursive_types(K)]
#[verifier::reject_recursive_types(V)]
#[verifier::reject_recursive_types(S)]
pub struct ExDashMap<K, V, S>(DashMap<K, V, S>);

/// The cache keys of the fetches a table of in-flight fetches holds.
pub uninterp spec fn flight_keys(m: DashMap<String, InFlightTask>) -> Set<Seq<char>>;

/// Calls `dashmap::DashMap::new`: an empty table.
#[verifier::external_body]
fn flights_new() -> (m: DashMap<String, InFlightTask>)
    ensures
        flight_keys(m) == Set::<Seq<char>>::empty(),
{
    DashMap::new()
}

/// Calls `dashmap::DashMap::contains_key`: whether the table holds `k`.
#[verifier::external_body]
fn flights_contains(m: &DashMap<String, InFlightTask>, k: &str) -> (b: bool)
    ensures
        b == flight_keys(*m).contains(k@),
{
    m.contains_key(k)
}

/// Calls `dashmap::DashMap::insert`: afterwards the table holds `k` (with
/// `task`, replacing any earlier task under `k`) besides its other keys.
#[verifier::external_body]
fn flights_insert(m: &mut DashMap<String, InFlightTask>, k: String, task: InFlightTask)
    ensures
        flight_keys(*final(m)) == flight_keys(*old(m)).insert(k@),
{
    let _earlier = m.insert(k, task);
}

/// Calls `dashmap::DashMap::remove`: the task under `k`, if any, taken out
/// of the table; the other keys stay.
#[verifier::external_body]
fn flights_remove(m: &mut DashMap<String, InFlightTask>, k: &str) -> (t: Option<InFlightTask>)
    ensures
        t is Some == flight_keys(*old(m)).contains(k@),
        flight_keys(*final(m)) == flight_keys(*old(m)).remove(k@),
{
    m.remove(k).map(|(_, task)| task)
}

/// Calls `dashmap::DashMap::iter`, cancelling each task it yields; the
/// table itself does not change.
#[verifier::external_body]
fn flights_cancel_all(m: &DashMap<String, InFlightTask>) {
    m.iter().for_each(|entry| entry.value().cancel())
}

/// Calls `dashmap::DashMap::clear`: afterwards the table is empty.
#[verifier::external_body]
fn flights_clear(m: &mut DashMap<String, InFlightTask>)
    ensures
        flight_keys(*final(m)) == Set::<Seq<char>>::empty(),
{
    m.clear()
}

/// The central query cache: cached entries by key, the in-flight fetches,
/// the activity counters and the notices still to be delivered.
///
/// Every method that reads the time takes the current clock reading `now`.
pub struct QueryClient<V> {
    entries: Vec<CacheEntry<V>>,
    in_flight: DashMap<String, InFlightTask>,
    updates: Vec<QueryStateUpdate>,
    activity: Vec<ActivityEvent>,
    /// Focus manager for window focus refetching.
    pub focus_manager: FocusManager,
    fetching_count: usize,
    mutating_count: usize,
}

impl<V> QueryClient<V> {
    /// The cached entries, in the client's order.
    pub closed spec fn entry_list(&self) -> Seq<CacheEntry<V>> {
        self.entries@
    }

    /// The cache keys, in the client's order.
    pub open spec fn entry_keys(&self) -> Seq<Seq<char>> {
        self.entry_list().map_values(|e: CacheEntry<V>| e.key@)
    }

    /// The cached entries by cache key.
    pub open spec fn cache(&self) -> Map<Seq<char>, CacheEntry<V>> {
        entries_map(self.entry_list())
    }

    /// The cache keys of the in-flight fetches.
    pub closed spec fn in_flight_keys(&self) -> Set<Seq<char>> {
        flight_keys(self.in_flight)
    }

    /// The state-change notices not yet taken, oldest first.
    pub closed spec fn pending_updates(&self) -> Seq<(Seq<char>, QueryStateVariant)> {
        self.updates@.map_values(|u: QueryStateUpdate| update_view(u))
    }

    /// The activity events not yet taken, oldest first.
    pub closed spec fn pending_activity(&self) -> Seq<ActivityEvent> {
        self.activity@
    }

    /// The number of fetches in progress.
    pub closed spec fn fetching(&self) -> nat {
        self.fetching_count as nat
    }

    /// The number of mutations in progress.
    pub closed spec fn mutating(&self) -> nat {
        self.mutating_count as nat
    }

    /// The client's internal consistency: no key is cached twice.
    pub closed spec fn wf(&self) -> bool {
        &&& entry_keys_distinct(self.entries@)
    }

    /// A well-formed client caches no key twice.
    pub(crate) proof fn lemma_wf_keys_distinct(&self)
        requires
            self.wf(),
        ensures
            entry_keys_distinct(self.entry_list()),
    {
    }

    /// A new client with an empty cache.
    pub fn new() -> (c: QueryClient<V>)
        ensures
            c.wf(),
            c.cache() == Map::<Seq<char>, CacheEntry<V>>::empty(),
            c.in_flight_keys() == Set::<Seq<char>>::empty(),
            c.pending_updates() == Seq::<(Seq<char>, QueryStateVariant)>::empty(),
            c.pending_activity() == Seq::<ActivityEvent>::empty(),
            c.fetching() == 0,
            c.mutating() == 0,
    {
        let c = QueryClient {
            entries: Vec::new(),
            in_flight: flights_new(),
            updates: Vec::new(),
            activity: Vec::new(),
            focus_manager: FocusManager::new(),
            fetching_count: 0,
            mutating_count: 0,
        };
        assert(c.pending_updates() =~= Seq::<(Seq<char>, QueryStateVariant)>::empty());
        c
    }

    /// The position of the entry with key `k`.
    fn find_entry(&self, k: &String) -> (r: Option<usize>)
        requires
            self.wf(),
        ensures
            match r {
                Some(i) => i < self.entries@.len() && self.entries@[i as int].key@ == k@
                    && self.cache().contains_key(k@) && self.cache()[k@] == self.entries@[i as int],
                None => !self.cache().contains_key(k@),
            },
    {
        let n = self.entries.len();
        let mut i: usize = 0;
        while i < n
            invariant
                self.wf(),
                n == self.entries.len(),
                i <= n,
                forall|j: int| 0 <= j < i ==> #[trigger] self.entries@[j].key@ != k@,
            decreases n - i,
        {
            if self.entries[i].key.eq(k) {
                proof {
                    lemma_entries_map_index(self.entries@, i as int);
                }
                return Some(i);
            }
            i = i + 1;
        }
        proof {
            lemma_entries_map_domain(self.entries@, k@);
        }
        None
    }

    /// Records a state-change notice for the key `cache_key`.
    pub fn notify_subscribers(&mut self, cache_key: &str, variant: QueryStateVariant)
        ensures
            final(self).pending_updates() == old(self).pending_updates().push((cache_key@, variant)),
            final(self).cache() == old(self).cache(),
            final(self).in_flight_keys() == old(self).in_flight_keys(),
            final(self).wf() == old(self).wf(),
            final(self).fetching() == old(self).fetching(),
            final(self).mutating() == old(self).mutating(),
            final(self).pending_activity() == old(self).pending_activity(),
    {
        self.updates.push(QueryStateUpdate { key: String::from_str(cache_key), state_variant: variant });
        assert(self.pending_updates() =~= old(self).pending_updates().push((cache_key@, variant)));
    }

    /// Takes the state-change notices recorded so far, oldest first.
    pub fn take_updates(&mut self) -> (u: Vec<QueryStateUpdate>)
        ensures
            u@.map_values(|x: QueryStateUpdate| update_view(x)) == old(self).pending_updates(),
            final(self).pending_updates() == Seq::<(Seq<char>, QueryStateVariant)>::empty(),
            final(self).cache() == old(self).cache(),
            final(self).in_flight_keys() == old(self).in_flight_keys(),
            final(self).wf() == old(self).wf(),
            final(self).fetching() == old(self).fetching(),
            final(self).mutating() == old(self).mutating(),
            final(self).pending_activity() == old(self).pending_activity(),
    {
        let mut u = Vec::new();
        std::mem::swap(&mut u, &mut self.updates);
        assert(self.pending_updates() =~= Seq::<(Seq<char>, QueryStateVariant)>::empty());
        u
    }

    /// Get the cached data for a key, stale or not.
    pub fn get_query_data(&self, key: &QueryKey) -> (r: Option<&V>)
        requires
            self.wf(),
        ensures
            match r {
                Some(d) => self.cache().contains_key(join_segments(key@))
                    && *d == *self.cache()[join_segments(key@)].data,
                None => !self.cache().contains_key(join_segments(key@)),
            },
    {
        let k = key.cache_key();
        match self.find_entry(&k) {
            Some(i) => Some(&*self.entries[i].data),
            None => None,
        }
    }

    /// Get the options a key's data was stored with.
    pub fn get_query_options(&self, key: &QueryKey) -> (r: Option<QueryOptions>)
        requires
            self.wf(),
        ensures
            match r {
                Some(o) => self.cache().contains_key(join_segments(key@))
                    && o == self.cache()[join_segments(key@)].options,
                None => !self.cache().contains_key(join_segments(key@)),
            },
    {
        let k = key.cache_key();
        match self.find_entry(&k) {
            Some(i) => Some(self.entries[i].options),
            None => None,
        }
    }

    /// Check if the data for a key is stale at `now` (false when not cached).
    pub fn is_stale(&self, key: &QueryKey, now: Duration) -> (b: bool)
        requires
            self.wf(),
        ensures
            b == (self.cache().contains_key(join_segments(key@)) && entry_stale(
                self.cache()[join_segments(key@)],
                now,
            )),
    {
        let k = key.cache_key();
        match self.find_entry(&k) {
            Some(i) => Self::entry_is_stale(&self.entries[i], now),
            None => false,
        }
    }

    fn entry_is_stale(e: &CacheEntry<V>, now: Duration) -> (b: bool)
        ensures
            b == entry_stale(*e, now),
    {
        let elapsed = now.saturating_sub(e.fetched_at);
        let time_stale = !e.options.stale_time.is_zero() && elapsed.longer_than(&e.options.stale_time);
        time_stale || e.is_stale
    }
}

/// What invalidating by the cache key `p` does to a cache: the same keys,
/// each entry whose key `p` covers segment by segment marked stale, the
/// others unchanged.
pub open spec fn invalidated<V>(old: Map<Seq<char>, CacheEntry<V>>, new: Map<Seq<char>, CacheEntry<V>>, p: Seq<char>) -> bool {
    &&& new.dom() == old.dom()
    &&& forall|k: Seq<char>| #[trigger] old.contains_key(k) ==> new[k] == if key_text_prefix(p, k) {
        marked_stale(old[k])
    } else {
        old[k]
    }
}

/// Whether `set_query_data` keeps the data already cached under `k`: with
/// structural sharing on, when that data is equal to `data` by `V`'s `==`.
pub open spec fn shares<V: PartialEq>(old: Map<Seq<char>, CacheEntry<V>>, k: Seq<char>, data: V, options: QueryOptions) -> bool {
    &&& options.structural_sharing
    &&& old.contains_key(k)
    &&& (*old[k].data).eq_spec(&data)
}

/// What storing `data` under `k` with `options` at `now` does to a cache:
/// only `k` changes; it holds a fresh, unmarked entry with the given options
/// and with `data` (or, by structural sharing, the equal data it held).
pub open spec fn stored_by_set<V: PartialEq>(
    old: Map<Seq<char>, CacheEntry<V>>,
    new: Map<Seq<char>, CacheEntry<V>>,
    k: Seq<char>,
    data: V,
    options: QueryOptions,
    now: Duration,
) -> bool {
    let e = new[k];
    &&& new.contains_key(k)
    &&& new.remove(k) == old.remove(k)
    &&& e.key@ == k
    &&& e.fetched_at == now
    &&& e.last_accessed == now
    &&& e.options == options
    &&& !e.is_stale
    &&& if options.structural_sharing && old.contains_key(k) {
        &&& (*e.data == data || e.data == old[k].data)
        &&& V::obeys_eq_spec() ==> (*e.data == if shares(old, k, data, options) {
            *old[k].data
        } else {
            data
        })
    } else {
        *e.data == data
    }
}

impl<V: PartialEq> QueryClient<V> {
    /// Store data for a key with the given options at clock reading `now`,
    /// clearing any stale mark and noting a `Success` change for the key.
    ///
    /// With structural sharing on, when the key already holds data equal to
    /// `data` (by `V`'s `==`), the existing data is kept.
    pub fn set_query_data(&mut self, key: &QueryKey, data: V, options: QueryOptions, now: Duration)
        requires
            old(self).wf(),
        ensures
            final(self).wf(),
            stored_by_set(old(self).cache(), final(self).cache(), join_segments(key@), data, options, now),
            final(self).pending_updates() == old(self).pending_updates().push(
                (join_segments(key@), QueryStateVariant::Success),
            ),
            final(self).in_flight_keys() == old(self).in_flight_keys(),
            final(self).fetching() == old(self).fetching(),
            final(self).mutating() == old(self).mutating(),
            final(self).pending_activity() == old(self).pending_activity(),
    {
        let k = key.cache_key();
        let ghost old_map = self.cache();
        match self.find_entry(&k) {
            Some(i) => {
                let old_entry = self.entries.remove(i);
                let shared = options.structural_sharing && *old_entry.data == data;
                let stored = if shared { old_entry.data } else { Arc::new(data) };
                let entry = CacheEntry {
                    key: k.clone(),
                    data: stored,
                    fetched_at: now,
                    last_accessed: now,
                    options,
                    is_stale: false,
                };
                self.entries.insert(i, entry);
                proof {
                    assert(self.entries@ =~= old(self).entries@.update(i as int, entry));
                    lemma_entries_map_update(old(self).entries@, i as int, entry);
                    assert(self.cache().remove(k@) =~= old_map.remove(k@));
                }
            },
            None => {
                let entry = CacheEntry {
                    key: k.clone(),
                    data: Arc::new(data),
                    fetched_at: now,
                    last_accessed: now,
                    options,
                    is_stale: false,
                };
                self.entries.push(entry);
                proof {
                    lemma_entries_map_push(old(self).entries@, entry);
                    assert(self.cache().remove(k@) =~= old_map.remove(k@));
                }
            },
        }
        self.updates.push(QueryStateUpdate { key: k, state_variant: QueryStateVariant::Success });
        assert(self.pending_updates() =~= old(self).pending_updates().push(
            (join_segments(key@), QueryStateVariant::Success),
        ));
    }
}

impl<V> QueryClient<V> {
    /// Check if a fetch for the key is in flight.
    pub fn is_in_flight(&self, key: &QueryKey) -> (b: bool)
        ensures
            b == self.in_flight_keys().contains(join_segments(key@)),
    {
        let k = key.cache_key();
        flights_contains(&self.in_flight, k.as_str())
    }

    /// Register the in-flight fetch of a key, replacing (without cancelling)
    /// any earlier one.
    pub fn set_in_flight(&mut self, key: &QueryKey, task: InFlightTask)
        requires
            old(self).wf(),
        ensures
            final(self).wf(),
            final(self).in_flight_keys() == old(self).in_flight_keys().insert(join_segments(key@)),
            final(self).cache() == old(self).cache(),
            final(self).entry_list() == old(self).entry_list(),
            final(self).pending_updates() == old(self).pending_updates(),
            final(self).fetching() == old(self).fetching(),
            final(self).mutating() == old(self).mutating(),
            final(self).pending_activity() == old(self).pending_activity(),
    {
        let k = key.cache_key();
        flights_insert(&mut self.in_flight, k, task);
    }

    /// Remove the in-flight fetch of a key, if any, and return it.
    fn take_in_flight(&mut self, k: &String) -> (t: Option<InFlightTask>)
        requires
            old(self).wf(),
        ensures
            final(self).wf(),
            t is Some == old(self).in_flight_keys().contains(k@),
            final(self).in_flight_keys() == old(self).in_flight_keys().remove(k@),
            final(self).entry_list() == old(self).entry_list(),
            final(self).pending_updates() == old(self).pending_updates(),
            final(self).fetching() == old(self).fetching(),
            final(self).mutating() == old(self).mutating(),
            final(self).pending_activity() == old(self).pending_activity(),
    {
        flights_remove(&mut self.in_flight, k.as_str())
    }

    /// Remove the in-flight fetch of a key, if any, without cancelling it.
    pub fn clear_in_flight(&mut self, key: &QueryKey)
        requires
            old(self).wf(),
        ensures
            final(self).wf(),
            final(self).in_flight_keys() == old(self).in_flight_keys().remove(join_segments(key@)),
            final(self).cache() == old(self).cache(),
            final(self).entry_list() == old(self).entry_list(),
            final(self).pending_updates() == old(self).pending_updates(),
            final(self).fetching() == old(self).fetching(),
            final(self).mutating() == old(self).mutating(),
            final(self).pending_activity() == old(self).pending_activity(),
    {
        let k = key.cache_key();
        let _task = self.take_in_flight(&k);
    }

    /// Cancel a key's fetch if it is in flight: its task is cancelled and
    /// removed, and an `Error` change is noted for the key so that waiting
    /// observers wake up.
    pub fn cancel_query(&mut self, key: &QueryKey)
        requires
            old(self).wf(),
        ensures
            final(self).wf(),
            final(self).in_flight_keys() == old(self).in_flight_keys().remove(join_segments(key@)),
            final(self).pending_updates() == if old(self).in_flight_keys().contains(join_segments(key@)) {
                old(self).pending_updates().push((join_segments(key@), QueryStateVariant::Error))
            } else {
                old(self).pending_updates()
            },
            final(self).cache() == old(self).cache(),
            final(self).entry_list() == old(self).entry_list(),
            final(self).fetching() == old(self).fetching(),
            final(self).mutating() == old(self).mutating(),
            final(self).pending_activity() == old(self).pending_activity(),
    {
        let k = key.cache_key();
        match self.take_in_flight(&k) {
            Some(task) => {
                task.cancel();
                self.updates.push(QueryStateUpdate { key: k, state_variant: QueryStateVariant::Error });
                assert(self.pending_updates() =~= old(self).pending_updates().push(
                    (join_segments(key@), QueryStateVariant::Error),
                ));
            },
            None => {},
        }
    }

    /// Mark stale every cached query whose key `pattern` matches segment by
    /// segment (its cache key is the pattern's, or the pattern's followed by
    /// `::`), cancelling its in-flight fetch and noting a `Stale` change.
    pub fn invalidate_queries(&mut self, pattern: &QueryKey)
        requires
            old(self).wf(),
        ensures
            final(self).wf(),
            ({
                let p = join_segments(pattern@);
                &&& invalidated(old(self).cache(), final(self).cache(), p)
                &&& final(self).entry_keys() == old(self).entry_keys()
                &&& forall|x: Seq<char>| #[trigger] final(self).in_flight_keys().contains(x) <==> (
                    old(self).in_flight_keys().contains(x) && !(old(self).cache().contains_key(x)
                        && key_text_prefix(p, x)))
                &&& final(self).pending_updates() == old(self).pending_updates() + stale_notices(
                    old(self).entry_keys(),
                    p,
                )
            }),
            final(self).fetching() == old(self).fetching(),
            final(self).mutating() == old(self).mutating(),
            final(self).pending_activity() == old(self).pending_activity(),
    {
        let p = pattern.cache_key();
        let n = self.entries.len();
        let ghost old_entries = self.entries@;
        let ghost old_keys = old(self).entry_keys();
        let ghost old_flights = old(self).in_flight_keys();
        let ghost old_updates = old(self).pending_updates();
        let mut i: usize = 0;
        while i < n
            invariant
                self.wf(),
                n == self.entries@.len(),
                n == old_entries.len(),
                old_keys == old_entries.map_values(|e: CacheEntry<V>| e.key@),
                entry_keys_distinct(old_entries),
                i <= n,
                forall|j: int| 0 <= j < n ==> (#[trigger] self.entries@[j]) == if j < i && key_text_prefix(p@, old_entries[j].key@) {
                    marked_stale(old_entries[j])
                } else {
                    old_entries[j]
                },
                forall|x: Seq<char>| #[trigger] self.in_flight_keys().contains(x) <==> (
                    old_flights.contains(x) && !(exists|j: int| 0 <= j < i && #[trigger] old_entries[j].key@ == x
                        && key_text_prefix(p@, x))),
                self.pending_updates() == old_updates + stale_notices(old_keys.take(i as int), p@),
                self.fetching() == old(self).fetching(),
                self.mutating() == old(self).mutating(),
                self.pending_activity() == old(self).pending_activity(),
            decreases n - i,
        {
            let ghost flights_before = self.in_flight_keys();
            let ghost updates_before = self.pending_updates();
            let matched = key_starts_with(self.entries[i].key.as_str(), p.as_str());
            if matched {
                let k = self.entries[i].key.clone();
                match self.take_in_flight(&k) {
                    Some(task) => task.cancel(),
                    None => {},
                }
                let mut e = self.entries.remove(i);
                e.is_stale = true;
                self.entries.insert(i, e);
                self.updates.push(QueryStateUpdate { key: k, state_variant: QueryStateVariant::Stale });
                proof {
                    assert(self.pending_updates() =~= updates_before.push((old_keys[i as int], QueryStateVariant::Stale)));
                }
            }
            proof {
                assert(old_keys.take(i + 1).drop_last() =~= old_keys.take(i as int));
                assert(old_keys.take(i + 1).last() == old_entries[i as int].key@);
                assert(self.pending_updates() =~= old_updates + stale_notices(old_keys.take(i + 1), p@));
                assert forall|j: int| 0 <= j < n implies (#[trigger] self.entries@[j]) == if j < i + 1 && key_text_prefix(p@, old_entries[j].key@) {
                    marked_stale(old_entries[j])
                } else {
                    old_entries[j]
                } by {
                }
                assert forall|x: Seq<char>| #[trigger] self.in_flight_keys().contains(x) <==> (
                    old_flights.contains(x) && !(exists|j: int| 0 <= j < i + 1 && #[trigger] old_entries[j].key@ == x
                        && key_text_prefix(p@, x))) by {
                    if exists|j: int| 0 <= j < i + 1 && #[trigger] old_entries[j].key@ == x && key_text_prefix(p@, x) {
                        let j = choose|j: int| 0 <= j < i + 1 && #[trigger] old_entries[j].key@ == x && key_text_prefix(p@, x);
                        if j < i {
                        } else {
                            assert(x == old_entries[i as int].key@);
                        }
                    }
                }
                assert(entry_keys_distinct(self.entries@)) by {
                    lemma_entries_map_pointwise(old_entries, self.entries@);
                }
            }
            i = i + 1;
        }
        proof {
            assert(old_keys.take(n as int) =~= old_keys);
            lemma_entries_map_pointwise(old_entries, self.entries@);
            assert(self.entry_keys() =~= old_keys);
            assert forall|k: Seq<char>| #[trigger] old(self).cache().contains_key(k) implies self.cache()[k]
                == if key_text_prefix(p@, k) {
                    marked_stale(old(self).cache()[k])
                } else {
                    old(self).cache()[k]
                } by {
                let j = lemma_entries_map_value(old_entries, k);
                assert(self.cache()[old_entries[j].key@] == self.entries@[j]);
            }
            assert forall|x: Seq<char>| #[trigger] self.in_flight_keys().contains(x) <==> (
                old_flights.contains(x) && !(old(self).cache().contains_key(x) && key_text_prefix(p@, x))) by {
                lemma_entries_map_domain(old_entries, x);
            }
        }
    }
}

impl<V> Default for QueryClient<V> {
    fn default() -> (c: QueryClient<V>)
        ensures
            c.wf(),
            c.cache() == Map::<Seq<char>, CacheEntry<V>>::empty(),
            c.in_flight_keys() == Set::<Seq<char>>::empty(),
            c.pending_updates() == Seq::<(Seq<char>, QueryStateVariant)>::empty(),
            c.pending_activity() == Seq::<ActivityEvent>::empty(),
            c.fetching() == 0,
            c.mutating() == 0,
    {
        QueryClient::new()
    }
}

impl<V> QueryClient<V> {
    /// Clear all cached data and cancel every in-flight fetch.
    pub fn clear(&mut self)
        requires
            old(self).wf(),
        ensures
            final(self).wf(),
            final(self).cache() == Map::<Seq<char>, CacheEntry<V>>::empty(),
            final(self).entry_list() == Seq::<CacheEntry<V>>::empty(),
            final(self).in_flight_keys() == Set::<Seq<char>>::empty(),
            final(self).pending_updates() == old(self).pending_updates(),
            final(self).fetching() == old(self).fetching(),
            final(self).mutating() == old(self).mutating(),
            final(self).pending_activity() == old(self).pending_activity(),
    {
        flights_cancel_all(&self.in_flight);
        flights_clear(&mut self.in_flight);
        self.entries.clear();
        assert(self.in_flight_keys() =~= Set::<Seq<char>>::empty());
        assert(self.cache() =~= Map::<Seq<char>, CacheEntry<V>>::empty());
    }

    /// Garbage collection at clock reading `now`: drop every entry written
    /// at least its gc time ago.
    pub fn gc(&mut self, now: Duration)
        requires
            old(self).wf(),
        ensures
            final(self).wf(),
            final(self).entry_list() == old(self).entry_list().filter(|e: CacheEntry<V>| entry_kept(e, now)),
            forall|k: Seq<char>| #[trigger] final(self).cache().contains_key(k) <==> (
                old(self).cache().contains_key(k) && entry_kept(old(self).cache()[k], now)),
            forall|k: Seq<char>| #[trigger] final(self).cache().contains_key(k) ==> final(self).cache()[k]
                == old(self).cache()[k],
            final(self).in_flight_keys() == old(self).in_flight_keys(),
            final(self).pending_updates() == old(self).pending_updates(),
            final(self).fetching() == old(self).fetching(),
            final(self).mutating() == old(self).mutating(),
            final(self).pending_activity() == old(self).pending_activity(),
    {
        let ghost f = |e: CacheEntry<V>| entry_kept(e, now);
        let ghost old_entries = self.entries@;
        let ghost mut j: int = 0;
        let mut i: usize = 0;
        while i < self.entries.len()
            invariant
                f == (|e: CacheEntry<V>| entry_kept(e, now)),
                0 <= j <= old_entries.len(),
                self.entries@ == old_entries.take(j).filter(f) + old_entries.skip(j),
                i == old_entries.take(j).filter(f).len(),
                self.in_flight_keys() == old(self).in_flight_keys(),
                self.updates == old(self).updates,
                self.fetching() == old(self).fetching(),
                self.mutating() == old(self).mutating(),
                self.pending_activity() == old(self).pending_activity(),
            decreases old_entries.len() - j,
        {
            proof {
                reveal_with_fuel(Seq::filter, 1);
                assert(old_entries.take(j + 1).drop_last() =~= old_entries.take(j));
                assert(j < old_entries.len()) by {
                    if j == old_entries.len() {
                        assert(old_entries.skip(j).len() == 0);
                    }
                }
                assert(self.entries@[i as int] == old_entries[j]);
            }
            let age = now.saturating_sub(self.entries[i].last_accessed);
            let keep = self.entries[i].options.gc_time.longer_than(&age);
            if keep {
                proof {
                    reveal_with_fuel(Seq::filter, 1);
                    assert(old_entries.take(j + 1).drop_last() =~= old_entries.take(j));
                    assert(old_entries.take(j + 1).last() == old_entries[j]);
                    assert(f(old_entries[j]));
                    assert(old_entries.take(j + 1).filter(f) == old_entries.take(j).filter(f).push(old_entries[j]));
                    assert(self.entries@ =~= old_entries.take(j + 1).filter(f) + old_entries.skip(j + 1));
                }
                i = i + 1;
            } else {
                self.entries.remove(i);
                proof {
                    reveal_with_fuel(Seq::filter, 1);
                    assert(old_entries.take(j + 1).drop_last() =~= old_entries.take(j));
                    assert(old_entries.take(j + 1).last() == old_entries[j]);
                    assert(!f(old_entries[j]));
                    assert(old_entries.take(j + 1).filter(f) == old_entries.take(j).filter(f));
                    assert(self.entries@ =~= old_entries.take(j + 1).filter(f) + old_entries.skip(j + 1));
                }
            }
            proof {
                j = j + 1;
            }
        }
        proof {
            if j < old_entries.len() {
                assert(self.entries@.len() > i);
            }
            assert(old_entries.take(j) =~= old_entries);
            assert(self.entries@ =~= old_entries.filter(f));
            lemma_entries_map_filter(old_entries, f);
        }
    }

    /// On window focus at clock reading `now`: every stale entry that asks to
    /// be refetched on focus is marked stale and a `Stale` change is noted.
    pub fn refetch_all_stale(&mut self, now: Duration)
        requires
            old(self).wf(),
        ensures
            final(self).wf(),
            final(self).cache().dom() == old(self).cache().dom(),
            forall|k: Seq<char>| #[trigger] old(self).cache().contains_key(k) ==> final(self).cache()[k]
                == if refetched_on_focus(old(self).cache()[k], now) {
                    marked_stale(old(self).cache()[k])
                } else {
                    old(self).cache()[k]
                },
            final(self).entry_keys() == old(self).entry_keys(),
            final(self).pending_updates() == old(self).pending_updates() + focus_notices(
                old(self).entry_list(),
                now,
            ),
            final(self).in_flight_keys() == old(self).in_flight_keys(),
            final(self).fetching() == old(self).fetching(),
            final(self).mutating() == old(self).mutating(),
            final(self).pending_activity() == old(self).pending_activity(),
    {
        let n = self.entries.len();
        let ghost old_entries = self.entries@;
        let ghost old_updates = old(self).pending_updates();
        let mut i: usize = 0;
        while i < n
            invariant
                n == self.entries@.len(),
                n == old_entries.len(),
                entry_keys_distinct(old_entries),
                i <= n,
                forall|j: int| 0 <= j < n ==> (#[trigger] self.entries@[j]) == if j < i && refetched_on_focus(old_entries[j], now) {
                    marked_stale(old_entries[j])
                } else {
                    old_entries[j]
                },
                self.pending_updates() == old_updates + focus_notices(old_entries.take(i as int), now),
                self.in_flight_keys() == old(self).in_flight_keys(),
                self.fetching() == old(self).fetching(),
                self.mutating() == old(self).mutating(),
                self.pending_activity() == old(self).pending_activity(),
            decreases n - i,
        {
            let ghost updates_before = self.pending_updates();
            let stale = Self::entry_is_stale(&self.entries[i], now);
            if stale && self.entries[i].options.refetch_on_window_focus {
                let k = self.entries[i].key.clone();
                let mut e = self.entries.remove(i);
                e.is_stale = true;
                self.entries.insert(i, e);
                self.updates.push(QueryStateUpdate { key: k, state_variant: QueryStateVariant::Stale });
                proof {
                    assert(self.pending_updates() =~= updates_before.push((old_entries[i as int].key@, QueryStateVariant::Stale)));
                }
            }
            proof {
                assert(old_entries.take(i + 1).drop_last() =~= old_entries.take(i as int));
                assert(old_entries.take(i + 1).last() == old_entries[i as int]);
                assert(self.pending_updates() =~= old_updates + focus_notices(old_entries.take(i + 1), now));
                assert forall|j: int| 0 <= j < n implies (#[trigger] self.entries@[j]) == if j < i + 1 && refetched_on_focus(old_entries[j], now) {
                    marked_stale(old_entries[j])
                } else {
                    old_entries[j]
                } by {
                }
            }
            i = i + 1;
        }
        proof {
            assert(old_entries.take(n as int) =~= old_entries);
            lemma_entries_map_pointwise(old_entries, self.entries@);
            assert(self.entry_keys() =~= old(self).entry_keys());
            assert forall|k: Seq<char>| #[trigger] old(self).cache().contains_key(k) implies self.cache()[k]
                == if refetched_on_focus(old(self).cache()[k], now) {
                    marked_stale(old(self).cache()[k])
                } else {
                    old(self).cache()[k]
                } by {
                let j = lemma_entries_map_value(old_entries, k);
                assert(self.cache()[old_entries[j].key@] == self.entries@[j]);
            }
        }
    }

    /// Returns true if any query is currently fetching.
    pub fn is_fetching(&self) -> (b: bool)
        ensures
            b == (self.fetching() > 0),
    {
        self.fetching_count > 0
    }

    /// Returns the number of in-flight fetch operations.
    pub fn fetching_count(&self) -> (n: usize)
        ensures
            n == self.fetching(),
    {
        self.fetching_count
    }

    /// Returns true if any mutation is in progress.
    pub fn is_mutating(&self) -> (b: bool)
        ensures
            b == (self.mutating() > 0),
    {
        self.mutating_count > 0
    }

    /// Returns the number of in-flight mutations.
    pub fn mutating_count(&self) -> (n: usize)
        ensures
            n == self.mutating(),
    {
        self.mutating_count
    }

    /// A fetch starts: the count goes up and the new count is announced.
    pub fn inc_fetching(&mut self)
        requires
            old(self).fetching() < usize::MAX,
        ensures
            final(self).fetching() == old(self).fetching() + 1,
            final(self).pending_activity() == old(self).pending_activity().push(
                ActivityEvent::FetchingCountChanged((old(self).fetching() + 1) as usize),
            ),
            final(self).mutating() == old(self).mutating(),
            final(self).entry_list() == old(self).entry_list(),
            final(self).in_flight_keys() == old(self).in_flight_keys(),
            final(self).pending_updates() == old(self).pending_updates(),
            final(self).wf() == old(self).wf(),
    {
        self.fetching_count = self.fetching_count + 1;
        self.activity.push(ActivityEvent::FetchingCountChanged(self.fetching_count));
    }

    /// A fetch ends: the count goes down and the new count is announced.
    pub fn dec_fetching(&mut self)
        requires
            old(self).fetching() > 0,
        ensures
            final(self).fetching() == old(self).fetching() - 1,
            final(self).pending_activity() == old(self).pending_activity().push(
                ActivityEvent::FetchingCountChanged((old(self).fetching() - 1) as usize),
            ),
            final(self).mutating() == old(self).mutating(),
            final(self).entry_list() == old(self).entry_list(),
            final(self).in_flight_keys() == old(self).in_flight_keys(),
            final(self).pending_updates() == old(self).pending_updates(),
            final(self).wf() == old(self).wf(),
    {
        self.fetching_count = self.fetching_count - 1;
        self.activity.push(ActivityEvent::FetchingCountChanged(self.fetching_count));
    }

    /// A mutation starts: the count goes up and the new count is announced.
    pub fn inc_mutating(&mut self)
        requires
            old(self).mutating() < usize::MAX,
        ensures
            final(self).mutating() == old(self).mutating() + 1,
            final(self).pending_activity() == old(self).pending_activity().push(
                ActivityEvent::MutatingCountChanged((old(self).mutating() + 1) as usize),
            ),
            final(self).fetching() == old(self).fetching(),
            final(self).entry_list() == old(self).entry_list(),
            final(self).in_flight_keys() == old(self).in_flight_keys(),
            final(self).pending_updates() == old(self).pending_updates(),
            final(self).wf() == old(self).wf(),
    {
        self.mutating_count = self.mutating_count + 1;
        self.activity.push(ActivityEvent::MutatingCountChanged(self.mutating_count));
    }

    /// A mutation ends: the count goes down and the new count is announced.
    pub fn dec_mutating(&mut self)
        requires
            old(self).mutating() > 0,
        ensures
            final(self).mutating() == old(self).mutating() - 1,
            final(self).pending_activity() == old(self).pending_activity().push(
                ActivityEvent::MutatingCountChanged((old(self).mutating() - 1) as usize),
            ),
            final(self).fetching() == old(self).fetching(),
            final(self).entry_list() == old(self).entry_list(),
            final(self).in_flight_keys() == old(self).in_flight_keys(),
            final(self).pending_updates() == old(self).pending_updates(),
            final(self).wf() == old(self).wf(),
    {
        self.mutating_count = self.mutating_count - 1;
        self.activity.push(ActivityEvent::MutatingCountChanged(self.mutating_count));
    }

    /// Takes the activity events recorded so far, oldest first.
    pub fn take_activity(&mut self) -> (a: Vec<ActivityEvent>)
        ensures
            a@ == old(self).pending_activity(),
            final(self).pending_activity() == Seq::<ActivityEvent>::empty(),
            final(self).fetching() == old(self).fetching(),
            final(self).mutating() == old(self).mutating(),
            final(self).entry_list() == old(self).entry_list(),
            final(self).in_flight_keys() == old(self).in_flight_keys(),
            final(self).pending_updates() == old(self).pending_updates(),
            final(self).wf() == old(self).wf(),
    {
        let mut a = Vec::new();
        std::mem::swap(&mut a, &mut self.activity);
        a
    }
}

/// Removing the entry at `i` from entries with distinct keys removes its key
/// from the map and leaves every other key as it was.
proof fn lemma_entries_map_remove<V>(s: Seq<CacheEntry<V>>, i: int)
    requires
        entry_keys_distinct(s),
        0 <= i < s.len(),
    ensures
        entry_keys_distinct(s.remove(i)),
        entries_map(s.remove(i)) == entries_map(s).remove(s[i].key@),
{
    let t = s.remove(i);
    let k = s[i].key@;
    assert forall|a: int, b: int| 0 <= a < b < t.len() implies #[trigger] t[a].key@ != #[trigger] t[b].key@ by {
        let a2 = if a < i { a } else { a + 1 };
        let b2 = if b < i { b } else { b + 1 };
        assert(t[a] == s[a2] && t[b] == s[b2]);
    }
    assert forall|x: Seq<char>| #[trigger] entries_map(t).contains_key(x) == entries_map(s).remove(k).contains_key(x) by {
        lemma_entries_map_domain(t, x);
        lemma_entries_map_domain(s, x);
        if exists|j: int| 0 <= j < t.len() && #[trigger] t[j].key@ == x {
            let j = choose|j: int| 0 <= j < t.len() && #[trigger] t[j].key@ == x;
            let j2 = if j < i { j } else { j + 1 };
            assert(s[j2].key@ == x);
            assert(j2 != i);
        }
        if entries_map(s).contains_key(x) && x != k {
            let j = choose|j: int| 0 <= j < s.len() && #[trigger] s[j].key@ == x;
            assert(j != i);
            let j2 = if j < i { j } else { j - 1 };
            assert(t[j2].key@ == x);
        }
    }
    assert forall|x: Seq<char>| #[trigger] entries_map(t).contains_key(x) implies entries_map(t)[x] == entries_map(s)[x] by {
        let j = lemma_entries_map_value(t, x);
        let j2 = if j < i { j } else { j + 1 };
        assert(t[j] == s[j2]);
        lemma_entries_map_index(s, j2);
    }
    assert(entries_map(t) =~= entries_map(s).remove(k));
}

impl<V> QueryClient<V> {
    /// Remove the entry cached under the cache key `k`; returns whether there
    /// was one.
    pub fn remove_query(&mut self, k: &str) -> (b: bool)
        requires
            old(self).wf(),
        ensures
            final(self).wf(),
            b == old(self).cache().contains_key(k@),
            final(self).cache() == old(self).cache().remove(k@),
            final(self).in_flight_keys() == old(self).in_flight_keys(),
            final(self).pending_updates() == old(self).pending_updates(),
            final(self).fetching() == old(self).fetching(),
            final(self).mutating() == old(self).mutating(),
            final(self).pending_activity() == old(self).pending_activity(),
    {
        let key = String::from_str(k);
        match self.find_entry(&key) {
            Some(i) => {
                let ghost before = self.entries@;
                let _e = self.entries.remove(i);
                proof {
                    assert(self.entries@ == before.remove(i as int));
                    lemma_entries_map_remove(before, i as int);
                }
                true
            },
            None => {
                assert(old(self).cache().remove(k@) =~= old(self).cache());
                false
            },
        }
    }
}

impl<V> QueryClient<V> {
    /// The cached entries, in the client's order.
    pub fn entries(&self) -> (r: &[CacheEntry<V>])
        ensures
            r@ == self.entry_list(),
    {
        self.entries.as_slice()
    }

    /// Whether data is cached under the cache key `k`.
    pub fn contains_cache_key(&self, k: &str) -> (b: bool)
        requires
            self.wf(),
        ensures
            b == self.cache().contains_key(k@),
    {
        let key = String::from_str(k);
        self.find_entry(&key).is_some()
    }
}

impl<V> QueryClient<V> {
    /// Replaces the data of the entry at `i`, stamped `now`, keeping its key,
    /// options and stale mark, and notes a `Success` change for its key.
    fn replace_entry_data(&mut self, i: usize, data: V, now: Duration)
        requires
            old(self).wf(),
            i < old(self).entry_list().len(),
        ensures
            final(self).wf(),
            ({
                let k = old(self).entry_list()[i as int].key@;
                let o = old(self).cache()[k];
                let e = final(self).cache()[k];
                &&& final(self).cache().contains_key(k)
                &&& final(self).cache().remove(k) == old(self).cache().remove(k)
                &&& e.key@ == k
                &&& *e.data == data
                &&& e.fetched_at == now
                &&& e.last_accessed == now
                &&& e.options == o.options
                &&& e.is_stale == o.is_stale
                &&& final(self).pending_updates() == old(self).pending_updates().push((k, QueryStateVariant::Success))
            }),
            final(self).entry_keys() == old(self).entry_keys(),
            final(self).in_flight_keys() == old(self).in_flight_keys(),
            final(self).fetching() == old(self).fetching(),
            final(self).mutating() == old(self).mutating(),
            final(self).pending_activity() == old(self).pending_activity(),
    {
        let old_entry = self.entries.remove(i);
        let k = old_entry.key.clone();
        let entry = CacheEntry {
            key: old_entry.key,
            data: Arc::new(data),
            fetched_at: now,
            last_accessed: now,
            options: old_entry.options,
            is_stale: old_entry.is_stale,
        };
        self.entries.insert(i, entry);
        proof {
            assert(self.entries@ =~= old(self).entries@.update(i as int, entry));
            lemma_entries_map_update(old(self).entries@, i as int, entry);
            lemma_entries_map_index(old(self).entries@, i as int);
            assert(self.cache().remove(k@) =~= old(self).cache().remove(k@));
            assert(self.entry_keys() =~= old(self).entry_keys());
        }
        self.updates.push(QueryStateUpdate { key: k, state_variant: QueryStateVariant::Success });
        assert(self.pending_updates() =~= old(self).pending_updates().push((k@, QueryStateVariant::Success)));
    }
}

/// The pages and parameters after appending `page` (with `param`) to `old`
/// and keeping at most `max` pages, as stored in `new`.
pub open spec fn appended<T: Clone, P: Clone>(old: InfiniteData<T, P>, new: InfiniteData<T, P>, page: T, param: P, max: Option<usize>) -> bool {
    let k = overflow(old.pages@.len() + 1, max);
    &&& same_or_cloned(drop_front(old.pages@.push(page), k), new.pages@)
    &&& same_or_cloned(drop_front(old.page_params@.push(param), k), new.page_params@)
}

/// The pages and parameters after prepending `page` (with `param`) to `old`
/// and keeping at most `max` pages, as stored in `new`.
pub open spec fn prepended<T: Clone, P: Clone>(old: InfiniteData<T, P>, new: InfiniteData<T, P>, page: T, param: P, max: Option<usize>) -> bool {
    let k = overflow(old.pages@.len() + 1, max);
    &&& same_or_cloned(drop_back(seq![page] + old.pages@, k), new.pages@)
    &&& same_or_cloned(drop_back(seq![param] + old.page_params@, k), new.page_params@)
}

proof fn lemma_same_or_cloned_drop_front<A: Clone>(a: Seq<A>, b: Seq<A>, x: A, k: nat)
    requires
        same_or_cloned(a, b),
    ensures
        same_or_cloned(drop_front(a.push(x), k), drop_front(b.push(x), k)),
{
    assert forall|j: int| 0 <= j < drop_front(b.push(x), k).len() implies #[trigger] drop_front(b.push(x), k)[j]
        == drop_front(a.push(x), k)[j] || cloned(drop_front(a.push(x), k)[j], drop_front(b.push(x), k)[j]) by {
        let idx = j + k;
        if idx < b.len() {
            assert(b.push(x)[idx] == b[idx]);
            assert(a.push(x)[idx] == a[idx]);
        }
    }
}

proof fn lemma_same_or_cloned_drop_back<A: Clone>(a: Seq<A>, b: Seq<A>, x: A, k: nat)
    requires
        same_or_cloned(a, b),
    ensures
        same_or_cloned(drop_back(seq![x] + a, k), drop_back(seq![x] + b, k)),
{
    assert forall|j: int| 0 <= j < drop_back(seq![x] + b, k).len() implies #[trigger] drop_back(seq![x] + b, k)[j]
        == drop_back(seq![x] + a, k)[j] || cloned(drop_back(seq![x] + a, k)[j], drop_back(seq![x] + b, k)[j]) by {
        if j > 0 {
            assert((seq![x] + b)[j] == b[j - 1]);
            assert((seq![x] + a)[j] == a[j - 1]);
        }
    }
}

impl<T: Clone, P: Clone> QueryClient<InfiniteData<T, P>> {
    /// Get cached infinite data, if any.
    pub fn get_infinite_data(&self, key: &QueryKey) -> (r: Option<&InfiniteData<T, P>>)
        requires
            self.wf(),
        ensures
            match r {
                Some(d) => self.cache().contains_key(join_segments(key@))
                    && *d == *self.cache()[join_segments(key@)].data,
                None => !self.cache().contains_key(join_segments(key@)),
            },
    {
        self.get_query_data(key)
    }

    /// Append a page to a key's infinite data, keeping at most `max_pages`
    /// pages (the oldest leave first); the entry is stamped `now` and a
    /// `Success` change is noted. Returns a copy of the new data, or `None`
    /// when the key holds no data.
    pub fn append_infinite_page(
        &mut self,
        key: &QueryKey,
        page: T,
        page_param: P,
        max_pages: Option<usize>,
        now: Duration,
    ) -> (r: Option<InfiniteData<T, P>>)
        requires
            old(self).wf(),
            ({
                let k = join_segments(key@);
                let d = *old(self).cache()[k].data;
                old(self).cache().contains_key(k) ==> overflow(d.pages@.len() + 1, max_pages) <= d.page_params@.len() + 1
            }),
        ensures
            final(self).wf(),
            ({
                let k = join_segments(key@);
                let o = old(self).cache()[k];
                let e = final(self).cache()[k];
                match r {
                    Some(d) => {
                        &&& old(self).cache().contains_key(k)
                        &&& final(self).cache().contains_key(k)
                        &&& final(self).cache().remove(k) == old(self).cache().remove(k)
                        &&& appended(*o.data, *e.data, page, page_param, max_pages)
                        &&& same_or_cloned((*e.data).pages@, d.pages@)
                        &&& same_or_cloned((*e.data).page_params@, d.page_params@)
                        &&& e.key@ == k && e.options == o.options && e.is_stale == o.is_stale
                        &&& e.fetched_at == now && e.last_accessed == now
                        &&& final(self).pending_updates() == old(self).pending_updates().push((k, QueryStateVariant::Success))
                    },
                    None => {
                        &&& !old(self).cache().contains_key(k)
                        &&& final(self).cache() == old(self).cache()
                        &&& final(self).pending_updates() == old(self).pending_updates()
                    },
                }
            }),
            final(self).in_flight_keys() == old(self).in_flight_keys(),
            final(self).fetching() == old(self).fetching(),
            final(self).mutating() == old(self).mutating(),
            final(self).pending_activity() == old(self).pending_activity(),
    {
        let k = key.cache_key();
        match self.find_entry(&k) {
            None => None,
            Some(i) => {
                let ghost old_pages = self.entries@[i as int].data.pages@;
                let ghost old_params = self.entries@[i as int].data.page_params@;
                let mut new_data = (*self.entries[i].data).clone();
                let ghost cloned_pages = new_data.pages@;
                let ghost cloned_params = new_data.page_params@;
                new_data.append_bounded(page, page_param, max_pages);
                proof {
                    let kk = overflow(old_pages.len() + 1, max_pages);
                    lemma_same_or_cloned_drop_front(old_pages, cloned_pages, page, kk);
                    lemma_same_or_cloned_drop_front(old_params, cloned_params, page_param, kk);
                }
                let result = new_data.clone();
                self.replace_entry_data(i, new_data, now);
                Some(result)
            },
        }
    }

    /// Prepend a page to a key's infinite data, keeping at most `max_pages`
    /// pages (the newest leave first); the entry is stamped `now` and a
    /// `Success` change is noted. Returns a copy of the new data, or `None`
    /// when the key holds no data.
    pub fn prepend_infinite_page(
        &mut self,
        key: &QueryKey,
        page: T,
        page_param: P,
        max_pages: Option<usize>,
        now: Duration,
    ) -> (r: Option<InfiniteData<T, P>>)
        requires
            old(self).wf(),
        ensures
            final(self).wf(),
            ({
                let k = join_segments(key@);
                let o = old(self).cache()[k];
                let e = final(self).cache()[k];
                match r {
                    Some(d) => {
                        &&& old(self).cache().contains_key(k)
                        &&& final(self).cache().contains_key(k)
                        &&& final(self).cache().remove(k) == old(self).cache().remove(k)
                        &&& prepended(*o.data, *e.data, page, page_param, max_pages)
                        &&& same_or_cloned((*e.data).pages@, d.pages@)
                        &&& same_or_cloned((*e.data).page_params@, d.page_params@)
                        &&& e.key@ == k && e.options == o.options && e.is_stale == o.is_stale
                        &&& e.fetched_at == now && e.last_accessed == now
                        &&& final(self).pending_updates() == old(self).pending_updates().push((k, QueryStateVariant::Success))
                    },
                    None => {
                        &&& !old(self).cache().contains_key(k)
                        &&& final(self).cache() == old(self).cache()
                        &&& final(self).pending_updates() == old(self).pending_updates()
                    },
                }
            }),
            final(self).in_flight_keys() == old(self).in_flight_keys(),
            final(self).fetching() == old(self).fetching(),
            final(self).mutating() == old(self).mutating(),
            final(self).pending_activity() == old(self).pending_activity(),
    {
        let k = key.cache_key();
        match self.find_entry(&k) {
            None => None,
            Some(i) => {
                let ghost old_pages = self.entries@[i as int].data.pages@;
                let ghost old_params = self.entries@[i as int].data.page_params@;
                let mut new_data = (*self.entries[i].data).clone();
                let ghost cloned_pages = new_data.pages@;
                let ghost cloned_params = new_data.page_params@;
                new_data.prepend_bounded(page, page_param, max_pages);
                proof {
                    let kk = overflow(old_pages.len() + 1, max_pages);
                    lemma_same_or_cloned_drop_back(old_pages, cloned_pages, page, kk);
                    lemma_same_or_cloned_drop_back(old_params, cloned_params, page_param, kk);
                }
                let result = new_data.clone();
                self.replace_entry_data(i, new_data, now);
                Some(result)
            },
        }
    }
}

impl<V> QueryClient<V> {
    /// Replace the data cached under a key, keeping its options and stale
    /// mark, stamped `now`, noting a `Success` change. Returns whether the key
    /// held data (nothing changes when it did not).
    pub fn replace_query_data(&mut self, key: &QueryKey, data: V, now: Duration) -> (b: bool)
        requires
            old(self).wf(),
        ensures
            final(self).wf(),
            b == old(self).cache().contains_key(join_segments(key@)),
            ({
                let k = join_segments(key@);
                let o = old(self).cache()[k];
                let e = final(self).cache()[k];
                if b {
                    &&& final(self).cache().contains_key(k)
                    &&& final(self).cache().remove(k) == old(self).cache().remove(k)
                    &&& e.key@ == k
                    &&& *e.data == data
                    &&& e.fetched_at == now
                    &&& e.last_accessed == now
                    &&& e.options == o.options
                    &&& e.is_stale == o.is_stale
                    &&& final(self).pending_updates() == old(self).pending_updates().push((k, QueryStateVariant::Success))
                } else {
                    &&& final(self).cache() == old(self).cache()
                    &&& final(self).pending_updates() == old(self).pending_updates()
                }
            }),
            final(self).in_flight_keys() == old(self).in_flight_keys(),
            final(self).fetching() == old(self).fetching(),
            final(self).mutating() == old(self).mutating(),
            final(self).pending_activity() == old(self).pending_activity(),
    {
        let k = key.cache_key();
        match self.find_entry(&k) {
            Some(i) => {
                self.replace_entry_data(i, data, now);
                true
            },
            None => false,
        }
    }
}

} // verus!
