use vstd::prelude::*;
use vstd::std_specs::cmp::PartialEqSpec;
use vstd::arithmetic::power2::{pow2, lemma_pow2_unfold};
use crate::client::{entry_stale, invalidated, shares, stored_by_set, CacheEntry, QueryClient};
use crate::devtools::{first_with_key, is_news, news};
use crate::duration::Duration;
use crate::key::{join_segments, key_prefix, law_match_implies_cache_key_prefix, SegmentView};
use crate::observer::read_from_cache;
use crate::options::{saturating_pow2, QueryOptions, RetryConfig};
use crate::state::{QueryState, QueryStateVariant};

verus! {

/// Reading after writing: once `data` is stored under a key (with structural
/// sharing off, or nothing cached there before), the key holds exactly
/// `data`, the entry is fresh at the time of writing, and every other key
/// holds what it held before.
pub proof fn law_get_after_set<V: PartialEq>(
    before: Map<Seq<char>, CacheEntry<V>>,
    after: Map<Seq<char>, CacheEntry<V>>,
    key: Seq<SegmentView>,
    data: V,
    options: QueryOptions,
    now: Duration,
)
    requires
        stored_by_set(before, after, join_segments(key), data, options, now),
        !options.structural_sharing || !before.contains_key(join_segments(key)),
    ensures
        after.contains_key(join_segments(key)),
        *after[join_segments(key)].data == data,
        !entry_stale(after[join_segments(key)], now),
        forall|other: Seq<char>| other != join_segments(key) ==> (#[trigger] after.contains_key(other)
            == before.contains_key(other) && (before.contains_key(other) ==> after[other] == before[other])),
{
    let k = join_segments(key);
    assert forall|other: Seq<char>| other != k implies (#[trigger] after.contains_key(other)
        == before.contains_key(other) && (before.contains_key(other) ==> after[other] == before[other])) by {
        assert(after.remove(k).contains_key(other) == after.contains_key(other));
        assert(before.remove(k).contains_key(other) == before.contains_key(other));
        if before.contains_key(other) {
            assert(after.remove(k)[other] == after[other]);
            assert(before.remove(k)[other] == before[other]);
        }
    }
}

/// Writing clears staleness: right after `set_query_data`, the key is not
/// stale, whatever it was before (structural sharing or not).
pub proof fn law_set_clears_stale<V: PartialEq>(
    before: Map<Seq<char>, CacheEntry<V>>,
    after: Map<Seq<char>, CacheEntry<V>>,
    k: Seq<char>,
    data: V,
    options: QueryOptions,
    now: Duration,
)
    requires
        stored_by_set(before, after, k, data, options, now),
    ensures
        !entry_stale(after[k], now),
{
}

/// Hierarchical invalidation: invalidating by a pattern key makes every
/// cached key that the pattern matches stale, at any time.
pub proof fn law_invalidation_reaches_matching_keys<V>(
    before: Map<Seq<char>, CacheEntry<V>>,
    after: Map<Seq<char>, CacheEntry<V>>,
    pattern: Seq<SegmentView>,
    key: Seq<SegmentView>,
    now: Duration,
)
    requires
        pattern.len() >= 1,
        invalidated(before, after, join_segments(pattern)),
        key_prefix(pattern, key),
        before.contains_key(join_segments(key)),
    ensures
        after.contains_key(join_segments(key)),
        entry_stale(after[join_segments(key)], now),
{
    law_match_implies_cache_key_prefix(key, pattern);
}

/// Stale while revalidate: invalidation keeps every key and its data; only
/// the stale marks change.
pub proof fn law_invalidation_keeps_data<V>(
    before: Map<Seq<char>, CacheEntry<V>>,
    after: Map<Seq<char>, CacheEntry<V>>,
    p: Seq<char>,
)
    requires
        invalidated(before, after, p),
    ensures
        after.dom() == before.dom(),
        forall|k: Seq<char>| #[trigger] before.contains_key(k) ==> after[k].data == before[k].data
            && after[k].options == before[k].options && after[k].fetched_at == before[k].fetched_at,
{
}

/// Structural sharing: when sharing is on and the data stored is equal (by
/// `V`'s `==`, for a `V` whose `==` follows its specification) to the data
/// already cached, the cached data is kept.
pub proof fn law_sharing_keeps_equal_data<V: PartialEq>(
    before: Map<Seq<char>, CacheEntry<V>>,
    after: Map<Seq<char>, CacheEntry<V>>,
    k: Seq<char>,
    data: V,
    options: QueryOptions,
    now: Duration,
)
    requires
        stored_by_set(before, after, k, data, options, now),
        V::obeys_eq_spec(),
        options.structural_sharing,
        before.contains_key(k),
        (*before[k].data).eq_spec(&data),
    ensures
        *after[k].data == *before[k].data,
{
    assert(shares(before, k, data, options));
}

/// An observer that reads the cache right after data was stored (without
/// sharing, or with nothing cached before) sees `Success` with that data.
pub proof fn law_observer_sees_stored_data<V: PartialEq + Clone>(
    before: Map<Seq<char>, CacheEntry<V>>,
    client: QueryClient<V>,
    k: Seq<char>,
    data: V,
    options: QueryOptions,
    now: Duration,
    s: QueryState<V>,
)
    requires
        stored_by_set(before, client.cache(), k, data, options, now),
        !options.structural_sharing || !before.contains_key(k),
        read_from_cache(&client, k, now, s),
    ensures
        s matches QueryState::Success(d) && cloned(data, d),
{
}

/// Exponential backoff: while the multiplier is below its cap, each retry
/// waits twice as long as the one before.
pub proof fn law_backoff_doubles(config: RetryConfig, attempt: nat)
    requires
        config.exponential_backoff,
        pow2(attempt + 1) <= u32::MAX,
    ensures
        config.delay_nanos(attempt + 1) == 2 * config.delay_nanos(attempt),
{
    lemma_pow2_unfold(attempt + 1);
    assert(saturating_pow2(attempt + 1) == 2 * saturating_pow2(attempt));
    assert(config.base_delay.nanos() * (2 * saturating_pow2(attempt)) == 2 * (config.base_delay.nanos()
        * saturating_pow2(attempt))) by (nonlinear_arith);
}

/// A row of a snapshot whose keys are distinct is its own first row with
/// its key.
proof fn lemma_first_with_own_key(rows: Seq<(Seq<char>, QueryStateVariant, Duration)>, i: int)
    requires
        0 <= i < rows.len(),
        forall|a: int, b: int| 0 <= a < b < rows.len() ==> #[trigger] rows[a].0 != #[trigger] rows[b].0,
    ensures
        first_with_key(rows, rows[i].0) == Some(rows[i]),
    decreases i,
{
    if i > 0 {
        let t = rows.drop_first();
        assert(rows[0].0 != rows[i].0);
        assert forall|a: int, b: int| 0 <= a < b < t.len() implies #[trigger] t[a].0 != #[trigger] t[b].0 by {
            assert(t[a] == rows[a + 1] && t[b] == rows[b + 1]);
        }
        lemma_first_with_own_key(t, i - 1);
        assert(t[i - 1] == rows[i]);
    }
}

proof fn lemma_no_news_from_own_rows(
    last: Seq<(Seq<char>, QueryStateVariant, Duration)>,
    snap: Seq<(Seq<char>, QueryStateVariant, Duration)>,
)
    requires
        forall|a: int, b: int| 0 <= a < b < last.len() ==> #[trigger] last[a].0 != #[trigger] last[b].0,
        snap.len() <= last.len(),
        forall|i: int| 0 <= i < snap.len() ==> #[trigger] snap[i] == last[i],
    ensures
        news(last, snap) == Seq::<(Seq<char>, QueryStateVariant)>::empty(),
    decreases snap.len(),
{
    if snap.len() > 0 {
        let i = snap.len() - 1;
        lemma_first_with_own_key(last, i);
        assert(!is_news(last, snap.last()));
        lemma_no_news_from_own_rows(last, snap.drop_last());
    }
}

/// A timeline update with the same snapshot as last time (whose keys are
/// distinct, as a client's are) adds no events.
pub proof fn law_unchanged_snapshot_adds_no_events(snap: Seq<(Seq<char>, QueryStateVariant, Duration)>)
    requires
        forall|a: int, b: int| 0 <= a < b < snap.len() ==> #[trigger] snap[a].0 != #[trigger] snap[b].0,
    ensures
        news(snap, snap) == Seq::<(Seq<char>, QueryStateVariant)>::empty(),
{
    lemma_no_news_from_own_rows(snap, snap);
}

} // verus!
