# rs-query

A data-fetching query cache: hierarchical keys, stale
data served while it is refreshed, retries with exponential backoff,
deduplicated fetches, invalidation of whole key families (a key and the
keys that extend it segment by segment), paginated ("infinite")
data, mutations that invalidate what they change, hydration and a developer
tools model. Its behaviour is stated in contracts and proved with Verus.

## Layout

- `src/` — the verified library. `client.rs` holds the cache and its
  operations; `executor.rs` and `infinite_executor.rs` the decisions of a
  query run (start, settle an attempt, retry, pages) and of a mutation;
  `observer.rs` the per-query state machine; `hydration.rs` dehydration and
  hydration; `devtools.rs` the timeline and cache listing; `laws.rs` and the
  `law_*` proof functions elsewhere the properties that span operations.
  Apart from `Query::initial_data`, which stamps initial data with a
  reading of the monotonic clock (`Instant::now`), time is not read inside
  the library: every operation that depends on it takes the current clock
  reading as an argument.
- `app/` — the runtime around it: a client shared between threads that
  delivers change notices over broadcast channels, the clock, cancellable
  fetches, the Tokio executors that report to GPUI views, the activity hooks
  and the devtools panel.
- `tests/` — tests of the library.

## The cache

The cache is a `Vec` of entries that never holds a key twice; every
operation states what it does to the cache as a `Map` from cache keys to
entries. A concurrent map would need a specification of its contents for
each type of cached data, and the operations read and compare those
entries, so the cache is kept as a plain collection with that invariant.
The table of in-flight fetches, whose keys are all that the logic reads,
is a `dashmap::DashMap` behind trusted wrappers that speak of its set of
keys.
