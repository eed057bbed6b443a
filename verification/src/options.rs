use vstd::prelude::*;
use vstd::arithmetic::power2::{pow2, lemma2_to64, lemma_pow2_strictly_increases, lemma_pow2_unfold};
use crate::callbacks::PlaceholderFn;
use crate::duration::{Duration, MAX_NANOS};

verus! {

/// `2^attempt`, capped at `u32::MAX`.
pub open spec fn saturating_pow2(attempt: nat) -> nat {
    if pow2(attempt) > u32::MAX {
        u32::MAX as nat
    } else {
        pow2(attempt)
    }
}

/// Computes `2^attempt`, capped at `u32::MAX`.
pub fn saturating_pow2_u32(attempt: u32) -> (m: u32)
    ensures
        m == saturating_pow2(attempt as nat),
{
    proof {
        lemma2_to64();
    }
    if attempt >= 32 {
        proof {
            if attempt > 32 {
                lemma_pow2_strictly_increases(32, attempt as nat);
            }
        }
        return u32::MAX;
    }
    let mut m: u32 = 1;
    let mut i: u32 = 0;
    while i < attempt
        invariant
            attempt < 32,
            i <= attempt,
            m == pow2(i as nat),
        decreases attempt - i,
    {
        proof {
            lemma_pow2_unfold((i + 1) as nat);
            lemma2_to64();
            if i < 31 {
                lemma_pow2_strictly_increases(i as nat, 31);
            }
        }
        m = m * 2;
        i = i + 1;
    }
    proof {
        if attempt < 31 {
            lemma_pow2_strictly_increases(attempt as nat, 32);
        }
    }
    m
}

/// Configuration for automatic retry behaviour.
#[derive(Clone, Copy, Debug, PartialEq, Eq, Structural)]
pub struct RetryConfig {
    /// Maximum number of retry attempts (not counting the initial request).
    pub max_retries: u32,
    /// Base delay between retries.
    pub base_delay: Duration,
    /// Whether to use exponential backoff.
    pub exponential_backoff: bool,
}

impl RetryConfig {
    /// The delay before retry number `attempt` (counted from 0), in nanoseconds:
    /// the base delay, doubled per attempt when backoff is exponential (the
    /// multiplier stops growing at `u32::MAX`).
    pub open spec fn delay_nanos(&self, attempt: nat) -> nat {
        if self.exponential_backoff {
            self.base_delay.nanos() * saturating_pow2(attempt)
        } else {
            self.base_delay.nanos()
        }
    }

    /// Create a new retry configuration: the given number of retries, 500 ms
    /// base delay, exponential backoff.
    pub fn new(max_retries: u32) -> (c: RetryConfig)
        ensures
            c.max_retries == max_retries,
            c.base_delay.nanos() == 500_000_000,
            c.exponential_backoff,
    {
        RetryConfig { max_retries, base_delay: Duration::from_millis(500), exponential_backoff: true }
    }

    /// Set the base delay between retries.
    pub fn base_delay(self, delay: Duration) -> (c: RetryConfig)
        ensures
            c == (RetryConfig { base_delay: delay, ..self }),
    {
        RetryConfig { base_delay: delay, ..self }
    }

    /// Enable or disable exponential backoff.
    pub fn exponential_backoff(self, enabled: bool) -> (c: RetryConfig)
        ensures
            c == (RetryConfig { exponential_backoff: enabled, ..self }),
    {
        RetryConfig { exponential_backoff: enabled, ..self }
    }

    /// Calculate the delay for a given retry attempt (0-indexed).
    pub fn delay_for_attempt(&self, attempt: u32) -> (d: Duration)
        requires
            self.delay_nanos(attempt as nat) <= MAX_NANOS,
        ensures
            d.nanos() == self.delay_nanos(attempt as nat),
    {
        if self.exponential_backoff {
            let multiplier = saturating_pow2_u32(attempt);
            self.base_delay.mul_u32(multiplier)
        } else {
            self.base_delay
        }
    }

    /// Check if a retry should be attempted.
    pub fn should_retry(&self, attempt: u32) -> (b: bool)
        ensures
            b == (attempt < self.max_retries),
    {
        attempt < self.max_retries
    }
}

impl Default for RetryConfig {
    /// Three retries, 500 ms base delay, exponential backoff.
    fn default() -> (c: RetryConfig)
        ensures
            c.max_retries == 3,
            c.base_delay.nanos() == 500_000_000,
            c.exponential_backoff,
    {
        RetryConfig { max_retries: 3, base_delay: Duration::from_millis(500), exponential_backoff: true }
    }
}

/// Placeholder data shown while a query is loading: a fixed value, or a
/// function of the previous data.
#[derive(Debug)]
#[verifier::reject_recursive_types(T)]
pub enum PlaceholderData<T> {
    /// Static placeholder data.
    Value(T),
    /// Function that computes placeholder data from previous data.
    Function(PlaceholderFn<T>),
}

/// `copy` is a copy of the placeholder `orig`: a clone of the same fixed
/// value, or the same kind of function.
pub open spec fn placeholder_copied<T: Clone>(orig: PlaceholderData<T>, copy: PlaceholderData<T>) -> bool {
    match orig {
        PlaceholderData::Value(v) => copy matches PlaceholderData::Value(c) && cloned(v, c),
        PlaceholderData::Function(_) => copy is Function,
    }
}

impl<T: Clone> Clone for PlaceholderData<T> {
    fn clone(&self) -> (p: PlaceholderData<T>)
        ensures
            placeholder_copied(*self, p),
    {
        match self {
            PlaceholderData::Value(v) => PlaceholderData::Value(v.clone()),
            PlaceholderData::Function(f) => PlaceholderData::Function(f.clone()),
        }
    }
}

impl<T: Clone> PlaceholderData<T> {
    /// Create a static placeholder.
    pub fn value(data: T) -> (p: PlaceholderData<T>)
        ensures
            p == PlaceholderData::Value(data),
    {
        PlaceholderData::Value(data)
    }

    /// Create a function-based placeholder.
    pub fn function<F>(f: F) -> (p: PlaceholderData<T>) where
        F: Fn(Option<&T>) -> T + Send + Sync + 'static,
        ensures
            p is Function,
    {
        PlaceholderData::Function(PlaceholderFn::new(f))
    }

    /// Resolve the placeholder data: a clone of the fixed value, or what the
    /// function returns for `previous`.
    pub fn resolve(&self, previous: Option<&T>) -> (r: T)
        ensures
            self matches PlaceholderData::Value(v) ==> cloned(*v, r),
            self matches PlaceholderData::Function(f) ==> f.gives(
                match previous {
                    Some(p) => Some(*p),
                    None => None,
                },
                r,
            ),
    {
        match self {
            PlaceholderData::Value(v) => v.clone(),
            PlaceholderData::Function(f) => f.call(previous),
        }
    }
}

/// Options for query behaviour.
#[derive(Clone, Copy, Debug, PartialEq, Eq, Structural)]
pub struct QueryOptions {
    /// How long data is considered fresh before becoming stale.
    pub stale_time: Duration,
    /// How long unused cache entries are kept before garbage collection.
    pub gc_time: Duration,
    /// Retry configuration.
    pub retry: RetryConfig,
    /// Whether the query is enabled.
    pub enabled: bool,
    /// Whether to refetch when the window regains focus.
    pub refetch_on_window_focus: bool,
    /// Interval for automatic background refetching.
    pub refetch_interval: Duration,
    /// Whether to apply structural sharing when updating cache.
    pub structural_sharing: bool,
}

impl QueryOptions {
    /// The default options: stale at once, kept five minutes, three retries,
    /// enabled, refetched on focus, no interval, structural sharing on.
    pub open spec fn is_default(&self) -> bool {
        &&& self.stale_time.nanos() == 0
        &&& self.gc_time.nanos() == 300_000_000_000
        &&& self.retry.max_retries == 3
        &&& self.retry.base_delay.nanos() == 500_000_000
        &&& self.retry.exponential_backoff
        &&& self.enabled
        &&& self.refetch_on_window_focus
        &&& self.refetch_interval.nanos() == 0
        &&& self.structural_sharing
    }
}

impl Default for QueryOptions {
    fn default() -> (o: QueryOptions)
        ensures
            o.is_default(),
    {
        QueryOptions {
            stale_time: Duration::zero(),
            gc_time: Duration::from_secs(300),
            retry: RetryConfig::default(),
            enabled: true,
            refetch_on_window_focus: true,
            refetch_interval: Duration::zero(),
            structural_sharing: true,
        }
    }
}

} // verus!
