//! A query cache with hierarchical keys, staleness, retries, infinite
//! (paginated) data and hydration, with its behaviour stated and proved.
use vstd::prelude::*;

pub mod text;
pub mod duration;
pub mod error;
pub mod key;
pub mod callbacks;
pub mod options;
pub mod state;
pub mod infinite;
pub mod query;
pub mod sharing;
pub mod focus_manager;
pub mod client;
pub mod hydration;
pub mod executor;
pub mod mutation;
pub mod observer;
pub mod infinite_executor;
pub mod devtools;
pub mod laws;

pub use client::{ActivityEvent, CacheEntry, InFlightTask, QueryClient};
pub use devtools::{DevtoolsModel, DevtoolsTab, QueryEventType, QueryRow, TimelineEvent};
pub use duration::Duration;
pub use error::QueryError;
pub use executor::{AttemptOutcome, FetchDecision, QueryStart};
pub use focus_manager::FocusManager;
pub use hydration::{CacheText, DehydratedQuery, DehydratedState, HydrateOptions, KeyFilterFn};
pub use infinite::{InfiniteData, InfiniteQuery};
pub use infinite_executor::{InfiniteQueryObserver, PageDirection};
pub use key::QueryKey;
pub use mutation::Mutation;
pub use callbacks::RollbackFn;
pub use observer::QueryObserver;
pub use options::{PlaceholderData, QueryOptions, RetryConfig};
pub use query::Query;
pub use state::{MutationState, QueryState, QueryStateUpdate, QueryStateVariant};

verus! {
} // verus!
