use vstd::prelude::*;
use crate::error::QueryError;

verus! {

/// The state of a query, carrying its data where it has any.
#[derive(Clone, Debug)]
pub enum QueryState<T> {
    /// Not started.
    Idle,
    /// First load, nothing to show yet.
    Loading,
    /// First load, showing placeholder data.
    LoadingWithPlaceholder(T),
    /// Loading again, showing the previous data.
    Refetching(T),
    /// Fresh data.
    Success(T),
    /// Data that should be refetched.
    Stale(T),
    /// The last fetch failed; earlier data may still be shown.
    Error { error: QueryError, stale_data: Option<T> },
}

impl<T> QueryState<T> {
    /// The data the state carries, if any.
    pub open spec fn spec_data(&self) -> Option<T> {
        match self {
            QueryState::LoadingWithPlaceholder(d) => Some(*d),
            QueryState::Refetching(d) => Some(*d),
            QueryState::Success(d) => Some(*d),
            QueryState::Stale(d) => Some(*d),
            QueryState::Error { stale_data, .. } => *stale_data,
            _ => None,
        }
    }

    /// The same state with its data replaced by `d` (unchanged when it has none).
    pub open spec fn with_data(self, d: T) -> QueryState<T> {
        match self {
            QueryState::LoadingWithPlaceholder(_) => QueryState::LoadingWithPlaceholder(d),
            QueryState::Refetching(_) => QueryState::Refetching(d),
            QueryState::Success(_) => QueryState::Success(d),
            QueryState::Stale(_) => QueryState::Stale(d),
            QueryState::Error { error, stale_data: Some(_) } => QueryState::Error {
                error,
                stale_data: Some(d),
            },
            _ => self,
        }
    }

    pub fn is_idle(&self) -> (b: bool)
        ensures
            b == (self is Idle),
    {
        matches!(self, QueryState::Idle)
    }

    /// Loading for the first time, with or without placeholder data.
    pub fn is_loading(&self) -> (b: bool)
        ensures
            b == (self is Loading || self is LoadingWithPlaceholder),
    {
        matches!(self, QueryState::Loading | QueryState::LoadingWithPlaceholder(_))
    }

    pub fn is_success(&self) -> (b: bool)
        ensures
            b == (self is Success),
    {
        matches!(self, QueryState::Success(_))
    }

    pub fn is_error(&self) -> (b: bool)
        ensures
            b == (self is Error),
    {
        matches!(self, QueryState::Error { .. })
    }

    pub fn is_refetching(&self) -> (b: bool)
        ensures
            b == (self is Refetching),
    {
        matches!(self, QueryState::Refetching(_))
    }

    pub fn is_stale(&self) -> (b: bool)
        ensures
            b == (self is Stale),
    {
        matches!(self, QueryState::Stale(_))
    }

    /// Whether the state carries data.
    pub fn has_data(&self) -> (b: bool)
        ensures
            b == self.spec_data() is Some,
    {
        match self {
            QueryState::LoadingWithPlaceholder(_) => true,
            QueryState::Refetching(_) => true,
            QueryState::Success(_) => true,
            QueryState::Stale(_) => true,
            QueryState::Error { stale_data, .. } => stale_data.is_some(),
            _ => false,
        }
    }

    /// The data the state carries, if any.
    pub fn data(&self) -> (r: Option<&T>)
        ensures
            match r {
                Some(d) => self.spec_data() == Some(*d),
                None => self.spec_data() is None,
            },
    {
        match self {
            QueryState::LoadingWithPlaceholder(d) => Some(d),
            QueryState::Refetching(d) => Some(d),
            QueryState::Success(d) => Some(d),
            QueryState::Stale(d) => Some(d),
            QueryState::Error { stale_data, .. } => match stale_data {
                Some(d) => Some(d),
                None => None,
            },
            _ => None,
        }
    }

    /// A mutable reference to the data the state carries, if any.
    pub fn data_mut(&mut self) -> (r: Option<&mut T>)
        ensures
            match r {
                Some(d) => old(self).spec_data() == Some(*d) && *final(self) == old(self).with_data(
                    *final(d),
                ),
                None => old(self).spec_data() is None && *final(self) == *old(self),
            },
    {
        match self {
            QueryState::LoadingWithPlaceholder(d) => Some(d),
            QueryState::Refetching(d) => Some(d),
            QueryState::Success(d) => Some(d),
            QueryState::Stale(d) => Some(d),
            QueryState::Error { stale_data: Some(d), .. } => Some(d),
            _ => None,
        }
    }

    /// The error of an `Error` state.
    pub fn error(&self) -> (r: Option<&QueryError>)
        ensures
            match r {
                Some(e) => self matches QueryState::Error { error, .. } && error == *e,
                None => !(self is Error),
            },
    {
        match self {
            QueryState::Error { error, .. } => Some(error),
            _ => None,
        }
    }

    /// Apply `f` to the data, if the state carries any.
    pub fn map<U, F: Fn(&T) -> U>(&self, f: F) -> (r: Option<U>)
        requires
            self.spec_data() matches Some(d) ==> f.requires((&d,)),
        ensures
            match r {
                Some(u) => self.spec_data() matches Some(d) && f.ensures((&d,), u),
                None => self.spec_data() is None,
            },
    {
        match self.data() {
            Some(d) => Some(f(d)),
            None => None,
        }
    }

    /// The data, taking the state; the state must carry data.
    pub fn unwrap(self) -> (d: T)
        requires
            self.spec_data() is Some,
        ensures
            self.spec_data() == Some(d),
    {
        match self {
            QueryState::LoadingWithPlaceholder(d) => d,
            QueryState::Refetching(d) => d,
            QueryState::Success(d) => d,
            QueryState::Stale(d) => d,
            QueryState::Error { stale_data: Some(d), .. } => d,
            _ => {
                let none: Option<T> = None;
                none.expect("called unwrap on a QueryState without data")
            },
        }
    }
}

impl<T: Clone> QueryState<T> {
    /// A clone of the data the state carries, if any.
    pub fn data_cloned(&self) -> (r: Option<T>)
        ensures
            match r {
                Some(c) => self.spec_data() matches Some(d) && cloned(d, c),
                None => self.spec_data() is None,
            },
    {
        match self.data() {
            Some(d) => Some(d.clone()),
            None => None,
        }
    }
}

impl<T> Default for QueryState<T> {
    fn default() -> (s: QueryState<T>)
        ensures
            s is Idle,
    {
        QueryState::Idle
    }
}

/// The state of a mutation.
#[derive(Clone, Debug)]
pub enum MutationState<T> {
    Idle,
    Loading,
    Success(T),
    Error(QueryError),
}

impl<T> MutationState<T> {
    /// The result of a successful mutation, if any.
    pub open spec fn spec_data(&self) -> Option<T> {
        match self {
            MutationState::Success(d) => Some(*d),
            _ => None,
        }
    }

    pub fn is_idle(&self) -> (b: bool)
        ensures
            b == (self is Idle),
    {
        matches!(self, MutationState::Idle)
    }

    pub fn is_loading(&self) -> (b: bool)
        ensures
            b == (self is Loading),
    {
        matches!(self, MutationState::Loading)
    }

    pub fn is_success(&self) -> (b: bool)
        ensures
            b == (self is Success),
    {
        matches!(self, MutationState::Success(_))
    }

    pub fn is_error(&self) -> (b: bool)
        ensures
            b == (self is Error),
    {
        matches!(self, MutationState::Error(_))
    }

    /// The result of a successful mutation, if any.
    pub fn data(&self) -> (r: Option<&T>)
        ensures
            match r {
                Some(d) => self.spec_data() == Some(*d),
                None => self.spec_data() is None,
            },
    {
        match self {
            MutationState::Success(d) => Some(d),
            _ => None,
        }
    }

    /// The error of a failed mutation, if any.
    pub fn error(&self) -> (r: Option<&QueryError>)
        ensures
            match r {
                Some(e) => self matches MutationState::Error(x) && x == *e,
                None => !(self is Error),
            },
    {
        match self {
            MutationState::Error(e) => Some(e),
            _ => None,
        }
    }
}

impl<T: Clone> MutationState<T> {
    /// A clone of the result of a successful mutation, if any.
    pub fn data_cloned(&self) -> (r: Option<T>)
        ensures
            match r {
                Some(c) => self.spec_data() matches Some(d) && cloned(d, c),
                None => self.spec_data() is None,
            },
    {
        match self {
            MutationState::Success(d) => Some(d.clone()),
            _ => None,
        }
    }
}

impl<T> Default for MutationState<T> {
    fn default() -> (s: MutationState<T>)
        ensures
            s is Idle,
    {
        MutationState::Idle
    }
}

/// The kind of a state change, sent to subscribers of a key.
#[derive(Clone, Copy, Debug, PartialEq, Eq, Structural)]
pub enum QueryStateVariant {
    Idle,
    Loading,
    Refetching,
    Success,
    Stale,
    Error,
}

/// A state change of the query with the given cache key.
#[derive(Clone, Debug)]
pub struct QueryStateUpdate {
    pub key: String,
    pub state_variant: QueryStateVariant,
}

} // verus!
