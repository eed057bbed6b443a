//! The decisions of an infinite query run: which page to fetch next, and
//! what a fetched page does to the cache.
use vstd::prelude::*;
use std::sync::Arc;
use tokio::sync::mpsc::Sender;
use crate::client::{appended, prepended, stored_by_set, QueryClient};
use crate::duration::Duration;
use crate::error::QueryError;
use crate::executor::failed_with;
use crate::infinite::{drop_front, next_param_exists, next_param_of, overflow, previous_param_exists, previous_param_of, same_or_cloned, InfiniteData, InfiniteQuery};
use crate::key::{join_segments, QueryKey};
use crate::observer::QueryObserver;
use crate::options::QueryOptions;
use crate::state::{QueryState, QueryStateVariant};

verus! {

#[verifier::external_type_specification]
#[verifier::external_body]
#[verifier::reject_recursive_types(T)]
pub struct ExSender<T>(Sender<T>);

/// Calls `tokio::sync::mpsc::Sender::try_send` with `()`: it sends when the
/// channel has room and an open receiver, and fails otherwise. Whether it
/// sent depends on the channel, so nothing is claimed of the result.
#[verifier::external_body]
fn try_request(tx: &Sender<()>) -> (sent: bool) {
    tx.try_send(()).is_ok()
}

/// Which end of the page list a fetch extends.
#[derive(Clone, Copy, Debug, PartialEq, Eq, Structural)]
pub enum PageDirection {
    /// After the last page.
    Next,
    /// Before the first page.
    Previous,
}

/// An observer of an infinite query that can ask for more pages.
#[verifier::reject_recursive_types(T)]
#[verifier::reject_recursive_types(P)]
pub struct InfiniteQueryObserver<T, P> {
    /// The observer of the query's data.
    pub observer: QueryObserver<InfiniteData<T, P>>,
    query: Arc<InfiniteQuery<T, P>>,
    next_page_tx: Sender<()>,
    prev_page_tx: Sender<()>,
}

impl<T: Clone, P: Clone> InfiniteQueryObserver<T, P> {
    /// The observer of the query's data.
    pub closed spec fn spec_observer(&self) -> QueryObserver<InfiniteData<T, P>> {
        self.observer
    }

    /// The infinite query observed.
    pub closed spec fn spec_query(&self) -> InfiniteQuery<T, P> {
        *self.query
    }

    /// An observer of `query` whose page requests go to the two channels.
    pub fn new(
        observer: QueryObserver<InfiniteData<T, P>>,
        query: Arc<InfiniteQuery<T, P>>,
        next_page_tx: Sender<()>,
        prev_page_tx: Sender<()>,
    ) -> (o: InfiniteQueryObserver<T, P>)
        ensures
            o.spec_observer() == observer,
            o.spec_query() == *query,
    {
        InfiniteQueryObserver { observer, query, next_page_tx, prev_page_tx }
    }

    /// The current state of the query.
    pub fn state(&self) -> (s: &QueryState<InfiniteData<T, P>>)
        ensures
            *s == self.spec_observer().spec_state(),
    {
        self.observer.state()
    }

    /// Whether a next page can be fetched: there is data with a page, the
    /// query has a next-page function, and it gives a parameter for the last
    /// page.
    pub fn has_next_page(&self) -> (b: bool)
        ensures
            b ==> (self.spec_observer().spec_state().spec_data() matches Some(d)
                && next_param_exists(self.spec_query(), d.pages@)),
            !b ==> (self.spec_observer().spec_state().spec_data() matches Some(d) ==> next_param_of(
                self.spec_query(),
                d.pages@,
                None,
            )),
    {
        match self.observer.state().data() {
            Some(d) => {
                let b = self.query.has_next_page(d);
                proof {
                    if b {
                        let p = choose|p: P| next_param_of(*self.query, d.pages@, Some(p));
                        assert(next_param_of(self.spec_query(), d.pages@, Some(p)));
                    }
                }
                b
            },
            None => false,
        }
    }

    /// Whether a previous page can be fetched: there is data with a page, the
    /// query has a previous-page function, and it gives a parameter for the
    /// first page.
    pub fn has_previous_page(&self) -> (b: bool)
        ensures
            b ==> (self.spec_observer().spec_state().spec_data() matches Some(d)
                && previous_param_exists(self.spec_query(), d.pages@)),
            !b ==> (self.spec_observer().spec_state().spec_data() matches Some(d) ==> previous_param_of(
                self.spec_query(),
                d.pages@,
                None,
            )),
    {
        match self.observer.state().data() {
            Some(d) => {
                let b = self.query.has_previous_page(d);
                proof {
                    if b {
                        let p = choose|p: P| previous_param_of(*self.query, d.pages@, Some(p));
                        assert(previous_param_of(self.spec_query(), d.pages@, Some(p)));
                    }
                }
                b
            },
            None => false,
        }
    }

    /// Ask for the next page; the request is dropped when one is already
    /// waiting or the query run has ended.
    pub fn fetch_next_page(&self) {
        let _ = try_request(&self.next_page_tx);
    }

    /// Ask for the previous page; the request is dropped when one is already
    /// waiting or the query run has ended.
    pub fn fetch_previous_page(&self) {
        let _ = try_request(&self.prev_page_tx);
    }
}

/// What a page fetched in `direction` (with `param`) does to the cache `old`
/// at `now`, giving `new`: when the key holds data, the page is added at that
/// end keeping at most `max` pages, the entry is stamped `now` with its
/// options and stale mark kept, and a `Success` is noted; otherwise nothing
/// changes.
pub open spec fn page_added<T: Clone, P: Clone>(
    old: QueryClient<InfiniteData<T, P>>,
    new: QueryClient<InfiniteData<T, P>>,
    k: Seq<char>,
    direction: PageDirection,
    page: T,
    param: P,
    max: Option<usize>,
    now: Duration,
) -> bool {
    let o = old.cache()[k];
    let e = new.cache()[k];
    if old.cache().contains_key(k) {
        &&& new.cache().contains_key(k)
        &&& new.cache().remove(k) == old.cache().remove(k)
        &&& match direction {
            PageDirection::Next => appended(*o.data, *e.data, page, param, max),
            PageDirection::Previous => prepended(*o.data, *e.data, page, param, max),
        }
        &&& e.key@ == k && e.options == o.options && e.is_stale == o.is_stale
        &&& e.fetched_at == now && e.last_accessed == now
        &&& new.pending_updates() == old.pending_updates().push((k, QueryStateVariant::Success))
    } else {
        &&& new.cache() == old.cache()
        &&& new.pending_updates() == old.pending_updates()
    }
}

/// Appending to the infinite data `d` keeping at most `max` pages drops no
/// more parameters than there are.
pub open spec fn can_append<T, P>(d: InfiniteData<T, P>, max: Option<usize>) -> bool {
    overflow(d.pages@.len() + 1, max) <= d.page_params@.len() + 1
}

impl<T: Clone, P: Clone> QueryClient<InfiniteData<T, P>> {
    /// The parameter of the page to fetch for a request in `direction`:
    /// nothing while a fetch for the key is in flight, when the key holds no
    /// data, or when the query has no page function for that direction;
    /// otherwise what that function gives for the page at that end (the
    /// last page going forward, the first going back) and all pages.
    pub fn plan_page_fetch(&self, query: &InfiniteQuery<T, P>, key: &QueryKey, direction: PageDirection) -> (r: Option<P>)
        requires
            self.wf(),
        ensures
            ({
                let k = join_segments(key@);
                if self.in_flight_keys().contains(k) || !self.cache().contains_key(k) {
                    r is None
                } else {
                    match direction {
                        PageDirection::Next => next_param_of(*query, (*self.cache()[k].data).pages@, r),
                        PageDirection::Previous => previous_param_of(*query, (*self.cache()[k].data).pages@, r),
                    }
                }
            }),
            r is Some ==> {
                let k = join_segments(key@);
                &&& !self.in_flight_keys().contains(k)
                &&& self.cache().contains_key(k)
                &&& (*self.cache()[k].data).pages@.len() > 0
                &&& match direction {
                    PageDirection::Next => query.get_next_page_param is Some,
                    PageDirection::Previous => query.get_previous_page_param is Some,
                }
            },
    {
        if self.is_in_flight(key) {
            return None;
        }
        match self.get_infinite_data(key) {
            Some(d) => match direction {
                PageDirection::Next => query.next_page_param(d),
                PageDirection::Previous => query.previous_page_param(d),
            },
            None => None,
        }
    }

    /// What a page fetch in `direction` with `param` does at `now`: a fetched
    /// page is added at that end of the key's data (keeping at most
    /// `max_pages` pages); a failure notes an `Error` for the key.
    pub fn settle_page_fetch(
        &mut self,
        key: &QueryKey,
        direction: PageDirection,
        param: P,
        result: Result<T, QueryError>,
        max_pages: Option<usize>,
        now: Duration,
    )
        requires
            old(self).wf(),
            ({
                let k = join_segments(key@);
                direction == PageDirection::Next && old(self).cache().contains_key(k) ==> can_append(
                    *old(self).cache()[k].data,
                    max_pages,
                )
            }),
        ensures
            final(self).wf(),
            final(self).in_flight_keys() == old(self).in_flight_keys(),
            final(self).fetching() == old(self).fetching(),
            final(self).mutating() == old(self).mutating(),
            final(self).pending_activity() == old(self).pending_activity(),
            ({
                let k = join_segments(key@);
                match result {
                    Ok(page) => page_added(*old(self), *final(self), k, direction, page, param, max_pages, now),
                    Err(_) => {
                        &&& final(self).cache() == old(self).cache()
                        &&& final(self).pending_updates() == old(self).pending_updates().push((k, QueryStateVariant::Error))
                    },
                }
            }),
    {
        match result {
            Ok(page) => {
                match direction {
                    PageDirection::Next => {
                        let _ = self.append_infinite_page(key, page, param, max_pages, now);
                    },
                    PageDirection::Previous => {
                        let _ = self.prepend_infinite_page(key, page, param, max_pages, now);
                    },
                }
            },
            Err(_) => {
                let k = key.cache_key();
                self.notify_subscribers(k.as_str(), QueryStateVariant::Error);
            },
        }
    }
}

/// The data `d` a fetched `page` grows from what was cached: `base` is (a
/// copy of) the cached data, or no pages when nothing was cached; `p` is a
/// clone of the initial parameter; `d` is `base` with the page and `p`
/// appended, keeping at most `max` pages.
pub open spec fn grown_from<T: Clone, P: Clone>(
    cached: Option<InfiniteData<T, P>>,
    initial: P,
    page: T,
    max: Option<usize>,
    base: InfiniteData<T, P>,
    p: P,
    d: InfiniteData<T, P>,
) -> bool {
    let k = overflow(base.pages@.len() + 1, max);
    &&& match cached {
        Some(c) => same_or_cloned(c.pages@, base.pages@) && same_or_cloned(c.page_params@, base.page_params@),
        None => base.pages@.len() == 0 && base.page_params@.len() == 0,
    }
    &&& cloned(initial, p)
    &&& d.pages@ == drop_front(base.pages@.push(page), k)
    &&& d.page_params@ == drop_front(base.page_params@.push(p), k)
}

impl<T: Clone + PartialEq, P: Clone + PartialEq> QueryClient<InfiniteData<T, P>> {
    /// Store infinite data for a key (see `set_query_data`).
    pub fn set_infinite_data(&mut self, key: &QueryKey, data: InfiniteData<T, P>, options: QueryOptions, now: Duration)
        requires
            old(self).wf(),
        ensures
            final(self).wf(),
            stored_by_set(old(self).cache(), final(self).cache(), join_segments(key@), data, options, now),
            final(self).pending_updates() == old(self).pending_updates().push(
                (join_segments(key@), QueryStateVariant::Success),
            ),
            final(self).in_flight_keys() == old(self).in_flight_keys(),
            final(self).fetching() == old(self).fetching(),
            final(self).mutating() == old(self).mutating(),
            final(self).pending_activity() == old(self).pending_activity(),
    {
        self.set_query_data(key, data, options, now);
    }

    /// What the first fetch of a paging run does at `now`: a fetched page
    /// (with `param`) becomes the key's data, a single page stored with
    /// `options`; a failure notes an `Error` for the key.
    pub fn settle_initial_page(
        &mut self,
        key: &QueryKey,
        param: P,
        options: QueryOptions,
        result: Result<T, QueryError>,
        now: Duration,
    )
        requires
            old(self).wf(),
        ensures
            final(self).wf(),
            final(self).in_flight_keys() == old(self).in_flight_keys(),
            final(self).fetching() == old(self).fetching(),
            final(self).mutating() == old(self).mutating(),
            final(self).pending_activity() == old(self).pending_activity(),
            ({
                let k = join_segments(key@);
                match result {
                    Ok(page) => exists|d: InfiniteData<T, P>| {
                        &&& d.pages@ == seq![page]
                        &&& d.page_params@ == seq![param]
                        &&& #[trigger] stored_by_set(old(self).cache(), final(self).cache(), k, d, options, now)
                        &&& final(self).pending_updates() == old(self).pending_updates().push((k, QueryStateVariant::Success))
                    },
                    Err(_) => {
                        &&& final(self).cache() == old(self).cache()
                        &&& final(self).pending_updates() == old(self).pending_updates().push((k, QueryStateVariant::Error))
                    },
                }
            }),
    {
        match result {
            Ok(page) => {
                let d = InfiniteData::with_first_page(page, param);
                let ghost dv = d;
                self.set_query_data(key, d, options, now);
                assert(stored_by_set(old(self).cache(), self.cache(), join_segments(key@), dv, options, now));
            },
            Err(_) => {
                let k = key.cache_key();
                self.notify_subscribers(k.as_str(), QueryStateVariant::Error);
            },
        }
    }

    /// What a fetch of an infinite query's first page does at `now`: the
    /// fetched page (with the query's initial parameter) is appended to what
    /// the key holds (or to no pages), at most `max_pages` pages are kept, the
    /// result is stored with the query's options and reported as `Success`;
    /// a failure reports the error with the data cached before.
    pub fn settle_infinite_fetch(&mut self, query: &InfiniteQuery<T, P>, result: Result<T, QueryError>, now: Duration) -> (s: QueryState<InfiniteData<T, P>>)
        requires
            old(self).wf(),
            ({
                let k = join_segments(query.key@);
                old(self).cache().contains_key(k) ==> can_append(*old(self).cache()[k].data, query.max_pages)
            }),
        ensures
            final(self).wf(),
            final(self).in_flight_keys() == old(self).in_flight_keys(),
            final(self).fetching() == old(self).fetching(),
            final(self).mutating() == old(self).mutating(),
            final(self).pending_activity() == old(self).pending_activity(),
            ({
                let k = join_segments(query.key@);
                match result {
                    Ok(page) => exists|base: InfiniteData<T, P>, p: P, d: InfiniteData<T, P>, stored: InfiniteData<T, P>| {
                        &&& #[trigger] grown_from(old(self).cached_data(k), query.initial_page_param, page, query.max_pages, base, p, d)
                        &&& s == QueryState::Success(d)
                        &&& same_or_cloned(d.pages@, stored.pages@)
                        &&& same_or_cloned(d.page_params@, stored.page_params@)
                        &&& #[trigger] stored_by_set(old(self).cache(), final(self).cache(), k, stored, query.options, now)
                        &&& final(self).pending_updates() == old(self).pending_updates().push((k, QueryStateVariant::Success))
                    },
                    Err(e) => {
                        &&& final(self).cache() == old(self).cache()
                        &&& final(self).pending_updates() == old(self).pending_updates()
                        &&& failed_with(s, e, old(self).cached_data(k))
                    },
                }
            }),
    {
        match result {
            Ok(page) => {
                let mut data = match self.get_infinite_data(&query.key) {
                    Some(d) => d.clone(),
                    None => InfiniteData::new(),
                };
                let ghost base = data;
                let p = query.initial_page_param.clone();
                let ghost pv = p;
                data.append_bounded(page, p, query.max_pages);
                let stored = data.clone();
                let ghost sv = stored;
                self.set_query_data(&query.key, stored, query.options, now);
                let ghost k = join_segments(query.key@);
                assert(grown_from(old(self).cached_data(k), query.initial_page_param, page, query.max_pages, base, pv, data));
                assert(stored_by_set(old(self).cache(), self.cache(), k, sv, query.options, now));
                QueryState::Success(data)
            },
            Err(e) => {
                let stale_data = match self.get_query_data(&query.key) {
                    Some(d) => Some(d.clone()),
                    None => None,
                };
                QueryState::Error { error: e, stale_data }
            },
        }
    }
}

} // verus!
