use vstd::prelude::*;
use std::future::Future;
use crate::callbacks::{PageFetchFn, PageParamFn};
use crate::error::QueryError;
use crate::key::QueryKey;
use crate::options::QueryOptions;

verus! {

/// How many pages leave the front when `len` pages are kept to at most `max`.
pub open spec fn overflow(len: nat, max: Option<usize>) -> nat {
    match max {
        Some(m) => if len > m { (len - m) as nat } else { 0 },
        None => 0,
    }
}

/// `s` without its first `k` elements (empty when it has fewer).
pub open spec fn drop_front<A>(s: Seq<A>, k: nat) -> Seq<A> {
    if k <= s.len() { s.subrange(k as int, s.len() as int) } else { Seq::empty() }
}

/// `s` without its last `k` elements (empty when it has fewer).
pub open spec fn drop_back<A>(s: Seq<A>, k: nat) -> Seq<A> {
    if k <= s.len() { s.subrange(0, s.len() - k) } else { Seq::empty() }
}

/// Each element of `got` is the element of `expected` at its place, or a
/// clone of it.
pub open spec fn same_or_cloned<A: Clone>(expected: Seq<A>, got: Seq<A>) -> bool {
    &&& got.len() == expected.len()
    &&& forall|j: int| 0 <= j < got.len() ==> #[trigger] got[j] == expected[j] || cloned(expected[j], got[j])
}

/// Data structure for infinite query results.
#[derive(Debug, PartialEq)]
pub struct InfiniteData<T, P> {
    /// All fetched pages.
    pub pages: Vec<T>,
    /// Page parameters for each page.
    pub page_params: Vec<P>,
}

impl<T, P> InfiniteData<T, P> {
    /// Create new empty infinite data.
    pub fn new() -> (d: InfiniteData<T, P>)
        ensures
            d.pages@ == Seq::<T>::empty(),
            d.page_params@ == Seq::<P>::empty(),
    {
        InfiniteData { pages: Vec::new(), page_params: Vec::new() }
    }

    /// Create infinite data with the first page.
    pub fn with_first_page(page: T, param: P) -> (d: InfiniteData<T, P>)
        ensures
            d.pages@ == seq![page],
            d.page_params@ == seq![param],
    {
        let mut pages = Vec::new();
        pages.push(page);
        let mut page_params = Vec::new();
        page_params.push(param);
        InfiniteData { pages, page_params }
    }

    /// Add a page to the data.
    pub fn push_page(&mut self, page: T, param: P)
        ensures
            final(self).pages@ == old(self).pages@.push(page),
            final(self).page_params@ == old(self).page_params@.push(param),
    {
        self.pages.push(page);
        self.page_params.push(param);
    }

    /// Get the number of pages.
    pub fn page_count(&self) -> (n: usize)
        ensures
            n == self.pages@.len(),
    {
        self.pages.len()
    }

    /// Get the last page if available.
    pub fn last_page(&self) -> (r: Option<&T>)
        ensures
            match r {
                Some(p) => self.pages@.len() > 0 && *p == self.pages@.last(),
                None => self.pages@.len() == 0,
            },
    {
        if self.pages.len() == 0 {
            None
        } else {
            Some(&self.pages[self.pages.len() - 1])
        }
    }

    /// Get the first page if available.
    pub fn first_page(&self) -> (r: Option<&T>)
        ensures
            match r {
                Some(p) => self.pages@.len() > 0 && *p == self.pages@[0],
                None => self.pages@.len() == 0,
            },
    {
        if self.pages.len() == 0 {
            None
        } else {
            Some(&self.pages[0])
        }
    }

    /// Adds a page at the end, then drops pages (and their parameters) from
    /// the front until at most `max_pages` remain.
    pub fn append_bounded(&mut self, page: T, param: P, max_pages: Option<usize>)
        requires
            overflow(old(self).pages@.len() + 1, max_pages) <= old(self).page_params@.len() + 1,
        ensures
            ({
                let k = overflow(old(self).pages@.len() + 1, max_pages);
                &&& final(self).pages@ == drop_front(old(self).pages@.push(page), k)
                &&& final(self).page_params@ == drop_front(old(self).page_params@.push(param), k)
            }),
    {
        let ghost full_pages = old(self).pages@.push(page);
        let ghost full_params = old(self).page_params@.push(param);
        let ghost k = overflow(full_pages.len(), max_pages);
        self.pages.push(page);
        self.page_params.push(param);
        if let Some(max) = max_pages {
            let ghost mut removed: nat = 0;
            while self.pages.len() > max
                invariant
                    max_pages == Some(max),
                    k == overflow(full_pages.len(), max_pages),
                    k <= full_params.len(),
                    removed <= k,
                    self.pages@ == drop_front(full_pages, removed),
                    self.page_params@ == drop_front(full_params, removed),
                    self.pages@.len() > max ==> removed < k,
                decreases self.pages@.len(),
            {
                self.pages.remove(0);
                self.page_params.remove(0);
                proof {
                    assert(self.pages@ =~= drop_front(full_pages, removed + 1));
                    assert(self.page_params@ =~= drop_front(full_params, removed + 1));
                    removed = removed + 1;
                }
            }
            assert(removed == k);
        } else {
            assert(self.pages@ =~= drop_front(full_pages, 0));
            assert(self.page_params@ =~= drop_front(full_params, 0));
        }
    }

    /// Adds a page at the front, then drops pages (and their parameters) from
    /// the end until at most `max_pages` remain.
    pub fn prepend_bounded(&mut self, page: T, param: P, max_pages: Option<usize>)
        ensures
            ({
                let k = overflow(old(self).pages@.len() + 1, max_pages);
                &&& final(self).pages@ == drop_back(seq![page] + old(self).pages@, k)
                &&& final(self).page_params@ == drop_back(seq![param] + old(self).page_params@, k)
            }),
    {
        let ghost full_pages = seq![page] + old(self).pages@;
        let ghost full_params = seq![param] + old(self).page_params@;
        let ghost k = overflow(full_pages.len(), max_pages);
        self.pages.insert(0, page);
        self.page_params.insert(0, param);
        assert(self.pages@ =~= full_pages);
        assert(self.page_params@ =~= full_params);
        if let Some(max) = max_pages {
            let ghost mut removed: nat = 0;
            while self.pages.len() > max
                invariant
                    max_pages == Some(max),
                    k == overflow(full_pages.len(), max_pages),
                    removed <= k,
                    self.pages@ == drop_back(full_pages, removed),
                    self.page_params@ == drop_back(full_params, removed),
                    self.pages@.len() > max ==> removed < k,
                decreases self.pages@.len(),
            {
                self.pages.pop();
                self.page_params.pop();
                proof {
                    assert(self.pages@ =~= drop_back(full_pages, removed + 1));
                    assert(self.page_params@ =~= drop_back(full_params, removed + 1));
                    removed = removed + 1;
                }
            }
            assert(removed == k);
        } else {
            assert(self.pages@ =~= drop_back(full_pages, 0));
            assert(self.page_params@ =~= drop_back(full_params, 0));
        }
    }
}

impl<T: Clone, P: Clone> Clone for InfiniteData<T, P> {
    fn clone(&self) -> (d: InfiniteData<T, P>)
        ensures
            same_or_cloned(self.pages@, d.pages@),
            same_or_cloned(self.page_params@, d.page_params@),
    {
        InfiniteData { pages: self.pages.clone(), page_params: self.page_params.clone() }
    }
}

impl<T, P> Default for InfiniteData<T, P> {
    fn default() -> (d: InfiniteData<T, P>)
        ensures
            d.pages@ == Seq::<T>::empty(),
            d.page_params@ == Seq::<P>::empty(),
    {
        InfiniteData::new()
    }
}

/// After appending with a limit of at least one page, the new page is the
/// last page and no more than the limit remain.
pub proof fn law_append_keeps_newest<T>(pages: Seq<T>, page: T, max: usize)
    requires
        max >= 1,
    ensures
        drop_front(pages.push(page), overflow(pages.len() + 1, Some(max))).len() <= max,
        drop_front(pages.push(page), overflow(pages.len() + 1, Some(max))).last() == page,
{
}

/// After prepending with a limit of at least one page, the new page is the
/// first page and no more than the limit remain.
pub proof fn law_prepend_keeps_newest<T>(pages: Seq<T>, page: T, max: usize)
    requires
        max >= 1,
    ensures
        drop_back(seq![page] + pages, overflow(pages.len() + 1, Some(max))).len() <= max,
        drop_back(seq![page] + pages, overflow(pages.len() + 1, Some(max)))[0] == page,
{
}

/// Without a limit, appending keeps every page and adds the new one at the end.
pub proof fn law_append_unbounded<T>(pages: Seq<T>, page: T)
    ensures
        drop_front(pages.push(page), overflow(pages.len() + 1, None)) == pages.push(page),
{
    assert(pages.push(page).subrange(0, pages.len() + 1 as int) =~= pages.push(page));
}

/// Definition of an infinite (paginated) query.
#[verifier::reject_recursive_types(T)]
#[verifier::reject_recursive_types(P)]
pub struct InfiniteQuery<T, P> {
    /// Query key.
    pub key: QueryKey,
    /// Function to fetch a page.
    pub fetch_fn: PageFetchFn<T, P>,
    /// Initial page parameter.
    pub initial_page_param: P,
    /// Function to get the next page parameter.
    pub get_next_page_param: Option<PageParamFn<T, P>>,
    /// Function to get the previous page parameter.
    pub get_previous_page_param: Option<PageParamFn<T, P>>,
    /// Maximum number of pages to keep.
    pub max_pages: Option<usize>,
    /// Query options.
    pub options: QueryOptions,
}

fn clone_param_fn<T, P>(f: &Option<PageParamFn<T, P>>) -> (r: Option<PageParamFn<T, P>>)
    ensures
        r is Some == f is Some,
{
    match f {
        Some(g) => Some(g.clone()),
        None => None,
    }
}

impl<T: Clone, P: Clone> Clone for InfiniteQuery<T, P> {
    fn clone(&self) -> (q: InfiniteQuery<T, P>)
        ensures
            q.key@ == self.key@,
            cloned(self.initial_page_param, q.initial_page_param),
            q.get_next_page_param is Some == self.get_next_page_param is Some,
            q.get_previous_page_param is Some == self.get_previous_page_param is Some,
            q.max_pages == self.max_pages,
            q.options == self.options,
    {
        InfiniteQuery {
            key: self.key.clone(),
            fetch_fn: self.fetch_fn.clone(),
            initial_page_param: self.initial_page_param.clone(),
            get_next_page_param: clone_param_fn(&self.get_next_page_param),
            get_previous_page_param: clone_param_fn(&self.get_previous_page_param),
            max_pages: self.max_pages,
            options: self.options,
        }
    }
}

/// `r` is a next page parameter of `q` for the pages `pages`: what the
/// next-page function gives for the last page and all pages, or `None` when
/// there is no such function or no page.
pub open spec fn next_param_of<T, P>(q: InfiniteQuery<T, P>, pages: Seq<T>, r: Option<P>) -> bool {
    match q.get_next_page_param {
        Some(f) => if pages.len() > 0 {
            f.gives(pages.last(), pages, r)
        } else {
            r is None
        },
        None => r is None,
    }
}

/// `r` is a previous page parameter of `q` for the pages `pages`: what the
/// previous-page function gives for the first page and all pages, or `None`
/// when there is no such function or no page.
pub open spec fn previous_param_of<T, P>(q: InfiniteQuery<T, P>, pages: Seq<T>, r: Option<P>) -> bool {
    match q.get_previous_page_param {
        Some(f) => if pages.len() > 0 {
            f.gives(pages[0], pages, r)
        } else {
            r is None
        },
        None => r is None,
    }
}

/// The next-page function can give a parameter for the last page of `pages`.
pub open spec fn next_param_exists<T, P>(q: InfiniteQuery<T, P>, pages: Seq<T>) -> bool {
    exists|p: P| #[trigger] next_param_of(q, pages, Some(p))
}

/// The previous-page function can give a parameter for the first page of
/// `pages`.
pub open spec fn previous_param_exists<T, P>(q: InfiniteQuery<T, P>, pages: Seq<T>) -> bool {
    exists|p: P| #[trigger] previous_param_of(q, pages, Some(p))
}

/// After a page is appended (keeping at most `max` pages, at least one), the
/// next page parameter is what the next-page function gives for that page:
/// going forward always continues from the page fetched last.
pub proof fn law_next_param_after_append<T, P>(q: InfiniteQuery<T, P>, pages: Seq<T>, page: T, max: Option<usize>, r: Option<P>)
    requires
        max matches Some(m) ==> m >= 1,
        q.get_next_page_param is Some,
        next_param_of(q, drop_front(pages.push(page), overflow(pages.len() + 1, max)), r),
    ensures
        q.get_next_page_param->0.gives(page, drop_front(pages.push(page), overflow(pages.len() + 1, max)), r),
{
    match max {
        Some(m) => law_append_keeps_newest(pages, page, m),
        None => law_append_unbounded(pages, page),
    }
}

/// After a page is prepended (keeping at most `max` pages, at least one), the
/// previous page parameter is what the previous-page function gives for that
/// page: going back always continues from the page fetched last.
pub proof fn law_previous_param_after_prepend<T, P>(q: InfiniteQuery<T, P>, pages: Seq<T>, page: T, max: Option<usize>, r: Option<P>)
    requires
        max matches Some(m) ==> m >= 1,
        q.get_previous_page_param is Some,
        previous_param_of(q, drop_back(seq![page] + pages, overflow(pages.len() + 1, max)), r),
    ensures
        q.get_previous_page_param->0.gives(page, drop_back(seq![page] + pages, overflow(pages.len() + 1, max)), r),
{
    match max {
        Some(m) => law_prepend_keeps_newest(pages, page, m),
        None => {
            assert(overflow(pages.len() + 1, max) == 0);
            assert(drop_back(seq![page] + pages, 0) =~= seq![page] + pages);
        },
    }
}

impl<T, P> InfiniteQuery<T, P> {
    /// Create a new infinite query with default options and no page-parameter functions.
    pub fn new<F, Fut>(key: QueryKey, fetch_fn: F, initial_page_param: P) -> (q: InfiniteQuery<T, P>) where
        F: Fn(P) -> Fut + Send + Sync + 'static,
        Fut: Future<Output = Result<T, QueryError>> + Send + 'static,
        ensures
            q.key@ == key@,
            q.initial_page_param == initial_page_param,
            q.get_next_page_param is None,
            q.get_previous_page_param is None,
            q.max_pages is None,
            q.options.is_default(),
    {
        InfiniteQuery {
            key,
            fetch_fn: PageFetchFn::new(fetch_fn),
            initial_page_param,
            get_next_page_param: None,
            get_previous_page_param: None,
            max_pages: None,
            options: QueryOptions::default(),
        }
    }

    /// Set the function to get the next page parameter.
    pub fn get_next_page_param<F>(self, f: F) -> (q: InfiniteQuery<T, P>) where
        F: Fn(&T, &[T]) -> Option<P> + Send + Sync + 'static,
        ensures
            q.key@ == self.key@,
            q.fetch_fn == self.fetch_fn,
            q.initial_page_param == self.initial_page_param,
            q.get_next_page_param is Some,
            q.get_previous_page_param == self.get_previous_page_param,
            q.max_pages == self.max_pages,
            q.options == self.options,
    {
        InfiniteQuery { get_next_page_param: Some(PageParamFn::new(f)), ..self }
    }

    /// Set the function to get the previous page parameter.
    pub fn get_previous_page_param<F>(self, f: F) -> (q: InfiniteQuery<T, P>) where
        F: Fn(&T, &[T]) -> Option<P> + Send + Sync + 'static,
        ensures
            q.key@ == self.key@,
            q.fetch_fn == self.fetch_fn,
            q.initial_page_param == self.initial_page_param,
            q.get_next_page_param == self.get_next_page_param,
            q.get_previous_page_param is Some,
            q.max_pages == self.max_pages,
            q.options == self.options,
    {
        InfiniteQuery { get_previous_page_param: Some(PageParamFn::new(f)), ..self }
    }

    /// Set maximum number of pages to keep.
    pub fn max_pages(self, max: usize) -> (q: InfiniteQuery<T, P>)
        ensures
            q.key@ == self.key@,
            q.fetch_fn == self.fetch_fn,
            q.initial_page_param == self.initial_page_param,
            q.get_next_page_param == self.get_next_page_param,
            q.get_previous_page_param == self.get_previous_page_param,
            q.max_pages == Some(max),
            q.options == self.options,
    {
        InfiniteQuery { max_pages: Some(max), ..self }
    }

    /// Set query options.
    pub fn options(self, options: QueryOptions) -> (q: InfiniteQuery<T, P>)
        ensures
            q.key@ == self.key@,
            q.fetch_fn == self.fetch_fn,
            q.initial_page_param == self.initial_page_param,
            q.get_next_page_param == self.get_next_page_param,
            q.get_previous_page_param == self.get_previous_page_param,
            q.max_pages == self.max_pages,
            q.options == options,
    {
        InfiniteQuery { options, ..self }
    }

    /// The parameter of the page after the last one: what the next-page
    /// function returns for the last page and all pages, or `None` when there
    /// is no such function or no page yet.
    pub fn next_page_param(&self, data: &InfiniteData<T, P>) -> (r: Option<P>)
        ensures
            next_param_of(*self, data.pages@, r),
    {
        match &self.get_next_page_param {
            Some(f) => match data.last_page() {
                Some(last) => f.call(last, data.pages.as_slice()),
                None => None,
            },
            None => None,
        }
    }

    /// The parameter of the page before the first one: what the previous-page
    /// function returns for the first page and all pages, or `None` when
    /// there is no such function or no page yet.
    pub fn previous_page_param(&self, data: &InfiniteData<T, P>) -> (r: Option<P>)
        ensures
            previous_param_of(*self, data.pages@, r),
    {
        match &self.get_previous_page_param {
            Some(f) => match data.first_page() {
                Some(first) => f.call(first, data.pages.as_slice()),
                None => None,
            },
            None => None,
        }
    }

    /// Whether a next page can be fetched: the next-page function gives a
    /// parameter for the last page.
    pub fn has_next_page(&self, data: &InfiniteData<T, P>) -> (b: bool)
        ensures
            b ==> next_param_exists(*self, data.pages@),
            !b ==> next_param_of(*self, data.pages@, None),
    {
        let r = self.next_page_param(data);
        proof {
            if r is Some {
                assert(next_param_of(*self, data.pages@, Some(r->0)));
            }
        }
        r.is_some()
    }

    /// Whether a previous page can be fetched: the previous-page function
    /// gives a parameter for the first page.
    pub fn has_previous_page(&self, data: &InfiniteData<T, P>) -> (b: bool)
        ensures
            b ==> previous_param_exists(*self, data.pages@),
            !b ==> previous_param_of(*self, data.pages@, None),
    {
        let r = self.previous_page_param(data);
        proof {
            if r is Some {
                assert(previous_param_of(*self, data.pages@, Some(r->0)));
            }
        }
        r.is_some()
    }
}

} // verus!
