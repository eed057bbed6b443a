//! The model behind the developer tools: the cache listing, the event
//! timeline and its filtering. Drawing it is left to the user interface.
use vstd::prelude::*;
use crate::client::{age, entry_keys_distinct, CacheEntry, QueryClient};
use crate::duration::Duration;
use crate::state::QueryStateVariant;

verus! {

/// The lower-case form of a text, as `str::to_lowercase` gives it.
pub uninterp spec fn lowercase_of(s: Seq<char>) -> Seq<char>;

/// Calls `str::to_lowercase`, whose result depends on the text alone.
#[verifier::external_body]
fn lowercase(s: &str) -> (r: String)
    ensures
        r@ == lowercase_of(s@),
{
    s.to_lowercase()
}

/// `needle` occurs in `hay` as a run of consecutive characters.
pub open spec fn text_contains(hay: Seq<char>, needle: Seq<char>) -> bool {
    exists|i: int| 0 <= i && i + needle.len() <= hay.len() && #[trigger] hay.subrange(i, i + needle.len()) == needle
}

/// Whether `needle` occurs in `hay`.
pub fn contains_text(hay: &str, needle: &str) -> (b: bool)
    ensures
        b == text_contains(hay@, needle@),
{
    let n = needle.unicode_len();
    let m = hay.unicode_len();
    if n > m {
        assert forall|i: int| 0 <= i && i + needle@.len() <= hay@.len() implies #[trigger] hay@.subrange(i, i + needle@.len())
            != needle@ by {
        }
        return false;
    }
    let mut start: usize = 0;
    while start <= m - n
        invariant
            n == needle@.len(),
            m == hay@.len(),
            n <= m,
            start <= m - n + 1,
            forall|i: int| 0 <= i < start ==> #[trigger] hay@.subrange(i, i + n) != needle@,
        decreases m - n + 1 - start,
    {
        let mut j: usize = 0;
        let mut same = true;
        while j < n
            invariant
                n == needle@.len(),
                m == hay@.len(),
                start + n <= m,
                j <= n,
                same == forall|t: int| 0 <= t < j ==> hay@[start + t] == needle@[t],
            decreases n - j,
        {
            if hay.get_char(start + j) != needle.get_char(j) {
                same = false;
            }
            j = j + 1;
        }
        if same {
            assert(hay@.subrange(start as int, start + n) =~= needle@);
            return true;
        }
        assert(hay@.subrange(start as int, start + n)[0] == hay@[start as int]);
        assert forall|i: int| 0 <= i < start + 1 implies #[trigger] hay@.subrange(i, i + n) != needle@ by {
            if i == start {
                let t = choose|t: int| 0 <= t < n && hay@[start + t] != needle@[t];
                assert(hay@.subrange(i, i + n)[t] == hay@[start + t]);
            }
        }
        start = start + 1;
    }
    false
}

/// `a` comes before `b` in the order of `str`: character by character, a
/// proper prefix first.
pub open spec fn text_lt(a: Seq<char>, b: Seq<char>) -> bool
    decreases a.len(),
{
    if a.len() == 0 {
        b.len() > 0
    } else if b.len() == 0 {
        false
    } else if a[0] != b[0] {
        a[0] < b[0]
    } else {
        text_lt(a.drop_first(), b.drop_first())
    }
}

proof fn lemma_text_lt_irreflexive(a: Seq<char>)
    ensures
        !text_lt(a, a),
    decreases a.len(),
{
    if a.len() > 0 {
        lemma_text_lt_irreflexive(a.drop_first());
    }
}

proof fn lemma_text_lt_transitive(a: Seq<char>, b: Seq<char>, c: Seq<char>)
    requires
        text_lt(a, b),
        text_lt(b, c),
    ensures
        text_lt(a, c),
    decreases a.len(),
{
    if a.len() > 0 && b.len() > 0 && c.len() > 0 && a[0] == b[0] && b[0] == c[0] {
        lemma_text_lt_transitive(a.drop_first(), b.drop_first(), c.drop_first());
    }
}

proof fn lemma_text_lt_total(a: Seq<char>, b: Seq<char>)
    requires
        a != b,
    ensures
        text_lt(a, b) || text_lt(b, a),
    decreases a.len(),
{
    if a.len() > 0 && b.len() > 0 && a[0] == b[0] {
        if a.drop_first() == b.drop_first() {
            assert(a =~= seq![a[0]] + a.drop_first());
            assert(b =~= seq![b[0]] + b.drop_first());
        }
        lemma_text_lt_total(a.drop_first(), b.drop_first());
    } else if a.len() > 0 && b.len() > 0 {
    } else if a.len() == 0 && b.len() == 0 {
        assert(a =~= b);
    }
}

/// Whether `a` comes before `b` in the order of `str`.
pub fn text_less(a: &str, b: &str) -> (r: bool)
    ensures
        r == text_lt(a@, b@),
{
    let n = a.unicode_len();
    let m = b.unicode_len();
    let mut i: usize = 0;
    assert(a@.subrange(0, n as int) =~= a@);
    assert(b@.subrange(0, m as int) =~= b@);
    while i < n && i < m
        invariant
            n == a@.len(),
            m == b@.len(),
            i <= n,
            i <= m,
            forall|t: int| 0 <= t < i ==> a@[t] == b@[t],
            text_lt(a@, b@) == text_lt(a@.subrange(i as int, n as int), b@.subrange(i as int, m as int)),
        decreases n - i,
    {
        let x = a.get_char(i);
        let y = b.get_char(i);
        if x != y {
            proof {
                let sa = a@.subrange(i as int, n as int);
                let sb = b@.subrange(i as int, m as int);
                assert(sa[0] == x && sb[0] == y);
            }
            return x < y;
        }
        proof {
            let sa = a@.subrange(i as int, n as int);
            let sb = b@.subrange(i as int, m as int);
            assert(sa.drop_first() =~= a@.subrange(i + 1, n as int));
            assert(sb.drop_first() =~= b@.subrange(i + 1, m as int));
        }
        i = i + 1;
    }
    i < m
}

/// Event types for timeline filtering.
#[derive(Clone, Copy, Debug, PartialEq, Eq, Hash, Structural)]
pub enum QueryEventType {
    All,
    Loading,
    Success,
    Error,
    Stale,
    Refetching,
}

/// The event type a state change counts as (`Idle` counts under all).
pub open spec fn event_type_of(v: QueryStateVariant) -> QueryEventType {
    match v {
        QueryStateVariant::Idle => QueryEventType::All,
        QueryStateVariant::Loading => QueryEventType::Loading,
        QueryStateVariant::Refetching => QueryEventType::Refetching,
        QueryStateVariant::Success => QueryEventType::Success,
        QueryStateVariant::Stale => QueryEventType::Stale,
        QueryStateVariant::Error => QueryEventType::Error,
    }
}

impl QueryEventType {
    /// The event type of a state change.
    pub fn from_variant(variant: &QueryStateVariant) -> (t: QueryEventType)
        ensures
            t == event_type_of(*variant),
    {
        match variant {
            QueryStateVariant::Idle => QueryEventType::All,
            QueryStateVariant::Loading => QueryEventType::Loading,
            QueryStateVariant::Refetching => QueryEventType::Refetching,
            QueryStateVariant::Success => QueryEventType::Success,
            QueryStateVariant::Stale => QueryEventType::Stale,
            QueryStateVariant::Error => QueryEventType::Error,
        }
    }

    /// The label shown for the event type.
    pub fn label(&self) -> (s: &'static str)
        ensures
            s@ == match *self {
                QueryEventType::All => "All Events"@,
                QueryEventType::Loading => "Loading"@,
                QueryEventType::Success => "Success"@,
                QueryEventType::Error => "Error"@,
                QueryEventType::Stale => "Stale"@,
                QueryEventType::Refetching => "Refetching"@,
            },
    {
        match self {
            QueryEventType::All => "All Events",
            QueryEventType::Loading => "Loading",
            QueryEventType::Success => "Success",
            QueryEventType::Error => "Error",
            QueryEventType::Stale => "Stale",
            QueryEventType::Refetching => "Refetching",
        }
    }
}

/// The tabs of the developer tools.
#[derive(Clone, Copy, Debug, PartialEq, Eq, Structural)]
pub enum DevtoolsTab {
    Queries,
    Timeline,
    Cache,
}

/// A single timeline event, stamped with a time of type `S`.
pub struct TimelineEvent<S> {
    /// When the change was seen.
    pub timestamp: S,
    /// The cache key that changed.
    pub cache_key: String,
    /// What it changed to.
    pub variant: QueryStateVariant,
}

impl<S: Clone> Clone for TimelineEvent<S> {
    fn clone(&self) -> (e: TimelineEvent<S>)
        ensures
            cloned(self.timestamp, e.timestamp),
            e.cache_key@ == self.cache_key@,
            e.variant == self.variant,
    {
        TimelineEvent { timestamp: self.timestamp.clone(), cache_key: self.cache_key.clone(), variant: self.variant }
    }
}

/// A timeline event as the specifications see it: key and change.
pub open spec fn event_view<S>(e: TimelineEvent<S>) -> (Seq<char>, QueryStateVariant) {
    (e.cache_key@, e.variant)
}

/// A cache entry in a snapshot: key, shown state and when it was fetched.
pub type SnapshotRow = (String, QueryStateVariant, Duration);

pub open spec fn row_view(r: SnapshotRow) -> (Seq<char>, QueryStateVariant, Duration) {
    (r.0@, r.1, r.2)
}

/// The state a cache entry is listed with: `Stale` when marked stale, else
/// `Success`.
pub open spec fn listed_variant<V>(e: CacheEntry<V>) -> QueryStateVariant {
    if e.is_stale {
        QueryStateVariant::Stale
    } else {
        QueryStateVariant::Success
    }
}

/// The row of the first entry of `rows` with key `k`, if any.
pub open spec fn first_with_key(
    rows: Seq<(Seq<char>, QueryStateVariant, Duration)>,
    k: Seq<char>,
) -> Option<(Seq<char>, QueryStateVariant, Duration)>
    decreases rows.len(),
{
    if rows.len() == 0 {
        None
    } else if rows[0].0 == k {
        Some(rows[0])
    } else {
        first_with_key(rows.drop_first(), k)
    }
}

/// Whether a row of a new snapshot is news against the last one: its key
/// was not there, or its state or fetch time differ from the first row with
/// that key.
pub open spec fn is_news(last: Seq<(Seq<char>, QueryStateVariant, Duration)>, row: (Seq<char>, QueryStateVariant, Duration)) -> bool {
    match first_with_key(last, row.0) {
        Some(o) => o.1 != row.1 || o.2 != row.2,
        None => true,
    }
}

/// The events a new snapshot adds to the timeline, in order.
pub open spec fn news(
    last: Seq<(Seq<char>, QueryStateVariant, Duration)>,
    snap: Seq<(Seq<char>, QueryStateVariant, Duration)>,
) -> Seq<(Seq<char>, QueryStateVariant)>
    decreases snap.len(),
{
    if snap.len() == 0 {
        Seq::empty()
    } else {
        let rest = news(last, snap.drop_last());
        let r = snap.last();
        if is_news(last, r) {
            rest.push((r.0, r.1))
        } else {
            rest
        }
    }
}

/// Whether an event passes the type filter and the lower-cased search text.
pub open spec fn event_shown(e: (Seq<char>, QueryStateVariant), filter: QueryEventType, query: Seq<char>) -> bool {
    &&& (filter == QueryEventType::All || event_type_of(e.1) == filter)
    &&& (query.len() == 0 || text_contains(lowercase_of(e.0), query))
}

/// The events that pass the filter and search, in order.
pub open spec fn shown_events<S>(
    events: Seq<TimelineEvent<S>>,
    filter: QueryEventType,
    query: Seq<char>,
) -> Seq<TimelineEvent<S>>
    decreases events.len(),
{
    if events.len() == 0 {
        Seq::empty()
    } else {
        let rest = shown_events(events.drop_last(), filter, query);
        if event_shown(event_view(events.last()), filter, query) {
            rest.push(events.last())
        } else {
            rest
        }
    }
}

/// Whether `got` lists copies of the events of `expected`, in the same
/// order: the same keys and changes, each timestamp a clone of the original.
pub open spec fn copies_of<S: Clone>(expected: Seq<TimelineEvent<S>>, got: Seq<TimelineEvent<S>>) -> bool {
    &&& got.len() == expected.len()
    &&& forall|j: int| 0 <= j < got.len() ==> {
        &&& event_view(#[trigger] got[j]) == event_view(expected[j])
        &&& cloned(expected[j].timestamp, got[j].timestamp)
    }
}

/// The developer tools' own state: whether the panel is open, the selected
/// tab, the event timeline (its events stamped with times of type `S`) with
/// its filter, the last cache snapshot and how many events to highlight.
#[verifier::reject_recursive_types(S)]
pub struct DevtoolsModel<S> {
    expanded: bool,
    selected_tab: DevtoolsTab,
    timeline_events: Vec<TimelineEvent<S>>,
    filter_event_type: QueryEventType,
    last_snapshot: Vec<SnapshotRow>,
    highlight_new_count: usize,
}

impl<S: Clone> DevtoolsModel<S> {
    pub closed spec fn spec_expanded(&self) -> bool {
        self.expanded
    }

    pub closed spec fn spec_tab(&self) -> DevtoolsTab {
        self.selected_tab
    }

    pub closed spec fn spec_filter(&self) -> QueryEventType {
        self.filter_event_type
    }

    /// The timeline's events with their timestamps, oldest first.
    pub closed spec fn spec_timeline(&self) -> Seq<TimelineEvent<S>> {
        self.timeline_events@
    }

    /// The timeline's events as key and change, oldest first.
    pub open spec fn spec_events(&self) -> Seq<(Seq<char>, QueryStateVariant)> {
        self.spec_timeline().map_values(|e: TimelineEvent<S>| event_view(e))
    }

    /// The last snapshot taken of the cache.
    pub closed spec fn spec_snapshot(&self) -> Seq<(Seq<char>, QueryStateVariant, Duration)> {
        self.last_snapshot@.map_values(|r: SnapshotRow| row_view(r))
    }

    pub closed spec fn spec_highlight(&self) -> nat {
        self.highlight_new_count as nat
    }

    /// An open panel on the queries tab, with an empty timeline showing all
    /// event types.
    pub fn new() -> (m: DevtoolsModel<S>)
        ensures
            m.spec_expanded(),
            m.spec_tab() == DevtoolsTab::Queries,
            m.spec_events() == Seq::<(Seq<char>, QueryStateVariant)>::empty(),
            m.spec_filter() == QueryEventType::All,
            m.spec_snapshot() == Seq::<(Seq<char>, QueryStateVariant, Duration)>::empty(),
            m.spec_highlight() == 0,
    {
        let m = DevtoolsModel {
            expanded: true,
            selected_tab: DevtoolsTab::Queries,
            timeline_events: Vec::new(),
            filter_event_type: QueryEventType::All,
            last_snapshot: Vec::new(),
            highlight_new_count: 0,
        };
        assert(m.spec_events() =~= Seq::<(Seq<char>, QueryStateVariant)>::empty());
        assert(m.spec_snapshot() =~= Seq::<(Seq<char>, QueryStateVariant, Duration)>::empty());
        m
    }

    /// Whether the panel is open.
    pub fn is_expanded(&self) -> (b: bool)
        ensures
            b == self.spec_expanded(),
    {
        self.expanded
    }

    /// Open or close the panel.
    pub fn toggle_expanded(&mut self)
        ensures
            final(self).spec_expanded() == !old(self).spec_expanded(),
            final(self).spec_tab() == old(self).spec_tab(),
            final(self).spec_events() == old(self).spec_events(),
            final(self).spec_filter() == old(self).spec_filter(),
            final(self).spec_snapshot() == old(self).spec_snapshot(),
            final(self).spec_highlight() == old(self).spec_highlight(),
    {
        self.expanded = !self.expanded;
    }

    /// The selected tab.
    pub fn selected_tab(&self) -> (t: DevtoolsTab)
        ensures
            t == self.spec_tab(),
    {
        self.selected_tab
    }

    /// Select a tab.
    pub fn set_selected_tab(&mut self, tab: DevtoolsTab)
        ensures
            final(self).spec_tab() == tab,
            final(self).spec_expanded() == old(self).spec_expanded(),
            final(self).spec_events() == old(self).spec_events(),
            final(self).spec_filter() == old(self).spec_filter(),
            final(self).spec_snapshot() == old(self).spec_snapshot(),
            final(self).spec_highlight() == old(self).spec_highlight(),
    {
        self.selected_tab = tab;
    }

    /// The position of the selected tab in the tab bar.
    pub fn tab_index(&self) -> (i: usize)
        ensures
            i == match self.spec_tab() {
                DevtoolsTab::Queries => 0usize,
                DevtoolsTab::Timeline => 1usize,
                DevtoolsTab::Cache => 2usize,
            },
    {
        match self.selected_tab {
            DevtoolsTab::Queries => 0,
            DevtoolsTab::Timeline => 1,
            DevtoolsTab::Cache => 2,
        }
    }

    /// The tab at a position of the tab bar (the queries tab for any other
    /// position).
    pub fn tab_from_index(&self, idx: usize) -> (t: DevtoolsTab)
        ensures
            t == if idx == 1 {
                DevtoolsTab::Timeline
            } else if idx == 2 {
                DevtoolsTab::Cache
            } else {
                DevtoolsTab::Queries
            },
    {
        match idx {
            0 => DevtoolsTab::Queries,
            1 => DevtoolsTab::Timeline,
            2 => DevtoolsTab::Cache,
            _ => DevtoolsTab::Queries,
        }
    }

    /// The event type the timeline is filtered by.
    pub fn filter_event_type(&self) -> (t: QueryEventType)
        ensures
            t == self.spec_filter(),
    {
        self.filter_event_type
    }

    /// Filter the timeline by an event type.
    pub fn set_filter_event_type(&mut self, t: QueryEventType)
        ensures
            final(self).spec_filter() == t,
            final(self).spec_expanded() == old(self).spec_expanded(),
            final(self).spec_tab() == old(self).spec_tab(),
            final(self).spec_events() == old(self).spec_events(),
            final(self).spec_snapshot() == old(self).spec_snapshot(),
            final(self).spec_highlight() == old(self).spec_highlight(),
    {
        self.filter_event_type = t;
    }

    fn find_last(&self, key: &String) -> (r: Option<usize>)
        ensures
            match r {
                Some(i) => i < self.spec_snapshot().len() && first_with_key(self.spec_snapshot(), key@) == Some(
                    self.spec_snapshot()[i as int],
                ),
                None => first_with_key(self.spec_snapshot(), key@) is None,
            },
    {
        let n = self.last_snapshot.len();
        let mut i: usize = 0;
        assert(self.spec_snapshot().subrange(0, n as int) =~= self.spec_snapshot());
        while i < n
            invariant
                n == self.spec_snapshot().len(),
                i <= n,
                first_with_key(self.spec_snapshot(), key@) == first_with_key(self.spec_snapshot().subrange(i as int, n as int), key@),
            decreases n - i,
        {
            let ghost rest = self.spec_snapshot().subrange(i as int, n as int);
            assert(rest[0] == self.spec_snapshot()[i as int]);
            if self.last_snapshot[i].0.eq(key) {
                return Some(i);
            }
            assert(rest.drop_first() =~= self.spec_snapshot().subrange(i + 1, n as int));
            i = i + 1;
        }
        None
    }

    /// Compare a new snapshot of the cache, taken at `stamp`, with the last
    /// one: every row that is new or whose state or fetch time changed
    /// becomes a timeline event stamped with (a clone of) `stamp`; the
    /// snapshot is kept for next time and all events are highlighted.
    pub fn update_timeline(&mut self, snapshot: Vec<SnapshotRow>, stamp: S)
        ensures
            final(self).spec_events() == old(self).spec_events() + news(
                old(self).spec_snapshot(),
                snapshot@.map_values(|r: SnapshotRow| row_view(r)),
            ),
            forall|j: int| 0 <= j < old(self).spec_timeline().len() ==> #[trigger] final(self).spec_timeline()[j]
                == old(self).spec_timeline()[j],
            forall|j: int| old(self).spec_timeline().len() <= j < final(self).spec_timeline().len() ==> cloned(
                stamp,
                #[trigger] final(self).spec_timeline()[j].timestamp,
            ),
            final(self).spec_snapshot() == snapshot@.map_values(|r: SnapshotRow| row_view(r)),
            final(self).spec_highlight() == final(self).spec_events().len(),
            final(self).spec_expanded() == old(self).spec_expanded(),
            final(self).spec_tab() == old(self).spec_tab(),
            final(self).spec_filter() == old(self).spec_filter(),
    {
        let ghost snap = snapshot@.map_values(|r: SnapshotRow| row_view(r));
        let ghost last = self.spec_snapshot();
        let ghost before = self.spec_events();
        let n = snapshot.len();
        let mut i: usize = 0;
        while i < n
            invariant
                n == snapshot@.len(),
                snap == snapshot@.map_values(|r: SnapshotRow| row_view(r)),
                i <= n,
                self.spec_snapshot() == last,
                self.spec_events() == before + news(last, snap.take(i as int)),
                old(self).spec_timeline().len() <= self.spec_timeline().len(),
                forall|j: int| 0 <= j < old(self).spec_timeline().len() ==> #[trigger] self.spec_timeline()[j]
                    == old(self).spec_timeline()[j],
                forall|j: int| old(self).spec_timeline().len() <= j < self.spec_timeline().len() ==> cloned(
                    stamp,
                    #[trigger] self.spec_timeline()[j].timestamp,
                ),
                self.spec_expanded() == old(self).spec_expanded(),
                self.spec_tab() == old(self).spec_tab(),
                self.spec_filter() == old(self).spec_filter(),
            decreases n - i,
        {
            let row = &snapshot[i];
            let add = match self.find_last(&row.0) {
                Some(j) => {
                    let o = &self.last_snapshot[j];
                    o.1 != row.1 || o.2 != row.2
                },
                None => true,
            };
            let ghost events_before = self.spec_events();
            if add {
                let e = TimelineEvent { timestamp: stamp.clone(), cache_key: row.0.clone(), variant: row.1 };
                self.timeline_events.push(e);
                assert(self.spec_events() =~= events_before.push(event_view(e)));
            }
            proof {
                assert(snap.take(i + 1).drop_last() =~= snap.take(i as int));
                assert(snap.take(i + 1).last() == snap[i as int]);
                assert(snap[i as int] == row_view(*row));
            }
            i = i + 1;
        }
        assert(snap.take(n as int) =~= snap);
        self.last_snapshot = snapshot;
        self.highlight_new_count = self.timeline_events.len();
    }

    /// The events that pass the type filter and the search text (compared in
    /// lower case, an empty search passing all), oldest first, with their
    /// timestamps.
    pub fn filtered_events(&self, search: &str) -> (r: Vec<TimelineEvent<S>>)
        ensures
            copies_of(shown_events(self.spec_timeline(), self.spec_filter(), lowercase_of(search@)), r@),
    {
        let query = lowercase(search);
        let ghost tl = self.spec_timeline();
        let ghost q = lowercase_of(search@);
        let n = self.timeline_events.len();
        let mut out: Vec<TimelineEvent<S>> = Vec::new();
        let mut i: usize = 0;
        while i < n
            invariant
                n == tl.len(),
                tl == self.spec_timeline(),
                q == query@,
                i <= n,
                copies_of(shown_events(tl.take(i as int), self.spec_filter(), q), out@),
            decreases n - i,
        {
            let e = &self.timeline_events[i];
            let type_ok = match self.filter_event_type {
                QueryEventType::All => true,
                _ => QueryEventType::from_variant(&e.variant) == self.filter_event_type,
            };
            let text_ok = query.unicode_len() == 0 || {
                let lower = lowercase(e.cache_key.as_str());
                contains_text(lower.as_str(), query.as_str())
            };
            proof {
                assert(tl.take(i + 1).drop_last() =~= tl.take(i as int));
                assert(tl.take(i + 1).last() == tl[i as int]);
                assert(tl[i as int] == *e);
            }
            if type_ok && text_ok {
                let c = e.clone();
                out.push(c);
            }
            i = i + 1;
        }
        assert(tl.take(n as int) =~= tl);
        out
    }

    /// The timeline as listed: the shown events newest first, with their
    /// timestamps, and how many of the first rows to highlight (the
    /// highlight count, at most the number of rows).
    pub fn timeline_rows(&self, search: &str) -> (r: (Vec<TimelineEvent<S>>, usize))
        ensures
            copies_of(shown_events(self.spec_timeline(), self.spec_filter(), lowercase_of(search@)).reverse(), r.0@),
            r.1 == if self.spec_highlight() < r.0@.len() {
                self.spec_highlight()
            } else {
                r.0@.len()
            },
    {
        let mut shown = self.filtered_events(search);
        let ghost fwd = shown@;
        let ghost expected = shown_events(self.spec_timeline(), self.spec_filter(), lowercase_of(search@));
        let n = shown.len();
        let mut rows: Vec<TimelineEvent<S>> = Vec::new();
        let mut i: usize = n;
        while i > 0
            invariant
                i <= n,
                fwd.len() == n,
                shown@ == fwd.take(i as int),
                rows@ == fwd.subrange(i as int, n as int).reverse(),
            decreases i,
        {
            let e = shown.pop().unwrap();
            proof {
                assert(fwd.take(i as int)[i - 1] == e);
            }
            rows.push(e);
            assert(fwd.subrange(i - 1, n as int).reverse() =~= fwd.subrange(i as int, n as int).reverse().push(fwd[i - 1]));
            assert(shown@ =~= fwd.take(i - 1));
            i = i - 1;
        }
        assert(fwd.subrange(0, n as int) =~= fwd);
        proof {
            assert forall|j: int| 0 <= j < rows@.len() implies {
                &&& event_view(#[trigger] rows@[j]) == event_view(expected.reverse()[j])
                &&& cloned(expected.reverse()[j].timestamp, rows@[j].timestamp)
            } by {
                assert(rows@[j] == fwd[n - 1 - j]);
                assert(expected.reverse()[j] == expected[n - 1 - j]);
            }
        }
        let count = if self.highlight_new_count < rows.len() {
            self.highlight_new_count
        } else {
            rows.len()
        };
        (rows, count)
    }

    /// Empty the timeline and clear the highlight.
    pub fn clear_timeline(&mut self)
        ensures
            final(self).spec_events() == Seq::<(Seq<char>, QueryStateVariant)>::empty(),
            final(self).spec_highlight() == 0,
            final(self).spec_snapshot() == old(self).spec_snapshot(),
            final(self).spec_expanded() == old(self).spec_expanded(),
            final(self).spec_tab() == old(self).spec_tab(),
            final(self).spec_filter() == old(self).spec_filter(),
    {
        self.timeline_events.clear();
        self.highlight_new_count = 0;
        assert(self.spec_events() =~= Seq::<(Seq<char>, QueryStateVariant)>::empty());
    }
}

/// One row of the queries tab: key, listed state and age.
pub struct QueryRow {
    pub key: String,
    pub variant: QueryStateVariant,
    pub age: Duration,
}

/// The keys of `rows` are in strictly increasing order.
pub open spec fn keys_ascending(rows: Seq<QueryRow>) -> bool {
    forall|a: int, b: int| 0 <= a < b < rows.len() ==> text_lt(#[trigger] rows[a].key@, #[trigger] rows[b].key@)
}

/// The row lists the cache entry under its key at `now`.
pub open spec fn row_lists<V>(cache: Map<Seq<char>, CacheEntry<V>>, r: QueryRow, now: Duration) -> bool {
    &&& cache.contains_key(r.key@)
    &&& r.variant == listed_variant(cache[r.key@])
    &&& r.age.nanos() == age(cache[r.key@].fetched_at, now)
}

/// Inserting a row whose key lies between the keys before and after its
/// place keeps the keys ascending.
proof fn lemma_sorted_insert(before: Seq<QueryRow>, pos: int, row: QueryRow)
    requires
        keys_ascending(before),
        0 <= pos <= before.len(),
        forall|j: int| 0 <= j < pos ==> text_lt(#[trigger] before[j].key@, row.key@),
        forall|j: int| pos <= j < before.len() ==> text_lt(row.key@, #[trigger] before[j].key@),
    ensures
        keys_ascending(before.insert(pos, row)),
{
    let rows = before.insert(pos, row);
    assert forall|a: int, b: int| 0 <= a < b < rows.len() implies text_lt(#[trigger] rows[a].key@, #[trigger] rows[b].key@) by {
        if b < pos {
        } else if a < pos && b == pos {
        } else if a < pos {
            assert(rows[b] == before[b - 1]);
        } else if a == pos {
            assert(rows[b] == before[b - 1]);
        } else {
            assert(rows[a] == before[a - 1]);
            assert(rows[b] == before[b - 1]);
        }
    }
}

/// The rows after an insertion are the rows before, shifted past the
/// place, and the inserted row at it.
proof fn lemma_insert_parts<A>(before: Seq<A>, pos: int, x: A)
    requires
        0 <= pos <= before.len(),
    ensures
        before.insert(pos, x).len() == before.len() + 1,
        before.insert(pos, x)[pos] == x,
        forall|j: int| 0 <= j < pos ==> #[trigger] before.insert(pos, x)[j] == before[j],
        forall|j: int| pos < j <= before.len() ==> #[trigger] before.insert(pos, x)[j] == before[j - 1],
{
}

/// Insert `row` at its place by key into rows in ascending key order.
fn insert_row(rows: &mut Vec<QueryRow>, row: QueryRow)
    requires
        keys_ascending(old(rows)@),
        forall|j: int| 0 <= j < old(rows)@.len() ==> #[trigger] old(rows)@[j].key@ != row.key@,
    ensures
        keys_ascending(final(rows)@),
        final(rows)@.len() == old(rows)@.len() + 1,
        final(rows)@.contains(row),
        forall|j: int| 0 <= j < final(rows)@.len() ==> #[trigger] final(rows)@[j] == row || old(rows)@.contains(final(rows)@[j]),
        forall|r: QueryRow| old(rows)@.contains(r) ==> final(rows)@.contains(r),
{
    let m = rows.len();
    let mut pos: usize = 0;
    while pos < m && text_less(rows[pos].key.as_str(), row.key.as_str())
        invariant
            m == rows@.len(),
            pos <= m,
            forall|j: int| 0 <= j < pos ==> text_lt(#[trigger] rows@[j].key@, row.key@),
        decreases m - pos,
    {
        pos = pos + 1;
    }
    proof {
        if pos < m {
            lemma_text_lt_total(rows@[pos as int].key@, row.key@);
            assert forall|j: int| pos <= j < m implies text_lt(row.key@, #[trigger] rows@[j].key@) by {
                if j > pos {
                    lemma_text_lt_transitive(row.key@, rows@[pos as int].key@, rows@[j].key@);
                }
            }
        }
    }
    let ghost before = rows@;
    rows.insert(pos, row);
    proof {
        assert(rows@ == before.insert(pos as int, row));
        lemma_sorted_insert(before, pos as int, row);
        lemma_insert_parts(before, pos as int, row);
        assert(rows@[pos as int] == row);
        assert forall|j: int| 0 <= j < rows@.len() implies #[trigger] rows@[j] == row || before.contains(rows@[j]) by {
            if j < pos {
                assert(before[j] == rows@[j]);
            } else if j > pos {
                assert(before[j - 1] == rows@[j]);
            }
        }
        assert forall|r: QueryRow| before.contains(r) implies rows@.contains(r) by {
            let u = choose|u: int| 0 <= u < before.len() && before[u] == r;
            if u < pos {
                assert(rows@[u] == r);
            } else {
                assert(rows@[u + 1] == r);
            }
        }
    }
}

impl<V> QueryClient<V> {
    /// The cache as the timeline sees it: each entry's key, listed state and
    /// fetch time, in the client's order.
    pub fn snapshot(&self) -> (r: Vec<SnapshotRow>)
        ensures
            r@.map_values(|x: SnapshotRow| row_view(x)) == self.entry_list().map_values(
                |e: CacheEntry<V>| (e.key@, listed_variant(e), e.fetched_at),
            ),
    {
        let entries = self.entries();
        let n = entries.len();
        let mut out: Vec<SnapshotRow> = Vec::new();
        let mut i: usize = 0;
        while i < n
            invariant
                n == entries@.len(),
                entries@ == self.entry_list(),
                i <= n,
                out@.map_values(|x: SnapshotRow| row_view(x)) == entries@.take(i as int).map_values(
                    |e: CacheEntry<V>| (e.key@, listed_variant(e), e.fetched_at),
                ),
            decreases n - i,
        {
            let e = &entries[i];
            let v = if e.is_stale {
                QueryStateVariant::Stale
            } else {
                QueryStateVariant::Success
            };
            let t = (e.key.clone(), v, e.fetched_at);
            let ghost before = out@.map_values(|x: SnapshotRow| row_view(x));
            out.push(t);
            proof {
                let f = |e: CacheEntry<V>| (e.key@, listed_variant(e), e.fetched_at);
                assert(row_view(t) == f(entries@[i as int]));
                assert(out@.map_values(|x: SnapshotRow| row_view(x)) =~= before.push(row_view(t)));
                assert(entries@.take(i + 1).map_values(f) =~= entries@.take(i as int).map_values(f).push(f(entries@[i as int])));
            }
            i = i + 1;
        }
        assert(entries@.take(n as int) =~= entries@);
        out
    }

    /// The queries tab's rows at `now`: one row per cached key, in key
    /// order, each with the entry's listed state and age.
    #[verifier::rlimit(30)]
    #[verifier::spinoff_prover]
    pub fn query_rows(&self, now: Duration) -> (r: Vec<QueryRow>)
        requires
            self.wf(),
        ensures
            keys_ascending(r@),
            forall|j: int| 0 <= j < r@.len() ==> #[trigger] row_lists(self.cache(), r@[j], now),
            forall|k: Seq<char>| #[trigger] self.cache().contains_key(k) ==> exists|j: int| 0 <= j < r@.len() && #[trigger] r@[j].key@ == k,
    {
        let entries = self.entries();
        let n = entries.len();
        let mut rows: Vec<QueryRow> = Vec::new();
        let mut i: usize = 0;
        proof {
            self.lemma_wf_keys_distinct();
        }
        while i < n
            invariant
                n == entries@.len(),
                entries@ == self.entry_list(),
                entry_keys_distinct(entries@),
                i <= n,
                keys_ascending(rows@),
                forall|j: int| 0 <= j < rows@.len() ==> #[trigger] row_lists(self.cache(), rows@[j], now),
                forall|j: int| 0 <= j < rows@.len() ==> exists|t: int| 0 <= t < i && #[trigger] entries@[t].key@ == (#[trigger] rows@[j]).key@,
                forall|t: int| 0 <= t < i ==> exists|j: int| 0 <= j < rows@.len() && #[trigger] rows@[j].key@ == (#[trigger] entries@[t]).key@,
            decreases n - i,
        {
            let e = &entries[i];
            proof {
                crate::client::lemma_entries_map_index(entries@, i as int);
            }
            let v = if e.is_stale {
                QueryStateVariant::Stale
            } else {
                QueryStateVariant::Success
            };
            let row = QueryRow { key: e.key.clone(), variant: v, age: now.saturating_sub(e.fetched_at) };
            proof {
                assert forall|j: int| 0 <= j < rows@.len() implies #[trigger] rows@[j].key@ != row.key@ by {
                    let t = choose|t: int| 0 <= t < i && #[trigger] entries@[t].key@ == rows@[j].key@;
                    assert(entries@[t].key@ != entries@[i as int].key@);
                }
            }
            let ghost before = rows@;
            insert_row(&mut rows, row);
            proof {
                assert forall|j: int| 0 <= j < rows@.len() implies #[trigger] row_lists(self.cache(), rows@[j], now) by {
                    if rows@[j] != row {
                        let u = choose|u: int| 0 <= u < before.len() && before[u] == rows@[j];
                        assert(row_lists(self.cache(), before[u], now));
                    }
                }
                assert forall|j: int| 0 <= j < rows@.len() implies exists|t: int| 0 <= t < i + 1 && #[trigger] entries@[t].key@ == (#[trigger] rows@[j]).key@ by {
                    if rows@[j] != row {
                        let u = choose|u: int| 0 <= u < before.len() && before[u] == rows@[j];
                        let t = choose|t: int| 0 <= t < i && #[trigger] entries@[t].key@ == (#[trigger] before[u]).key@;
                        assert(entries@[t].key@ == rows@[j].key@);
                    } else {
                        assert(entries@[i as int].key@ == rows@[j].key@);
                    }
                }
                assert forall|t: int| 0 <= t < i + 1 implies exists|j: int| 0 <= j < rows@.len() && #[trigger] rows@[j].key@ == (#[trigger] entries@[t]).key@ by {
                    if t < i {
                        let j = choose|j: int| 0 <= j < before.len() && #[trigger] before[j].key@ == entries@[t].key@;
                        assert(before.contains(before[j]));
                        assert(rows@.contains(before[j]));
                        let j2 = choose|j2: int| 0 <= j2 < rows@.len() && rows@[j2] == before[j];
                        assert(rows@[j2].key@ == entries@[t].key@);
                    } else {
                        let j2 = choose|j2: int| 0 <= j2 < rows@.len() && rows@[j2] == row;
                        assert(rows@[j2].key@ == entries@[t].key@);
                    }
                }
            }
            i = i + 1;
        }
        proof {
            assert forall|k: Seq<char>| #[trigger] self.cache().contains_key(k) implies exists|j: int| 0 <= j < rows@.len() && #[trigger] rows@[j].key@ == k by {
                let t = crate::client::lemma_entries_map_value(entries@, k);
                let j = choose|j: int| 0 <= j < rows@.len() && #[trigger] rows@[j].key@ == (#[trigger] entries@[t]).key@;
            }
        }
        rows
    }
}

} // verus!
