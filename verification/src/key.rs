use vstd::prelude::*;
use vstd::string::*;
use vstd::std_specs::cmp::PartialEqSpecImpl;
use crate::text::{push_decimal, push_signed_decimal, decimal, signed_decimal};

verus! {

/// One segment of a key, as the specifications see it.
pub enum SegmentView {
    /// A fixed name, such as `users`.
    Static(Seq<char>),
    /// A named parameter and its value, such as `id=42`.
    Dynamic(Seq<char>, Seq<char>),
}

/// How a segment is written in a cache key: the name itself, or `name=value`.
pub open spec fn segment_text(s: SegmentView) -> Seq<char> {
    match s {
        SegmentView::Static(v) => v,
        SegmentView::Dynamic(k, v) => k + seq!['='] + v,
    }
}

/// The cache key of a sequence of segments: their texts joined with `::`.
pub open spec fn join_segments(segs: Seq<SegmentView>) -> Seq<char>
    decreases segs.len(),
{
    if segs.len() == 0 {
        Seq::empty()
    } else if segs.len() == 1 {
        segment_text(segs[0])
    } else {
        join_segments(segs.drop_last()) + seq![':', ':'] + segment_text(segs.last())
    }
}

/// Whether `pattern` is a prefix of (or equal to) `key`, segment by segment.
pub open spec fn key_prefix(pattern: Seq<SegmentView>, key: Seq<SegmentView>) -> bool {
    &&& pattern.len() <= key.len()
    &&& forall|i: int| 0 <= i < pattern.len() ==> #[trigger] pattern[i] == key[i]
}

/// Whether the text `p` is a prefix of (or equal to) the text `s`.
pub open spec fn text_prefix(p: Seq<char>, s: Seq<char>) -> bool {
    &&& p.len() <= s.len()
    &&& s.subrange(0, p.len() as int) == p
}

/// Whether the cache key `p` covers the cache key `s` segment by segment:
/// `s` is `p`, or `p` followed by `::` and more segments.
pub open spec fn key_text_prefix(p: Seq<char>, s: Seq<char>) -> bool {
    ||| s == p
    ||| text_prefix(p + seq![':', ':'], s)
}

#[derive(Debug, Hash)]
enum KeySegment {
    Static(String),
    Dynamic(String, String),
}

impl KeySegment {
    pub closed spec fn view(&self) -> SegmentView {
        match self {
            KeySegment::Static(v) => SegmentView::Static(v@),
            KeySegment::Dynamic(k, v) => SegmentView::Dynamic(k@, v@),
        }
    }

    fn same(&self, other: &KeySegment) -> (b: bool)
        ensures
            b == (self.view() == other.view()),
    {
        match (self, other) {
            (KeySegment::Static(a), KeySegment::Static(b)) => a.eq(b),
            (KeySegment::Dynamic(k1, v1), KeySegment::Dynamic(k2, v2)) => k1.eq(k2) && v1.eq(v2),
            _ => false,
        }
    }

    fn append_text(&self, out: &mut String)
        ensures
            final(out)@ == old(out)@ + segment_text(self.view()),
    {
        match self {
            KeySegment::Static(v) => {
                out.append(v.as_str());
            },
            KeySegment::Dynamic(k, v) => {
                proof {
                    reveal_strlit("=");
                }
                out.append(k.as_str());
                out.append("=");
                out.append(v.as_str());
            },
        }
        assert(final(out)@ =~= old(out)@ + segment_text(self.view()));
    }
}

impl Clone for KeySegment {
    fn clone(&self) -> (c: KeySegment)
        ensures
            c.view() == self.view(),
    {
        match self {
            KeySegment::Static(v) => KeySegment::Static(v.clone()),
            KeySegment::Dynamic(k, v) => KeySegment::Dynamic(k.clone(), v.clone()),
        }
    }
}

/// A value that can stand as the value of a key parameter, written as text.
pub trait KeyValue {
    /// The text of the value.
    spec fn key_text(&self) -> Seq<char>;

    /// Writes the value as text.
    fn to_key_text(&self) -> (s: String)
        ensures
            s@ == self.key_text(),
    ;
}

impl<'a> KeyValue for &'a str {
    open spec fn key_text(&self) -> Seq<char> {
        (*self)@
    }

    fn to_key_text(&self) -> (s: String) {
        String::from_str(*self)
    }
}

impl KeyValue for String {
    open spec fn key_text(&self) -> Seq<char> {
        self@
    }

    fn to_key_text(&self) -> (s: String) {
        self.clone()
    }
}

impl KeyValue for u32 {
    open spec fn key_text(&self) -> Seq<char> {
        decimal(*self as nat)
    }

    fn to_key_text(&self) -> (s: String) {
        crate::text::decimal_string(*self as u128)
    }
}

impl KeyValue for u64 {
    open spec fn key_text(&self) -> Seq<char> {
        decimal(*self as nat)
    }

    fn to_key_text(&self) -> (s: String) {
        crate::text::decimal_string(*self as u128)
    }
}

impl KeyValue for usize {
    open spec fn key_text(&self) -> Seq<char> {
        decimal(*self as nat)
    }

    fn to_key_text(&self) -> (s: String) {
        crate::text::decimal_string(*self as u128)
    }
}

impl KeyValue for i32 {
    open spec fn key_text(&self) -> Seq<char> {
        signed_decimal(*self as int)
    }

    fn to_key_text(&self) -> (s: String) {
        let mut s = String::new();
        push_signed_decimal(&mut s, *self as i128);
        assert(s@ =~= signed_decimal(*self as int));
        s
    }
}

impl KeyValue for i64 {
    open spec fn key_text(&self) -> Seq<char> {
        signed_decimal(*self as int)
    }

    fn to_key_text(&self) -> (s: String) {
        let mut s = String::new();
        push_signed_decimal(&mut s, *self as i128);
        assert(s@ =~= signed_decimal(*self as int));
        s
    }
}

/// A hierarchical query key for cache lookup and invalidation.
///
/// A key is a root segment followed by static segments and named
/// parameters: `QueryKey::new("users").segment("posts").with("id", 456)`
/// has the cache key `users::posts::id=456`.
#[derive(Debug, Hash)]
pub struct QueryKey {
    segments: Vec<KeySegment>,
}

impl QueryKey {
    /// Every key has its root segment.
    #[verifier::type_invariant]
    closed spec fn has_root(&self) -> bool {
        self.segments@.len() >= 1
    }
}

impl View for QueryKey {
    type V = Seq<SegmentView>;

    closed spec fn view(&self) -> Seq<SegmentView> {
        self.segments@.map_values(|s: KeySegment| s.view())
    }
}

impl QueryKey {
    /// Create a new query key with a root segment.
    pub fn new(root: &str) -> (k: QueryKey)
        ensures
            k@ == seq![SegmentView::Static(root@)],
            k@.len() >= 1,
    {
        let mut segments = Vec::new();
        segments.push(KeySegment::Static(String::from_str(root)));
        let k = QueryKey { segments };
        assert(k@ =~= seq![SegmentView::Static(root@)]);
        k
    }

    /// Add a static segment.
    pub fn segment(self, segment: &str) -> (k: QueryKey)
        ensures
            k@ == self@.push(SegmentView::Static(segment@)),
            k@.len() >= 1,
    {
        let mut segments = self.segments;
        segments.push(KeySegment::Static(String::from_str(segment)));
        let k = QueryKey { segments };
        assert(k@ =~= self@.push(SegmentView::Static(segment@)));
        k
    }

    /// Add a dynamic (parameterised) segment.
    pub fn with<V: KeyValue>(self, name: &str, value: V) -> (k: QueryKey)
        ensures
            k@ == self@.push(SegmentView::Dynamic(name@, value.key_text())),
            k@.len() >= 1,
    {
        let mut segments = self.segments;
        segments.push(KeySegment::Dynamic(String::from_str(name), value.to_key_text()));
        let k = QueryKey { segments };
        assert(k@ =~= self@.push(SegmentView::Dynamic(name@, value.key_text())));
        k
    }

    /// Check if this key matches another for invalidation.
    /// Returns true if `pattern` is a prefix of or equal to `self`.
    pub fn matches(&self, pattern: &QueryKey) -> (b: bool)
        ensures
            b == key_prefix(pattern@, self@),
            self@.len() >= 1,
            pattern@.len() >= 1,
    {
        proof {
            use_type_invariant(self);
            use_type_invariant(pattern);
        }
        let n = pattern.segments.len();
        if n > self.segments.len() {
            return false;
        }
        let mut i: usize = 0;
        while i < n
            invariant
                n == pattern.segments.len(),
                n <= self.segments.len(),
                i <= n,
                forall|j: int| 0 <= j < i ==> #[trigger] pattern@[j] == self@[j],
            decreases n - i,
        {
            if !self.segments[i].same(&pattern.segments[i]) {
                assert(pattern@[i as int] != self@[i as int]);
                return false;
            }
            i = i + 1;
        }
        true
    }

    /// The cache key string: the segments joined with `::`, each parameter
    /// written as `name=value`.
    pub fn cache_key(&self) -> (s: String)
        ensures
            s@ == join_segments(self@),
            self@.len() >= 1,
    {
        proof {
            use_type_invariant(self);
        }
        let mut s = String::new();
        let n = self.segments.len();
        let mut i: usize = 0;
        while i < n
            invariant
                n == self.segments.len(),
                i <= n,
                s@ == join_segments(self@.subrange(0, i as int)),
            decreases n - i,
        {
            let ghost before = s@;
            if i > 0 {
                proof {
                    reveal_strlit("::");
                }
                s.append("::");
            }
            self.segments[i].append_text(&mut s);
            proof {
                let prefix = self@.subrange(0, i + 1);
                assert(prefix.drop_last() =~= self@.subrange(0, i as int));
                assert(prefix.last() == self@[i as int]);
                if i == 0 {
                    assert(s@ =~= join_segments(prefix));
                } else {
                    assert(s@ =~= join_segments(prefix));
                }
            }
            i = i + 1;
        }
        assert(self@.subrange(0, n as int) =~= self@);
        s
    }
}

impl Clone for QueryKey {
    fn clone(&self) -> (k: QueryKey)
        ensures
            k@ == self@,
    {
        proof {
            use_type_invariant(self);
        }
        let mut segments: Vec<KeySegment> = Vec::new();
        let n = self.segments.len();
        let mut i: usize = 0;
        while i < n
            invariant
                n == self.segments.len(),
                i <= n,
                segments@.len() == i,
                forall|j: int| 0 <= j < i ==> #[trigger] segments@[j].view() == self.segments@[j].view(),
            decreases n - i,
        {
            segments.push(self.segments[i].clone());
            i = i + 1;
        }
        let k = QueryKey { segments };
        assert(k@ =~= self@);
        k
    }
}

impl PartialEq for QueryKey {
    fn eq(&self, other: &QueryKey) -> (b: bool) {
        let n = self.segments.len();
        if n != other.segments.len() {
            assert(self@.len() != other@.len());
            return false;
        }
        let mut i: usize = 0;
        while i < n
            invariant
                n == self.segments.len(),
                n == other.segments.len(),
                i <= n,
                forall|j: int| 0 <= j < i ==> #[trigger] self@[j] == other@[j],
            decreases n - i,
        {
            if !self.segments[i].same(&other.segments[i]) {
                assert(self@[i as int] != other@[i as int]);
                return false;
            }
            i = i + 1;
        }
        assert(self@ =~= other@);
        true
    }
}

impl PartialEqSpecImpl for QueryKey {
    open spec fn obeys_eq_spec() -> bool {
        true
    }

    open spec fn eq_spec(&self, other: &QueryKey) -> bool {
        self@ == other@
    }
}

impl Eq for QueryKey {
}

/// Every key matches itself.
pub proof fn law_matches_reflexive(key: Seq<SegmentView>)
    ensures
        key_prefix(key, key),
{
}

/// Matching is transitive: a key that matches `b`, where `b` matches `a`,
/// matches `a`.
pub proof fn law_matches_transitive(a: Seq<SegmentView>, b: Seq<SegmentView>, c: Seq<SegmentView>)
    requires
        key_prefix(a, b),
        key_prefix(b, c),
    ensures
        key_prefix(a, c),
{
    assert forall|i: int| 0 <= i < a.len() implies #[trigger] a[i] == c[i] by {
        assert(a[i] == b[i]);
        assert(b[i] == c[i]);
    }
}

/// A key extended by one more segment still matches the key it extends.
pub proof fn law_extension_matches(key: Seq<SegmentView>, seg: SegmentView)
    ensures
        key_prefix(key, key.push(seg)),
{
}

/// The cache key of a key with at least one segment, extended by one more
/// segment, is its cache key, `::` and the new segment's text.
proof fn lemma_join_push(key: Seq<SegmentView>, seg: SegmentView)
    requires
        key.len() >= 1,
    ensures
        join_segments(key.push(seg)) == join_segments(key) + seq![':', ':'] + segment_text(seg),
{
    assert(key.push(seg).drop_last() =~= key);
}

/// A shorter prefix of segments covers the longer key's cache key at a
/// segment boundary.
proof fn lemma_join_prefix(pattern: Seq<SegmentView>, key: Seq<SegmentView>)
    requires
        pattern.len() >= 1,
        key_prefix(pattern, key),
    ensures
        key_text_prefix(join_segments(pattern), join_segments(key)),
    decreases key.len() - pattern.len(),
{
    if pattern.len() == key.len() {
        assert(pattern =~= key);
    } else {
        let shorter = key.drop_last();
        assert(key_prefix(pattern, shorter));
        lemma_join_prefix(pattern, shorter);
        let p = join_segments(pattern);
        let pc = p + seq![':', ':'];
        let m = join_segments(shorter);
        let full = join_segments(key);
        assert(key =~= shorter.push(key.last()));
        lemma_join_push(shorter, key.last());
        assert(full == m + seq![':', ':'] + segment_text(key.last()));
        if m == p {
            assert(full.subrange(0, pc.len() as int) =~= pc);
        } else {
            assert(full.subrange(0, pc.len() as int) =~= m.subrange(0, pc.len() as int));
        }
    }
}

/// When a key matches a pattern, the pattern's cache key covers the key's
/// cache key at a segment boundary; so invalidating by the pattern reaches
/// every key that matches it.
pub proof fn law_match_implies_cache_key_prefix(key: Seq<SegmentView>, pattern: Seq<SegmentView>)
    requires
        pattern.len() >= 1,
        key_prefix(pattern, key),
    ensures
        key_text_prefix(join_segments(pattern), join_segments(key)),
{
    lemma_join_prefix(pattern, key);
}

/// Adding a parameter: the new key's cache key is the parent's cache key,
/// `::`, the name, `=` and the value's text; the new key matches its parent
/// and the parent does not match it.
pub proof fn law_with_cache_key(key: Seq<SegmentView>, name: Seq<char>, value: Seq<char>)
    requires
        key.len() >= 1,
    ensures
        join_segments(key.push(SegmentView::Dynamic(name, value))) == join_segments(key) + seq![':', ':'] + name
            + seq!['='] + value,
        key_prefix(key, key.push(SegmentView::Dynamic(name, value))),
        !key_prefix(key.push(SegmentView::Dynamic(name, value)), key),
{
    lemma_join_push(key, SegmentView::Dynamic(name, value));
    assert(join_segments(key) + seq![':', ':'] + (name + seq!['='] + value) =~= join_segments(key) + seq![':', ':']
        + name + seq!['='] + value);
}

} // verus!
