use vstd::prelude::*;
use crate::text::chars_of;

verus! {

broadcast use vstd::string::group_string_axioms;

/// How a path segment of a query is matched against a path component.
#[derive(Clone, Copy, Debug, PartialEq, Eq, Structural)]
pub enum SegmentKind {
    Substr,
    Prefix,
    Suffix,
    Exact,
}

/// A segment of a path query.
///
/// `elloworl` => Substr("elloworl"); `/root` => Prefix("root");
/// `root/` => Suffix("root"); `/root/` => Exact("root");
/// `foo/bar/kks` => Suffix("foo"), Exact("bar"), Prefix("kks").
#[derive(Clone, Copy, Debug, PartialEq, Eq)]
pub enum Segment<'s> {
    Concrete(SegmentConcrete<'s>),
    /// Globstar (`**`) that may span multiple path segments.
    GlobStar,
}

#[derive(Clone, Copy, Debug, PartialEq, Eq)]
pub enum SegmentConcrete<'s> {
    Substr(&'s str),
    Prefix(&'s str),
    Suffix(&'s str),
    Exact(&'s str),
}

/// The mathematical value of a segment.
pub enum SegmentSpec {
    Concrete(SegmentKind, Seq<char>),
    GlobStar,
}

impl<'s> SegmentConcrete<'s> {
    pub open spec fn kind(self) -> SegmentKind {
        match self {
            SegmentConcrete::Substr(_) => SegmentKind::Substr,
            SegmentConcrete::Prefix(_) => SegmentKind::Prefix,
            SegmentConcrete::Suffix(_) => SegmentKind::Suffix,
            SegmentConcrete::Exact(_) => SegmentKind::Exact,
        }
    }

    pub open spec fn value(self) -> Seq<char> {
        match self {
            SegmentConcrete::Substr(s) => s@,
            SegmentConcrete::Prefix(s) => s@,
            SegmentConcrete::Suffix(s) => s@,
            SegmentConcrete::Exact(s) => s@,
        }
    }

    /// The text of the segment, whatever its kind.
    pub fn as_value(&self) -> (r: &'s str)
        ensures
            r@ == self.value(),
    {
        match self {
            SegmentConcrete::Substr(s) => s,
            SegmentConcrete::Prefix(s) => s,
            SegmentConcrete::Suffix(s) => s,
            SegmentConcrete::Exact(s) => s,
        }
    }

    /// The segment of the given kind and text.
    pub fn from_kind(kind: SegmentKind, value: &'s str) -> (r: Self)
        ensures
            r.kind() == kind,
            r.value() == value@,
    {
        match kind {
            SegmentKind::Substr => SegmentConcrete::Substr(value),
            SegmentKind::Prefix => SegmentConcrete::Prefix(value),
            SegmentKind::Suffix => SegmentConcrete::Suffix(value),
            SegmentKind::Exact => SegmentConcrete::Exact(value),
        }
    }
}

impl<'s> Segment<'s> {
    pub open spec fn view(self) -> SegmentSpec {
        match self {
            Segment::Concrete(c) => SegmentSpec::Concrete(c.kind(), c.value()),
            Segment::GlobStar => SegmentSpec::GlobStar,
        }
    }

    pub fn substr(value: &'s str) -> (r: Self)
        ensures
            r@ == SegmentSpec::Concrete(SegmentKind::Substr, value@),
    {
        Segment::Concrete(SegmentConcrete::Substr(value))
    }

    pub fn prefix(value: &'s str) -> (r: Self)
        ensures
            r@ == SegmentSpec::Concrete(SegmentKind::Prefix, value@),
    {
        Segment::Concrete(SegmentConcrete::Prefix(value))
    }

    pub fn suffix(value: &'s str) -> (r: Self)
        ensures
            r@ == SegmentSpec::Concrete(SegmentKind::Suffix, value@),
    {
        Segment::Concrete(SegmentConcrete::Suffix(value))
    }

    pub fn exact(value: &'s str) -> (r: Self)
        ensures
            r@ == SegmentSpec::Concrete(SegmentKind::Exact, value@),
    {
        Segment::Concrete(SegmentConcrete::Exact(value))
    }
}

/// The view of a sequence of segments.
pub open spec fn segments_view(v: Seq<Segment>) -> Seq<SegmentSpec> {
    Seq::new(v.len(), |i: int| v[i]@)
}

/// `s` with its leading slashes removed.
pub open spec fn trim_start_slashes(s: Seq<char>) -> Seq<char>
    decreases s.len(),
{
    if s.len() > 0 && s[0] == '/' {
        trim_start_slashes(s.drop_first())
    } else {
        s
    }
}

/// `s` with its trailing slashes removed.
pub open spec fn trim_end_slashes(s: Seq<char>) -> Seq<char>
    decreases s.len(),
{
    if s.len() > 0 && s.last() == '/' {
        trim_end_slashes(s.drop_last())
    } else {
        s
    }
}

/// The pieces of `s` between slashes, as `str::split('/')` yields them:
/// `k` slashes give `k + 1` pieces, empty ones included.
pub open spec fn split_slash(s: Seq<char>) -> Seq<Seq<char>>
    decreases s.len(),
{
    if s.len() == 0 {
        seq![Seq::empty()]
    } else {
        let prev = split_slash(s.drop_last());
        if s.last() == '/' {
            prev.push(Seq::empty())
        } else {
            prev.update(prev.len() - 1, prev.last().push(s.last()))
        }
    }
}

/// The kind of the `i`-th of `len` segments, given whether the query
/// starts (`left_close`) and ends (`right_close`) with a slash.
pub open spec fn kind_at(i: int, len: int, left_close: bool, right_close: bool) -> SegmentKind {
    if len == 1 {
        if !left_close && !right_close {
            SegmentKind::Substr
        } else if !left_close {
            SegmentKind::Suffix
        } else if !right_close {
            SegmentKind::Prefix
        } else {
            SegmentKind::Exact
        }
    } else if i == 0 && !left_close {
        SegmentKind::Suffix
    } else if i == len - 1 && !right_close {
        SegmentKind::Prefix
    } else {
        SegmentKind::Exact
    }
}

pub open spec fn globstar_text() -> Seq<char> {
    seq!['*', '*']
}

/// The segments of a path query: the query trimmed of slashes at both ends
/// and split at each slash; no segment when the trimmed query is empty or
/// holds an empty piece (two slashes in a row). A piece `**` is a globstar;
/// the others are matched as `kind_at` says.
pub open spec fn spec_query_segmentation(q: Seq<char>) -> Seq<SegmentSpec> {
    let left_close = q.len() > 0 && q[0] == '/';
    let right_close = q.len() > 0 && q.last() == '/';
    let t = trim_end_slashes(trim_start_slashes(q));
    let parts = split_slash(t);
    if t.len() == 0 || exists|i: int| 0 <= i < parts.len() && parts[i].len() == 0 {
        Seq::empty()
    } else {
        Seq::new(
            parts.len(),
            |i: int|
                if parts[i] == globstar_text() {
                    SegmentSpec::GlobStar
                } else {
                    SegmentSpec::Concrete(
                        kind_at(i, parts.len() as int, left_close, right_close),
                        parts[i],
                    )
                },
        )
    }
}

proof fn lemma_trim_start_step(q: Seq<char>, k: int)
    requires
        0 <= k < q.len(),
        q[k] == '/',
    ensures
        trim_start_slashes(q.subrange(k, q.len() as int)) == trim_start_slashes(
            q.subrange(k + 1, q.len() as int),
        ),
{
    let s = q.subrange(k, q.len() as int);
    assert(s.drop_first() =~= q.subrange(k + 1, q.len() as int));
}

proof fn lemma_trim_end_step(q: Seq<char>, a: int, b: int)
    requires
        0 <= a < b <= q.len(),
        q[b - 1] == '/',
    ensures
        trim_end_slashes(q.subrange(a, b)) == trim_end_slashes(q.subrange(a, b - 1)),
{
    let s = q.subrange(a, b);
    assert(s.drop_last() =~= q.subrange(a, b - 1));
}

/// Process a path-query string into segments.
pub fn query_segmentation<'q>(query: &'q str) -> (r: Vec<Segment<'q>>)
    ensures
        segments_view(r@) == spec_query_segmentation(query@),
{
    let ghost q = query@;
    let chars = chars_of(query);
    let n = chars.len();
    let left_close = n > 0 && chars[0] == '/';
    let right_close = n > 0 && chars[n - 1] == '/';
    // trim leading slashes
    let mut start: usize = 0;
    assert(q.subrange(0, n as int) =~= q);
    while start < n && chars[start] == '/'
        invariant
            start <= n,
            n == q.len(),
            chars@ == q,
            trim_start_slashes(q) == trim_start_slashes(q.subrange(start as int, n as int)),
        decreases n - start,
    {
        proof {
            lemma_trim_start_step(q, start as int);
        }
        start = start + 1;
    }
    proof {
        assert(q.subrange(0, n as int) =~= q);
        let s = q.subrange(start as int, n as int);
        if s.len() > 0 {
            assert(s[0] == chars@[start as int]);
        }
    }
    assert(trim_start_slashes(q) == q.subrange(start as int, n as int)) by {
        assert(q.subrange(0, n as int) =~= q);
    }
    // trim trailing slashes
    let mut end: usize = n;
    while end > start && chars[end - 1] == '/'
        invariant
            start <= end <= n,
            n == q.len(),
            chars@ == q,
            trim_end_slashes(q.subrange(start as int, n as int)) == trim_end_slashes(
                q.subrange(start as int, end as int),
            ),
        decreases end,
    {
        proof {
            lemma_trim_end_step(q, start as int, end as int);
        }
        end = end - 1;
    }
    let ghost t = q.subrange(start as int, end as int);
    proof {
        if t.len() > 0 {
            assert(t.last() == chars@[end - 1]);
        }
        assert(trim_end_slashes(t) == t);
    }
    assert(trim_end_slashes(trim_start_slashes(q)) == t);
    if start == end {
        let empty: Vec<Segment<'q>> = Vec::new();
        assert(segments_view(empty@) =~= spec_query_segmentation(q));
        return empty;
    }
    // split at slashes

    let mut bounds: Vec<(usize, usize)> = Vec::new();
    let mut from: usize = start;
    let mut i: usize = start;
    assert(q.subrange(from as int, i as int) =~= Seq::<char>::empty());
    assert(split_slash(Seq::<char>::empty()) =~= seq![Seq::<char>::empty()]);
    assert(split_slash(q.subrange(start as int, i as int)) =~= Seq::new(
        bounds@.len(),
        |j: int| q.subrange(bounds@[j].0 as int, bounds@[j].1 as int),
    ).push(q.subrange(from as int, i as int)));
    while i < end
        invariant
            start <= from <= i <= end <= n,
            n == q.len(),
            chars@ == q,
            forall|j: int|
                0 <= j < bounds@.len() ==> start <= #[trigger] bounds@[j].0 <= bounds@[j].1 <= i,
            split_slash(q.subrange(start as int, i as int)) == Seq::new(
                bounds@.len(),
                |j: int| q.subrange(bounds@[j].0 as int, bounds@[j].1 as int),
            ).push(q.subrange(from as int, i as int)),
        decreases end - i,
    {
        let ghost old_bounds = bounds@;
        let ghost s1 = q.subrange(start as int, i as int + 1);
        proof {
            assert(s1.drop_last() =~= q.subrange(start as int, i as int));
            assert(s1.last() == chars@[i as int]);
        }
        if chars[i] == '/' {
            bounds.push((from, i));
            from = i + 1;
            proof {
                assert(q.subrange(from as int, i as int + 1) =~= Seq::<char>::empty());
                assert(split_slash(s1) =~= Seq::new(
                    bounds@.len(),
                    |j: int| q.subrange(bounds@[j].0 as int, bounds@[j].1 as int),
                ).push(q.subrange(from as int, i as int + 1)));
            }
        } else {
            proof {
                assert(q.subrange(from as int, i as int + 1) =~= q.subrange(
                    from as int,
                    i as int,
                ).push(chars@[i as int]));
                assert(split_slash(s1) =~= Seq::new(
                    bounds@.len(),
                    |j: int| q.subrange(bounds@[j].0 as int, bounds@[j].1 as int),
                ).push(q.subrange(from as int, i as int + 1)));
            }
        }
        i = i + 1;
    }
    let ghost pre_bounds = bounds@;
    bounds.push((from, end));
    assert(forall|j: int| 0 <= j < pre_bounds.len() ==> bounds@[j] == pre_bounds[j]);
    assert(forall|j: int|
        0 <= j < bounds@.len() ==> start <= #[trigger] bounds@[j].0 <= bounds@[j].1 <= end);
    let ghost parts = split_slash(t);
    assert(parts =~= Seq::new(
        bounds@.len(),
        |j: int| q.subrange(bounds@[j].0 as int, bounds@[j].1 as int),
    ));
    let len = bounds.len();
    // an empty piece means two slashes in a row
    let mut k: usize = 0;
    while k < len
        invariant
            k <= len == bounds@.len() == parts.len(),
            q == query@,
            parts == split_slash(trim_end_slashes(trim_start_slashes(q))),
            end <= n == q.len(),
            forall|j: int| 0 <= j < k ==> #[trigger] parts[j].len() > 0,
            forall|j: int|
                0 <= j < len ==> parts[j] == q.subrange(
                    bounds@[j].0 as int,
                    bounds@[j].1 as int,
                ),
            forall|j: int|
                0 <= j < bounds@.len() ==> start <= #[trigger] bounds@[j].0 <= bounds@[j].1 <= end,
        decreases len - k,
    {
        let a: usize = bounds[k].0;
        let b: usize = bounds[k].1;
        assert(parts[k as int] == q.subrange(bounds@[k as int].0 as int, bounds@[k as int].1 as int));
        assert(start <= bounds@[k as int].0 <= bounds@[k as int].1 <= end);
        if a == b {
            let empty: Vec<Segment<'q>> = Vec::new();
            assert(parts[k as int].len() == 0);
            assert(segments_view(empty@) =~= spec_query_segmentation(q));
            return empty;
        }
        k = k + 1;
    }
    let mut result: Vec<Segment<'q>> = Vec::new();
    let mut k: usize = 0;
    while k < len
        invariant
            k <= len == bounds@.len() == parts.len(),
            q == query@,
            end <= n == q.len(),
            n == q.len(),
            chars@ == q,
            forall|j: int| 0 <= j < len ==> #[trigger] parts[j].len() > 0,
            forall|j: int|
                0 <= j < len ==> parts[j] == q.subrange(
                    bounds@[j].0 as int,
                    bounds@[j].1 as int,
                ),
            forall|j: int|
                0 <= j < bounds@.len() ==> start <= #[trigger] bounds@[j].0 <= bounds@[j].1 <= end,
            end <= n,
            result@.len() == k,
            left_close == (q.len() > 0 && q[0] == '/'),
            right_close == (q.len() > 0 && q.last() == '/'),
            forall|j: int|
                0 <= j < k ==> #[trigger] result@[j]@ == (if parts[j] == globstar_text() {
                    SegmentSpec::GlobStar
                } else {
                    SegmentSpec::Concrete(
                        kind_at(j, len as int, left_close, right_close),
                        parts[j],
                    )
                }),
        decreases len - k,
    {
        let a: usize = bounds[k].0;
        let b: usize = bounds[k].1;
        assert(parts[k as int] == q.subrange(bounds@[k as int].0 as int, bounds@[k as int].1 as int));
        assert(start <= bounds@[k as int].0 <= bounds@[k as int].1 <= end);
        let ghost old_result = result@;
        let is_globstar = b - a == 2 && chars[a] == '*' && chars[a + 1] == '*';
        proof {
            let p = parts[k as int];
            if b - a == 2 {
                assert(p[0] == chars@[a as int]);
                assert(p[1] == chars@[a + 1]);
            }
            if is_globstar {
                assert(p =~= globstar_text());
            } else {
                if p == globstar_text() {
                    assert(p.len() == 2);
                    assert(p[0] == chars@[a as int]);
                    assert(p[1] == chars@[a + 1]);
                }
            }
        }
        if is_globstar {
            result.push(Segment::GlobStar);
        } else {
            let kind = if len == 1 {
                if !left_close && !right_close {
                    SegmentKind::Substr
                } else if !left_close {
                    SegmentKind::Suffix
                } else if !right_close {
                    SegmentKind::Prefix
                } else {
                    SegmentKind::Exact
                }
            } else if k == 0 && !left_close {
                SegmentKind::Suffix
            } else if k == len - 1 && !right_close {
                SegmentKind::Prefix
            } else {
                SegmentKind::Exact
            };
            assert(kind == kind_at(k as int, len as int, left_close, right_close));
            let text = query.substring_char(a, b);
            let seg = Segment::Concrete(SegmentConcrete::from_kind(kind, text));
            assert(seg@ == SegmentSpec::Concrete(kind, parts[k as int]));
            result.push(seg);
        }
        assert(forall|j: int| 0 <= j < k ==> result@[j] == old_result[j]);
        k = k + 1;
    }
    proof {
        assert(!(exists|j: int| 0 <= j < parts.len() && parts[j].len() == 0));
        assert(segments_view(result@) =~= spec_query_segmentation(q));
    }
    result
}

/// The text a segment stands for: its value, or `**` for a globstar.
pub open spec fn segment_spec_text(s: SegmentSpec) -> Seq<char> {
    match s {
        SegmentSpec::Concrete(_, v) => v,
        SegmentSpec::GlobStar => globstar_text(),
    }
}

/// Pieces joined with a slash between each two.
pub open spec fn join_slash(ps: Seq<Seq<char>>) -> Seq<char>
    decreases ps.len(),
{
    if ps.len() == 0 {
        Seq::empty()
    } else if ps.len() == 1 {
        ps[0]
    } else {
        join_slash(ps.drop_last()) + seq!['/'] + ps.last()
    }
}

proof fn lemma_split_slash_shape(s: Seq<char>)
    ensures
        split_slash(s).len() >= 1,
        forall|i: int| 0 <= i < split_slash(s).len() ==> !(#[trigger] split_slash(s)[i]).contains('/'),
        join_slash(split_slash(s)) == s,
    decreases s.len(),
{
    if s.len() > 0 {
        let prev = split_slash(s.drop_last());
        lemma_split_slash_shape(s.drop_last());
        let cur = split_slash(s);
        let c = s.last();
        if c == '/' {
            assert(cur == prev.push(Seq::<char>::empty()));
            assert forall|i: int| 0 <= i < cur.len() implies !(#[trigger] cur[i]).contains('/') by {
                if i < prev.len() {
                    assert(cur[i] == prev[i]);
                }
            }
            assert(cur.drop_last() =~= prev);
            assert(s =~= s.drop_last() + seq!['/'] + Seq::<char>::empty());
        } else {
            let last = prev.last().push(c);
            assert(cur == prev.update(prev.len() - 1, last));
            assert forall|i: int| 0 <= i < cur.len() implies !(#[trigger] cur[i]).contains('/') by {
                if i < prev.len() - 1 {
                    assert(cur[i] == prev[i]);
                } else {
                    assert(cur[i] == last);
                    if last.contains('/') {
                        let k = choose|k: int| 0 <= k < last.len() && last[k] == '/';
                        assert(prev.last()[k] == '/');
                        assert(prev[prev.len() - 1].contains('/'));
                    }
                }
            }
            if prev.len() == 1 {
                assert(s =~= prev[0].push(c));
            } else {
                assert(cur.drop_last() =~= prev.drop_last());
                assert(join_slash(prev) == join_slash(prev.drop_last()) + seq!['/'] + prev.last());
                let a = join_slash(prev.drop_last()) + seq!['/'];
                assert(s =~= s.drop_last().push(c));
                assert(s.drop_last() == a + prev.last());
                assert((a + prev.last()).push(c) =~= a + last);
                assert(s =~= join_slash(prev.drop_last()) + seq!['/'] + last);
            }
        }
    }
}

/// Every concrete segment of a path query is a non-empty piece without a
/// slash, and the segments' texts joined with slashes give back the query
/// without its leading and trailing slashes; a query that yields no segment
/// is empty once trimmed, or holds two slashes in a row.
pub proof fn law_segmentation_loses_nothing(q: Seq<char>)
    ensures
        ({
            let r = spec_query_segmentation(q);
            let t = trim_end_slashes(trim_start_slashes(q));
            &&& forall|i: int| 0 <= i < r.len() ==> (#[trigger] segment_spec_text(r[i])).len() > 0
                && !segment_spec_text(r[i]).contains('/')
            &&& r.len() > 0 ==> join_slash(Seq::new(r.len(), |i: int| segment_spec_text(r[i]))) == t
            &&& r.len() == 0 ==> (t.len() == 0 || split_slash(t).contains(Seq::<char>::empty()))
        }),
{
    let t = trim_end_slashes(trim_start_slashes(q));
    let parts = split_slash(t);
    lemma_split_slash_shape(t);
    let r = spec_query_segmentation(q);
    if r.len() > 0 {
        let texts = Seq::new(r.len(), |i: int| segment_spec_text(r[i]));
        assert(texts =~= parts);
    } else if t.len() > 0 {
        let i = choose|i: int| 0 <= i < parts.len() && parts[i].len() == 0;
        assert(parts[i] =~= Seq::<char>::empty());
        assert(parts.contains(Seq::<char>::empty()));
    }
}

proof fn lemma_trim_start_push_slash(s: Seq<char>)
    ensures
        trim_start_slashes(s.push('/')) == (if trim_start_slashes(s).len() == 0 {
            Seq::<char>::empty()
        } else {
            trim_start_slashes(s).push('/')
        }),
    decreases s.len(),
{
    if s.len() == 0 {
        let one = s.push('/');
        assert(one.drop_first() =~= Seq::<char>::empty());
        assert(trim_start_slashes(one) == trim_start_slashes(one.drop_first()));
        assert(trim_start_slashes(Seq::<char>::empty()) == Seq::<char>::empty());
        assert(trim_start_slashes(s) == s);
    } else if s[0] == '/' {
        let p = s.push('/');
        assert(p.drop_first() =~= s.drop_first().push('/'));
        assert(trim_start_slashes(p) == trim_start_slashes(p.drop_first()));
        assert(trim_start_slashes(s) == trim_start_slashes(s.drop_first()));
        lemma_trim_start_push_slash(s.drop_first());
    } else {
        let p = s.push('/');
        assert(p[0] == s[0]);
        assert(trim_start_slashes(p) == p);
        assert(trim_start_slashes(s) == s);
    }
}

/// Extra slashes at either end change nothing: a query with one leading
/// (or trailing) slash has the same segments as with two.
pub proof fn law_segmentation_extra_slashes(q: Seq<char>)
    ensures
        spec_query_segmentation(seq!['/'] + q) == spec_query_segmentation(seq!['/', '/'] + q),
        spec_query_segmentation(q + seq!['/']) == spec_query_segmentation(q + seq!['/', '/']),
{
    let a = seq!['/'] + q;
    let b = seq!['/', '/'] + q;
    assert(b.drop_first() =~= a);
    assert(trim_start_slashes(b) == trim_start_slashes(a));
    if q.len() > 0 {
        assert(a.last() == q.last());
        assert(b.last() == q.last());
    } else {
        assert(a.last() == '/');
        assert(b.last() == '/');
    }
    let c = q + seq!['/'];
    let d = q + seq!['/', '/'];
    assert(d =~= c.push('/'));
    lemma_trim_start_push_slash(c);
    let tc = trim_start_slashes(c);
    if tc.len() > 0 {
        assert(tc.push('/').drop_last() =~= tc);
    }
    if q.len() > 0 {
        assert(c[0] == q[0]);
        assert(d[0] == q[0]);
    } else {
        assert(c[0] == '/');
        assert(d[0] == '/');
    }
}

} // verus!
