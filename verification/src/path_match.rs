use vstd::prelude::*;
use crate::query_segmentation::{query_segmentation, spec_query_segmentation, segments_view};
use crate::segment::{
    SearchOptions, SegmentMatcher, SegmentMatcherConcrete, SegmentMatcherSpec, plain_accepts,
    regex_is_match, build_segment_matchers, spec_segment_matcher, segment_fails,
};

verus! {

/// Whether a matcher accepts a path component.
pub open spec fn spec_accepts(m: SegmentMatcherSpec, text: Seq<char>) -> bool {
    match m {
        SegmentMatcherSpec::Plain(kind, needle) => plain_accepts(kind, needle, text),
        SegmentMatcherSpec::Regex(pattern, ci) => regex_is_match(pattern, ci, text),
        SegmentMatcherSpec::GlobStar => true,
    }
}

/// The matchers from `mi` split the components from `pi` exactly, in
/// order: each concrete matcher takes one component that it accepts, and
/// each globstar takes any number of components, none included.
pub open spec fn spec_match_from(ms: Seq<SegmentMatcherSpec>, path: Seq<Seq<char>>, mi: int, pi: int) -> bool
    decreases ms.len() - mi, path.len() + 2 - pi,
{
    if mi < 0 || mi >= ms.len() {
        pi == path.len()
    } else {
        match ms[mi] {
            SegmentMatcherSpec::GlobStar => 0 <= pi <= path.len() && globstar_from(ms, path, mi, pi),
            _ => 0 <= pi < path.len() && spec_accepts(ms[mi], path[pi]) && spec_match_from(
                ms,
                path,
                mi + 1,
                pi + 1,
            ),
        }
    }
}

/// The globstar at `mi` takes the components from its start up to some
/// `j >= k`, and the matchers after it split the rest from `j`.
pub open spec fn globstar_from(ms: Seq<SegmentMatcherSpec>, path: Seq<Seq<char>>, mi: int, k: int) -> bool
    decreases ms.len() - mi, path.len() + 1 - k,
{
    if mi < 0 || mi >= ms.len() || k < 0 || k > path.len() {
        false
    } else {
        spec_match_from(ms, path, mi + 1, k) || (k < path.len() && globstar_from(ms, path, mi, k + 1))
    }
}

/// A globstar spans any number of components: from `k`, it matches exactly
/// when the matchers after it split the components from some `j >= k`.
pub proof fn lemma_globstar_spans_any(ms: Seq<SegmentMatcherSpec>, path: Seq<Seq<char>>, mi: int, k: int)
    requires
        0 <= mi < ms.len(),
        0 <= k <= path.len(),
    ensures
        globstar_from(ms, path, mi, k) == exists|j: int|
            k <= j <= path.len() && #[trigger] spec_match_from(ms, path, mi + 1, j),
    decreases path.len() - k,
{
    assert(globstar_from(ms, path, mi, k) == (spec_match_from(ms, path, mi + 1, k) || (k < path.len()
        && globstar_from(ms, path, mi, k + 1))));
    if spec_match_from(ms, path, mi + 1, k) {
        assert(k <= k <= path.len() && spec_match_from(ms, path, mi + 1, k));
    }
    if k < path.len() {
        lemma_globstar_spans_any(ms, path, mi, k + 1);
        if globstar_from(ms, path, mi, k + 1) {
            let j = choose|j: int| k + 1 <= j <= path.len() && #[trigger] spec_match_from(ms, path, mi + 1, j);
            assert(k <= j <= path.len() && spec_match_from(ms, path, mi + 1, j));
        }
        if exists|j: int| k <= j <= path.len() && #[trigger] spec_match_from(ms, path, mi + 1, j) {
            let j = choose|j: int| k <= j <= path.len() && #[trigger] spec_match_from(ms, path, mi + 1, j);
            if j > k {
                assert(k + 1 <= j <= path.len() && spec_match_from(ms, path, mi + 1, j));
            }
        }
    } else {
        if exists|j: int| k <= j <= path.len() && #[trigger] spec_match_from(ms, path, mi + 1, j) {
            let j = choose|j: int| k <= j <= path.len() && #[trigger] spec_match_from(ms, path, mi + 1, j);
            assert(j == k);
        }
    }
}

pub open spec fn matchers_view(ms: Seq<SegmentMatcher>) -> Seq<SegmentMatcherSpec> {
    Seq::new(ms.len(), |i: int| ms[i]@)
}

pub open spec fn matchers_wf(ms: Seq<SegmentMatcher>) -> bool {
    forall|i: int| 0 <= i < ms.len() ==> (#[trigger] ms[i]).wf()
}

pub open spec fn strs_view(v: Seq<&str>) -> Seq<Seq<char>> {
    Seq::new(v.len(), |i: int| v[i]@)
}

proof fn lemma_concrete_accepts(c: SegmentMatcherConcrete, text: Seq<char>)
    ensures
        c.accepts(text) == spec_accepts(c@, text),
{
}

/// Whether the matchers from `mi` split the components from `pi` exactly;
/// a globstar tries every number of components in turn.
fn match_split(matchers: &[SegmentMatcher], full_path: &[&str], mi: usize, pi: usize) -> (r: bool)
    requires
        matchers_wf(matchers@),
        mi <= matchers@.len(),
        pi <= full_path@.len(),
    ensures
        r == spec_match_from(matchers_view(matchers@), strs_view(full_path@), mi as int, pi as int),
    decreases matchers@.len() - mi,
{
    let ghost ms = matchers_view(matchers@);
    let ghost path = strs_view(full_path@);
    if mi == matchers.len() {
        return pi == full_path.len();
    }
    match &matchers[mi] {
        SegmentMatcher::GlobStar => {
            assert(ms[mi as int] == SegmentMatcherSpec::GlobStar);
            let next = mi + 1;
            let mut k: usize = pi;
            loop
                invariant
                    next == mi + 1,
                    next <= matchers@.len(),
                    ms == matchers_view(matchers@),
                    path == strs_view(full_path@),
                    matchers_wf(matchers@),
                    mi < matchers@.len(),
                    pi <= k <= full_path@.len(),
                    spec_match_from(ms, path, mi as int, pi as int) == globstar_from(ms, path, mi as int, k as int),
                decreases full_path@.len() - k,
            {
                if match_split(matchers, full_path, next, k) {
                    return true;
                }
                if k == full_path.len() {
                    return false;
                }
                k = k + 1;
            }
        },
        SegmentMatcher::Concrete(concrete) => {
            assert(matchers@[mi as int].wf());
            if pi >= full_path.len() {
                return false;
            }
            let hit = concrete.matches(full_path[pi]);
            proof {
                lemma_concrete_accepts(*concrete, path[pi as int]);
            }
            if !hit {
                return false;
            }
            match_split(matchers, full_path, mi + 1, pi + 1)
        },
    }
}

/// Matches the path components from `start_idx` against all matchers: they
/// must split those components exactly, a globstar spanning any number of
/// them.
pub fn match_from_position(matchers: &[SegmentMatcher], full_path: &[&str], start_idx: usize) -> (r: bool)
    requires
        matchers_wf(matchers@),
        start_idx <= full_path@.len(),
    ensures
        r == spec_match_from(matchers_view(matchers@), strs_view(full_path@), 0, start_idx as int),
{
    match_split(matchers, full_path, 0, start_idx)
}

/// Whether some run of consecutive components of `path_segments` followed
/// by `node_name` matches all matchers.
pub open spec fn spec_match_path(ms: Seq<SegmentMatcherSpec>, full: Seq<Seq<char>>) -> bool {
    exists|start: int| 0 <= start < full.len() && spec_match_from(ms, full, 0, start)
}

pub open spec fn strings_view(v: Seq<String>) -> Seq<Seq<char>> {
    Seq::new(v.len(), |i: int| v[i]@)
}

/// Matches a node, given the names of its ancestors, against path matchers:
/// the matchers may match any run of consecutive components that ends in
/// the node's own name.
pub fn match_path_segments(matchers: &[SegmentMatcher], path_segments: &[String], node_name: &str) -> (r: bool)
    requires
        matchers_wf(matchers@),
    ensures
        r == spec_match_path(matchers_view(matchers@), strings_view(path_segments@).push(node_name@)),
{
    let ghost full = strings_view(path_segments@).push(node_name@);
    let mut full_path: Vec<&str> = Vec::new();
    let mut k: usize = 0;
    while k < path_segments.len()
        invariant
            k <= path_segments@.len(),
            full_path@.len() == k,
            forall|j: int| 0 <= j < k ==> (#[trigger] full_path@[j])@ == path_segments@[j]@,
        decreases path_segments@.len() - k,
    {
        full_path.push(path_segments[k].as_str());
        k = k + 1;
    }
    full_path.push(node_name);
    assert(strs_view(full_path@) =~= full);
    let mut start_idx: usize = 0;
    while start_idx < full_path.len()
        invariant
            strs_view(full_path@) == full,
            full == strings_view(path_segments@).push(node_name@),
            matchers_wf(matchers@),
            start_idx <= full_path@.len(),
            forall|j: int| 0 <= j < start_idx ==> !spec_match_from(matchers_view(matchers@), full, 0, j),
        decreases full_path@.len() - start_idx,
    {
        if match_from_position(matchers, full_path.as_slice(), start_idx) {
            assert(spec_match_from(matchers_view(matchers@), full, 0, start_idx as int));
            return true;
        }
        start_idx = start_idx + 1;
    }
    false
}

/// Matches a node against a path query the way a search does: the query
/// is split into segments and their matchers are applied to the node's
/// ancestors and name. `None` when a segment's regex does not build.
pub fn match_query_path(query: &str, options: SearchOptions, path_segments: &[String], node_name: &str) -> (r: Option<bool>)
    ensures
        ({
            let segs = spec_query_segmentation(query@);
            &&& r is Some <==> forall|i: int| 0 <= i < segs.len() ==> !segment_fails(#[trigger] segs[i], options.case_insensitive)
            &&& r matches Some(b) ==> b == spec_match_path(
                Seq::new(segs.len(), |i: int| spec_segment_matcher(segs[i], options.case_insensitive)),
                strings_view(path_segments@).push(node_name@),
            )
        }),
{
    let segments = query_segmentation(query);
    let ghost segs = spec_query_segmentation(query@);
    assert(segments_view(segments@) == segs);
    match build_segment_matchers(segments.as_slice(), options) {
        Ok(matchers) => {
            assert(forall|i: int| 0 <= i < segments@.len() ==> #[trigger] segments@[i]@ == segs[i]);
            assert(matchers_view(matchers@) =~= Seq::new(segs.len(), |i: int| spec_segment_matcher(segs[i], options.case_insensitive)));
            Some(match_path_segments(matchers.as_slice(), path_segments, node_name))
        },
        Err(_) => {
            assert(forall|i: int| 0 <= i < segments@.len() ==> #[trigger] segments@[i]@ == segs[i]);
            None
        },
    }
}

} // verus!
