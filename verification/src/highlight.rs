use vstd::prelude::*;
use crate::query_segmentation::{query_segmentation, spec_query_segmentation, segments_view, Segment, SegmentSpec};
use crate::text::{chars_of, lowercase, str_lowercase};

verus! {

broadcast use vstd::string::group_string_axioms;

/// The characters with the Unicode `White_Space` property, which
/// `char::is_whitespace` and `str::trim` go by.
pub open spec fn is_ws(c: char) -> bool {
    ('\u{9}' <= c && c <= '\u{d}') || c == ' ' || c == '\u{85}' || c == '\u{a0}' || c == '\u{1680}'
        || ('\u{2000}' <= c && c <= '\u{200a}') || c == '\u{2028}' || c == '\u{2029}' || c == '\u{202f}'
        || c == '\u{205f}' || c == '\u{3000}'
}

pub fn is_whitespace(c: char) -> (r: bool)
    ensures
        r == is_ws(c),
{
    ('\u{9}' <= c && c <= '\u{d}') || c == ' ' || c == '\u{85}' || c == '\u{a0}' || c == '\u{1680}'
        || ('\u{2000}' <= c && c <= '\u{200a}') || c == '\u{2028}' || c == '\u{2029}' || c == '\u{202f}'
        || c == '\u{205f}' || c == '\u{3000}'
}

pub open spec fn trim_start_ws(s: Seq<char>) -> Seq<char>
    decreases s.len(),
{
    if s.len() > 0 && is_ws(s[0]) {
        trim_start_ws(s.drop_first())
    } else {
        s
    }
}

pub open spec fn trim_end_ws(s: Seq<char>) -> Seq<char>
    decreases s.len(),
{
    if s.len() > 0 && is_ws(s.last()) {
        trim_end_ws(s.drop_last())
    } else {
        s
    }
}

/// `s` without whitespace at either end (`str::trim`).
pub open spec fn trim_ws(s: Seq<char>) -> Seq<char> {
    trim_end_ws(trim_start_ws(s))
}

pub open spec fn is_wild(c: char) -> bool {
    c == '*' || c == '?'
}

/// The pieces of `s` between wildcard characters, empty ones included.
pub open spec fn split_wild(s: Seq<char>) -> Seq<Seq<char>>
    decreases s.len(),
{
    if s.len() == 0 {
        seq![Seq::empty()]
    } else {
        let prev = split_wild(s.drop_last());
        if is_wild(s.last()) {
            prev.push(Seq::empty())
        } else {
            prev.update(prev.len() - 1, prev.last().push(s.last()))
        }
    }
}

/// The pieces trimmed, the empty ones dropped.
pub open spec fn trimmed_nonempty(parts: Seq<Seq<char>>) -> Seq<Seq<char>>
    decreases parts.len(),
{
    if parts.len() == 0 {
        Seq::empty()
    } else {
        let prev = trimmed_nonempty(parts.drop_last());
        let t = trim_ws(parts.last());
        if t.len() > 0 {
            prev.push(t)
        } else {
            prev
        }
    }
}

/// The literal runs of a wildcard pattern: the trimmed value cut at every
/// `*` and `?`, each piece trimmed, empty pieces dropped; a value without
/// wildcards is its own single run.
pub open spec fn spec_literal_chunks(value: Seq<char>) -> Seq<Seq<char>> {
    let t = trim_ws(value);
    if t.len() == 0 {
        Seq::empty()
    } else {
        let cs = trimmed_nonempty(split_wild(t));
        if cs.len() == 0 && !(t.contains('*') || t.contains('?')) {
            seq![t]
        } else {
            cs
        }
    }
}

pub open spec fn strings_view(v: Seq<String>) -> Seq<Seq<char>> {
    Seq::new(v.len(), |i: int| v[i]@)
}

proof fn lemma_trim_start_step(s: Seq<char>, a: int, b: int)
    requires
        0 <= a < b <= s.len(),
        is_ws(s[a]),
    ensures
        trim_start_ws(s.subrange(a, b)) == trim_start_ws(s.subrange(a + 1, b)),
{
    assert(s.subrange(a, b).drop_first() =~= s.subrange(a + 1, b));
}

proof fn lemma_trim_end_step(s: Seq<char>, a: int, b: int)
    requires
        0 <= a < b <= s.len(),
        is_ws(s[b - 1]),
    ensures
        trim_end_ws(s.subrange(a, b)) == trim_end_ws(s.subrange(a, b - 1)),
{
    assert(s.subrange(a, b).drop_last() =~= s.subrange(a, b - 1));
}

/// The bounds of `chars[from..to]` trimmed of whitespace.
fn trim_bounds(chars: &Vec<char>, from: usize, to: usize) -> (r: (usize, usize))
    requires
        from <= to <= chars@.len(),
    ensures
        from <= r.0 <= r.1 <= to,
        chars@.subrange(r.0 as int, r.1 as int) == trim_ws(chars@.subrange(from as int, to as int)),
{
    let ghost s = chars@;
    let mut a = from;
    while a < to && is_whitespace(chars[a])
        invariant
            from <= a <= to <= s.len(),
            s == chars@,
            trim_start_ws(s.subrange(from as int, to as int)) == trim_start_ws(s.subrange(a as int, to as int)),
        decreases to - a,
    {
        proof {
            lemma_trim_start_step(s, a as int, to as int);
        }
        a = a + 1;
    }
    proof {
        let t = s.subrange(a as int, to as int);
        if t.len() > 0 {
            assert(t[0] == s[a as int]);
        }
        assert(trim_start_ws(t) == t);
    }
    let mut b = to;
    while b > a && is_whitespace(chars[b - 1])
        invariant
            from <= a <= b <= to <= s.len(),
            s == chars@,
            trim_end_ws(s.subrange(a as int, to as int)) == trim_end_ws(s.subrange(a as int, b as int)),
        decreases b,
    {
        proof {
            lemma_trim_end_step(s, a as int, b as int);
        }
        b = b - 1;
    }
    proof {
        let t = s.subrange(a as int, b as int);
        if t.len() > 0 {
            assert(t.last() == s[b - 1]);
        }
        assert(trim_end_ws(t) == t);
    }
    (a, b)
}

/// The literal runs of a value, as highlight words.
pub fn literal_chunks(value: &str) -> (r: Vec<String>)
    ensures
        strings_view(r@) == spec_literal_chunks(value@),
{
    let chars = chars_of(value);
    let ghost v = value@;
    let (start, end) = trim_bounds(&chars, 0, chars.len());
    assert(chars@.subrange(0, chars@.len() as int) =~= v);
    let ghost t = chars@.subrange(start as int, end as int);
    if start == end {
        let empty: Vec<String> = Vec::new();
        assert(strings_view(empty@) =~= spec_literal_chunks(v));
        return empty;
    }
    let mut out: Vec<String> = Vec::new();
    let mut from: usize = start;
    let mut i: usize = start;
    let mut saw_wild = false;
    // invariant: out holds the chunks of the finished pieces; the current
    // piece runs from `from` to `i`
    while i < end
        invariant
            start <= from <= i <= end <= chars@.len(),
            v == value@,
            chars@ == v,
            t == chars@.subrange(start as int, end as int),
            ({
                let parts = split_wild(chars@.subrange(start as int, i as int));
                &&& parts.last() == chars@.subrange(from as int, i as int)
                &&& strings_view(out@) == trimmed_nonempty(parts.drop_last())
            }),
            saw_wild == (chars@.subrange(start as int, i as int).contains('*') || chars@.subrange(start as int, i as int).contains('?')),
        decreases end - i,
    {
        let ghost s1 = chars@.subrange(start as int, i + 1);
        let ghost parts0 = split_wild(chars@.subrange(start as int, i as int));
        proof {
            assert(s1.drop_last() =~= chars@.subrange(start as int, i as int));
            assert(s1.last() == chars@[i as int]);
            lemma_split_wild_len(chars@.subrange(start as int, i as int));
        }
        let c = chars[i];
        if c == '*' || c == '?' {
            let (a, b) = trim_bounds(&chars, from, i);
            if a < b {
                out.push(value.substring_char(a, b).to_owned());
            }
            from = i + 1;
            proof {
                let parts1 = split_wild(s1);
                assert(parts1 == parts0.push(Seq::empty()));
                assert(parts1.drop_last() =~= parts0);
                assert(parts0 =~= parts0.drop_last().push(parts0.last()));
                assert(trimmed_nonempty(parts0) == {
                    let prev = trimmed_nonempty(parts0.drop_last());
                    let tt = trim_ws(parts0.last());
                    if tt.len() > 0 { prev.push(tt) } else { prev }
                });
                assert(strings_view(out@) =~= trimmed_nonempty(parts1.drop_last()));
                assert(parts1.last() =~= chars@.subrange(from as int, i + 1));
                assert(s1.contains(c));
            }
            saw_wild = true;
        } else {
            proof {
                let parts1 = split_wild(s1);
                assert(chars@.subrange(from as int, i + 1) =~= chars@.subrange(from as int, i as int).push(c));
                assert(parts1.drop_last() =~= parts0.drop_last());
                if s1.contains('*') {
                    let k = choose|k: int| 0 <= k < s1.len() && s1[k] == '*';
                    assert(chars@.subrange(start as int, i as int)[k] == '*');
                }
                if s1.contains('?') {
                    let k = choose|k: int| 0 <= k < s1.len() && s1[k] == '?';
                    assert(chars@.subrange(start as int, i as int)[k] == '?');
                }
                if chars@.subrange(start as int, i as int).contains('*') {
                    let k = choose|k: int| 0 <= k < (i - start) && chars@.subrange(start as int, i as int)[k] == '*';
                    assert(s1[k] == '*');
                }
                if chars@.subrange(start as int, i as int).contains('?') {
                    let k = choose|k: int| 0 <= k < (i - start) && chars@.subrange(start as int, i as int)[k] == '?';
                    assert(s1[k] == '?');
                }
            }
        }
        i = i + 1;
    }
    // the last piece
    let ghost parts = split_wild(t);
    proof {
        lemma_split_wild_len(t);
        assert(parts =~= parts.drop_last().push(parts.last()));
    }
    let (a, b) = trim_bounds(&chars, from, end);
    if a < b {
        out.push(value.substring_char(a, b).to_owned());
    }
    assert(strings_view(out@) =~= trimmed_nonempty(parts));
    if out.len() == 0 && !saw_wild {
        let mut single: Vec<String> = Vec::new();
        single.push(value.substring_char(start, end).to_owned());
        assert(strings_view(single@) =~= seq![t]);
        proof {
            assert(t == trim_ws(v));
            assert(t.len() > 0);
            assert(trimmed_nonempty(split_wild(t)).len() == 0);
            assert(!(t.contains('*') || t.contains('?')));
            assert(spec_literal_chunks(v) == seq![t]);
        }
        return single;
    }
    out
}

proof fn lemma_split_wild_len(s: Seq<char>)
    ensures
        split_wild(s).len() >= 1,
    decreases s.len(),
{
    if s.len() > 0 {
        lemma_split_wild_len(s.drop_last());
    }
}


/// `a` comes strictly before `b` in the order of `str`: character by
/// character, by code point, a proper prefix first.
pub open spec fn lex_lt(a: Seq<char>, b: Seq<char>) -> bool
    decreases a.len(),
{
    if a.len() == 0 {
        b.len() > 0
    } else if b.len() == 0 {
        false
    } else if a[0] != b[0] {
        a[0] < b[0]
    } else {
        lex_lt(a.drop_first(), b.drop_first())
    }
}

pub proof fn lemma_lex_irreflexive(a: Seq<char>)
    ensures
        !lex_lt(a, a),
    decreases a.len(),
{
    if a.len() > 0 {
        lemma_lex_irreflexive(a.drop_first());
    }
}

pub proof fn lemma_lex_transitive(a: Seq<char>, b: Seq<char>, c: Seq<char>)
    requires
        lex_lt(a, b),
        lex_lt(b, c),
    ensures
        lex_lt(a, c),
    decreases a.len(),
{
    if a.len() > 0 && b.len() > 0 && c.len() > 0 && a[0] == b[0] && b[0] == c[0] {
        lemma_lex_transitive(a.drop_first(), b.drop_first(), c.drop_first());
    }
}

pub proof fn lemma_lex_total(a: Seq<char>, b: Seq<char>)
    requires
        a != b,
    ensures
        lex_lt(a, b) || lex_lt(b, a),
    decreases a.len(),
{
    if a.len() > 0 && b.len() > 0 && a[0] == b[0] {
        if a.drop_first() == b.drop_first() {
            assert(a =~= seq![a[0]] + a.drop_first());
            assert(b =~= seq![b[0]] + b.drop_first());
            assert(a =~= b);
        } else {
            lemma_lex_total(a.drop_first(), b.drop_first());
        }
    } else if a.len() == 0 && b.len() == 0 {
        assert(a =~= b);
    }
}

/// The outcome of comparing two texts.
#[derive(Clone, Copy, Debug, PartialEq, Eq, Structural)]
pub enum TextOrder {
    Less,
    Equal,
    Greater,
}

/// Compares two texts in the order of `str`.
pub fn compare_text(a: &str, b: &str) -> (r: TextOrder)
    ensures
        r == TextOrder::Less <==> lex_lt(a@, b@),
        r == TextOrder::Equal <==> a@ == b@,
        r == TextOrder::Greater <==> lex_lt(b@, a@),
{
    let x = chars_of(a);
    let y = chars_of(b);
    let ghost sa = a@;
    let ghost sb = b@;
    let mut k: usize = 0;
    assert(sa.skip(0) =~= sa);
    assert(sb.skip(0) =~= sb);
    while k < x.len() && k < y.len() && x[k] == y[k]
        invariant
            x@ == sa,
            y@ == sb,
            k <= x@.len(),
            k <= y@.len(),
            sa.take(k as int) == sb.take(k as int),
            lex_lt(sa, sb) == lex_lt(sa.skip(k as int), sb.skip(k as int)),
            lex_lt(sb, sa) == lex_lt(sb.skip(k as int), sa.skip(k as int)),
        decreases x@.len() - k,
    {
        proof {
            assert(sa.skip(k as int).drop_first() =~= sa.skip(k + 1));
            assert(sb.skip(k as int).drop_first() =~= sb.skip(k + 1));
            assert(sa.take(k + 1) =~= sa.take(k as int).push(sa[k as int]));
            assert(sb.take(k + 1) =~= sb.take(k as int).push(sb[k as int]));
        }
        k = k + 1;
    }
    proof {
        lemma_lex_irreflexive(sa);
        if k == sa.len() && k == sb.len() {
            assert(sa =~= sa.take(k as int));
            assert(sb =~= sb.take(k as int));
        }
        if sa == sb {
            lemma_lex_irreflexive(sb);
        }
    }
    if k == x.len() {
        if k == y.len() {
            TextOrder::Equal
        } else {
            proof {
                assert(sa.skip(k as int).len() == 0);
                assert(sa != sb);
            }
            TextOrder::Less
        }
    } else if k == y.len() {
        proof {
            assert(sb.skip(k as int).len() == 0);
            assert(sa.len() != sb.len());
        }
        TextOrder::Greater
    } else {
        proof {
            assert(sa.skip(k as int)[0] == sa[k as int]);
            assert(sb.skip(k as int)[0] == sb[k as int]);
            assert(sa[k as int] != sb[k as int]);
        }
        if x[k] < y[k] {
            TextOrder::Less
        } else {
            TextOrder::Greater
        }
    }
}

/// Strictly ascending in the order of `str`.
pub open spec fn strictly_sorted(s: Seq<Seq<char>>) -> bool {
    forall|i: int, j: int| 0 <= i < j < s.len() ==> lex_lt(#[trigger] s[i], #[trigger] s[j])
}

/// The highlight words gathered from a query: lower-cased, each once,
/// kept in the order of `str`.
pub struct HighlightCollector {
    terms: Vec<String>,
}

impl Default for HighlightCollector {
    fn default() -> (r: Self)
        ensures
            r.wf(),
            r.words() == Seq::<Seq<char>>::empty(),
    {
        HighlightCollector { terms: Vec::new() }
    }
}

impl HighlightCollector {
    /// The words gathered so far, in order.
    pub closed spec fn words(self) -> Seq<Seq<char>> {
        strings_view(self.terms@)
    }

    pub closed spec fn wf(self) -> bool {
        strictly_sorted(self.words())
    }

    /// Adds the lower case of `candidate`, unless it is there already.
    pub fn push(&mut self, candidate: String)
        requires
            old(self).wf(),
        ensures
            final(self).wf(),
            final(self).words().to_set() == old(self).words().to_set().insert(lowercase(candidate@)),
    {
        let lower = str_lowercase(candidate.as_str());
        let ghost w = lower@;
        let ghost old_words = self.words();
        let mut i: usize = 0;
        while i < self.terms.len()
            invariant
                i <= self.terms@.len(),
                self.words() == old_words,
                strictly_sorted(old_words),
                old_words == old(self).words(),
                w == lower@,
                w == lowercase(candidate@),
                forall|j: int| 0 <= j < i ==> lex_lt(#[trigger] old_words[j], w),
            ensures
                i <= self.terms@.len(),
                self.words() == old_words,
                forall|j: int| 0 <= j < i ==> lex_lt(#[trigger] old_words[j], w),
                i < self.terms@.len() ==> lex_lt(w, old_words[i as int]),
            decreases self.terms@.len() - i,
        {
            let order = compare_text(self.terms[i].as_str(), lower.as_str());
            match order {
                TextOrder::Less => {}
                TextOrder::Equal => {
                    proof {
                        assert(old_words[i as int] == w);
                        assert(old_words.contains(w));
                        assert(old_words.to_set().contains(w));
                        assert(old_words.to_set().insert(w) =~= old_words.to_set());
                        assert(self.words() == old_words);
                    }
                    return;
                }
                TextOrder::Greater => {
                    break;
                }
            }
            i = i + 1;
        }
        let ghost n = self.terms@.len();
        proof {
            if i < n {
                assert(lex_lt(w, old_words[i as int]));
            }
        }
        self.terms.insert(i, lower);
        proof {
            let nw = self.words();
            assert(nw =~= old_words.insert(i as int, w));
            assert forall|a: int, b: int| 0 <= a < b < nw.len() implies lex_lt(#[trigger] nw[a], #[trigger] nw[b]) by {
                if b < i {
                } else if a < i && b == i {
                } else if a < i {
                    assert(nw[b] == old_words[b - 1]);
                    if a < b - 1 {
                    }
                } else if a == i {
                    assert(nw[b] == old_words[b - 1]);
                    if (i as int) < b - 1 {
                        lemma_lex_transitive(w, old_words[i as int], old_words[b - 1]);
                    }
                } else {
                    assert(nw[a] == old_words[a - 1]);
                    assert(nw[b] == old_words[b - 1]);
                }
            }
            assert forall|x: Seq<char>| nw.to_set().contains(x) <==> old_words.to_set().insert(w).contains(x) by {
                if nw.to_set().contains(x) {
                    let k = choose|k: int| 0 <= k < nw.len() && nw[k] == x;
                    if k < i {
                        assert(old_words[k] == x);
                    } else if k > i {
                        assert(old_words[k - 1] == x);
                    }
                }
                if old_words.to_set().contains(x) {
                    let k = choose|k: int| 0 <= k < old_words.len() && old_words[k] == x;
                    if k < i {
                        assert(nw[k] == x);
                    } else {
                        assert(nw[k + 1] == x);
                    }
                }
                if x == w {
                    assert(nw[i as int] == x);
                }
            }
            assert(nw.to_set() =~= old_words.to_set().insert(w));
        }
    }

    /// The words gathered, in order.
    pub fn into_terms(self) -> (r: Vec<String>)
        requires
            self.wf(),
        ensures
            strings_view(r@) == self.words(),
            strictly_sorted(strings_view(r@)),
    {
        self.terms
    }
}

/// The text of a segment; a globstar has none.
pub open spec fn segment_text(s: SegmentSpec) -> Seq<char> {
    match s {
        SegmentSpec::Concrete(_, v) => v,
        SegmentSpec::GlobStar => Seq::empty(),
    }
}

/// The words that a bare query value offers for highlighting: the literal
/// runs of its last path segment (none for a trailing `**`), or, where
/// that segment has none, the literal runs of the whole value.
pub open spec fn spec_text_candidates(value: Seq<char>) -> Seq<Seq<char>> {
    if trim_ws(value).len() == 0 {
        Seq::empty()
    } else {
        let segs = spec_query_segmentation(value);
        if segs.len() > 0 && segs.last() is GlobStar {
            Seq::empty()
        } else if segs.len() > 0 && spec_literal_chunks(segment_text(segs.last())).len() > 0 {
            spec_literal_chunks(segment_text(segs.last()))
        } else {
            spec_literal_chunks(value)
        }
    }
}

/// The lower cases of the given words.
pub open spec fn lowered(words: Seq<Seq<char>>) -> Set<Seq<char>> {
    words.map_values(|x: Seq<char>| lowercase(x)).to_set()
}

impl HighlightCollector {
    /// Adds each of the candidates.
    fn push_each(&mut self, candidates: &Vec<String>)
        requires
            old(self).wf(),
        ensures
            final(self).wf(),
            final(self).words().to_set() == old(self).words().to_set() + lowered(strings_view(candidates@)),
    {
        let ghost cs = strings_view(candidates@);
        let mut k: usize = 0;
        while k < candidates.len()
            invariant
                k <= candidates@.len(),
                cs == strings_view(candidates@),
                self.wf(),
                self.words().to_set() == old(self).words().to_set() + lowered(cs.take(k as int)),
            decreases candidates@.len() - k,
        {
            let c = candidates[k].clone();
            let ghost before = self.words().to_set();
            self.push(c);
            proof {
                assert(cs.take(k + 1) =~= cs.take(k as int).push(cs[k as int]));
                assert(cs.take(k + 1).map_values(|x: Seq<char>| lowercase(x)) =~= cs.take(k as int).map_values(|x: Seq<char>| lowercase(x)).push(lowercase(cs[k as int])));
                let m0 = cs.take(k as int).map_values(|x: Seq<char>| lowercase(x));
                assert(m0.push(lowercase(cs[k as int])).to_set() =~= m0.to_set().insert(lowercase(cs[k as int]))) by {
                    assert forall|x: Seq<char>| m0.push(lowercase(cs[k as int])).contains(x) <==> m0.to_set().insert(lowercase(cs[k as int])).contains(x) by {
                        if m0.push(lowercase(cs[k as int])).contains(x) {
                            let j = choose|j: int| 0 <= j < m0.len() + 1 && m0.push(lowercase(cs[k as int]))[j] == x;
                            if j < m0.len() {
                                assert(m0.contains(x));
                            }
                        }
                        if m0.contains(x) {
                            let j = choose|j: int| 0 <= j < m0.len() && m0[j] == x;
                            assert(m0.push(lowercase(cs[k as int]))[j] == x);
                        }
                        if x == lowercase(cs[k as int]) {
                            assert(m0.push(lowercase(cs[k as int]))[m0.len() as int] == x);
                        }
                    }
                }
                assert(self.words().to_set() =~= old(self).words().to_set() + lowered(cs.take(k + 1)));
            }
            k = k + 1;
        }
        proof {
            assert(cs.take(candidates@.len() as int) =~= cs);
        }
    }

    /// Gathers the highlight words of a bare query value: the literal runs
    /// of its last path segment, else those of the whole value.
    pub fn collect_text(&mut self, value: &str)
        requires
            old(self).wf(),
        ensures
            final(self).wf(),
            final(self).words().to_set() == old(self).words().to_set() + lowered(spec_text_candidates(value@)),
    {
        let chars = chars_of(value);
        let (a, b) = trim_bounds(&chars, 0, chars.len());
        proof {
            assert(chars@.subrange(0, chars@.len() as int) =~= value@);
        }
        if a == b {
            proof {
                assert(lowered(Seq::<Seq<char>>::empty()) =~= Set::empty());
                assert(self.words().to_set() + Set::empty() =~= self.words().to_set());
            }
            return;
        }
        let segments = query_segmentation(value);
        let ghost segs = spec_query_segmentation(value@);
        if segments.len() > 0 {
            let last = segments[segments.len() - 1];
            proof {
                assert(segs.last() == segments@[segments@.len() - 1]@);
            }
            match last {
                Segment::Concrete(c) => {
                    let candidates = literal_chunks(c.as_value());
                    if candidates.len() > 0 {
                        self.push_each(&candidates);
                        return;
                    }
                }
                Segment::GlobStar => {
                    proof {
                        assert(lowered(Seq::<Seq<char>>::empty()) =~= Set::empty());
                        assert(self.words().to_set() + Set::empty() =~= self.words().to_set());
                    }
                    return;
                }
            }
        }
        let candidates = literal_chunks(value);
        self.push_each(&candidates);
    }
}

} // verus!
