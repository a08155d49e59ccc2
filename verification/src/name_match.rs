use vstd::prelude::*;
use vstd::utf8::encode_utf8;
use crate::text::{chars_of, push_char, append_text, contains_bytes, occurs_at_exec, bytes_contain, bytes_end_with, lowercase, str_lowercase};
use crate::segment::{build_regex, regex_match_text, regex_compiles, regex_is_match, SegmentMatcher, SearchOptions, build_segment_matchers, segment_fails, spec_segment_matcher};
use crate::query_segmentation::{query_segmentation, spec_query_segmentation, segments_view};
use crate::path_match::{match_path_segments, spec_match_path, matchers_view, matchers_wf, strings_view};

verus! {

broadcast use vstd::string::group_string_axioms;

/// A term of a search expression, as far as name matching reads it: a
/// word, a filter (whether it is the extension filter, and its argument),
/// or a regex.
pub enum NameTerm {
    Word(String),
    Filter { is_ext: bool, argument: Option<String> },
    Regex(String),
}

/// A search expression, as far as name matching reads it.
pub enum NameExpr {
    Empty,
    Term(NameTerm),
    Not(Box<NameExpr>),
    And(Vec<NameExpr>),
    Or(Vec<NameExpr>),
}

/// The regex text of a wildcard pattern as the background matcher builds
/// it: `.` escaped, `*` as `.*`, `?` as `.`, everything else kept.
pub open spec fn static_wildcard_body(s: Seq<char>) -> Seq<char>
    decreases s.len(),
{
    if s.len() == 0 {
        Seq::empty()
    } else {
        let c = s.last();
        static_wildcard_body(s.drop_last()) + if c == '.' {
            seq!['\\', '.']
        } else if c == '*' {
            seq!['.', '*']
        } else if c == '?' {
            seq!['.']
        } else {
            seq![c]
        }
    }
}

pub open spec fn spec_static_regex(pattern: Seq<char>) -> Seq<char> {
    seq!['^'] + static_wildcard_body(pattern) + seq!['$']
}

/// Whether `text` matches the wildcard `pattern`: a lone `*` matches all;
/// otherwise the anchored regex must build and match.
pub open spec fn spec_match_wildcard_static(text: Seq<char>, pattern: Seq<char>) -> bool {
    pattern == seq!['*'] || (regex_compiles(spec_static_regex(pattern), false)
        && regex_is_match(spec_static_regex(pattern), false, text))
}

/// Whether a node name matches a term: a word by wildcard or as a
/// substring, the extension filter by the name's ending, in lower case
/// where asked; other filters and regexes match nothing here.
pub open spec fn spec_match_term(t: NameTerm, name: Seq<char>, ci: bool) -> bool {
    let text = if ci { lowercase(name) } else { name };
    match t {
        NameTerm::Word(w) => {
            let p = if ci { lowercase(w@) } else { w@ };
            if p.contains('*') || p.contains('?') {
                spec_match_wildcard_static(text, p)
            } else {
                bytes_contain(encode_utf8(text), encode_utf8(p))
            }
        },
        NameTerm::Filter { is_ext, argument } => match argument {
            Some(raw) => is_ext && bytes_end_with(
                encode_utf8(name),
                encode_utf8(seq!['.'] + if ci { lowercase(raw@) } else { raw@ }),
            ),
            None => false,
        },
        NameTerm::Regex(_) => false,
    }
}

/// Whether a node name matches an expression.
pub open spec fn spec_match_basic(e: NameExpr, name: Seq<char>, ci: bool) -> bool
    decreases e,
{
    match e {
        NameExpr::Empty => true,
        NameExpr::Term(t) => spec_match_term(t, name, ci),
        NameExpr::Not(inner) => !spec_match_basic(*inner, name, ci),
        NameExpr::And(parts) => forall|i: int| 0 <= i < parts@.len() ==> spec_match_basic(#[trigger] parts@[i], name, ci),
        NameExpr::Or(parts) => exists|i: int| 0 <= i < parts@.len() && spec_match_basic(#[trigger] parts@[i], name, ci),
    }
}

/// Whether `text` matches the wildcard `pattern` (`*`, `?`).
pub fn match_wildcard_static(text: &str, pattern: &str) -> (r: bool)
    ensures
        r == spec_match_wildcard_static(text@, pattern@),
{
    let cs = chars_of(pattern);
    if cs.len() == 1 && cs[0] == '*' {
        assert(pattern@ =~= seq!['*']);
        return true;
    }
    let mut rx = String::new();
    push_char(&mut rx, '^');
    let mut i: usize = 0;
    while i < cs.len()
        invariant
            cs@ == pattern@,
            i <= cs@.len(),
            rx@ == seq!['^'] + static_wildcard_body(cs@.take(i as int)),
        decreases cs@.len() - i,
    {
        let c = cs[i];
        if c == '.' {
            push_char(&mut rx, '\\');
            push_char(&mut rx, '.');
        } else if c == '*' {
            push_char(&mut rx, '.');
            push_char(&mut rx, '*');
        } else if c == '?' {
            push_char(&mut rx, '.');
        } else {
            push_char(&mut rx, c);
        }
        proof {
            assert(cs@.take(i + 1).drop_last() =~= cs@.take(i as int));
            assert(cs@.take(i + 1).last() == c);
        }
        i = i + 1;
    }
    push_char(&mut rx, '$');
    proof {
        assert(cs@.take(cs@.len() as int) =~= cs@);
        assert(rx@ =~= spec_static_regex(pattern@));
    }
    match build_regex(rx.as_str(), false) {
        Ok(()) => regex_match_text(rx.as_str(), false, text),
        Err(_) => false,
    }
}

/// Whether a node name matches a term.
pub fn match_term(term: &NameTerm, node_name: &str, case_insensitive: bool) -> (r: bool)
    ensures
        r == spec_match_term(*term, node_name@, case_insensitive),
{
    let search_text = if case_insensitive {
        str_lowercase(node_name)
    } else {
        node_name.to_owned()
    };
    match term {
        NameTerm::Word(text) => {
            let pattern = if case_insensitive {
                str_lowercase(text.as_str())
            } else {
                text.clone()
            };
            let pc = chars_of(pattern.as_str());
            let mut wild = false;
            let mut i: usize = 0;
            while i < pc.len()
                invariant
                    pc@ == pattern@,
                    i <= pc@.len(),
                    wild == (pc@.take(i as int).contains('*') || pc@.take(i as int).contains('?')),
                decreases pc@.len() - i,
            {
                proof {
                    let t1 = pc@.take(i + 1);
                    let t0 = pc@.take(i as int);
                    assert(t1 =~= t0.push(pc@[i as int]));
                    if t1.contains('*') {
                        let k = choose|k: int| 0 <= k < t1.len() && t1[k] == '*';
                        if k < i {
                            assert(t0[k] == '*');
                        }
                    }
                    if t1.contains('?') {
                        let k = choose|k: int| 0 <= k < t1.len() && t1[k] == '?';
                        if k < i {
                            assert(t0[k] == '?');
                        }
                    }
                    if t0.contains('*') {
                        let k = choose|k: int| 0 <= k < t0.len() && t0[k] == '*';
                        assert(t1[k] == '*');
                    }
                    if t0.contains('?') {
                        let k = choose|k: int| 0 <= k < t0.len() && t0[k] == '?';
                        assert(t1[k] == '?');
                    }
                    if pc@[i as int] == '*' {
                        assert(t1[i as int] == '*');
                    }
                    if pc@[i as int] == '?' {
                        assert(t1[i as int] == '?');
                    }
                }
                if pc[i] == '*' || pc[i] == '?' {
                    wild = true;
                }
                i = i + 1;
            }
            proof {
                assert(pc@.take(pc@.len() as int) =~= pc@);
            }
            if wild {
                match_wildcard_static(search_text.as_str(), pattern.as_str())
            } else {
                contains_bytes(search_text.as_str().as_bytes(), pattern.as_str().as_bytes())
            }
        },
        NameTerm::Filter { is_ext, argument } => {
            match argument {
                Some(raw) => {
                    if !*is_ext {
                        return false;
                    }
                    let ext = if case_insensitive {
                        str_lowercase(raw.as_str())
                    } else {
                        raw.clone()
                    };
                    let mut suffix = String::new();
                    push_char(&mut suffix, '.');
                    append_text(&mut suffix, ext.as_str());
                    proof {
                        assert(suffix@ =~= seq!['.'] + ext@);
                    }
                    let hay = node_name.as_bytes();
                    let needle = suffix.as_str().as_bytes();
                    if needle.len() > hay.len() {
                        false
                    } else {
                        occurs_at_exec(hay, needle, hay.len() - needle.len())
                    }
                },
                None => false,
            }
        },
        NameTerm::Regex(_) => false,
    }
}

/// Whether a node name matches an expression: the empty expression matches
/// all; `not`, `and` and `or` combine their parts.
pub fn match_node_basic(expr: &NameExpr, node_name: &str, case_insensitive: bool) -> (r: bool)
    ensures
        r == spec_match_basic(*expr, node_name@, case_insensitive),
    decreases expr,
{
    match expr {
        NameExpr::Empty => true,
        NameExpr::Term(term) => match_term(term, node_name, case_insensitive),
        NameExpr::Not(inner) => !match_node_basic(inner, node_name, case_insensitive),
        NameExpr::And(parts) => {
            let mut i: usize = 0;
            while i < parts.len()
                invariant
                    *expr == NameExpr::And(*parts),
                    i <= parts@.len(),
                    forall|j: int| 0 <= j < i ==> spec_match_basic(#[trigger] parts@[j], node_name@, case_insensitive),
                decreases parts@.len() - i,
            {
                proof {
                    assert(decreases_to!(*expr => (*expr)->And_0));
                    assert(decreases_to!(*parts => parts@));
                    assert(decreases_to!(parts@ => parts@[i as int]));
                }
                let part_ok = match_node_basic(&parts[i], node_name, case_insensitive);
                if !part_ok {
                    assert(!spec_match_basic(parts@[i as int], node_name@, case_insensitive));
                    return false;
                }
                i = i + 1;
            }
            true
        },
        NameExpr::Or(parts) => {
            let mut i: usize = 0;
            while i < parts.len()
                invariant
                    *expr == NameExpr::Or(*parts),
                    i <= parts@.len(),
                    forall|j: int| 0 <= j < i ==> !spec_match_basic(#[trigger] parts@[j], node_name@, case_insensitive),
                decreases parts@.len() - i,
            {
                proof {
                    assert(decreases_to!(*expr => (*expr)->Or_0));
                    assert(decreases_to!(*parts => parts@));
                    assert(decreases_to!(parts@ => parts@[i as int]));
                }
                let part_ok = match_node_basic(&parts[i], node_name, case_insensitive);
                if part_ok {
                    assert(spec_match_basic(parts@[i as int], node_name@, case_insensitive));
                    return true;
                }
                i = i + 1;
            }
            false
        },
    }
}

/// Whether a node matches a query: by the path matchers where the query has
/// path segments, else by its name alone.
pub fn match_node_with_path(
    expr: &NameExpr,
    node_name: &str,
    path_segments: &[String],
    path_matchers: Option<&[SegmentMatcher]>,
    case_insensitive: bool,
) -> (r: bool)
    requires
        path_matchers matches Some(m) ==> matchers_wf(m@),
    ensures
        path_matchers matches Some(m) ==> r == spec_match_path(matchers_view(m@), strings_view(path_segments@).push(node_name@)),
        path_matchers is None ==> r == spec_match_basic(*expr, node_name@, case_insensitive),
{
    match path_matchers {
        Some(matchers) => match_path_segments(matchers, path_segments, node_name),
        None => match_node_basic(expr, node_name, case_insensitive),
    }
}

/// Whether `s` holds the character `c`.
fn has_char(s: &str, c: char) -> (r: bool)
    ensures
        r == s@.contains(c),
{
    let cs = chars_of(s);
    let mut i: usize = 0;
    while i < cs.len()
        invariant
            cs@ == s@,
            i <= cs@.len(),
            forall|j: int| 0 <= j < i ==> cs@[j] != c,
        decreases cs@.len() - i,
    {
        if cs[i] == c {
            assert(s@[i as int] == c);
            return true;
        }
        i = i + 1;
    }
    false
}

/// The path matchers a search uses: only a query holding a `/` has any,
/// one per segment of the query; none either where a segment's regex does
/// not build.
pub fn path_matchers_for(query: &str, options: SearchOptions) -> (r: Option<Vec<SegmentMatcher>>)
    ensures
        !query@.contains('/') ==> r is None,
        query@.contains('/') ==> ({
            let segs = spec_query_segmentation(query@);
            &&& (r is Some <==> forall|i: int| 0 <= i < segs.len() ==> !segment_fails(#[trigger] segs[i], options.case_insensitive))
            &&& r matches Some(ms) ==> ms@.len() == segs.len() && forall|i: int| 0 <= i < ms@.len() ==> {
                &&& (#[trigger] ms@[i]).wf()
                &&& ms@[i]@ == spec_segment_matcher(segs[i], options.case_insensitive)
            }
        }),
{
    if !has_char(query, '/') {
        return None;
    }
    let segments = query_segmentation(query);
    let ghost segs = spec_query_segmentation(query@);
    assert(segments_view(segments@) == segs);
    assert(forall|i: int| 0 <= i < segments@.len() ==> #[trigger] segments@[i]@ == segs[i]);
    match build_segment_matchers(segments.as_slice(), options) {
        Ok(ms) => Some(ms),
        Err(_) => None,
    }
}

} // verus!
