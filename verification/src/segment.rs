use vstd::prelude::*;
pub use crate::query_segmentation::SegmentKind;
use crate::query_segmentation::{Segment, SegmentConcrete, SegmentSpec, segments_view};
use crate::text::{occurs_at, chars_of, contains_bytes, occurs_at_exec, push_char, bytes_contain, bytes_start_with, bytes_end_with};
use vstd::string::StringSliceAdditionalSpecFns;

verus! {

broadcast use vstd::string::group_string_axioms;

/// Options of a search.
#[derive(Debug, Clone, Copy)]
pub struct SearchOptions {
    pub case_insensitive: bool,
}

impl Default for SearchOptions {
    fn default() -> (r: Self)
        ensures
            r.case_insensitive == false,
    {
        SearchOptions { case_insensitive: false }
    }
}

/// `regex::Error`, carried through opaque.
#[verifier::external_type_specification]
#[verifier::external_body]
pub struct ExRegexError(regex::Error);

/// Whether `RegexBuilder::new(pattern).case_insensitive(case_insensitive).build()`
/// succeeds.
pub uninterp spec fn regex_compiles(pattern: Seq<char>, case_insensitive: bool) -> bool;

/// What `is_match(text)` answers for the regex built from `pattern` with the
/// given case sensitivity.
pub uninterp spec fn regex_is_match(pattern: Seq<char>, case_insensitive: bool, text: Seq<char>) -> bool;

/// Builds the regex with `regex::RegexBuilder` and reports its error, if
/// any. Claimed: the result is `Ok` exactly when the builder accepts the
/// pattern with these flags (a deterministic function of both).
#[verifier::external_body]
pub(crate) fn build_regex(pattern: &str, case_insensitive: bool) -> (r: Result<(), regex::Error>)
    ensures
        r is Ok <==> regex_compiles(pattern@, case_insensitive),
{
    match regex::RegexBuilder::new(pattern).case_insensitive(case_insensitive).build() {
        Ok(_) => Ok(()),
        Err(e) => Err(e),
    }
}

/// Builds the regex with `regex::RegexBuilder` and calls `Regex::is_match`
/// on `text`. Claimed: the answer depends on the pattern, the flag and the
/// text alone.
#[verifier::external_body]
pub(crate) fn regex_match_text(pattern: &str, case_insensitive: bool, text: &str) -> (r: bool)
    requires
        regex_compiles(pattern@, case_insensitive),
    ensures
        r == regex_is_match(pattern@, case_insensitive, text@),
{
    match regex::RegexBuilder::new(pattern).case_insensitive(case_insensitive).build() {
        Ok(re) => re.is_match(text),
        Err(_) => false,
    }
}

/// The characters that `regex::escape` prefixes with a backslash.
pub open spec fn is_meta_character(c: char) -> bool {
    c == '\\' || c == '.' || c == '+' || c == '*' || c == '?' || c == '(' || c == ')' || c
        == '|' || c == '[' || c == ']' || c == '{' || c == '}' || c == '^' || c == '$' || c
        == '#' || c == '&' || c == '-' || c == '~'
}

pub open spec fn escape_char(c: char) -> Seq<char> {
    if is_meta_character(c) {
        seq!['\\', c]
    } else {
        seq![c]
    }
}

/// `s` with every meta character escaped by a backslash.
pub open spec fn spec_escape(s: Seq<char>) -> Seq<char>
    decreases s.len(),
{
    if s.len() == 0 {
        Seq::empty()
    } else {
        spec_escape(s.drop_last()) + escape_char(s.last())
    }
}

/// `regex::escape`: claimed to put a backslash before each meta character of
/// `text` and to keep every other character, as the crate's source does.
#[verifier::external_body]
fn regex_escape(text: &str) -> (r: String)
    ensures
        r@ == spec_escape(text@),
{
    regex::escape(text)
}

/// The regex text for the characters of a wildcard pattern: `*` becomes
/// `.*`, `?` becomes `.`, every other character is escaped.
pub open spec fn wildcard_body(s: Seq<char>) -> Seq<char>
    decreases s.len(),
{
    if s.len() == 0 {
        Seq::empty()
    } else {
        let c = s.last();
        wildcard_body(s.drop_last()) + if c == '*' {
            seq!['.', '*']
        } else if c == '?' {
            seq!['.']
        } else {
            escape_char(c)
        }
    }
}

/// The anchored regex of a wildcard pattern.
pub open spec fn spec_wildcard_to_regex(s: Seq<char>) -> Seq<char> {
    seq!['^'] + wildcard_body(s) + seq!['$']
}

/// Converts a wildcard pattern (`*`, `?`) into an anchored regex.
pub fn wildcard_to_regex(pattern: &str) -> (r: String)
    ensures
        r@ == spec_wildcard_to_regex(pattern@),
{
    let chars = chars_of(pattern);
    let mut regex = String::new();
    push_char(&mut regex, '^');
    let mut i: usize = 0;
    while i < chars.len()
        invariant
            i <= chars@.len(),
            chars@ == pattern@,
            regex@ == seq!['^'] + wildcard_body(chars@.take(i as int)),
        decreases chars@.len() - i,
    {
        let ch = chars[i];
        let ghost before = regex@;
        proof {
            assert(chars@.take(i + 1).drop_last() =~= chars@.take(i as int));
            assert(chars@.take(i + 1).last() == ch);
        }
        if ch == '*' {
            push_char(&mut regex, '.');
            push_char(&mut regex, '*');
            assert(regex@ =~= before + seq!['.', '*']);
        } else if ch == '?' {
            push_char(&mut regex, '.');
            assert(regex@ =~= before + seq!['.']);
        } else {
            let mut single = String::new();
            push_char(&mut single, ch);
            let escaped = regex_escape(single.as_str());
            proof {
                let one = seq![ch];
                assert(single@ =~= one);
                assert(one.drop_last() =~= Seq::<char>::empty());
                assert(one.last() == ch);
                assert(spec_escape(Seq::<char>::empty()) =~= Seq::<char>::empty());
                assert(spec_escape(one) == spec_escape(one.drop_last()) + escape_char(one.last()));
                assert(spec_escape(one) =~= escape_char(ch));
            }
            regex.append(escaped.as_str());
        }
        assert(regex@ =~= seq!['^'] + wildcard_body(chars@.take(i + 1)));
        i = i + 1;
    }
    push_char(&mut regex, '$');
    assert(chars@.take(chars@.len() as int) =~= chars@);
    assert(regex@ =~= spec_wildcard_to_regex(pattern@));
    regex
}

/// A matcher for one path component.
#[derive(Clone, Debug)]
pub enum SegmentMatcherConcrete {
    /// Plain text compared by kind.
    Plain { kind: SegmentKind, needle: String },
    /// A regex, held as its pattern and case sensitivity.
    Regex { pattern: String, case_insensitive: bool },
}

/// A matcher for one segment of a path query.
#[derive(Clone, Debug)]
pub enum SegmentMatcher {
    Concrete(SegmentMatcherConcrete),
    GlobStar,
}

/// Whether `candidate` is accepted by a plain matcher of `kind` with `needle`,
/// comparing UTF-8 bytes as `str::contains`, `starts_with`, `ends_with` do.
pub open spec fn plain_accepts(kind: SegmentKind, needle: Seq<char>, candidate: Seq<char>) -> bool {
    let h = vstd::utf8::encode_utf8(candidate);
    let n = vstd::utf8::encode_utf8(needle);
    match kind {
        SegmentKind::Substr => bytes_contain(h, n),
        SegmentKind::Prefix => bytes_start_with(h, n),
        SegmentKind::Suffix => bytes_end_with(h, n),
        SegmentKind::Exact => candidate == needle,
    }
}

impl SegmentMatcherConcrete {
    /// The matcher holds a regex that the regex crate accepts.
    pub open spec fn wf(&self) -> bool {
        match self {
            SegmentMatcherConcrete::Plain { .. } => true,
            SegmentMatcherConcrete::Regex { pattern, case_insensitive } => regex_compiles(
                pattern@,
                *case_insensitive,
            ),
        }
    }

    /// Whether the matcher accepts `candidate`.
    pub open spec fn accepts(&self, candidate: Seq<char>) -> bool {
        match self {
            SegmentMatcherConcrete::Plain { kind, needle } => plain_accepts(
                *kind,
                needle@,
                candidate,
            ),
            SegmentMatcherConcrete::Regex { pattern, case_insensitive } => regex_is_match(
                pattern@,
                *case_insensitive,
                candidate,
            ),
        }
    }

    pub fn matches(&self, candidate: &str) -> (r: bool)
        requires
            self.wf(),
        ensures
            r == self.accepts(candidate@),
    {
        match self {
            SegmentMatcherConcrete::Plain { kind, needle } => {
                let h = candidate.as_bytes();
                let n = needle.as_str().as_bytes();
                match kind {
                    SegmentKind::Substr => contains_bytes(h, n),
                    SegmentKind::Prefix => occurs_at_exec(h, n, 0),
                    SegmentKind::Suffix => {
                        if n.len() > h.len() {
                            false
                        } else {
                            occurs_at_exec(h, n, h.len() - n.len())
                        }
                    },
                    SegmentKind::Exact => {
                        let r = h.len() == n.len() && occurs_at_exec(h, n, 0);
                        proof {
                            vstd::utf8::encode_utf8_decode_utf8(candidate@);
                            vstd::utf8::encode_utf8_decode_utf8(needle@);
                            assert(h@ == vstd::utf8::encode_utf8(candidate@));
                            assert(n@ == vstd::utf8::encode_utf8(needle@));
                            if h@.len() == n@.len() {
                                assert(h@ =~= h@.subrange(0, n@.len() as int));
                            }
                            if r {
                                assert(h@ == n@);
                            }
                            if candidate@ == needle@ {
                                assert(h@ == n@);
                                assert(occurs_at(h@, n@, 0));
                            }
                        }
                        r
                    },
                }
            },
            SegmentMatcherConcrete::Regex { pattern, case_insensitive } => {
                regex_match_text(pattern.as_str(), *case_insensitive, candidate)
            },
        }
    }
}

impl SegmentMatcher {
    pub open spec fn wf(&self) -> bool {
        match self {
            SegmentMatcher::Concrete(c) => c.wf(),
            SegmentMatcher::GlobStar => true,
        }
    }
}

/// The kind of a concrete segment.
pub fn segment_kind(segment: &SegmentConcrete<'_>) -> (r: SegmentKind)
    ensures
        r == segment.kind(),
{
    match segment {
        SegmentConcrete::Substr(_) => SegmentKind::Substr,
        SegmentConcrete::Prefix(_) => SegmentKind::Prefix,
        SegmentConcrete::Suffix(_) => SegmentKind::Suffix,
        SegmentConcrete::Exact(_) => SegmentKind::Exact,
    }
}

/// The text of a concrete segment.
pub fn segment_value<'s>(segment: &SegmentConcrete<'s>) -> (r: &'s str)
    ensures
        r@ == segment.value(),
{
    match segment {
        SegmentConcrete::Substr(value) => value,
        SegmentConcrete::Prefix(value) => value,
        SegmentConcrete::Suffix(value) => value,
        SegmentConcrete::Exact(value) => value,
    }
}

pub open spec fn has_wildcard(s: Seq<char>) -> bool {
    s.contains('*') || s.contains('?')
}

/// The regex that escapes `base` and anchors it as `kind` asks.
pub open spec fn anchored(kind: SegmentKind, base: Seq<char>) -> Seq<char> {
    match kind {
        SegmentKind::Substr => base,
        SegmentKind::Prefix => seq!['^', '(', '?', ':'] + base + seq![')'],
        SegmentKind::Suffix => seq!['(', '?', ':'] + base + seq![')', '$'],
        SegmentKind::Exact => seq!['^', '(', '?', ':'] + base + seq![')', '$'],
    }
}

/// The regex a concrete segment is matched with, if it needs one: a
/// wildcard segment always does (matched whole, whatever its kind), other
/// segments only when the search ignores case.
pub open spec fn spec_segment_regex(kind: SegmentKind, value: Seq<char>, case_insensitive: bool) -> Option<Seq<char>> {
    if has_wildcard(value) {
        Some(spec_wildcard_to_regex(value))
    } else if case_insensitive {
        Some(anchored(kind, spec_escape(value)))
    } else {
        None
    }
}

/// The matcher a concrete segment becomes, when its regex (if any) builds.
pub open spec fn spec_concrete_matcher(kind: SegmentKind, value: Seq<char>, case_insensitive: bool) -> SegmentMatcherSpec {
    match spec_segment_regex(kind, value, case_insensitive) {
        Some(p) => SegmentMatcherSpec::Regex(p, case_insensitive),
        None => SegmentMatcherSpec::Plain(kind, value),
    }
}

/// The mathematical value of a matcher.
pub enum SegmentMatcherSpec {
    Plain(SegmentKind, Seq<char>),
    Regex(Seq<char>, bool),
    GlobStar,
}

impl SegmentMatcherConcrete {
    pub open spec fn view(&self) -> SegmentMatcherSpec {
        match self {
            SegmentMatcherConcrete::Plain { kind, needle } => SegmentMatcherSpec::Plain(*kind, needle@),
            SegmentMatcherConcrete::Regex { pattern, case_insensitive } => SegmentMatcherSpec::Regex(
                pattern@,
                *case_insensitive,
            ),
        }
    }
}

impl SegmentMatcher {
    pub open spec fn view(&self) -> SegmentMatcherSpec {
        match self {
            SegmentMatcher::Concrete(c) => c@,
            SegmentMatcher::GlobStar => SegmentMatcherSpec::GlobStar,
        }
    }
}

fn contains_char(chars: &Vec<char>, c: char) -> (r: bool)
    ensures
        r == chars@.contains(c),
{
    let mut i: usize = 0;
    while i < chars.len()
        invariant
            i <= chars@.len(),
            forall|j: int| 0 <= j < i ==> chars@[j] != c,
        decreases chars@.len() - i,
    {
        if chars[i] == c {
            return true;
        }
        i = i + 1;
    }
    false
}

/// The regex pattern of a concrete segment under `options`, if it is
/// matched by regex.
pub fn segment_regex_pattern(segment: &SegmentConcrete<'_>, options: SearchOptions) -> (r: Option<String>)
    ensures
        match r {
            Some(p) => spec_segment_regex(segment.kind(), segment.value(), options.case_insensitive) == Some(p@),
            None => spec_segment_regex(segment.kind(), segment.value(), options.case_insensitive) is None,
        },
{
    let kind = segment_kind(segment);
    let value = segment_value(segment);
    let chars = chars_of(value);
    let is_wildcard = contains_char(&chars, '*') || contains_char(&chars, '?');
    if is_wildcard {
        Some(wildcard_to_regex(value))
    } else if options.case_insensitive {
        let base = regex_escape(value);
        let mut pattern = String::new();
        match kind {
            SegmentKind::Substr => {
                pattern.append(base.as_str());
            },
            SegmentKind::Prefix => {
                push_char(&mut pattern, '^');
                push_char(&mut pattern, '(');
                push_char(&mut pattern, '?');
                push_char(&mut pattern, ':');
                pattern.append(base.as_str());
                push_char(&mut pattern, ')');
            },
            SegmentKind::Suffix => {
                push_char(&mut pattern, '(');
                push_char(&mut pattern, '?');
                push_char(&mut pattern, ':');
                pattern.append(base.as_str());
                push_char(&mut pattern, ')');
                push_char(&mut pattern, '$');
            },
            SegmentKind::Exact => {
                push_char(&mut pattern, '^');
                push_char(&mut pattern, '(');
                push_char(&mut pattern, '?');
                push_char(&mut pattern, ':');
                pattern.append(base.as_str());
                push_char(&mut pattern, ')');
                push_char(&mut pattern, '$');
            },
        }
        assert(pattern@ =~= anchored(kind, spec_escape(value@)));
        Some(pattern)
    } else {
        None
    }
}

/// Builds the matcher of one concrete segment: a regex when the segment
/// has a wildcard or the search ignores case, plain text otherwise.
pub fn build_concrete_segment_matcher(segment: &SegmentConcrete<'_>, options: SearchOptions) -> (r: Result<SegmentMatcher, regex::Error>)
    ensures
        match spec_segment_regex(segment.kind(), segment.value(), options.case_insensitive) {
            Some(p) => (r is Ok <==> regex_compiles(p, options.case_insensitive)),
            None => r is Ok,
        },
        r matches Ok(m) ==> m.wf() && m@ == spec_concrete_matcher(segment.kind(), segment.value(), options.case_insensitive),
{
    match segment_regex_pattern(segment, options) {
        Some(pattern) => {
            match build_regex(pattern.as_str(), options.case_insensitive) {
                Ok(()) => Ok(SegmentMatcher::Concrete(SegmentMatcherConcrete::Regex {
                    pattern,
                    case_insensitive: options.case_insensitive,
                })),
                Err(e) => Err(e),
            }
        },
        None => {
            let value = segment_value(segment);
            Ok(SegmentMatcher::Concrete(SegmentMatcherConcrete::Plain {
                kind: segment_kind(segment),
                needle: value.to_owned(),
            }))
        },
    }
}

/// The matcher a segment becomes.
pub open spec fn spec_segment_matcher(s: SegmentSpec, case_insensitive: bool) -> SegmentMatcherSpec {
    match s {
        SegmentSpec::GlobStar => SegmentMatcherSpec::GlobStar,
        SegmentSpec::Concrete(kind, value) => spec_concrete_matcher(kind, value, case_insensitive),
    }
}

/// The regex of a segment fails to build.
pub open spec fn segment_fails(s: SegmentSpec, case_insensitive: bool) -> bool {
    match s {
        SegmentSpec::GlobStar => false,
        SegmentSpec::Concrete(kind, value) => match spec_segment_regex(kind, value, case_insensitive) {
            Some(p) => !regex_compiles(p, case_insensitive),
            None => false,
        },
    }
}

/// Builds a matcher for each segment, in order; fails with the first regex
/// that does not build.
pub fn build_segment_matchers(segments: &[Segment<'_>], options: SearchOptions) -> (r: Result<Vec<SegmentMatcher>, regex::Error>)
    ensures
        r is Ok <==> forall|i: int| 0 <= i < segments@.len() ==> !segment_fails(#[trigger] segments@[i]@, options.case_insensitive),
        r matches Ok(ms) ==> ms@.len() == segments@.len() && forall|i: int| 0 <= i < ms@.len() ==> {
            &&& (#[trigger] ms@[i]).wf()
            &&& ms@[i]@ == spec_segment_matcher(segments@[i]@, options.case_insensitive)
        },
{
    let mut out: Vec<SegmentMatcher> = Vec::new();
    let mut i: usize = 0;
    while i < segments.len()
        invariant
            i <= segments@.len(),
            out@.len() == i,
            forall|j: int| 0 <= j < i ==> !segment_fails(#[trigger] segments@[j]@, options.case_insensitive),
            forall|j: int| 0 <= j < i ==> {
                &&& (#[trigger] out@[j]).wf()
                &&& out@[j]@ == spec_segment_matcher(segments@[j]@, options.case_insensitive)
            },
        decreases segments@.len() - i,
    {
        match &segments[i] {
            Segment::GlobStar => {
                out.push(SegmentMatcher::GlobStar);
            },
            Segment::Concrete(concrete) => {
                match build_concrete_segment_matcher(concrete, options) {
                    Ok(m) => {
                        out.push(m);
                    },
                    Err(e) => {
                        assert(segment_fails(segments@[i as int]@, options.case_insensitive));
                        return Err(e);
                    },
                }
            },
        }
        i = i + 1;
    }
    Ok(out)
}

} // verus!
