use vstd::prelude::*;
use vstd::utf8::encode_utf8;
use crate::event_flag::spec_from_inotify_mask;
use crate::name_match::{NameTerm, spec_match_term, spec_match_wildcard_static, spec_static_regex, static_wildcard_body};
use crate::segment::{SegmentKind, plain_accepts, regex_compiles, regex_is_match};
use crate::text::lowercase;

verus! {

broadcast use vstd::string::group_string_axioms;

/// Every inotify bit shows up as its own flag, and no other flag appears:
/// access, modification and close-after-write give "modified" (0x1000);
/// attribute changes "inode metadata modified" (0x400); moves "renamed"
/// (0x800); creation "created" (0x100); deletion "removed" (0x200); the
/// directory bit gives "is dir" (0x20000), its absence "is file" (0x10000).
pub proof fn law_inotify_flags_bit_by_bit(mask: u32)
    ensures
        (spec_from_inotify_mask(mask) & 0x1000 != 0) <==> (mask & 0x1 != 0 || mask & 0x2 != 0 || mask & 0x8 != 0),
        (spec_from_inotify_mask(mask) & 0x400 != 0) <==> (mask & 0x4 != 0),
        (spec_from_inotify_mask(mask) & 0x800 != 0) <==> (mask & 0x40 != 0 || mask & 0x80 != 0 || mask & 0x800 != 0),
        (spec_from_inotify_mask(mask) & 0x100 != 0) <==> (mask & 0x100 != 0),
        (spec_from_inotify_mask(mask) & 0x200 != 0) <==> (mask & 0x200 != 0 || mask & 0x400 != 0),
        (spec_from_inotify_mask(mask) & 0x20000 != 0) <==> (mask & 0x4000_0000 != 0),
        (spec_from_inotify_mask(mask) & 0x10000 != 0) <==> (mask & 0x4000_0000 == 0),
        spec_from_inotify_mask(mask) & !0x31f00u32 == 0,
{
    let r = spec_from_inotify_mask(mask);
    assert(r == spec_from_inotify_mask(mask));
    assert(
        ({
            let r = (if mask & 0x1 == 0x1 || mask & 0x2 == 0x2 || mask & 0x8 == 0x8 { 0x1000u32 } else { 0u32 })
                | (if mask & 0x4 == 0x4 { 0x400u32 } else { 0u32 })
                | (if mask & 0x40 == 0x40 || mask & 0x80 == 0x80 || mask & 0x800 == 0x800 { 0x800u32 } else { 0u32 })
                | (if mask & 0x100 == 0x100 { 0x100u32 } else { 0u32 })
                | (if mask & 0x200 == 0x200 || mask & 0x400 == 0x400 { 0x200u32 } else { 0u32 })
                | (if mask & 0x4000_0000 == 0x4000_0000 { 0x20000u32 } else { 0x10000u32 });
            &&& (r & 0x1000 != 0) <==> (mask & 0x1 != 0 || mask & 0x2 != 0 || mask & 0x8 != 0)
            &&& (r & 0x400 != 0) <==> (mask & 0x4 != 0)
            &&& (r & 0x800 != 0) <==> (mask & 0x40 != 0 || mask & 0x80 != 0 || mask & 0x800 != 0)
            &&& (r & 0x100 != 0) <==> (mask & 0x100 != 0)
            &&& (r & 0x200 != 0) <==> (mask & 0x200 != 0 || mask & 0x400 != 0)
            &&& (r & 0x20000 != 0) <==> (mask & 0x4000_0000 != 0)
            &&& (r & 0x10000 != 0) <==> (mask & 0x4000_0000 == 0)
            &&& r & !0x31f00u32 == 0
        })
    ) by (bit_vector);
}

/// A plain exact segment accepts a component exactly when the component is
/// the segment's text; a prefix segment only components whose bytes begin
/// with its bytes; a suffix segment only those whose bytes end with them;
/// a substring segment only those whose bytes hold them somewhere.
pub proof fn law_plain_segment_kinds(needle: Seq<char>, candidate: Seq<char>)
    ensures
        plain_accepts(SegmentKind::Exact, needle, candidate) <==> candidate == needle,
        plain_accepts(SegmentKind::Prefix, needle, candidate) <==> ({
            let h = encode_utf8(candidate);
            let n = encode_utf8(needle);
            n.len() <= h.len() && h.subrange(0, n.len() as int) == n
        }),
        plain_accepts(SegmentKind::Suffix, needle, candidate) <==> ({
            let h = encode_utf8(candidate);
            let n = encode_utf8(needle);
            n.len() <= h.len() && h.subrange(h.len() - n.len(), h.len() as int) == n
        }),
        plain_accepts(SegmentKind::Substr, needle, candidate) <==> ({
            let h = encode_utf8(candidate);
            let n = encode_utf8(needle);
            exists|i: int| 0 <= i && i + n.len() <= h.len() && #[trigger] h.subrange(i, i + n.len()) == n
        }),
{
    let h = encode_utf8(candidate);
    let n = encode_utf8(needle);
    if plain_accepts(SegmentKind::Substr, needle, candidate) {
        let i = choose|i: int| crate::text::occurs_at(h, n, i);
        assert(0 <= i && i + n.len() <= h.len() && h.subrange(i, i + n.len()) == n);
    }
    if exists|i: int| 0 <= i && i + n.len() <= h.len() && #[trigger] h.subrange(i, i + n.len()) == n {
        let i = choose|i: int| 0 <= i && i + n.len() <= h.len() && #[trigger] h.subrange(i, i + n.len()) == n;
        assert(crate::text::occurs_at(h, n, i));
    }
}

/// The extension filter accepts a name exactly when the name's bytes end
/// with a dot followed by the extension's bytes (the extension lower-cased
/// when matching ignores case; the name is taken as it is); a filter of
/// another kind, or one without an argument, accepts nothing.
pub proof fn law_ext_filter_checks_ending(raw: String, name: Seq<char>, ci: bool, is_ext: bool)
    ensures
        spec_match_term(NameTerm::Filter { is_ext, argument: Some(raw) }, name, ci) <==> is_ext && ({
            let h = encode_utf8(name);
            let e = encode_utf8(seq!['.'] + if ci { lowercase(raw@) } else { raw@ });
            e.len() <= h.len() && h.subrange(h.len() - e.len(), h.len() as int) == e
        }),
        !spec_match_term(NameTerm::Filter { is_ext, argument: None }, name, ci),
{
}

/// The regex text a single pattern character stands for.
spec fn char_image(c: char) -> Seq<char> {
    if c == '.' {
        seq!['\\', '.']
    } else if c == '*' {
        seq!['.', '*']
    } else if c == '?' {
        seq!['.']
    } else {
        seq![c]
    }
}

proof fn lemma_body_push(a: Seq<char>, c: char)
    ensures
        static_wildcard_body(a.push(c)) == static_wildcard_body(a) + char_image(c),
        static_wildcard_body(seq![c]) == char_image(c),
{
    assert(a.push(c).drop_last() =~= a);
    assert(a.push(c).last() == c);
    let one = seq![c];
    assert(one.drop_last() =~= Seq::<char>::empty());
    assert(one.last() == c);
    assert(static_wildcard_body(Seq::<char>::empty()) == Seq::<char>::empty());
    assert(Seq::<char>::empty() + char_image(c) =~= char_image(c));
}

proof fn lemma_body_first(p: Seq<char>)
    requires
        p.len() > 0,
    ensures
        static_wildcard_body(p) == char_image(p[0]) + static_wildcard_body(p.drop_first()),
    decreases p.len(),
{
    if p.len() == 1 {
        assert(p.drop_first() =~= Seq::<char>::empty());
        assert(p =~= seq![p[0]]);
        lemma_body_push(Seq::<char>::empty(), p[0]);
        assert(static_wildcard_body(Seq::<char>::empty()) == Seq::<char>::empty());
        assert(char_image(p[0]) + Seq::<char>::empty() =~= char_image(p[0]));
    } else {
        let q = p.drop_last();
        lemma_body_first(q);
        assert(q[0] == p[0]);
        assert(p =~= q.push(p.last()));
        lemma_body_push(q, p.last());
        assert(p.drop_first() =~= q.drop_first().push(p.last()));
        lemma_body_push(q.drop_first(), p.last());
        assert(char_image(p[0]) + (static_wildcard_body(q.drop_first()) + char_image(p.last()))
            =~= (char_image(p[0]) + static_wildcard_body(q.drop_first())) + char_image(p.last()));
    }
}

/// A wildcard pattern (other than a lone `*`) is matched by a regex
/// anchored at both ends: it starts with `^` and ends with `$`, so the
/// pattern must cover the whole name; right after `^` comes the pattern's
/// first character where it is a plain one (neither a dot nor a wildcard),
/// so a name must begin there; and the answer is that regex's match.
pub proof fn law_wildcard_anchored(text: Seq<char>, pattern: Seq<char>)
    ensures
        spec_static_regex(pattern).len() >= 2,
        spec_static_regex(pattern)[0] == '^',
        spec_static_regex(pattern).last() == '$',
        pattern.len() > 0 && pattern[0] != '.' && pattern[0] != '*' && pattern[0] != '?'
            ==> spec_static_regex(pattern)[1] == pattern[0],
        pattern != seq!['*'] ==> (spec_match_wildcard_static(text, pattern) <==> regex_compiles(
            spec_static_regex(pattern),
            false,
        ) && regex_is_match(spec_static_regex(pattern), false, text)),
        pattern == seq!['*'] ==> spec_match_wildcard_static(text, pattern),
{
    let r = spec_static_regex(pattern);
    if pattern.len() > 0 {
        lemma_body_first(pattern);
        let c = pattern[0];
        if c != '.' && c != '*' && c != '?' {
            assert(char_image(c) == seq![c]);
            assert(static_wildcard_body(pattern)[0] == c);
            assert(r[1] == static_wildcard_body(pattern)[0]);
        }
    }
}

} // verus!
