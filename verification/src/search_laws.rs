use vstd::prelude::*;
use vstd::utf8::{valid_utf8, encode_utf8, decode_utf8};
use crate::cache_line::{
    CacheLineView, stored_at, first_match, match_positions_from, match_positions, begin_of, end_of,
    piece, dedup_pieces, search_names, shift, lemma_begin_of, lemma_end_of, lemma_no_nul_no_zero,
    lemma_valid_between_zeros,
};
use crate::text::{occurs_at, bytes_contain, bytes_start_with};

verus! {

/// No byte of `n` is zero.
pub open spec fn zero_free(n: Seq<u8>) -> bool {
    forall|i: int| 0 <= i < n.len() ==> #[trigger] n[i] != 0
}

proof fn lemma_first_match_least(d: Seq<u8>, n: Seq<u8>, start: int, q: int)
    requires
        0 <= start <= q,
        occurs_at(d, n, q),
    ensures
        first_match(d, n, start) is Some,
        start <= first_match(d, n, start)->0 <= q,
        occurs_at(d, n, first_match(d, n, start)->0),
    decreases q - start,
{
    if d.subrange(start, start + n.len()) == n {
    } else {
        lemma_first_match_least(d, n, start + 1, q);
    }
}

proof fn lemma_first_match_occurs(d: Seq<u8>, n: Seq<u8>, start: int)
    ensures
        first_match(d, n, start) matches Some(p) ==> occurs_at(d, n, p) && start <= p,
    decreases d.len() + 1 - start,
{
    if start < 0 || start + n.len() > d.len() {
    } else if d.subrange(start, start + n.len()) == n {
    } else {
        lemma_first_match_occurs(d, n, start + 1);
    }
}

/// Every reported position is an occurrence.
proof fn lemma_positions_occur(d: Seq<u8>, n: Seq<u8>, start: int)
    ensures
        forall|i: int| 0 <= i < match_positions_from(d, n, start).len() ==> occurs_at(d, n, #[trigger] match_positions_from(d, n, start)[i]),
    decreases d.len() + 1 - start,
{
    if start < 0 || start > d.len() {
    } else {
        lemma_first_match_occurs(d, n, start);
        match first_match(d, n, start) {
            Some(p) => {
                let step = if n.len() > 0 { n.len() as int } else { 1 };
                if start <= p && p + step <= d.len() + 1 {
                    lemma_positions_occur(d, n, p + step);
                    let all = match_positions_from(d, n, start);
                    let rest = match_positions_from(d, n, p + step);
                    assert(all == seq![p] + rest);
                    assert forall|i: int| 0 <= i < all.len() implies occurs_at(d, n, #[trigger] all[i]) by {
                        if i > 0 {
                            assert(all[i] == rest[i - 1]);
                        }
                    }
                }
            },
            None => {},
        }
    }
}

/// Some reported occurrence overlaps the start of any occurrence at `q`.
proof fn lemma_overlapping_report(d: Seq<u8>, n: Seq<u8>, start: int, q: int) -> (i: int)
    requires
        n.len() > 0,
        0 <= start <= q,
        occurs_at(d, n, q),
    ensures
        0 <= i < match_positions_from(d, n, start).len(),
        start <= match_positions_from(d, n, start)[i] <= q < match_positions_from(d, n, start)[i] + n.len(),
        occurs_at(d, n, match_positions_from(d, n, start)[i]),
    decreases d.len() + 1 - start,
{
    lemma_first_match_least(d, n, start, q);
    let p = first_match(d, n, start)->0;
    let all = match_positions_from(d, n, start);
    let rest = match_positions_from(d, n, p + n.len());
    assert(all == seq![p] + rest);
    if q < p + n.len() {
        assert(all[0] == p);
        0
    } else {
        let j = lemma_overlapping_report(d, n, p + n.len(), q);
        assert(all[j + 1] == rest[j]);
        j + 1
    }
}

proof fn lemma_begin_in_region(d: Seq<u8>, off: int, o: int)
    requires
        1 <= off <= o <= d.len(),
        d[off - 1] == 0,
        forall|j: int| off <= j < o ==> #[trigger] d[j] != 0,
    ensures
        begin_of(d, o) == off,
    decreases o,
{
    if o > off {
        lemma_begin_in_region(d, off, o - 1);
    }
}

proof fn lemma_end_in_region(d: Seq<u8>, o: int, stop: int)
    requires
        0 <= o <= stop < d.len(),
        d[stop] == 0,
        forall|j: int| o <= j < stop ==> #[trigger] d[j] != 0,
    ensures
        end_of(d, o) == stop,
    decreases stop - o,
{
    if o < stop {
        lemma_end_in_region(d, o + 1, stop);
    }
}

proof fn lemma_end_beyond(d: Seq<u8>, o: int, stop: int)
    requires
        0 <= o <= stop <= d.len(),
        forall|j: int| o <= j < stop ==> #[trigger] d[j] != 0,
    ensures
        end_of(d, o) >= stop,
    decreases stop - o,
{
    lemma_end_of(d, o);
    if o < stop {
        lemma_end_beyond(d, o + 1, stop);
    }
}

/// Offsets whose name ends where a zero-framed run ends all read that run.
proof fn lemma_piece_of_region(d: Seq<u8>, off: int, m: int, o: int)
    requires
        1 <= off,
        0 <= m,
        off + m < d.len(),
        d[off - 1] == 0,
        d[off + m] == 0,
        forall|j: int| off <= j < off + m ==> #[trigger] d[j] != 0,
        0 <= o <= d.len(),
        end_of(d, o) == off + m,
    ensures
        piece(d, o) == d.subrange(off, off + m),
{
    lemma_end_of(d, o);
    if o < off {
        assert(d[off - 1] != 0);
    }
    lemma_begin_in_region(d, off, o);
}

/// Each reported entry is the end and bytes around one of the offsets.
proof fn lemma_dedup_entries(d: Seq<u8>, offs: Seq<int>)
    ensures
        forall|k: int| 0 <= k < dedup_pieces(d, offs).len() ==> exists|j: int| 0 <= j < offs.len() && #[trigger] dedup_pieces(d, offs)[k] == (end_of(d, offs[j]), piece(d, offs[j])),
    decreases offs.len(),
{
    if offs.len() > 0 {
        let prev_offs = offs.drop_last();
        lemma_dedup_entries(d, prev_offs);
        let prev = dedup_pieces(d, prev_offs);
        let cur = dedup_pieces(d, offs);
        assert forall|k: int| 0 <= k < cur.len() implies exists|j: int| 0 <= j < offs.len() && #[trigger] cur[k] == (end_of(d, offs[j]), piece(d, offs[j])) by {
            if k < prev.len() {
                assert(cur[k] == prev[k]);
                let j = choose|j: int| 0 <= j < prev_offs.len() && prev[k] == (end_of(d, prev_offs[j]), piece(d, prev_offs[j]));
                assert(prev_offs[j] == offs[j]);
            } else {
                assert(cur[k] == (end_of(d, offs.last()), piece(d, offs.last())));
                assert(offs.last() == offs[offs.len() - 1]);
            }
        }
    }
}

proof fn lemma_dedup_has(d: Seq<u8>, offs: Seq<int>, i: int, e: int, p: Seq<u8>)
    requires
        0 <= i < offs.len(),
        end_of(d, offs[i]) == e,
        piece(d, offs[i]) == p,
        forall|j: int| 0 <= j < offs.len() && end_of(d, #[trigger] offs[j]) == e ==> piece(d, offs[j]) == p,
    ensures
        dedup_pieces(d, offs).contains((e, p)),
    decreases offs.len(),
{
    let prev_offs = offs.drop_last();
    let prev = dedup_pieces(d, prev_offs);
    let cur = dedup_pieces(d, offs);
    if i < offs.len() - 1 {
        assert forall|j: int| 0 <= j < prev_offs.len() && end_of(d, #[trigger] prev_offs[j]) == e implies piece(d, prev_offs[j]) == p by {
            assert(prev_offs[j] == offs[j]);
        }
        assert(prev_offs[i] == offs[i]);
        lemma_dedup_has(d, prev_offs, i, e, p);
        let k = choose|k: int| 0 <= k < prev.len() && prev[k] == (e, p);
        assert(cur[k] == prev[k]);
    } else {
        let o = offs.last();
        assert(o == offs[i]);
        if prev.len() > 0 && prev.last().0 == e {
            lemma_dedup_entries(d, prev_offs);
            let k = prev.len() - 1;
            let j = choose|j: int| 0 <= j < prev_offs.len() && #[trigger] prev[k] == (end_of(d, prev_offs[j]), piece(d, prev_offs[j]));
            assert(prev_offs[j] == offs[j]);
            assert(cur[k] == (e, p));
        } else {
            assert(cur[cur.len() - 1] == (e, p));
        }
    }
}

/// Completeness of substring search in a line: a stored name without NUL
/// characters whose bytes contain a non-empty needle without zero bytes is
/// among the names a search for that needle reports.
pub proof fn law_line_search_finds_stored_name(v: CacheLineView, offset: int, name: Seq<char>, needle: Seq<u8>)
    requires
        stored_at(v, offset, name),
        !name.contains('\0'),
        needle.len() > 0,
        zero_free(needle),
        bytes_contain(encode_utf8(name), needle),
    ensures
        search_names(v.data, shift(match_positions(v.data, needle), 0)).contains(name),
{
    let d = v.data;
    let b = encode_utf8(name);
    let m = b.len() as int;
    lemma_no_nul_no_zero(name);
    assert forall|j: int| offset <= j < offset + m implies #[trigger] d[j] != 0 by {
        assert(d[j] == d.subrange(offset, offset + m)[j - offset]);
    }
    let t = choose|t: int| occurs_at(b, needle, t);
    let q = offset + t;
    assert(d.subrange(q, q + needle.len()) =~= b.subrange(t, t + needle.len())) by {
        assert forall|j: int| 0 <= j < needle.len() implies #[trigger] d.subrange(q, q + needle.len())[j] == b.subrange(t, t + needle.len())[j] by {
            assert(d[q + j] == d.subrange(offset, offset + m)[t + j]);
        }
    }
    assert(occurs_at(d, needle, q));
    let mp = match_positions_from(d, needle, 0);
    let i = lemma_overlapping_report(d, needle, 0, q);
    let p = mp[i];
    // the reported occurrence lies inside the name
    assert forall|j: int| p <= j < p + needle.len() implies #[trigger] d[j] != 0 by {
        assert(d[j] == d.subrange(p, p + needle.len())[j - p]);
        assert(needle[j - p] != 0);
    }
    if p < offset {
        assert(d[offset - 1] != 0);
    }
    lemma_end_in_region(d, p, offset + m);
    lemma_piece_of_region(d, offset, m, p);
    let offs = shift(mp, 0);
    assert(offs =~= mp);
    crate::cache_line::lemma_match_positions_bounds(d, needle, 0);
    assert forall|j: int| 0 <= j < offs.len() && end_of(d, #[trigger] offs[j]) == offset + m implies piece(d, offs[j]) == b by {
        lemma_piece_of_region(d, offset, m, offs[j]);
        assert(d.subrange(offset, offset + m) == b);
    }
    assert(d.subrange(offset, offset + m) == b);
    lemma_dedup_has(d, offs, i, offset + m, b);
    let dd = dedup_pieces(d, offs);
    let k = choose|k: int| 0 <= k < dd.len() && dd[k] == (offset + m, b);
    vstd::utf8::encode_utf8_decode_utf8(name);
    assert(search_names(d, offs)[k] == name);
}

/// Soundness of substring search in a line: every name reported for a
/// non-empty needle without zero bytes contains the needle.
pub proof fn law_line_search_is_sound(v: CacheLineView, needle: Seq<u8>)
    requires
        valid_utf8(v.data),
        needle.len() > 0,
        zero_free(needle),
    ensures
        ({
            let r = search_names(v.data, shift(match_positions(v.data, needle), 0));
            forall|k: int| 0 <= k < r.len() ==> bytes_contain(encode_utf8(#[trigger] r[k]), needle)
        }),
{
    let d = v.data;
    let mp = match_positions_from(d, needle, 0);
    let offs = shift(mp, 0);
    assert(offs =~= mp);
    lemma_dedup_entries(d, offs);
    lemma_positions_occur(d, needle, 0);
    crate::cache_line::lemma_match_positions_bounds(d, needle, 0);
    let dd = dedup_pieces(d, offs);
    let r = search_names(d, offs);
    assert forall|k: int| 0 <= k < r.len() implies bytes_contain(encode_utf8(#[trigger] r[k]), needle) by {
        let j = choose|j: int| 0 <= j < offs.len() && dd[k] == (end_of(d, offs[j]), piece(d, offs[j]));
        let o = offs[j];
        assert(occurs_at(d, needle, o));
        assert forall|x: int| o <= x < o + needle.len() implies #[trigger] d[x] != 0 by {
            assert(d[x] == d.subrange(o, o + needle.len())[x - o]);
            assert(needle[x - o] != 0);
        }
        lemma_end_beyond(d, o, o + needle.len());
        lemma_begin_of(d, o);
        lemma_end_of(d, o);
        let bg = begin_of(d, o);
        let en = end_of(d, o);
        lemma_valid_between_zeros(d, bg, en);
        let pc = piece(d, o);
        vstd::utf8::decode_utf8_encode_utf8(pc);
        assert(r[k] == decode_utf8(pc));
        assert(pc.subrange(o - bg, o - bg + needle.len()) =~= needle) by {
            assert forall|x: int| 0 <= x < needle.len() implies #[trigger] pc.subrange(o - bg, o - bg + needle.len())[x] == needle[x] by {
                assert(pc[o - bg + x] == d[o + x]);
                assert(d[o + x] == d.subrange(o, o + needle.len())[x]);
            }
        }
        assert(occurs_at(pc, needle, o - bg));
    }
}

/// The bytes of `name` stored at `offset` lie in the data, between zero
/// bytes, none of them zero.
proof fn lemma_stored_run(v: CacheLineView, offset: int, name: Seq<char>)
    requires
        stored_at(v, offset, name),
        !name.contains('\0'),
    ensures
        forall|j: int| offset <= j < offset + encode_utf8(name).len() ==> #[trigger] v.data[j] != 0,
        occurs_at(v.data, seq![0u8] + encode_utf8(name) + seq![0u8], offset - 1),
{
    let d = v.data;
    let b = encode_utf8(name);
    let m = b.len() as int;
    lemma_no_nul_no_zero(name);
    assert forall|j: int| offset <= j < offset + m implies #[trigger] d[j] != 0 by {
        assert(d[j] == d.subrange(offset, offset + m)[j - offset]);
    }
    let n = seq![0u8] + b + seq![0u8];
    assert(d.subrange(offset - 1, offset - 1 + n.len()) =~= n) by {
        assert forall|x: int| 0 <= x < n.len() implies #[trigger] d.subrange(offset - 1, offset - 1 + n.len())[x] == n[x] by {
            if 1 <= x <= m {
                assert(d[offset - 1 + x] == d.subrange(offset, offset + m)[x - 1]);
            }
        }
    }
}

/// Completeness of prefix search in a line: a search for a zero byte
/// followed by non-empty, zero-free bytes, reading each name from the last
/// byte of the match, reports every stored name without NUL characters
/// whose bytes start with those bytes.
pub proof fn law_line_prefix_search_finds(v: CacheLineView, offset: int, name: Seq<char>, prefix: Seq<u8>)
    requires
        stored_at(v, offset, name),
        !name.contains('\0'),
        prefix.len() > 0,
        zero_free(prefix),
        bytes_start_with(encode_utf8(name), prefix),
    ensures
        search_names(v.data, shift(match_positions(v.data, seq![0u8] + prefix), prefix.len() as int)).contains(name),
{
    let d = v.data;
    let b = encode_utf8(name);
    let m = b.len() as int;
    let n = seq![0u8] + prefix;
    let k = prefix.len() as int;
    lemma_stored_run(v, offset, name);
    let q = offset - 1;
    assert(d.subrange(q, q + n.len()) =~= n) by {
        assert forall|x: int| 0 <= x < n.len() implies #[trigger] d.subrange(q, q + n.len())[x] == n[x] by {
            if x >= 1 {
                assert(d[q + x] == d.subrange(offset, offset + m)[x - 1]);
                assert(b[x - 1] == b.subrange(0, k)[x - 1]);
            }
        }
    }
    assert(occurs_at(d, n, q));
    let mp = match_positions_from(d, n, 0);
    let i = lemma_overlapping_report(d, n, 0, q);
    let p = mp[i];
    if p < q {
        assert(d[q] == d.subrange(p, p + n.len())[q - p]);
        assert(n[q - p] == prefix[q - p - 1]);
    }
    assert(p == q);
    let offs = shift(mp, k);
    crate::cache_line::lemma_match_positions_bounds(d, n, 0);
    assert(offs[i] == offset + k - 1);
    lemma_end_in_region(d, offs[i], offset + m);
    lemma_piece_of_region(d, offset, m, offs[i]);
    assert forall|j: int| 0 <= j < offs.len() && end_of(d, #[trigger] offs[j]) == offset + m implies piece(d, offs[j]) == b by {
        lemma_piece_of_region(d, offset, m, offs[j]);
    }
    lemma_dedup_has(d, offs, i, offset + m, b);
    let dd = dedup_pieces(d, offs);
    let t = choose|t: int| 0 <= t < dd.len() && dd[t] == (offset + m, b);
    vstd::utf8::encode_utf8_decode_utf8(name);
    assert(search_names(d, offs)[t] == name);
}

/// Completeness of exact search in a line: a search for a stored name's
/// bytes between zero bytes, reading each name from the closing zero byte,
/// reports that name.
pub proof fn law_line_exact_search_finds(v: CacheLineView, offset: int, name: Seq<char>)
    requires
        stored_at(v, offset, name),
        !name.contains('\0'),
    ensures
        search_names(
            v.data,
            shift(match_positions(v.data, seq![0u8] + encode_utf8(name) + seq![0u8]), encode_utf8(name).len() as int + 1),
        ).contains(name),
{
    let d = v.data;
    let b = encode_utf8(name);
    let m = b.len() as int;
    let n = seq![0u8] + b + seq![0u8];
    lemma_stored_run(v, offset, name);
    lemma_no_nul_no_zero(name);
    let mp = match_positions_from(d, n, 0);
    let i = lemma_overlapping_report(d, n, 0, offset - 1);
    let p = mp[i];
    // the reported match frames a copy of the name
    let off = p + 1;
    assert(d[p] == 0) by {
        assert(d[p] == d.subrange(p, p + n.len())[0]);
    }
    assert(d[off + m] == 0) by {
        assert(d[off + m] == d.subrange(p, p + n.len())[m + 1]);
    }
    assert forall|j: int| off <= j < off + m implies #[trigger] d[j] != 0 by {
        assert(d[j] == d.subrange(p, p + n.len())[j - p]);
        assert(n[j - p] == b[j - p - 1]);
    }
    assert(d.subrange(off, off + m) =~= b) by {
        assert forall|x: int| 0 <= x < m implies #[trigger] d.subrange(off, off + m)[x] == b[x] by {
            assert(d[off + x] == d.subrange(p, p + n.len())[x + 1]);
        }
    }
    let offs = shift(mp, m + 1);
    crate::cache_line::lemma_match_positions_bounds(d, n, 0);
    assert(offs[i] == off + m);
    lemma_end_in_region(d, offs[i], off + m);
    lemma_piece_of_region(d, off, m, offs[i]);
    assert forall|j: int| 0 <= j < offs.len() && end_of(d, #[trigger] offs[j]) == off + m implies piece(d, offs[j]) == b by {
        lemma_piece_of_region(d, off, m, offs[j]);
    }
    lemma_dedup_has(d, offs, i, off + m, b);
    let dd = dedup_pieces(d, offs);
    let t = choose|t: int| 0 <= t < dd.len() && dd[t] == (off + m, b);
    vstd::utf8::encode_utf8_decode_utf8(name);
    assert(search_names(d, offs)[t] == name);
}

} // verus!
