use vstd::prelude::*;
use vstd::utf8::{encode_utf8, decode_utf8};
use vstd::string::StringSliceAdditionalSpecFns;
use crate::cache_line::{
    CacheLine, CacheLineView, stored_at, piece, end_of, begin_of, search_names, shift,
    match_positions, strs_view, lemma_no_nul_no_zero,
};

verus! {

broadcast use vstd::string::group_string_axioms;

/// The capacity of the lines of a default pool: 16 MiB.
pub const CACHE_LINE_CAPACITY: usize = 16777216;

/// A pool of names in fixed-capacity lines. A name is added to the last
/// line, or to a new line when the last one is full; where a name was put
/// never changes.
pub struct NamePool<const CAPACITY: usize> {
    lines: Vec<CacheLine<CAPACITY>>,
}

/// A pool whose lines have the default capacity.
pub type DefaultNamePool = NamePool<16777216>;

/// Every used byte of `a` is still there in `b`.
pub open spec fn line_extends(a: CacheLineView, b: CacheLineView) -> bool {
    &&& a.len <= b.len
    &&& a.len <= a.data.len()
    &&& b.len <= b.data.len()
    &&& b.data.subrange(0, a.len) == a.data.subrange(0, a.len)
}

/// Every line of `a` is extended by the same line of `b`.
pub open spec fn pool_extends(a: Seq<CacheLineView>, b: Seq<CacheLineView>) -> bool {
    &&& a.len() <= b.len()
    &&& forall|i: int| 0 <= i < a.len() ==> line_extends(#[trigger] a[i], b[i])
}

/// A line after `b` and a zero byte are appended to its used part.
pub open spec fn line_after_push(o: CacheLineView, b: Seq<u8>, capacity: int) -> CacheLineView {
    CacheLineView {
        data: o.data.subrange(0, o.len) + b + o.data.subrange(o.len + b.len(), capacity),
        len: o.len + b.len() + 1,
    }
}

/// A fresh line: zeros, with only the leading guard in use.
pub open spec fn empty_line(capacity: int) -> CacheLineView {
    CacheLineView { data: Seq::new(capacity as nat, |i: int| 0u8), len: 1 }
}

/// `name` is stored in line `line` at `offset`.
pub open spec fn pool_stored(p: Seq<CacheLineView>, line: int, offset: int, name: Seq<char>) -> bool {
    0 <= line < p.len() && stored_at(p[line], offset, name)
}

/// The names a search of every line reports, line after line, for the
/// occurrences of `needle` moved on by `k`.
pub open spec fn pool_search_names(p: Seq<CacheLineView>, needle: Seq<u8>, k: int) -> Seq<Seq<char>>
    decreases p.len(),
{
    if p.len() == 0 {
        Seq::empty()
    } else {
        pool_search_names(p.drop_last(), needle, k) + search_names(
            p.last().data,
            shift(match_positions(p.last().data, needle), k),
        )
    }
}

/// The used bytes of all lines.
pub open spec fn pool_total(p: Seq<CacheLineView>) -> int
    decreases p.len(),
{
    if p.len() == 0 {
        0
    } else {
        pool_total(p.drop_last()) + p.last().len
    }
}

/// A stored name stays stored when its line is extended.
pub proof fn lemma_stored_survives(a: CacheLineView, b: CacheLineView, offset: int, name: Seq<char>)
    requires
        line_extends(a, b),
        stored_at(a, offset, name),
    ensures
        stored_at(b, offset, name),
{
    let n = encode_utf8(name).len();
    assert(b.data[offset - 1] == b.data.subrange(0, a.len)[offset - 1]);
    assert(b.data[offset + n] == b.data.subrange(0, a.len)[offset + n]);
    assert(b.data.subrange(offset, offset + n) =~= a.data.subrange(offset, offset + n)) by {
        assert forall|j: int| 0 <= j < n implies #[trigger] b.data.subrange(offset, offset + n)[j] == a.data.subrange(offset, offset + n)[j] by {
            assert(b.data[offset + j] == b.data.subrange(0, a.len)[offset + j]);
            assert(a.data[offset + j] == a.data.subrange(0, a.len)[offset + j]);
        }
    }
}

/// Reading at the offset of a stored name without NUL characters gives
/// back exactly that name.
pub proof fn lemma_read_stored(v: CacheLineView, offset: int, name: Seq<char>)
    requires
        stored_at(v, offset, name),
        !name.contains('\0'),
    ensures
        end_of(v.data, offset) == offset + encode_utf8(name).len(),
        piece(v.data, offset) == encode_utf8(name),
        decode_utf8(piece(v.data, offset)) == name,
{
    let b = encode_utf8(name);
    lemma_no_nul_no_zero(name);
    assert forall|j: int| offset <= j < offset + b.len() implies #[trigger] v.data[j] != 0 by {
        assert(v.data[j] == v.data.subrange(offset, offset + b.len())[j - offset]);
        assert(v.data.subrange(offset, offset + b.len())[j - offset] == b[j - offset]);
    }
    lemma_end_scan(v.data, offset, offset + b.len());
    if b.len() > 0 {
        lemma_begin_scan(v.data, offset, offset);
    }
    assert(begin_of(v.data, offset) == offset) by {
        lemma_begin_scan(v.data, offset, offset);
    }
    vstd::utf8::encode_utf8_decode_utf8(name);
}

proof fn lemma_end_scan(data: Seq<u8>, from: int, stop: int)
    requires
        0 <= from <= stop < data.len(),
        data[stop] == 0,
        forall|j: int| from <= j < stop ==> #[trigger] data[j] != 0,
    ensures
        end_of(data, from) == stop,
    decreases stop - from,
{
    if from < stop {
        lemma_end_scan(data, from + 1, stop);
    }
}

proof fn lemma_begin_scan(data: Seq<u8>, offset: int, i: int)
    requires
        1 <= offset == i <= data.len(),
        data[offset - 1] == 0,
    ensures
        begin_of(data, i) == offset,
{
}


/// Where a name was put, it stays: a pool that extends another keeps every
/// name the other stored, at the same line and offset.
pub proof fn law_pool_stored_stable(a: Seq<CacheLineView>, b: Seq<CacheLineView>, line: int, offset: int, name: Seq<char>)
    requires
        pool_extends(a, b),
        pool_stored(a, line, offset, name),
    ensures
        pool_stored(b, line, offset, name),
{
    assert(line_extends(a[line], b[line]));
    lemma_stored_survives(a[line], b[line], offset, name);
}

/// Reading a stored name without NUL characters at its line and offset
/// gives the name back.
pub proof fn law_pool_get_reads_stored(p: Seq<CacheLineView>, line: int, offset: int, name: Seq<char>)
    requires
        pool_stored(p, line, offset, name),
        !name.contains('\0'),
    ensures
        decode_utf8(piece(p[line].data, offset)) == name,
{
    lemma_read_stored(p[line], offset, name);
}

/// A search for a non-empty needle without zero bytes reports every
/// stored name without NUL characters that contains the needle.
pub proof fn law_pool_search_finds(p: Seq<CacheLineView>, line: int, offset: int, name: Seq<char>, needle: Seq<u8>)
    requires
        pool_stored(p, line, offset, name),
        !name.contains('\0'),
        needle.len() > 0,
        crate::search_laws::zero_free(needle),
        crate::text::bytes_contain(encode_utf8(name), needle),
    ensures
        pool_search_names(p, needle, 0).contains(name),
{
    crate::search_laws::law_line_search_finds_stored_name(p[line], offset, name, needle);
    lemma_pool_search_has_line(p, line, needle, 0, name);
}

/// A name that the search of one line reports is among those the search of
/// the whole pool reports.
proof fn lemma_pool_search_has_line(p: Seq<CacheLineView>, line: int, needle: Seq<u8>, k: int, name: Seq<char>)
    requires
        0 <= line < p.len(),
        search_names(p[line].data, shift(match_positions(p[line].data, needle), k)).contains(name),
    ensures
        pool_search_names(p, needle, k).contains(name),
    decreases p.len(),
{
    let prev = p.drop_last();
    let last = search_names(p.last().data, shift(match_positions(p.last().data, needle), k));
    assert(pool_search_names(p, needle, k) == pool_search_names(prev, needle, k) + last);
    if line == p.len() - 1 {
        let t = choose|t: int| 0 <= t < last.len() && last[t] == name;
        assert(pool_search_names(p, needle, k)[pool_search_names(prev, needle, k).len() + t] == name);
    } else {
        assert(prev[line] == p[line]);
        lemma_pool_search_has_line(prev, line, needle, k, name);
        let t = choose|t: int| 0 <= t < pool_search_names(prev, needle, k).len() && pool_search_names(prev, needle, k)[t] == name;
        assert(pool_search_names(p, needle, k)[t] == name);
    }
}

/// A prefix search (a zero byte, then non-empty bytes without zero bytes)
/// reports every stored name without NUL characters whose bytes start with
/// those bytes.
pub proof fn law_pool_prefix_search_finds(p: Seq<CacheLineView>, line: int, offset: int, name: Seq<char>, prefix: Seq<u8>)
    requires
        pool_stored(p, line, offset, name),
        !name.contains('\0'),
        prefix.len() > 0,
        crate::search_laws::zero_free(prefix),
        crate::text::bytes_start_with(encode_utf8(name), prefix),
    ensures
        pool_search_names(p, seq![0u8] + prefix, prefix.len() as int).contains(name),
{
    crate::search_laws::law_line_prefix_search_finds(p[line], offset, name, prefix);
    lemma_pool_search_has_line(p, line, seq![0u8] + prefix, prefix.len() as int, name);
}

/// An exact search for a stored name without NUL characters (its bytes
/// between zero bytes) reports that name.
pub proof fn law_pool_exact_search_finds(p: Seq<CacheLineView>, line: int, offset: int, name: Seq<char>)
    requires
        pool_stored(p, line, offset, name),
        !name.contains('\0'),
    ensures
        pool_search_names(p, seq![0u8] + encode_utf8(name) + seq![0u8], encode_utf8(name).len() as int + 1).contains(name),
{
    crate::search_laws::law_line_exact_search_finds(p[line], offset, name);
    lemma_pool_search_has_line(p, line, seq![0u8] + encode_utf8(name) + seq![0u8], encode_utf8(name).len() as int + 1, name);
}

/// `n` is `o` after a push: unchanged, or with some bytes and a zero byte
/// appended to its used part within the capacity.
pub open spec fn pushed(o: CacheLineView, n: CacheLineView, capacity: int) -> bool {
    n == o || exists|b: Seq<u8>| o.len + b.len() + 1 <= capacity && #[trigger] line_after_push(o, b, capacity) == n
}

proof fn lemma_pushed_extends(o: CacheLineView, n: CacheLineView, capacity: int)
    requires
        1 <= o.len <= capacity,
        o.data.len() == capacity,
        pushed(o, n, capacity),
    ensures
        line_extends(o, n),
        n.data.len() == capacity,
        1 <= n.len <= capacity,
{
    if n != o {
        let b = choose|b: Seq<u8>| o.len + b.len() + 1 <= capacity && #[trigger] line_after_push(o, b, capacity) == n;
        assert(n.data.subrange(0, o.len) =~= o.data.subrange(0, o.len));
    }
}

/// Read-back after any number of pushes: a name without NUL characters
/// stored in a line at `offset` is still read there, with its end, after
/// each further push into that line.
pub proof fn law_line_get_after_pushes(history: Seq<CacheLineView>, capacity: int, offset: int, name: Seq<char>)
    requires
        history.len() >= 1,
        1 <= history[0].len <= capacity,
        history[0].data.len() == capacity,
        stored_at(history[0], offset, name),
        !name.contains('\0'),
        forall|i: int| 0 <= i < history.len() - 1 ==> pushed(#[trigger] history[i], history[i + 1], capacity),
    ensures
        end_of(history.last().data, offset) == offset + encode_utf8(name).len(),
        decode_utf8(piece(history.last().data, offset)) == name,
    decreases history.len(),
{
    if history.len() == 1 {
        lemma_read_stored(history[0], offset, name);
    } else {
        let prev = history.drop_last();
        assert forall|i: int| 0 <= i < prev.len() - 1 implies pushed(#[trigger] prev[i], prev[i + 1], capacity) by {
            assert(prev[i] == history[i] && prev[i + 1] == history[i + 1]);
        }
        lemma_line_chain(prev, capacity, offset, name);
        let k = history.len() - 2;
        assert(pushed(history[k], history[k + 1], capacity));
        lemma_pushed_extends(prev.last(), history.last(), capacity);
        lemma_stored_survives(prev.last(), history.last(), offset, name);
        lemma_read_stored(history.last(), offset, name);
    }
}

/// Along a chain of pushes, the line stays well sized and keeps the name.
proof fn lemma_line_chain(history: Seq<CacheLineView>, capacity: int, offset: int, name: Seq<char>)
    requires
        history.len() >= 1,
        1 <= history[0].len <= capacity,
        history[0].data.len() == capacity,
        stored_at(history[0], offset, name),
        forall|i: int| 0 <= i < history.len() - 1 ==> pushed(#[trigger] history[i], history[i + 1], capacity),
    ensures
        1 <= history.last().len <= capacity,
        history.last().data.len() == capacity,
        stored_at(history.last(), offset, name),
    decreases history.len(),
{
    if history.len() > 1 {
        let prev = history.drop_last();
        assert forall|i: int| 0 <= i < prev.len() - 1 implies pushed(#[trigger] prev[i], prev[i + 1], capacity) by {
            assert(prev[i] == history[i] && prev[i + 1] == history[i + 1]);
        }
        lemma_line_chain(prev, capacity, offset, name);
        let k = history.len() - 2;
        assert(pushed(history[k], history[k + 1], capacity));
        lemma_pushed_extends(prev.last(), history.last(), capacity);
        lemma_stored_survives(prev.last(), history.last(), offset, name);
    }
}

/// Read-back after any number of pushes into the pool: a name without NUL
/// characters stored at (line, offset) is read there after every later
/// push, each of which extends the pool.
pub proof fn law_pool_get_after_pushes(history: Seq<Seq<CacheLineView>>, line: int, offset: int, name: Seq<char>)
    requires
        history.len() >= 1,
        pool_stored(history[0], line, offset, name),
        !name.contains('\0'),
        forall|i: int| 0 <= i < history.len() - 1 ==> pool_extends(#[trigger] history[i], history[i + 1]),
    ensures
        pool_stored(history.last(), line, offset, name),
        decode_utf8(piece(history.last()[line].data, offset)) == name,
    decreases history.len(),
{
    if history.len() > 1 {
        let prev = history.drop_last();
        assert forall|i: int| 0 <= i < prev.len() - 1 implies pool_extends(#[trigger] prev[i], prev[i + 1]) by {
            assert(prev[i] == history[i] && prev[i + 1] == history[i + 1]);
        }
        law_pool_get_after_pushes(prev, line, offset, name);
        let k = history.len() - 2;
        assert(pool_extends(history[k], history[k + 1]));
        law_pool_stored_stable(prev.last(), history.last(), line, offset, name);
    }
    lemma_read_stored(history.last()[line], offset, name);
}

/// Every name a search for a non-empty needle without zero bytes reports
/// contains the needle, when every line holds valid UTF-8.
pub proof fn law_pool_search_sound(p: Seq<CacheLineView>, needle: Seq<u8>)
    requires
        forall|i: int| 0 <= i < p.len() ==> vstd::utf8::valid_utf8(#[trigger] p[i].data),
        needle.len() > 0,
        crate::search_laws::zero_free(needle),
    ensures
        forall|k: int| 0 <= k < pool_search_names(p, needle, 0).len() ==> crate::text::bytes_contain(encode_utf8(#[trigger] pool_search_names(p, needle, 0)[k]), needle),
    decreases p.len(),
{
    if p.len() > 0 {
        let prev = p.drop_last();
        assert forall|i: int| 0 <= i < prev.len() implies vstd::utf8::valid_utf8(#[trigger] prev[i].data) by {
            assert(prev[i] == p[i]);
        }
        law_pool_search_sound(prev, needle);
        assert(vstd::utf8::valid_utf8(p[p.len() - 1].data));
        crate::search_laws::law_line_search_is_sound(p.last(), needle);
        let a = pool_search_names(prev, needle, 0);
        let last = search_names(p.last().data, shift(match_positions(p.last().data, needle), 0));
        let all = pool_search_names(p, needle, 0);
        assert(all == a + last);
        assert forall|k: int| 0 <= k < all.len() implies crate::text::bytes_contain(encode_utf8(#[trigger] all[k]), needle) by {
            if k < a.len() {
                assert(all[k] == a[k]);
            } else {
                assert(all[k] == last[k - a.len()]);
            }
        }
    }
}

impl<const CAPACITY: usize> NamePool<CAPACITY> {
    pub closed spec fn view(&self) -> Seq<CacheLineView> {
        Seq::new(self.lines@.len(), |i: int| self.lines@[i].view())
    }

    /// At least one line, each well formed.
    pub closed spec fn wf(&self) -> bool {
        &&& self.lines@.len() >= 1
        &&& forall|i: int| 0 <= i < self.lines@.len() ==> (#[trigger] self.lines@[i]).wf()
    }

    pub fn new() -> (r: Self)
        ensures
            r.wf(),
            r@.len() == 1,
            r@[0].len == 1,
    {
        let mut lines: Vec<CacheLine<CAPACITY>> = Vec::new();
        lines.push(CacheLine::new());
        NamePool { lines }
    }

    /// Every line of a well-formed pool holds valid UTF-8.
    pub proof fn lemma_lines_valid(&self)
        requires
            self.wf(),
        ensures
            forall|i: int| 0 <= i < self@.len() ==> vstd::utf8::valid_utf8(#[trigger] self@[i].data),
    {
        assert forall|i: int| 0 <= i < self@.len() implies vstd::utf8::valid_utf8(#[trigger] self@[i].data) by {
            assert(self.lines@[i].wf());
            if CAPACITY == 0 {
                assert(self@[i].data =~= Seq::<u8>::empty());
            }
        }
    }

    /// The number of lines.
    pub fn num_lines(&self) -> (r: usize)
        ensures
            r == self@.len(),
    {
        self.lines.len()
    }

    /// The used bytes of all lines together.
    pub fn len(&self) -> (r: usize)
        requires
            self.wf(),
            pool_total(self@) <= usize::MAX,
        ensures
            r == pool_total(self@),
    {
        let mut total: usize = 0;
        let mut i: usize = 0;
        while i < self.lines.len()
            invariant
                i <= self@.len(),
                self.wf(),
                pool_total(self@) <= usize::MAX,
                total == pool_total(self@.take(i as int)),
            decreases self@.len() - i,
        {
            proof {
                assert(self@.take(i + 1).drop_last() =~= self@.take(i as int));
                lemma_total_prefix(self@, i + 1);
            }
            total = total + self.lines[i].len();
            i = i + 1;
        }
        assert(self@.take(self@.len() as int) =~= self@);
        total
    }

    /// Adds `name` to the last line, or to a new line when the last one has
    /// no room; returns (line, offset). Earlier names stay where they are.
    pub fn push(&mut self, name: &str) -> (r: (usize, usize))
        requires
            old(self).wf(),
            encode_utf8(name@).len() + 2 <= CAPACITY,
        ensures
            final(self).wf(),
            pool_extends(old(self)@, final(self)@),
            pool_stored(final(self)@, r.0 as int, r.1 as int, name@),
            r.0 == final(self)@.len() - 1,
            final(self)@.len() == old(self)@.len() || final(self)@.len() == old(self)@.len() + 1,
            final(self)@.len() == old(self)@.len() <==> old(self)@.last().len + encode_utf8(name@).len() + 1 <= CAPACITY,
            ({
                let o = old(self)@;
                let b = encode_utf8(name@);
                &&& o.last().len + b.len() + 1 <= CAPACITY ==> r.1 == o.last().len
                    && final(self)@ == o.update(o.len() - 1, line_after_push(o.last(), b, CAPACITY as int))
                &&& o.last().len + b.len() + 1 > CAPACITY ==> r.1 == 1
                    && final(self)@ == o.push(line_after_push(empty_line(CAPACITY as int), b, CAPACITY as int))
            }),
    {
        let last = self.lines.len() - 1;
        let ghost old_view = self@;
        let mut line = self.lines.pop().unwrap();
        assert(line.wf());
        assert(line.view() == old_view.last());
        let ghost old_line = line.view();
        match line.push(name) {
            Some(ptr) => {
                self.lines.push(line);
                proof {
                    assert(self@.len() == old_view.len());
                    assert forall|i: int| 0 <= i < old_view.len() implies line_extends(#[trigger] old_view[i], self@[i]) by {
                        if i == last {
                            assert(self@[i] == line.view());
                            assert(line.view().data.subrange(0, old_line.len) =~= old_line.data.subrange(0, old_line.len));
                        } else {
                            assert(self@[i] == old_view[i]);
                        }
                    }
                }
                (last, ptr)
            },
            None => {
                self.lines.push(line);
                let mut fresh: CacheLine<CAPACITY> = CacheLine::new();
                let ptr = match fresh.push(name) {
                    Some(p) => p,
                    None => 1,
                };
                self.lines.push(fresh);
                proof {
                    assert forall|i: int| 0 <= i < old_view.len() implies line_extends(#[trigger] old_view[i], self@[i]) by {
                        assert(self@[i] == old_view[i]);
                    }
                    assert(self@[last + 1] == fresh.view());
                }
                (last + 1, ptr)
            },
        }
    }

    /// The name around `offset` in line `line_num`.
    pub fn get(&self, line_num: usize, offset: usize) -> (r: &str)
        requires
            self.wf(),
            line_num < self@.len(),
            offset <= CAPACITY,
        ensures
            r@ == decode_utf8(piece(self@[line_num as int].data, offset as int)),
    {
        let line = &self.lines[line_num];
        assert(line.wf());
        let (_, s) = line.get(offset);
        s
    }

    /// The names around the occurrences of `needle`, moved on by `k`, line
    /// after line.
    fn search_lines(&self, needle: &[u8], k: usize) -> (r: Vec<&str>)
        requires
            self.wf(),
            k == 0 || (needle@.len() >= 1 && k == needle@.len() - 1),
            k > 0 ==> needle@[0] == 0,
        ensures
            strs_view(r@) == pool_search_names(self@, needle@, k as int),
    {
        let mut out: Vec<&str> = Vec::new();
        let mut i: usize = 0;
        while i < self.lines.len()
            invariant
                self.wf(),
                i <= self@.len(),
                k == 0 || (needle@.len() >= 1 && k == needle@.len() - 1),
                k > 0 ==> needle@[0] == 0,
                strs_view(out@) == pool_search_names(self@.take(i as int), needle@, k as int),
            decreases self@.len() - i,
        {
            let line = &self.lines[i];
            assert(line.wf());
            assert(self@[i as int] == line.view());
            let found = if k == 0 {
                line.search_subslice(needle)
            } else {
                line.search_prefix(needle)
            };
            let ghost before = out@;
            let mut j: usize = 0;
            while j < found.len()
                invariant
                    j <= found@.len(),
                    out@ == before + found@.take(j as int),
                decreases found@.len() - j,
            {
                out.push(found[j]);
                j = j + 1;
                assert(out@ =~= before + found@.take(j as int));
            }
            proof {
                assert(found@.take(found@.len() as int) =~= found@);
                assert(self@.take(i + 1).drop_last() =~= self@.take(i as int));
                assert(self@.take(i + 1).last() == line.view());
                assert(strs_view(out@) =~= strs_view(before) + strs_view(found@));
            }
            i = i + 1;
        }
        assert(self@.take(self@.len() as int) =~= self@);
        out
    }

    /// The names containing `substr`.
    pub fn search_substr(&self, substr: &str) -> (r: Vec<&str>)
        requires
            self.wf(),
        ensures
            strs_view(r@) == pool_search_names(self@, substr.spec_bytes(), 0),
    {
        self.search_lines(substr.as_bytes(), 0)
    }

    /// The names containing the bytes `subslice`.
    pub fn search_subslice(&self, subslice: &[u8]) -> (r: Vec<&str>)
        requires
            self.wf(),
        ensures
            strs_view(r@) == pool_search_names(self@, subslice@, 0),
    {
        self.search_lines(subslice, 0)
    }

    /// The names ending with a suffix, given as its bytes followed by the
    /// terminating zero byte.
    pub fn search_suffix(&self, suffix_with_nul: &[u8]) -> (r: Vec<&str>)
        requires
            self.wf(),
        ensures
            strs_view(r@) == pool_search_names(self@, suffix_with_nul@, 0),
    {
        self.search_lines(suffix_with_nul, 0)
    }

    /// The names starting with `prefix`, given after a zero byte
    /// (`b"\0hello"`).
    pub fn search_prefix(&self, prefix: &[u8]) -> (r: Vec<&str>)
        requires
            self.wf(),
            prefix@.len() >= 1,
            prefix@[0] == 0,
        ensures
            strs_view(r@) == pool_search_names(self@, prefix@, prefix@.len() - 1),
    {
        if prefix.len() == 1 {
            self.search_lines(prefix, 0)
        } else {
            self.search_lines(prefix, prefix.len() - 1)
        }
    }

    /// The names equal to `exact`, given between zero bytes
    /// (`b"\0hello\0"`).
    pub fn search_exact(&self, exact: &[u8]) -> (r: Vec<&str>)
        requires
            self.wf(),
            exact@.len() >= 1,
            exact@[0] == 0,
            exact@[exact@.len() - 1] == 0,
        ensures
            strs_view(r@) == pool_search_names(self@, exact@, exact@.len() - 1),
    {
        if exact.len() == 1 {
            self.search_lines(exact, 0)
        } else {
            self.search_lines(exact, exact.len() - 1)
        }
    }
}

proof fn lemma_total_prefix(p: Seq<CacheLineView>, i: int)
    requires
        0 <= i <= p.len(),
        forall|j: int| 0 <= j < p.len() ==> (#[trigger] p[j]).len >= 0,
    ensures
        pool_total(p.take(i)) <= pool_total(p),
    decreases p.len() - i,
{
    if i < p.len() {
        lemma_total_prefix(p, i + 1);
        assert(p.take(i + 1).drop_last() =~= p.take(i));
    } else {
        assert(p.take(i) =~= p);
    }
}

} // verus!
