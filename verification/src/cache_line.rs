use vstd::prelude::*;
use vstd::utf8::{valid_utf8, encode_utf8, decode_utf8, is_char_boundary, is_continuation_byte, is_leading_byte_width_1};
use vstd::string::StringSliceAdditionalSpecFns;

verus! {

broadcast use vstd::string::group_string_axioms;

// ---------------------------------------------------------------------------
// Substring search (memchr::memmem)
// ---------------------------------------------------------------------------

/// The first position at or after `start` where `needle` occurs in `hay`.
pub open spec fn first_match(hay: Seq<u8>, needle: Seq<u8>, start: int) -> Option<int>
    decreases hay.len() + 1 - start,
{
    if start < 0 || start + needle.len() > hay.len() {
        None
    } else if hay.subrange(start, start + needle.len()) == needle {
        Some(start)
    } else {
        first_match(hay, needle, start + 1)
    }
}

/// The positions of the non-overlapping occurrences of `needle` in `hay`
/// from `start`, leftmost first; after a match the search resumes past it
/// (one byte on for an empty needle).
pub open spec fn match_positions_from(hay: Seq<u8>, needle: Seq<u8>, start: int) -> Seq<int>
    decreases hay.len() + 1 - start,
{
    if start < 0 || start > hay.len() {
        Seq::empty()
    } else {
        match first_match(hay, needle, start) {
            Some(p) => if start <= p && p + if needle.len() > 0 {
                needle.len() as int
            } else {
                1
            } <= hay.len() + 1 {
                seq![p] + match_positions_from(
                    hay,
                    needle,
                    p + if needle.len() > 0 {
                        needle.len() as int
                    } else {
                        1
                    },
                )
            } else {
                Seq::empty()
            },
            None => Seq::empty(),
        }
    }
}

pub open spec fn match_positions(hay: Seq<u8>, needle: Seq<u8>) -> Seq<int> {
    match_positions_from(hay, needle, 0)
}

/// `memchr::memmem::find_iter`, collected: claimed to yield the start of
/// each non-overlapping occurrence of `needle`, leftmost first, resuming the
/// search `max(needle.len(), 1)` bytes after each match, as its source does.
#[verifier::external_body]
fn memmem_find_all(haystack: &[u8], needle: &[u8]) -> (r: Vec<usize>)
    ensures
        r@.len() == match_positions(haystack@, needle@).len(),
        forall|i: int| 0 <= i < r@.len() ==> r@[i] as int == #[trigger] match_positions(haystack@, needle@)[i],
{
    memchr::memmem::find_iter(haystack, needle).collect()
}

/// `std::str::from_utf8` on bytes that are valid UTF-8: its documentation
/// says that it then returns the string those bytes encode.
#[verifier::external_body]
fn str_from_utf8(bytes: &[u8]) -> (r: &str)
    requires
        valid_utf8(bytes@),
    ensures
        r.spec_bytes() == bytes@,
{
    match std::str::from_utf8(bytes) {
        Ok(s) => s,
        Err(_) => "",
    }
}


pub proof fn lemma_match_positions_bounds(hay: Seq<u8>, needle: Seq<u8>, start: int)
    ensures
        forall|i: int| 0 <= i < match_positions_from(hay, needle, start).len() ==> {
            &&& start <= #[trigger] match_positions_from(hay, needle, start)[i]
            &&& match_positions_from(hay, needle, start)[i] + needle.len() <= hay.len()
        },
    decreases hay.len() + 1 - start,
{
    if start < 0 || start > hay.len() {
    } else {
        lemma_first_match(hay, needle, start);
        match first_match(hay, needle, start) {
            Some(p) => {
                let step = if needle.len() > 0 { needle.len() as int } else { 1 };
                if start <= p && p + step <= hay.len() + 1 {
                    lemma_match_positions_bounds(hay, needle, p + step);
                    let rest = match_positions_from(hay, needle, p + step);
                    let all = match_positions_from(hay, needle, start);
                    assert(all == seq![p] + rest);
                    assert forall|i: int| 0 <= i < all.len() implies start <= #[trigger] all[i] && all[i] + needle.len() <= hay.len() by {
                        if i > 0 {
                            assert(all[i] == rest[i - 1]);
                        }
                    }
                }
            },
            None => {},
        }
    }
}

pub proof fn lemma_first_match(hay: Seq<u8>, needle: Seq<u8>, start: int)
    ensures
        first_match(hay, needle, start) matches Some(p) ==> start <= p && p + needle.len() <= hay.len(),
    decreases hay.len() + 1 - start,
{
    if start < 0 || start + needle.len() > hay.len() {
    } else if hay.subrange(start, start + needle.len()) == needle {
    } else {
        lemma_first_match(hay, needle, start + 1);
    }
}

// ---------------------------------------------------------------------------
// Facts about UTF-8
// ---------------------------------------------------------------------------

/// Bytes below 0x80 are valid UTF-8 on their own.
pub proof fn lemma_ascii_valid(s: Seq<u8>)
    requires
        forall|i: int| 0 <= i < s.len() ==> s[i] < 0x80,
    ensures
        valid_utf8(s),
{
    assert forall|i: int| 0 <= 0 <= i < s.len() <= s.len() implies #[trigger] is_leading_byte_width_1(s[i]) by {}
    assert(s.subrange(0, 0) =~= Seq::<u8>::empty());
    vstd::utf8::partial_valid_utf8_extend_ascii_block(s, 0, s.len() as int);
    assert(s.subrange(0, s.len() as int) =~= s);
}

proof fn lemma_scalar_bytes_nonzero(c: char)
    requires
        c != '\0',
    ensures
        forall|i: int| 0 <= i < vstd::utf8::encode_scalar(c as u32).len() ==> #[trigger] vstd::utf8::encode_scalar(c as u32)[i] != 0,
{
    let v = c as u32;
    vstd::utf8::char_is_scalar(c);
    assert(v != 0);
    let w1 = (v & 0x7F) as u8;
    assert(v <= 0x7F && v != 0 ==> (v & 0x7F) as u8 != 0) by (bit_vector);
    assert((0xC0u8 | ((v >> 6) & 0x1F) as u8) != 0) by (bit_vector);
    assert((0xE0u8 | ((v >> 12) & 0x0F) as u8) != 0) by (bit_vector);
    assert((0xF0u8 | ((v >> 18) & 0x7) as u8) != 0) by (bit_vector);
    assert((0x80u8 | (v & 0x3F) as u8) != 0) by (bit_vector);
    assert((0x80u8 | ((v >> 6) & 0x3F) as u8) != 0) by (bit_vector);
    assert((0x80u8 | ((v >> 12) & 0x3F) as u8) != 0) by (bit_vector);
}

/// A string without NUL characters encodes to bytes without a zero byte.
pub proof fn lemma_no_nul_no_zero(s: Seq<char>)
    requires
        !s.contains('\0'),
    ensures
        forall|i: int| 0 <= i < encode_utf8(s).len() ==> #[trigger] encode_utf8(s)[i] != 0,
    decreases s.len(),
{
    if s.len() > 0 {
        assert(s[0] != '\0') by {
            if s[0] == '\0' {
                assert(s.contains('\0'));
            }
        }
        lemma_scalar_bytes_nonzero(s[0]);
        let rest = s.drop_first();
        assert(!rest.contains('\0')) by {
            if rest.contains('\0') {
                let k = choose|k: int| 0 <= k < rest.len() && rest[k] == '\0';
                assert(s[k + 1] == '\0');
            }
        }
        lemma_no_nul_no_zero(rest);
        let a = vstd::utf8::encode_scalar(s[0] as u32);
        assert(encode_utf8(s) == a + encode_utf8(rest));
        assert forall|i: int| 0 <= i < encode_utf8(s).len() implies #[trigger] encode_utf8(s)[i] != 0 by {
            if i < a.len() {
                assert(encode_utf8(s)[i] == a[i]);
            } else {
                assert(encode_utf8(s)[i] == encode_utf8(rest)[i - a.len()]);
            }
        }
    }
}

/// Cutting valid UTF-8 just after a zero byte and at a zero byte (or the
/// end) leaves valid UTF-8.
pub proof fn lemma_valid_between_zeros(data: Seq<u8>, begin: int, end: int)
    requires
        valid_utf8(data),
        0 <= begin <= end <= data.len(),
        begin == 0 || data[begin - 1] == 0,
        end == data.len() || data[end] == 0,
    ensures
        valid_utf8(data.subrange(begin, end)),
{
    broadcast use vstd::utf8::group_utf8_lib;

    let suffix = if begin == 0 {
        assert(data.subrange(0, data.len() as int) =~= data);
        data
    } else {
        assert(!is_continuation_byte(data[begin - 1]));
        assert(is_char_boundary(data, begin - 1));
        let s1 = data.subrange(begin - 1, data.len() as int);
        assert(valid_utf8(s1));
        assert(s1[0] == 0);
        assert(vstd::utf8::length_of_first_scalar(s1) == 1);
        assert(vstd::utf8::pop_first_scalar(s1) =~= data.subrange(begin, data.len() as int));
        data.subrange(begin, data.len() as int)
    };
    assert(suffix =~= data.subrange(begin, data.len() as int));
    assert(valid_utf8(suffix));
    let k = end - begin;
    if k < suffix.len() {
        assert(suffix[k] == 0);
        assert(!is_continuation_byte(suffix[k]));
        assert(is_char_boundary(suffix, k));
        assert(valid_utf8(suffix.subrange(0, k)));
        assert(suffix.subrange(0, k) =~= data.subrange(begin, end));
    } else {
        assert(suffix.subrange(0, k) =~= suffix);
        assert(suffix =~= data.subrange(begin, end));
    }
}

// ---------------------------------------------------------------------------
// Names stored between zero bytes
// ---------------------------------------------------------------------------

/// Where the name around `i` begins: just after the last zero byte before
/// `i`, or at 0.
pub open spec fn begin_of(data: Seq<u8>, i: int) -> int
    decreases i,
{
    if i <= 0 {
        0
    } else if data[i - 1] == 0 {
        i
    } else {
        begin_of(data, i - 1)
    }
}

/// Where the name around `i` ends: the first zero byte at or after `i`, or
/// the end of the data.
pub open spec fn end_of(data: Seq<u8>, i: int) -> int
    decreases data.len() - i,
{
    if i >= data.len() {
        data.len() as int
    } else if data[i] == 0 {
        i
    } else {
        end_of(data, i + 1)
    }
}

/// The bytes of the name around `i`.
pub open spec fn piece(data: Seq<u8>, i: int) -> Seq<u8> {
    data.subrange(begin_of(data, i), end_of(data, i))
}

pub proof fn lemma_begin_of(data: Seq<u8>, i: int)
    requires
        0 <= i <= data.len(),
    ensures
        0 <= begin_of(data, i) <= i,
        begin_of(data, i) == 0 || data[begin_of(data, i) - 1] == 0,
        forall|j: int| begin_of(data, i) <= j < i ==> data[j] != 0,
    decreases i,
{
    if i > 0 && data[i - 1] != 0 {
        lemma_begin_of(data, i - 1);
    }
}

pub proof fn lemma_end_of(data: Seq<u8>, i: int)
    requires
        0 <= i <= data.len(),
    ensures
        i <= end_of(data, i) <= data.len(),
        end_of(data, i) == data.len() || data[end_of(data, i)] == 0,
        forall|j: int| i <= j < end_of(data, i) ==> data[j] != 0,
    decreases data.len() - i,
{
    if i < data.len() && data[i] != 0 {
        lemma_end_of(data, i + 1);
    }
}

/// The pieces a search reports for the given offsets: each offset stands
/// for the name around it, and an offset whose name ends where the last
/// reported one ends is skipped. Each entry is (end, bytes).
pub open spec fn dedup_pieces(data: Seq<u8>, offsets: Seq<int>) -> Seq<(int, Seq<u8>)>
    decreases offsets.len(),
{
    if offsets.len() == 0 {
        Seq::empty()
    } else {
        let prev = dedup_pieces(data, offsets.drop_last());
        let o = offsets.last();
        let e = end_of(data, o);
        if prev.len() > 0 && prev.last().0 == e {
            prev
        } else {
            prev.push((e, piece(data, o)))
        }
    }
}

/// The names a search reports.
pub open spec fn search_names(data: Seq<u8>, offsets: Seq<int>) -> Seq<Seq<char>> {
    let d = dedup_pieces(data, offsets);
    Seq::new(d.len(), |i: int| decode_utf8(d[i].1))
}

/// Offsets moved on by `k`.
pub open spec fn shift(offsets: Seq<int>, k: int) -> Seq<int> {
    Seq::new(offsets.len(), |i: int| offsets[i] + k)
}

pub open spec fn strs_view(v: Seq<&str>) -> Seq<Seq<char>> {
    Seq::new(v.len(), |i: int| v[i]@)
}

// ---------------------------------------------------------------------------
// CacheLine
// ---------------------------------------------------------------------------

/// A fixed-capacity buffer of names, each followed by a zero byte, after a
/// leading zero guard: `\0aaa\0bbb\0\0...`.
pub struct CacheLine<const CAPACITY: usize> {
    len: usize,
    data: Vec<u8>,
}

/// The contents of a cache line: its bytes and how many of them are used.
pub struct CacheLineView {
    pub data: Seq<u8>,
    pub len: int,
}

/// `name` is stored at `offset`: its bytes start there, after a zero byte,
/// and a zero byte follows them, all within the used part.
pub open spec fn stored_at(v: CacheLineView, offset: int, name: Seq<char>) -> bool {
    let b = encode_utf8(name);
    &&& 1 <= offset
    &&& offset + b.len() < v.len
    &&& v.len <= v.data.len()
    &&& v.data[offset - 1] == 0
    &&& v.data.subrange(offset, offset + b.len()) == b
    &&& v.data[offset + b.len()] == 0
}

impl<const CAPACITY: usize> CacheLine<CAPACITY> {
    pub closed spec fn view(&self) -> CacheLineView {
        CacheLineView { data: self.data@, len: self.len as int }
    }

    /// The line's invariant: `CAPACITY` bytes, a used part that starts with
    /// the zero guard and ends with a zero byte, valid UTF-8, and zeros
    /// after the used part.
    pub open spec fn wf(&self) -> bool {
        let v = self.view();
        &&& v.data.len() == CAPACITY
        &&& 1 <= v.len
        &&& CAPACITY == 0 ==> v.len == 1
        &&& CAPACITY > 0 ==> {
            &&& v.len <= CAPACITY
            &&& v.data[0] == 0
            &&& v.data[v.len - 1] == 0
            &&& valid_utf8(v.data)
            &&& forall|i: int| v.len <= i < CAPACITY ==> #[trigger] v.data[i] == 0
        }
    }

    pub fn new() -> (r: Self)
        ensures
            r.wf(),
            r.view().len == 1,
            r.view().data == Seq::new(CAPACITY as nat, |i: int| 0u8),
    {
        let mut data: Vec<u8> = Vec::with_capacity(CAPACITY);
        while data.len() < CAPACITY
            invariant
                data@.len() <= CAPACITY,
                forall|i: int| 0 <= i < data@.len() ==> data@[i] == 0,
            decreases CAPACITY - data@.len(),
        {
            data.push(0);
        }
        let r = CacheLine { len: 1, data };
        proof {
            if CAPACITY > 0 {
                lemma_ascii_valid(r.data@);
            }
            assert(r.view().data =~= Seq::new(CAPACITY as nat, |i: int| 0u8));
        }
        r
    }

    /// The number of bytes in use, the leading guard included.
    pub fn len(&self) -> (r: usize)
        ensures
            r == self.view().len,
    {
        self.len
    }

    /// Appends `name` and a zero byte; returns where the name starts, or
    /// `None` (changing nothing) when the line has no room for both.
    pub fn push(&mut self, name: &str) -> (r: Option<usize>)
        requires
            old(self).wf(),
        ensures
            final(self).wf(),
            crate::name_pool::pushed(old(self).view(), final(self).view(), CAPACITY as int),
            ({
                let o = old(self).view();
                let n = final(self).view();
                let b = encode_utf8(name@);
                &&& (r is Some <==> o.len + b.len() + 1 <= CAPACITY)
                &&& r is None ==> n == o
                &&& r matches Some(off) ==> {
                    &&& off == o.len
                    &&& n.len == o.len + b.len() + 1
                    &&& n.data == o.data.subrange(0, o.len) + b + o.data.subrange(o.len + b.len(), CAPACITY as int)
                    &&& stored_at(n, off as int, name@)
                }
            }),
    {
        let len = self.len;
        let bytes = name.as_bytes();
        let name_len = bytes.len();
        if CAPACITY == 0 || name_len >= CAPACITY - len {
            return None;
        }
        let ghost old_data = self.data@;
        let mut k: usize = 0;
        while k < name_len
            invariant
                old(self).wf(),
                old(self).view().data == old_data,
                old(self).view().len == len,
                self.len == len,
                self.data@.len() == CAPACITY,
                bytes@ == encode_utf8(name@),
                name_len == bytes@.len(),
                len + name_len < CAPACITY,
                k <= name_len,
                forall|i: int| 0 <= i < len ==> self.data@[i] == old_data[i],
                forall|i: int| 0 <= i < k ==> self.data@[len + i] == bytes@[i],
                forall|i: int| len + k <= i < CAPACITY ==> self.data@[i] == old_data[i],
            decreases name_len - k,
        {
            self.data.set(len + k, bytes[k]);
            k = k + 1;
        }
        self.len = len + name_len + 1;
        proof {
            let d = self.data@;
            let b = bytes@;
            let tail = old_data.subrange(len + name_len, CAPACITY as int);
            assert(d =~= old_data.subrange(0, len as int) + b + tail);
            assert(d.subrange(len as int, len + name_len) =~= b);
            // validity: used prefix + name + zeros
            assert forall|i: int| 0 <= i < tail.len() implies tail[i] < 0x80 by {
                assert(tail[i] == old_data[len + name_len + i]);
            }
            lemma_ascii_valid(tail);
            let old_prefix = old_data.subrange(0, len as int);
            let zs = old_data.subrange(len as int, CAPACITY as int);
            assert forall|i: int| 0 <= i < zs.len() implies zs[i] < 0x80 by {
                assert(zs[i] == old_data[len + i]);
            }
            assert(old_data =~= old_prefix + zs);
            assert(!is_continuation_byte(old_data[len - 1]));
            {
                broadcast use vstd::utf8::group_utf8_lib;
                assert(old_data[len as int - 1] == 0);
                assert(is_char_boundary(old_data, len - 1));
                let s1 = old_data.subrange(len - 1, CAPACITY as int);
                assert(valid_utf8(s1));
                assert(s1[0] == 0);
                assert(vstd::utf8::pop_first_scalar(s1) =~= zs);
                // a zero byte is a boundary: the prefix up to `len` is valid
                if len < CAPACITY {
                    assert(old_data[len as int] == 0);
                    assert(is_char_boundary(old_data, len as int));
                    assert(valid_utf8(old_data.subrange(0, len as int)));
                } else {
                    assert(old_data.subrange(0, len as int) =~= old_data);
                }
                vstd::utf8::encode_utf8_valid_utf8(name@);
                vstd::utf8::valid_utf8_concat(old_prefix, b);
                vstd::utf8::valid_utf8_concat(old_prefix + b, tail);
                assert(valid_utf8(d));
            }
            assert(d[len + name_len] == old_data[len + name_len]);
            assert(d[0] == old_data[0]);
        }
        proof {
            let o = old(self).view();
            let b = encode_utf8(name@);
            assert(crate::name_pool::line_after_push(o, b, CAPACITY as int) == self.view());
        }
        Some(len)
    }

    /// The name around `offset`: returns where it ends (its zero byte, or the
    /// end of the data) and the name.
    pub fn get(&self, offset: usize) -> (r: (usize, &str))
        requires
            self.wf(),
            offset <= CAPACITY,
        ensures
            r.0 == end_of(self.view().data, offset as int),
            r.1.spec_bytes() == piece(self.view().data, offset as int),
            r.1@ == decode_utf8(piece(self.view().data, offset as int)),
    {
        let ghost data = self.data@;
        let mut begin: usize = offset;
        while begin > 0 && self.data[begin - 1] != 0
            invariant
                begin <= offset <= data.len(),
                data == self.data@,
                begin_of(data, offset as int) == begin_of(data, begin as int),
            decreases begin,
        {
            begin = begin - 1;
        }
        let mut end: usize = offset;
        while end < self.data.len() && self.data[end] != 0
            invariant
                offset <= end <= data.len(),
                data == self.data@,
                end_of(data, offset as int) == end_of(data, end as int),
            decreases data.len() - end,
        {
            end = end + 1;
        }
        proof {
            lemma_begin_of(data, offset as int);
            lemma_end_of(data, offset as int);
            if CAPACITY == 0 {
                assert(data.subrange(begin as int, end as int) =~= Seq::<u8>::empty());
                lemma_ascii_valid(data.subrange(begin as int, end as int));
            } else {
                lemma_valid_between_zeros(data, begin as int, end as int);
            }
        }
        let slice = vstd::slice::slice_subrange(self.data.as_slice(), begin, end);
        let s = str_from_utf8(slice);
        proof {
            vstd::utf8::decode_utf8_encode_utf8(s.spec_bytes());
            vstd::utf8::encode_utf8_decode_utf8(s@);
        }
        (end, s)
    }

    /// The names around the given offsets moved on by `k`, skipping an
    /// offset whose name ends where the last reported one ends.
    fn names_at(&self, offsets: &Vec<usize>, k: usize) -> (r: Vec<&str>)
        requires
            self.wf(),
            forall|i: int| 0 <= i < offsets@.len() ==> #[trigger] offsets@[i] + k <= CAPACITY,
        ensures
            strs_view(r@) == search_names(self.view().data, shift(Seq::new(offsets@.len(), |i: int| offsets@[i] as int), k as int)),
    {
        let ghost data = self.view().data;
        let ghost offs = shift(Seq::new(offsets@.len(), |i: int| offsets@[i] as int), k as int);
        let mut out: Vec<&str> = Vec::new();
        let mut last_end: Option<usize> = None;
        let mut i: usize = 0;
        while i < offsets.len()
            invariant
                self.wf(),
                data == self.view().data,
                offs == shift(Seq::new(offsets@.len(), |i: int| offsets@[i] as int), k as int),
                forall|i: int| 0 <= i < offsets@.len() ==> #[trigger] offsets@[i] + k <= CAPACITY,
                i <= offsets@.len(),
                out@.len() == dedup_pieces(data, offs.take(i as int)).len(),
                forall|j: int| 0 <= j < out@.len() ==> (#[trigger] out@[j])@ == decode_utf8(dedup_pieces(data, offs.take(i as int))[j].1),
                last_end is None <==> out@.len() == 0,
                last_end matches Some(e) ==> e == dedup_pieces(data, offs.take(i as int)).last().0,
            decreases offsets@.len() - i,
        {
            let o = offsets[i] + k;
            let (end, name) = self.get(o);
            let ghost prev = dedup_pieces(data, offs.take(i as int));
            proof {
                assert(offs.take(i + 1).drop_last() =~= offs.take(i as int));
                assert(offs.take(i + 1).last() == o as int);
            }
            let skip = match last_end {
                Some(e) => e == end,
                None => false,
            };
            if !skip {
                out.push(name);
                last_end = Some(end);
            }
            i = i + 1;
        }
        assert(offs.take(offsets@.len() as int) =~= offs);
        assert(strs_view(out@) =~= search_names(data, offs));
        out
    }

    /// The names containing `substr`, as `memmem` finds its occurrences.
    pub fn search_substr(&self, substr: &str) -> (r: Vec<&str>)
        requires
            self.wf(),
        ensures
            strs_view(r@) == search_names(self.view().data, shift(match_positions(self.view().data, substr.spec_bytes()), 0)),
    {
        self.search_subslice(substr.as_bytes())
    }

    /// The names containing the bytes `subslice`.
    pub fn search_subslice(&self, subslice: &[u8]) -> (r: Vec<&str>)
        requires
            self.wf(),
        ensures
            strs_view(r@) == search_names(self.view().data, shift(match_positions(self.view().data, subslice@), 0)),
    {
        let positions = memmem_find_all(self.data.as_slice(), subslice);
        proof {
            lemma_match_positions_bounds(self.data@, subslice@, 0);
            assert(Seq::new(positions@.len(), |i: int| positions@[i] as int) =~= match_positions(self.data@, subslice@));
            assert forall|i: int| 0 <= i < positions@.len() implies #[trigger] positions@[i] + 0 <= CAPACITY by {
                assert(positions@[i] as int == match_positions(self.data@, subslice@)[i]);
            }
        }
        self.names_at(&positions, 0)
    }

    /// The names ending with `suffix`, given as its bytes followed by the
    /// terminating zero byte.
    pub fn search_suffix(&self, suffix_with_nul: &[u8]) -> (r: Vec<&str>)
        requires
            self.wf(),
        ensures
            strs_view(r@) == search_names(self.view().data, shift(match_positions(self.view().data, suffix_with_nul@), 0)),
    {
        self.search_subslice(suffix_with_nul)
    }

    /// The names starting with `prefix`, given after a zero byte
    /// (`b"\0hello"`).
    pub fn search_prefix(&self, prefix: &[u8]) -> (r: Vec<&str>)
        requires
            self.wf(),
            prefix@.len() >= 1,
            prefix@[0] == 0,
        ensures
            strs_view(r@) == search_names(self.view().data, shift(match_positions(self.view().data, prefix@), prefix@.len() - 1)),
    {
        let positions = memmem_find_all(self.data.as_slice(), prefix);
        let k = prefix.len() - 1;
        proof {
            lemma_match_positions_bounds(self.data@, prefix@, 0);
            assert(Seq::new(positions@.len(), |i: int| positions@[i] as int) =~= match_positions(self.data@, prefix@));
            assert forall|i: int| 0 <= i < positions@.len() implies #[trigger] positions@[i] + k <= CAPACITY by {
                assert(positions@[i] as int == match_positions(self.data@, prefix@)[i]);
            }
        }
        self.names_at(&positions, k)
    }

    /// The names equal to `exact`, given between zero bytes
    /// (`b"\0hello\0"`).
    pub fn search_exact(&self, exact: &[u8]) -> (r: Vec<&str>)
        requires
            self.wf(),
            exact@.len() >= 1,
            exact@[0] == 0,
            exact@[exact@.len() - 1] == 0,
        ensures
            strs_view(r@) == search_names(self.view().data, shift(match_positions(self.view().data, exact@), exact@.len() - 1)),
    {
        let positions = memmem_find_all(self.data.as_slice(), exact);
        let k = exact.len() - 1;
        proof {
            lemma_match_positions_bounds(self.data@, exact@, 0);
            assert(Seq::new(positions@.len(), |i: int| positions@[i] as int) =~= match_positions(self.data@, exact@));
            assert forall|i: int| 0 <= i < positions@.len() implies #[trigger] positions@[i] + k <= CAPACITY by {
                assert(positions@[i] as int == match_positions(self.data@, exact@)[i]);
            }
        }
        self.names_at(&positions, k)
    }
}

} // verus!
