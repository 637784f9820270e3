//! Text primitives shared by the document store and the diagnostic rule:
//! characters of a string, UTF-16 widths, line splitting and substring search.

use vstd::prelude::*;

verus! {

/// A half-open range `[start, end)` of character indices.
#[derive(Clone, Copy, Debug)]
pub struct Span {
    pub start: usize,
    pub end: usize,
}

/// The characters of an optional string.
pub open spec fn text_view(text: Option<String>) -> Option<Seq<char>> {
    match text {
        Some(t) => Some(t@),
        None => None,
    }
}

/// Number of UTF-16 code units that encode `c`.
pub open spec fn utf16_width(c: char) -> nat {
    if (c as u32) < 0x10000 {
        1
    } else {
        2
    }
}

/// Number of UTF-16 code units that encode the whole sequence `s`.
pub open spec fn utf16_len(s: Seq<char>) -> nat
    decreases s.len(),
{
    if s.len() == 0 {
        0
    } else {
        utf16_len(s.drop_last()) + utf16_width(s.last())
    }
}

/// Number of characters before the first line feed of `s`; `s.len()` when
/// `s` holds no line feed.
pub open spec fn line_len(s: Seq<char>) -> nat
    decreases s.len(),
{
    if s.len() == 0 || s[0] == '\n' {
        0
    } else {
        1 + line_len(s.drop_first())
    }
}

/// `line` without one trailing carriage return.
pub open spec fn strip_cr(line: Seq<char>) -> Seq<char> {
    if line.len() > 0 && line.last() == '\r' {
        line.drop_last()
    } else {
        line
    }
}

/// The lines of `s`. A line ends at a line feed; a carriage return directly
/// before that line feed belongs to the terminator. A last line without a
/// terminator is kept as it stands, and a terminator at the very end opens
/// no further line.
pub open spec fn split_lines(s: Seq<char>) -> Seq<Seq<char>>
    decreases s.len(),
{
    if s.len() == 0 {
        Seq::empty()
    } else {
        let n = line_len(s) as int;
        if n < s.len() {
            seq![strip_cr(s.take(n))] + split_lines(s.skip(n + 1))
        } else {
            seq![s]
        }
    }
}

/// `needle` stands in `hay` at index `k`.
pub open spec fn occurs_at<T>(hay: Seq<T>, needle: Seq<T>, k: int) -> bool {
    &&& 0 <= k
    &&& k + needle.len() <= hay.len()
    &&& hay.subrange(k, k + needle.len()) == needle
}

/// `needle` stands in `hay` at index `k` and at no smaller index.
pub open spec fn is_first_occurrence<T>(hay: Seq<T>, needle: Seq<T>, k: int) -> bool {
    &&& occurs_at(hay, needle, k)
    &&& forall|j: int| 0 <= j < k ==> !occurs_at(hay, needle, j)
}

/// The smallest index at which `needle` stands in `hay`, if there is one.
pub open spec fn first_occurrence<T>(hay: Seq<T>, needle: Seq<T>) -> Option<int> {
    if exists|k: int| is_first_occurrence(hay, needle, k) {
        Some(choose|k: int| is_first_occurrence(hay, needle, k))
    } else {
        None
    }
}

/// The texts that `spans` cut out of `chars`.
pub open spec fn span_texts(chars: Seq<char>, spans: Seq<Span>) -> Seq<Seq<char>> {
    Seq::new(spans.len(), |i: int| chars.subrange(spans[i].start as int, spans[i].end as int))
}

pub proof fn lemma_utf16_len_concat(a: Seq<char>, b: Seq<char>)
    ensures
        utf16_len(a + b) == utf16_len(a) + utf16_len(b),
    decreases b.len(),
{
    if b.len() == 0 {
        assert(a + b =~= a);
    } else {
        assert((a + b).drop_last() =~= a + b.drop_last());
        lemma_utf16_len_concat(a, b.drop_last());
    }
}

pub proof fn lemma_utf16_len_bounds(s: Seq<char>)
    ensures
        s.len() <= utf16_len(s) <= 2 * s.len(),
    decreases s.len(),
{
    if s.len() > 0 {
        lemma_utf16_len_bounds(s.drop_last());
    }
}

/// A longer prefix never encodes to fewer code units.
pub proof fn lemma_utf16_len_prefix(s: Seq<char>, i: int, j: int)
    requires
        0 <= i <= j <= s.len(),
    ensures
        utf16_len(s.take(i)) + (j - i) <= utf16_len(s.take(j)),
{
    assert(s.take(j) =~= s.take(i) + s.subrange(i, j));
    lemma_utf16_len_concat(s.take(i), s.subrange(i, j));
    lemma_utf16_len_bounds(s.subrange(i, j));
}

/// `line_len` is the index of the first line feed, or the length.
pub proof fn lemma_line_len_is(s: Seq<char>, k: int)
    requires
        0 <= k <= s.len(),
        forall|j: int| 0 <= j < k ==> s[j] != '\n',
        k == s.len() || s[k] == '\n',
    ensures
        line_len(s) == k,
    decreases k,
{
    if k > 0 {
        let t = s.drop_first();
        assert forall|j: int| 0 <= j < k - 1 implies t[j] != '\n' by {
            assert(t[j] == s[j + 1]);
        }
        lemma_line_len_is(t, k - 1);
    }
}

pub proof fn lemma_line_len_props(s: Seq<char>)
    ensures
        line_len(s) <= s.len(),
        forall|j: int| 0 <= j < line_len(s) ==> s[j] != '\n',
        line_len(s) < s.len() ==> s[line_len(s) as int] == '\n',
    decreases s.len(),
{
    if s.len() == 0 || s[0] == '\n' {
    } else {
        let t = s.drop_first();
        lemma_line_len_props(t);
        assert forall|j: int| 0 <= j < line_len(s) implies s[j] != '\n' by {
            if j > 0 {
                assert(s[j] == t[j - 1]);
            }
        }
    }
}

/// An index that is a first occurrence is the first occurrence.
pub proof fn lemma_first_occurrence_is<T>(hay: Seq<T>, needle: Seq<T>, k: int)
    requires
        is_first_occurrence(hay, needle, k),
    ensures
        first_occurrence(hay, needle) == Some(k),
{
    let m = choose|m: int| is_first_occurrence(hay, needle, m);
    if m < k {
        assert(!occurs_at(hay, needle, m));
    }
    if k < m {
        assert(!occurs_at(hay, needle, k));
    }
}

/// Where `needle` occurs at all, it has a first occurrence, which is no
/// later than any other.
pub proof fn lemma_first_occurrence_exists<T>(hay: Seq<T>, needle: Seq<T>, k: int)
    requires
        occurs_at(hay, needle, k),
    ensures
        first_occurrence(hay, needle) is Some,
        first_occurrence(hay, needle)->0 <= k,
        is_first_occurrence(hay, needle, first_occurrence(hay, needle)->0),
    decreases k,
{
    if exists|j: int| 0 <= j < k && occurs_at(hay, needle, j) {
        let j = choose|j: int| 0 <= j < k && occurs_at(hay, needle, j);
        lemma_first_occurrence_exists(hay, needle, j);
    } else {
        assert(is_first_occurrence(hay, needle, k));
        lemma_first_occurrence_is(hay, needle, k);
    }
}

/// Without any occurrence there is no first one.
pub proof fn lemma_first_occurrence_none<T>(hay: Seq<T>, needle: Seq<T>)
    requires
        forall|k: int| !occurs_at(hay, needle, k),
    ensures
        first_occurrence(hay, needle) is None,
{
}

/// The characters of `s`, in order.
pub fn chars_of(s: &str) -> (v: Vec<char>)
    ensures
        v@ == s@,
{
    broadcast use vstd::string::group_string_axioms;

    let mut v: Vec<char> = Vec::new();
    for c in it: s.chars()
        invariant
            it.seq() == s@,
            v@ == s@.take(it.index()),
    {
        v.push(c);
    }
    v
}

/// Whether `a` and `b` hold the same characters.
pub fn str_eq(a: &str, b: &str) -> (r: bool)
    ensures
        r == (a@ == b@),
{
    broadcast use vstd::utf8::encode_utf8_decode_utf8;

    let x: &[u8] = a.as_bytes();
    let y: &[u8] = b.as_bytes();
    if x.len() != y.len() {
        return false;
    }
    let mut i: usize = 0;
    while i < x.len()
        invariant
            i <= x.len(),
            x.len() == y.len(),
            x@ == vstd::utf8::encode_utf8(a@),
            y@ == vstd::utf8::encode_utf8(b@),
            forall|j: int| 0 <= j < i ==> x@[j] == y@[j],
        decreases x.len() - i,
    {
        if x[i] != y[i] {
            return false;
        }
        i += 1;
    }
    proof {
        assert(x@ =~= y@);
        assert(vstd::utf8::decode_utf8(vstd::utf8::encode_utf8(a@)) == a@);
        assert(vstd::utf8::decode_utf8(vstd::utf8::encode_utf8(b@)) == b@);
    }
    true
}

/// Appends one character with `String::push`: afterwards the string holds
/// its former characters followed by `c`.
#[verifier::external_body]
fn push_char(s: &mut String, c: char)
    ensures
        final(s)@ == old(s)@.push(c),
{
    s.push(c);
}

/// The string made of `chars`, in order.
pub fn string_of(chars: &Vec<char>) -> (s: String)
    ensures
        s@ == chars@,
{
    let mut s: String = String::new();
    let mut i: usize = 0;
    while i < chars.len()
        invariant
            i <= chars.len(),
            s@ == chars@.take(i as int),
        decreases chars.len() - i,
    {
        push_char(&mut s, chars[i]);
        i += 1;
    }
    s
}

/// Appends `src[from..to]` to `out`.
pub(crate) fn append_range(out: &mut Vec<char>, src: &Vec<char>, from: usize, to: usize)
    requires
        from <= to <= src.len(),
    ensures
        final(out)@ == old(out)@ + src@.subrange(from as int, to as int),
{
    let mut i: usize = from;
    while i < to
        invariant
            from <= i <= to <= src.len(),
            out@ == old(out)@ + src@.subrange(from as int, i as int),
        decreases to - i,
    {
        out.push(src[i]);
        i += 1;
    }
}

/// Number of UTF-16 code units that encode `c`.
pub fn utf16_units(c: char) -> (w: u32)
    ensures
        w == utf16_width(c),
{
    if (c as u32) < 0x10000 {
        1
    } else {
        2
    }
}

/// Number of UTF-16 code units that encode `chars[start..end]`, or `None`
/// when that number does not fit in `u32`.
pub(crate) fn utf16_offset(chars: &Vec<char>, start: usize, end: usize) -> (r: Option<u32>)
    requires
        start <= end <= chars.len(),
    ensures
        match r {
            Some(n) => n == utf16_len(chars@.subrange(start as int, end as int)),
            None => utf16_len(chars@.subrange(start as int, end as int)) > u32::MAX,
        },
{
    let ghost whole = chars@.subrange(start as int, end as int);
    let mut acc: u32 = 0;
    let mut i: usize = start;
    while i < end
        invariant
            start <= i <= end <= chars.len(),
            whole == chars@.subrange(start as int, end as int),
            acc == utf16_len(chars@.subrange(start as int, i as int)),
        decreases end - i,
    {
        let w: u32 = utf16_units(chars[i]);
        proof {
            let before = chars@.subrange(start as int, i as int);
            let after = chars@.subrange(start as int, i + 1);
            assert(after.drop_last() =~= before);
            assert(after.last() == chars@[i as int]);
            assert(whole.take(i + 1 - start) =~= after);
            assert(whole.take(whole.len() as int) =~= whole);
            lemma_utf16_len_prefix(whole, i + 1 - start, whole.len() as int);
        }
        match acc.checked_add(w) {
            Some(next) => {
                acc = next;
            },
            None => {
                return None;
            },
        }
        i += 1;
    }
    Some(acc)
}

/// Whether `needle` stands in `chars` at index `k`.
pub fn has_at(chars: &Vec<char>, k: usize, needle: &Vec<char>) -> (r: bool)
    ensures
        r == occurs_at(chars@, needle@, k as int),
{
    let m: usize = needle.len();
    if m > chars.len() || k > chars.len() - m {
        return false;
    }
    let ghost window = chars@.subrange(k as int, k + m);
    let mut i: usize = 0;
    while i < m
        invariant
            i <= m,
            m == needle.len(),
            k + m <= chars.len(),
            window == chars@.subrange(k as int, k + m),
            forall|j: int| 0 <= j < i ==> window[j] == needle@[j],
        decreases m - i,
    {
        if chars[k + i] != needle[i] {
            assert(window[i as int] != needle@[i as int]);
            return false;
        }
        i += 1;
    }
    assert(window =~= needle@);
    true
}

/// The first index at which `needle` stands in `hay`.
pub fn find_first(hay: &Vec<char>, needle: &Vec<char>) -> (r: Option<usize>)
    ensures
        match r {
            Some(k) => first_occurrence(hay@, needle@) == Some(k as int),
            None => first_occurrence(hay@, needle@) is None,
        },
{
    assert(hay@.subrange(0, hay@.len() as int) =~= hay@);
    find_in(hay, Span { start: 0, end: hay.len() }, needle)
}

/// The first index in `span` at which `needle` stands wholly inside `span`.
pub(crate) fn find_in(chars: &Vec<char>, span: Span, needle: &Vec<char>) -> (r: Option<usize>)
    requires
        span.start <= span.end <= chars.len(),
    ensures
        match r {
            Some(k) => span.start <= k <= span.end && first_occurrence(
                chars@.subrange(span.start as int, span.end as int),
                needle@,
            ) == Some(k - span.start),
            None => first_occurrence(
                chars@.subrange(span.start as int, span.end as int),
                needle@,
            ) is None,
        },
{
    let ghost hay = chars@.subrange(span.start as int, span.end as int);
    let m: usize = needle.len();
    if m == 0 {
        proof {
            assert(hay.subrange(0, 0) =~= needle@);
            lemma_first_occurrence_is(hay, needle@, 0);
        }
        return Some(span.start);
    }
    let mut k: usize = span.start;
    while span.end - k >= m
        invariant
            span.start <= k <= span.end <= chars.len(),
            m == needle.len(),
            m > 0,
            hay == chars@.subrange(span.start as int, span.end as int),
            forall|j: int| 0 <= j < k - span.start ==> !occurs_at(hay, needle@, j),
        decreases span.end - k,
    {
        let found: bool = has_at(chars, k, needle);
        proof {
            assert(hay.subrange(k - span.start, k - span.start + m) =~= chars@.subrange(
                k as int,
                k + m,
            ));
            assert(found == occurs_at(hay, needle@, k - span.start));
        }
        if found {
            proof {
                lemma_first_occurrence_is(hay, needle@, k - span.start);
            }
            return Some(k);
        }
        k += 1;
    }
    proof {
        lemma_first_occurrence_none(hay, needle@);
    }
    None
}

/// The spans of the lines of `chars`, terminators left out.
pub fn line_spans(chars: &Vec<char>) -> (spans: Vec<Span>)
    ensures
        span_texts(chars@, spans@) == split_lines(chars@),
        forall|i: int|
            0 <= i < spans.len() ==> (#[trigger] spans[i]).start <= spans[i].end <= chars.len(),
{
    let n: usize = chars.len();
    let mut spans: Vec<Span> = Vec::new();
    let mut start: usize = 0;
    let mut i: usize = 0;
    proof {
        assert(chars@.skip(0) =~= chars@);
        assert(span_texts(chars@, spans@) + split_lines(chars@) =~= split_lines(chars@));
    }
    while i < n
        invariant
            start <= i <= n,
            n == chars.len(),
            forall|j: int| start <= j < i ==> chars@[j] != '\n',
            split_lines(chars@) == span_texts(chars@, spans@) + split_lines(
                chars@.skip(start as int),
            ),
            forall|j: int|
                0 <= j < spans.len() ==> (#[trigger] spans[j]).start <= spans[j].end
                    <= chars.len(),
        decreases n - i,
    {
        if chars[i] == '\n' {
            let end: usize = if i > start && chars[i - 1] == '\r' {
                i - 1
            } else {
                i
            };
            let ghost rest = chars@.skip(start as int);
            let ghost done = span_texts(chars@, spans@);
            proof {
                assert forall|j: int| 0 <= j < i - start implies rest[j] != '\n' by {
                    assert(rest[j] == chars@[start + j]);
                }
                lemma_line_len_is(rest, i - start);
                assert(rest.take(i - start) =~= chars@.subrange(start as int, i as int));
                assert(strip_cr(rest.take(i - start)) =~= chars@.subrange(
                    start as int,
                    end as int,
                ));
                assert(rest.skip(i - start + 1) =~= chars@.skip(i + 1));
            }
            spans.push(Span { start, end });
            proof {
                assert(span_texts(chars@, spans@) =~= done + seq![
                    chars@.subrange(start as int, end as int),
                ]);
                assert(split_lines(chars@) =~= span_texts(chars@, spans@) + split_lines(
                    chars@.skip(i + 1),
                ));
            }
            start = i + 1;
        }
        i += 1;
    }
    let ghost rest = chars@.skip(start as int);
    let ghost done = span_texts(chars@, spans@);
    if start < n {
        proof {
            assert forall|j: int| 0 <= j < n - start implies rest[j] != '\n' by {
                assert(rest[j] == chars@[start + j]);
            }
            lemma_line_len_is(rest, n - start);
            assert(rest =~= chars@.subrange(start as int, n as int));
        }
        spans.push(Span { start, end: n });
        proof {
            assert(span_texts(chars@, spans@) =~= done + seq![rest]);
        }
    } else {
        proof {
            assert(done + split_lines(rest) =~= done);
        }
    }
    spans
}

} // verus!
