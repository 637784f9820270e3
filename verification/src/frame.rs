//! Framing of messages on the byte stream: a block of header lines, an
//! empty line, and as many bytes of content as the header announces.

use crate::text::{
    first_occurrence, lemma_first_occurrence_is, lemma_first_occurrence_none, occurs_at,
};
use vstd::prelude::*;
use vstd::slice::slice_subrange;

verus! {

/// Why bytes could not be decoded.
#[derive(Clone, Copy, Debug, PartialEq, Eq, Structural)]
pub enum DecodeError {
    /// The header block is broken, or announces another length than the
    /// content has.
    MalformedFrame,
    /// The content is no well-formed message.
    InvalidJson,
}

/// Carriage return and line feed: the end of a header line.
pub open spec fn crlf() -> Seq<u8> {
    seq![13u8, 10u8]
}

/// Colon and space: what stands between the name and the value of a header.
pub open spec fn separator() -> Seq<u8> {
    seq![58u8, 32u8]
}

/// The name of the header that announces the length: `Content-Length`.
pub open spec fn length_field() -> Seq<u8> {
    seq![
        67u8, 111u8, 110u8, 116u8, 101u8, 110u8, 116u8, 45u8, 76u8, 101u8, 110u8, 103u8, 116u8,
        104u8,
    ]
}

pub open spec fn is_digit(b: u8) -> bool {
    48 <= b <= 57
}

pub open spec fn all_digits(s: Seq<u8>) -> bool {
    forall|i: int| 0 <= i < s.len() ==> is_digit(#[trigger] s[i])
}

/// The number that the decimal digits `s` write.
pub open spec fn decimal_sum(s: Seq<u8>) -> nat
    decreases s.len(),
{
    if s.len() == 0 {
        0
    } else {
        decimal_sum(s.drop_last()) * 10 + (s.last() - 48) as nat
    }
}

/// The number that `s` writes, if `s` is one decimal digit or more.
pub open spec fn decimal_value(s: Seq<u8>) -> Option<nat> {
    if s.len() > 0 && all_digits(s) {
        Some(decimal_sum(s))
    } else {
        None
    }
}

/// The decimal digits of `n`, without leading zeros.
pub open spec fn decimal_digits(n: nat) -> Seq<u8>
    decreases n,
{
    if n < 10 {
        seq![(48 + n) as u8]
    } else {
        decimal_digits(n / 10).push((48 + n % 10) as u8)
    }
}

/// Name and value of the header line `line`: what stands before and behind
/// its first separator.
pub open spec fn header_field(line: Seq<u8>) -> Option<(Seq<u8>, Seq<u8>)> {
    match first_occurrence(line, separator()) {
        Some(k) => Some((line.take(k), line.skip(k + 2))),
        None => None,
    }
}

/// The length that is announced once the header line `line` is read, where
/// `found` was announced before it. The outer `None` says that `line` is no
/// header line, or announces no length that the machine can hold.
pub open spec fn after_line(line: Seq<u8>, found: Option<nat>) -> Option<Option<nat>> {
    match header_field(line) {
        Some((name, value)) => if name == length_field() {
            match decimal_value(value) {
                Some(n) => if n <= usize::MAX {
                    Some(Some(n))
                } else {
                    None
                },
                None => None,
            }
        } else {
            Some(found)
        },
        None => None,
    }
}

/// `r` with its offset moved on by `by`.
pub open spec fn shifted(r: Option<(nat, int)>, by: int) -> Option<(nat, int)> {
    match r {
        Some((n, off)) => Some((n, off + by)),
        None => None,
    }
}

/// Reads header lines from the start of `s` up to the empty line. The
/// result is the length announced, by the last line that announces one or
/// else by `found`, and the offset behind the empty line.
pub open spec fn scan_headers(s: Seq<u8>, found: Option<nat>) -> Option<(nat, int)>
    decreases s.len(),
{
    match first_occurrence(s, crlf()) {
        Some(k) => if k == 0 {
            match found {
                Some(n) => Some((n, 2)),
                None => None,
            }
        } else if 0 < k && k + 2 <= s.len() {
            match after_line(s.take(k), found) {
                Some(next) => shifted(scan_headers(s.skip(k + 2), next), k + 2),
                None => None,
            }
        } else {
            None
        },
        None => None,
    }
}

/// The content of the frame `frame`: what follows the header block, where
/// that is exactly as long as announced.
pub open spec fn frame_body(frame: Seq<u8>) -> Option<Seq<u8>> {
    match scan_headers(frame, None) {
        Some((n, off)) => if 0 <= off <= frame.len() && frame.len() == off + n {
            Some(frame.skip(off))
        } else {
            None
        },
        None => None,
    }
}

/// The frame that carries `body`.
pub open spec fn frame_of(body: Seq<u8>) -> Seq<u8> {
    length_field() + separator() + decimal_digits(body.len()) + crlf() + crlf() + body
}

pub proof fn lemma_decimal_digits(n: nat)
    ensures
        decimal_digits(n).len() > 0,
        all_digits(decimal_digits(n)),
        decimal_sum(decimal_digits(n)) == n,
    decreases n,
{
    if n < 10 {
        let s = decimal_digits(n);
        assert(s.drop_last() =~= Seq::<u8>::empty());
        assert(decimal_sum(s.drop_last()) == 0);
    } else {
        lemma_decimal_digits(n / 10);
        let s = decimal_digits(n);
        assert(s.drop_last() =~= decimal_digits(n / 10));
        assert forall|i: int| 0 <= i < s.len() implies is_digit(#[trigger] s[i]) by {
            if i < s.len() - 1 {
                assert(s[i] == decimal_digits(n / 10)[i]);
            }
        }
    }
}

/// More digits never write a smaller number.
pub proof fn lemma_decimal_sum_grows(s: Seq<u8>, i: int)
    requires
        0 <= i <= s.len(),
        all_digits(s),
    ensures
        decimal_sum(s.take(i)) <= decimal_sum(s),
    decreases s.len() - i,
{
    if i < s.len() {
        lemma_decimal_sum_grows(s, i + 1);
        assert(s.take(i + 1).drop_last() =~= s.take(i));
        assert(is_digit(s[i]));
    } else {
        assert(s.take(i) =~= s);
    }
}

/// The first line end of a text whose head holds no carriage return
/// stands right behind that head.
pub proof fn lemma_first_line_end(head: Seq<u8>, tail: Seq<u8>)
    requires
        forall|j: int| 0 <= j < head.len() ==> head[j] != 13u8,
    ensures
        first_occurrence(head + crlf() + tail, crlf()) == Some(head.len() as int),
{
    let s = head + crlf() + tail;
    let h = head.len() as int;
    assert forall|j: int| 0 <= j < h implies !occurs_at(s, crlf(), j) by {
        if occurs_at(s, crlf(), j) {
            assert(s.subrange(j, j + 2)[0] == s[j]);
            assert(s[j] == head[j]);
        }
    }
    assert(s.subrange(h, h + 2) =~= crlf());
    lemma_first_occurrence_is(s, crlf(), h);
}

/// The name of the length header holds neither a colon nor a carriage return.
pub proof fn lemma_length_field_bytes()
    ensures
        length_field().len() == 14,
        forall|j: int|
            0 <= j < 14 ==> (#[trigger] length_field()[j]) != 58u8 && length_field()[j] != 13u8,
{
    let s = length_field();
    assert(s[0] == 67u8);
    assert(s[1] == 111u8);
    assert(s[2] == 110u8);
    assert(s[3] == 116u8);
    assert(s[4] == 101u8);
    assert(s[5] == 110u8);
    assert(s[6] == 116u8);
    assert(s[7] == 45u8);
    assert(s[8] == 76u8);
    assert(s[9] == 101u8);
    assert(s[10] == 110u8);
    assert(s[11] == 103u8);
    assert(s[12] == 116u8);
    assert(s[13] == 104u8);
}

/// The header line that announces a length announces it.
#[verifier::rlimit(50)]
pub proof fn lemma_length_line(digits: Seq<u8>, found: Option<nat>)
    requires
        digits.len() > 0,
        all_digits(digits),
        decimal_sum(digits) <= usize::MAX,
    ensures
        after_line(length_field() + separator() + digits, found) == Some(
            Some(decimal_sum(digits)),
        ),
{
    let name = length_field();
    let line = name + separator() + digits;
    lemma_length_field_bytes();
    assert(first_occurrence(line, separator()) == Some(14int)) by {
        assert forall|j: int| 0 <= j < 14 implies !occurs_at(line, separator(), j) by {
            if occurs_at(line, separator(), j) {
                assert(line.subrange(j, j + 2)[0] == line[j]);
                assert(line[j] == name[j]);
            }
        }
        assert(line.subrange(14, 16) =~= separator());
        lemma_first_occurrence_is(line, separator(), 14);
    }
    assert(line.take(14) =~= name);
    assert(line.skip(16) =~= digits);
}

/// A frame made for a content is read back as that content.
#[verifier::rlimit(50)]
pub proof fn law_frame_round_trip(body: Seq<u8>)
    requires
        body.len() <= usize::MAX,
    ensures
        frame_body(frame_of(body)) == Some(body),
{
    let n = body.len();
    let digits = decimal_digits(n);
    let head = length_field() + separator() + digits;
    let h = head.len() as int;
    let f = frame_of(body);
    let rest = crlf() + body;
    lemma_decimal_digits(n);
    assert(f =~= head + crlf() + rest);
    assert(first_occurrence(f, crlf()) == Some(h)) by {
        lemma_length_field_bytes();
        assert forall|j: int| 0 <= j < head.len() implies head[j] != 13u8 by {
            if j >= 16 {
                assert(head[j] == digits[j - 16]);
                assert(is_digit(digits[j - 16]));
            } else if j >= 14 {
                assert(head[j] == separator()[j - 14]);
            } else {
                assert(head[j] == length_field()[j]);
            }
        }
        lemma_first_line_end(head, rest);
    }
    assert(after_line(f.take(h), None) == Some(Some(n))) by {
        assert(f.take(h) =~= head);
        lemma_length_line(digits, None);
    }
    assert(scan_headers(f.skip(h + 2), Some(n)) == Some((n, 2int))) by {
        assert(f.skip(h + 2) =~= rest);
        assert(rest.subrange(0, 2) =~= crlf());
        lemma_first_occurrence_is(rest, crlf(), 0);
    }
    assert(scan_headers(f, None) == Some((n, h + 4)));
    assert(f.len() == h + 4 + n);
    assert(f.skip(h + 4) =~= body);
}

/// Whether `needle` stands in `hay` at index `k`.
fn has_bytes_at(hay: &[u8], k: usize, needle: &[u8]) -> (r: bool)
    requires
        k + needle.len() <= hay.len(),
    ensures
        r == (hay@.subrange(k as int, k + needle.len()) == needle@),
{
    let m: usize = needle.len();
    let ghost window = hay@.subrange(k as int, k + m);
    let mut i: usize = 0;
    while i < m
        invariant
            i <= m,
            m == needle.len(),
            k + m <= hay.len(),
            window == hay@.subrange(k as int, k + m),
            forall|j: int| 0 <= j < i ==> window[j] == needle@[j],
        decreases m - i,
    {
        if hay[k + i] != needle[i] {
            assert(window[i as int] != needle@[i as int]);
            return false;
        }
        i += 1;
    }
    assert(window =~= needle@);
    true
}

/// The first index at which `needle` stands wholly inside `hay[start..end]`.
fn find_bytes(hay: &[u8], start: usize, end: usize, needle: &[u8]) -> (r: Option<usize>)
    requires
        start <= end <= hay.len(),
        needle.len() > 0,
    ensures
        match r {
            Some(k) => start <= k && k + needle.len() <= end && first_occurrence(
                hay@.subrange(start as int, end as int),
                needle@,
            ) == Some(k - start),
            None => first_occurrence(hay@.subrange(start as int, end as int), needle@) is None,
        },
{
    let ghost part = hay@.subrange(start as int, end as int);
    let m: usize = needle.len();
    let mut k: usize = start;
    while end - k >= m
        invariant
            start <= k <= end <= hay.len(),
            m == needle.len(),
            m > 0,
            part == hay@.subrange(start as int, end as int),
            forall|j: int| 0 <= j < k - start ==> !occurs_at(part, needle@, j),
        decreases end - k,
    {
        let found: bool = has_bytes_at(hay, k, needle);
        proof {
            assert(part.subrange(k - start, k - start + m) =~= hay@.subrange(k as int, k + m));
        }
        if found {
            proof {
                lemma_first_occurrence_is(part, needle@, k - start);
            }
            return Some(k);
        }
        k += 1;
    }
    proof {
        lemma_first_occurrence_none(part, needle@);
    }
    None
}

/// The number that `bytes[start..end]` writes in decimal digits; `None`
/// when that is no such number, or one beyond `usize`.
fn parse_decimal(bytes: &[u8], start: usize, end: usize) -> (r: Option<usize>)
    requires
        start <= end <= bytes.len(),
    ensures
        match r {
            Some(n) => decimal_value(bytes@.subrange(start as int, end as int)) == Some(n as nat),
            None => match decimal_value(bytes@.subrange(start as int, end as int)) {
                Some(n) => n > usize::MAX,
                None => true,
            },
        },
{
    let ghost digits = bytes@.subrange(start as int, end as int);
    if start == end {
        return None;
    }
    let mut acc: usize = 0;
    let mut i: usize = start;
    proof {
        assert(digits.take(0) =~= Seq::<u8>::empty());
    }
    while i < end
        invariant
            start <= i <= end <= bytes.len(),
            digits == bytes@.subrange(start as int, end as int),
            all_digits(digits.take(i - start)),
            acc == decimal_sum(digits.take(i - start)),
        decreases end - i,
    {
        let b: u8 = bytes[i];
        if b < 48 || b > 57 {
            assert(!is_digit(digits[i - start]));
            return None;
        }
        let ghost upto = digits.take(i + 1 - start);
        proof {
            assert(upto.drop_last() =~= digits.take(i - start));
            assert(upto.last() == b);
            assert forall|j: int| 0 <= j < upto.len() implies is_digit(#[trigger] upto[j]) by {
                if j < upto.len() - 1 {
                    assert(upto[j] == digits.take(i - start)[j]);
                }
            }
        }
        let next: Option<usize> = match acc.checked_mul(10) {
            Some(tens) => tens.checked_add((b - 48) as usize),
            None => None,
        };
        match next {
            Some(value) => {
                acc = value;
            },
            None => {
                proof {
                    assert(decimal_sum(upto) > usize::MAX);
                    if all_digits(digits) {
                        lemma_decimal_sum_grows(digits, i + 1 - start);
                    }
                }
                return None;
            },
        }
        i += 1;
    }
    proof {
        assert(digits.take(i - start) =~= digits);
    }
    Some(acc)
}

/// Appends the decimal digits of `n` to `out`.
fn push_decimal(out: &mut Vec<u8>, n: usize)
    ensures
        final(out)@ == old(out)@ + decimal_digits(n as nat),
    decreases n,
{
    if n >= 10 {
        push_decimal(out, n / 10);
    }
    let digit: u8 = 48 + (n % 10) as u8;
    out.push(digit);
    proof {
        if n >= 10 {
            assert(out@ =~= old(out)@ + decimal_digits((n / 10) as nat).push(digit));
        } else {
            assert(out@ =~= old(out)@ + seq![digit]);
        }
    }
}

/// The frame that carries `body`.
#[verifier::rlimit(50)]
pub fn encode_frame(body: &[u8]) -> (frame: Vec<u8>)
    ensures
        frame@ == frame_of(body@),
{
    let mut out: Vec<u8> = vec![
        67u8, 111u8, 110u8, 116u8, 101u8, 110u8, 116u8, 45u8, 76u8, 101u8, 110u8, 103u8, 116u8,
        104u8, 58u8, 32u8,
    ];
    assert(out@ =~= length_field() + separator());
    push_decimal(&mut out, body.len());
    out.push(13u8);
    out.push(10u8);
    out.push(13u8);
    out.push(10u8);
    assert(out@ =~= length_field() + separator() + decimal_digits(body@.len()) + crlf() + crlf());
    out.extend_from_slice(body);
    out
}

/// The content of the frame `frame`.
#[verifier::rlimit(50)]
pub fn decode_frame(frame: &[u8]) -> (r: Result<&[u8], DecodeError>)
    ensures
        match r {
            Ok(body) => frame_body(frame@) == Some(body@),
            Err(e) => e == DecodeError::MalformedFrame && frame_body(frame@) is None,
        },
{
    let n: usize = frame.len();
    let line_end: Vec<u8> = vec![13u8, 10u8];
    let colon_space: Vec<u8> = vec![58u8, 32u8];
    let length_name: Vec<u8> = vec![
        67u8, 111u8, 110u8, 116u8, 101u8, 110u8, 116u8, 45u8, 76u8, 101u8, 110u8, 103u8, 116u8,
        104u8,
    ];
    assert(line_end@ =~= crlf());
    assert(colon_space@ =~= separator());
    assert(length_name@ =~= length_field());
    let mut pos: usize = 0;
    let mut found: Option<usize> = None;
    let ghost mut known: Option<nat> = None;
    proof {
        assert(frame@.skip(0) =~= frame@);
    }
    loop
        invariant
            pos <= n,
            n == frame.len(),
            line_end@ == crlf(),
            colon_space@ == separator(),
            length_name@ == length_field(),
            match found {
                Some(v) => known == Some(v as nat),
                None => known is None,
            },
            scan_headers(frame@, None) == shifted(
                scan_headers(frame@.skip(pos as int), known),
                pos as int,
            ),
        decreases n - pos,
    {
        let ghost rest = frame@.skip(pos as int);
        let ghost before = known;
        proof {
            assert(frame@.subrange(pos as int, n as int) =~= rest);
        }
        let k: usize = match find_bytes(frame, pos, n, line_end.as_slice()) {
            Some(k) => k,
            None => {
                return Err(DecodeError::MalformedFrame);
            },
        };
        if k == pos {
            match found {
                Some(len) => {
                    if n - (pos + 2) == len {
                        let body: &[u8] = slice_subrange(frame, pos + 2, n);
                        proof {
                            assert(body@ =~= frame@.skip(pos + 2));
                        }
                        return Ok(body);
                    } else {
                        return Err(DecodeError::MalformedFrame);
                    }
                },
                None => {
                    return Err(DecodeError::MalformedFrame);
                },
            }
        }
        let ghost line = rest.take(k - pos);
        proof {
            assert(line =~= frame@.subrange(pos as int, k as int));
        }
        let c: usize = match find_bytes(frame, pos, k, colon_space.as_slice()) {
            Some(c) => c,
            None => {
                return Err(DecodeError::MalformedFrame);
            },
        };
        proof {
            assert(line.take(c - pos) =~= frame@.subrange(pos as int, c as int));
            assert(line.skip(c - pos + 2) =~= frame@.subrange(c + 2, k as int));
        }
        let is_length: bool = c - pos == 14 && has_bytes_at(frame, pos, length_name.as_slice());
        if is_length {
            match parse_decimal(frame, c + 2, k) {
                Some(v) => {
                    found = Some(v);
                    proof {
                        known = Some(v as nat);
                    }
                },
                None => {
                    return Err(DecodeError::MalformedFrame);
                },
            }
        }
        proof {
            assert(after_line(line, before) == Some(known));
            assert(rest.skip(k - pos + 2) =~= frame@.skip(k + 2));
            assert(scan_headers(rest, before) == shifted(
                scan_headers(frame@.skip(k + 2), known),
                k - pos + 2,
            ));
        }
        pos = k + 2;
    }
}

} // verus!
