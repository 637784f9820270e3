//! Text edits: positions resolved to character offsets, and content
//! changes applied to a text by plain splicing.

use crate::diagnostics::{Position, Range};
use crate::text::{
    append_range, chars_of, lemma_line_len_is, lemma_line_len_props, lemma_utf16_len_prefix,
    line_len, utf16_len, utf16_units,
};
use vstd::prelude::*;

verus! {

/// One change to a document: new text for a range of it, or, without a
/// range, new text for the whole of it.
#[derive(Clone, Debug, PartialEq, Eq)]
pub struct ContentChange {
    pub range: Option<Range>,
    pub text: String,
}

pub struct ContentChangeView {
    pub range: Option<Range>,
    pub text: Seq<char>,
}

impl View for ContentChange {
    type V = ContentChangeView;

    open spec fn view(&self) -> ContentChangeView {
        ContentChangeView { range: self.range, text: self.text@ }
    }
}

impl DeepView for ContentChange {
    type V = ContentChangeView;

    open spec fn deep_view(&self) -> ContentChangeView {
        self@
    }
}

/// Offset at which line number `line` of `s` starts: 0 for the first line,
/// else just behind the `line`-th line feed. `None` when `s` has fewer
/// line feeds.
pub open spec fn line_start(s: Seq<char>, line: nat) -> Option<int>
    decreases line,
{
    if line == 0 {
        Some(0)
    } else {
        match line_start(s, (line - 1) as nat) {
            Some(p) => {
                let q = p + line_len(s.skip(p));
                if q < s.len() {
                    Some(q + 1)
                } else {
                    None
                }
            },
            None => None,
        }
    }
}

/// Number of characters of the first line of `rest` that make up exactly
/// `units` UTF-16 code units. `None` when the line is shorter, or when
/// `units` would end inside a character.
pub open spec fn column_offset(rest: Seq<char>, units: nat) -> Option<int> {
    if exists|k: int| 0 <= k <= line_len(rest) && utf16_len(rest.take(k)) == units {
        Some(choose|k: int| 0 <= k <= line_len(rest) && utf16_len(rest.take(k)) == units)
    } else {
        None
    }
}

/// The character offset in `s` that `p` denotes, if it denotes one.
pub open spec fn offset_of(s: Seq<char>, p: Position) -> Option<int> {
    match line_start(s, p.line as nat) {
        Some(a) => match column_offset(s.skip(a), p.character as nat) {
            Some(k) => Some(a + k),
            None => None,
        },
        None => None,
    }
}

/// `s` with the characters from `start` up to `end` replaced by `new`.
pub open spec fn splice(s: Seq<char>, start: int, end: int, new: Seq<char>) -> Seq<char> {
    s.take(start) + new + s.skip(end)
}

/// The text after one change; `None` when its range denotes no part of `s`.
pub open spec fn apply_edit(s: Seq<char>, change: ContentChangeView) -> Option<Seq<char>> {
    match change.range {
        None => Some(change.text),
        Some(range) => match (offset_of(s, range.start), offset_of(s, range.end)) {
            (Some(a), Some(b)) => if a <= b {
                Some(splice(s, a, b, change.text))
            } else {
                None
            },
            _ => None,
        },
    }
}

/// The text after all `changes`, applied one after the other, the first
/// one first; `None` when one of them cannot be applied.
pub open spec fn apply_edits(s: Seq<char>, changes: Seq<ContentChangeView>) -> Option<Seq<char>>
    decreases changes.len(),
{
    if changes.len() == 0 {
        Some(s)
    } else {
        match apply_edits(s, changes.drop_last()) {
            Some(t) => apply_edit(t, changes.last()),
            None => None,
        }
    }
}

pub proof fn lemma_line_start_none(s: Seq<char>, a: nat, b: nat)
    requires
        a <= b,
        line_start(s, a) is None,
    ensures
        line_start(s, b) is None,
    decreases b - a,
{
    if a < b {
        lemma_line_start_none(s, a, (b - 1) as nat);
    }
}

pub proof fn lemma_column_offset_is(rest: Seq<char>, units: nat, k: int)
    requires
        0 <= k <= line_len(rest),
        utf16_len(rest.take(k)) == units,
    ensures
        column_offset(rest, units) == Some(k),
{
    lemma_line_len_props(rest);
    let m = choose|m: int| 0 <= m <= line_len(rest) && utf16_len(rest.take(m)) == units;
    if m < k {
        lemma_utf16_len_prefix(rest, m, k);
    }
    if k < m {
        lemma_utf16_len_prefix(rest, k, m);
    }
}

/// One run of edits after another is the run of both.
pub proof fn law_edits_compose(
    s: Seq<char>,
    first: Seq<ContentChangeView>,
    second: Seq<ContentChangeView>,
)
    ensures
        apply_edits(s, first + second) == match apply_edits(s, first) {
            Some(t) => apply_edits(t, second),
            None => None,
        },
    decreases second.len(),
{
    if second.len() == 0 {
        assert(first + second =~= first);
    } else {
        assert((first + second).drop_last() =~= first + second.drop_last());
        law_edits_compose(s, first, second.drop_last());
    }
}

/// Edits that cannot be applied stay so, whatever follows them.
pub proof fn lemma_apply_edits_prefix_none(s: Seq<char>, changes: Seq<ContentChangeView>, n: int)
    requires
        0 <= n <= changes.len(),
        apply_edits(s, changes.take(n)) is None,
    ensures
        apply_edits(s, changes) is None,
{
    assert(changes =~= changes.take(n) + changes.skip(n));
    law_edits_compose(s, changes.take(n), changes.skip(n));
}

/// A change without a range replaces the text, whatever it was; and a
/// change that patches a range gives what replacing the whole text with
/// the spliced text gives.
pub proof fn law_patch_equals_replacement(s: Seq<char>, change: ContentChangeView)
    requires
        apply_edit(s, change) is Some,
    ensures
        apply_edit(s, ContentChangeView { range: None, text: apply_edit(s, change)->0 })
            == apply_edit(s, change),
        change.range matches Some(range) ==> apply_edit(s, change)->0 == splice(
            s,
            offset_of(s, range.start)->0,
            offset_of(s, range.end)->0,
            change.text,
        ),
{
}

/// Start of line number `line` in `chars`.
pub fn find_line_start(chars: &Vec<char>, line: u32) -> (r: Option<usize>)
    ensures
        match r {
            Some(p) => p <= chars.len() && line_start(chars@, line as nat) == Some(p as int),
            None => line_start(chars@, line as nat) is None,
        },
{
    let n: usize = chars.len();
    let mut pos: usize = 0;
    let mut cur: u32 = 0;
    while cur < line
        invariant
            cur <= line,
            pos <= n,
            n == chars.len(),
            line_start(chars@, cur as nat) == Some(pos as int),
        decreases line - cur,
    {
        let mut j: usize = pos;
        while j < n && chars[j] != '\n'
            invariant
                pos <= j <= n,
                n == chars.len(),
                forall|t: int| pos <= t < j ==> chars@[t] != '\n',
            decreases n - j,
        {
            j += 1;
        }
        proof {
            let rest = chars@.skip(pos as int);
            assert forall|t: int| 0 <= t < j - pos implies rest[t] != '\n' by {
                assert(rest[t] == chars@[pos + t]);
            }
            lemma_line_len_is(rest, j - pos);
        }
        if j >= n {
            proof {
                lemma_line_start_none(chars@, (cur + 1) as nat, line as nat);
            }
            return None;
        }
        pos = j + 1;
        cur += 1;
    }
    Some(pos)
}

/// The index in `chars`, from `start` on and within that line, that lies
/// `units` UTF-16 code units behind `start`.
pub(crate) fn find_column(chars: &Vec<char>, start: usize, units: u32) -> (r: Option<usize>)
    requires
        start <= chars.len(),
    ensures
        match r {
            Some(k) => start <= k <= chars.len() && column_offset(
                chars@.skip(start as int),
                units as nat,
            ) == Some(k - start),
            None => column_offset(chars@.skip(start as int), units as nat) is None,
        },
{
    let n: usize = chars.len();
    let ghost rest = chars@.skip(start as int);
    let mut k: usize = start;
    let mut acc: u64 = 0;
    proof {
        assert(rest.take(0) =~= Seq::<char>::empty());
    }
    while k < n && chars[k] != '\n' && acc < units as u64
        invariant
            start <= k <= n,
            n == chars.len(),
            rest == chars@.skip(start as int),
            forall|t: int| start <= t < k ==> chars@[t] != '\n',
            acc == utf16_len(rest.take(k - start)),
            acc <= units + 1,
            forall|j: int| 0 <= j < k - start ==> utf16_len(#[trigger] rest.take(j)) < units,
        decreases n - k,
    {
        let w: u32 = utf16_units(chars[k]);
        proof {
            assert(rest.take(k + 1 - start).drop_last() =~= rest.take(k - start));
            assert(rest.take(k + 1 - start).last() == chars@[k as int]);
        }
        acc = acc + w as u64;
        k += 1;
    }
    proof {
        lemma_line_len_props(rest);
        assert forall|t: int| 0 <= t < k - start implies rest[t] != '\n' by {
            assert(rest[t] == chars@[start + t]);
        }
        assert(k - start <= line_len(rest)) by {
            if line_len(rest) < k - start {
                assert(rest[line_len(rest) as int] == '\n');
            }
        }
    }
    if acc == units as u64 {
        proof {
            lemma_column_offset_is(rest, units as nat, k - start);
        }
        Some(k)
    } else {
        proof {
            assert forall|j: int| 0 <= j <= line_len(rest) implies utf16_len(rest.take(j))
                != units by {
                if j >= k - start {
                    if acc > units {
                        lemma_utf16_len_prefix(rest, k - start, j);
                    } else {
                        lemma_line_len_is(rest, k - start);
                    }
                }
            }
        }
        None
    }
}

/// The character offset in `chars` that `p` denotes.
pub fn resolve(chars: &Vec<char>, p: Position) -> (r: Option<usize>)
    ensures
        match r {
            Some(k) => k <= chars.len() && offset_of(chars@, p) == Some(k as int),
            None => offset_of(chars@, p) is None,
        },
{
    match find_line_start(chars, p.line) {
        Some(a) => find_column(chars, a, p.character),
        None => None,
    }
}

/// Applies one change to `chars`.
pub fn apply_change(chars: &Vec<char>, change: &ContentChange) -> (r: Option<Vec<char>>)
    ensures
        match r {
            Some(v) => apply_edit(chars@, change@) == Some(v@),
            None => apply_edit(chars@, change@) is None,
        },
{
    let new_chars: Vec<char> = chars_of(change.text.as_str());
    match change.range {
        None => Some(new_chars),
        Some(range) => {
            let start: Option<usize> = resolve(chars, range.start);
            let end: Option<usize> = resolve(chars, range.end);
            match (start, end) {
                (Some(a), Some(b)) => {
                    if a <= b {
                        let mut out: Vec<char> = Vec::new();
                        append_range(&mut out, chars, 0, a);
                        append_range(&mut out, &new_chars, 0, new_chars.len());
                        append_range(&mut out, chars, b, chars.len());
                        proof {
                            assert(out@ =~= splice(chars@, a as int, b as int, change.text@));
                        }
                        Some(out)
                    } else {
                        None
                    }
                },
                _ => None,
            }
        },
    }
}

/// Applies `changes` to `text`, one after the other.
pub fn apply_changes(text: &str, changes: &Vec<ContentChange>) -> (r: Option<String>)
    ensures
        match r {
            Some(t) => apply_edits(text@, changes.deep_view()) == Some(t@),
            None => apply_edits(text@, changes.deep_view()) is None,
        },
{
    let ghost all = changes.deep_view();
    let mut cur: Vec<char> = chars_of(text);
    let mut i: usize = 0;
    proof {
        assert(all.take(0) =~= Seq::<ContentChangeView>::empty());
    }
    while i < changes.len()
        invariant
            i <= changes.len(),
            all == changes.deep_view(),
            apply_edits(text@, all.take(i as int)) == Some(cur@),
        decreases changes.len() - i,
    {
        proof {
            assert(all.take(i + 1).drop_last() =~= all.take(i as int));
            assert(all.take(i + 1).last() == changes@[i as int]@);
        }
        match apply_change(&cur, &changes[i]) {
            Some(next) => {
                cur = next;
            },
            None => {
                proof {
                    lemma_apply_edits_prefix_none(text@, all, i + 1);
                }
                return None;
            },
        }
        i += 1;
    }
    proof {
        assert(all.take(i as int) =~= all);
    }
    Some(crate::text::string_of(&cur))
}

} // verus!
