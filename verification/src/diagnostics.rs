//! The diagnostic rule: every line that holds the flagged text gets one
//! error diagnostic, placed on the first occurrence in that line.

use crate::text::{
    chars_of, find_in, first_occurrence, is_first_occurrence, lemma_first_occurrence_exists,
    line_spans, occurs_at, span_texts, split_lines, utf16_len, utf16_offset, Span,
};
use vstd::prelude::*;

verus! {

/// A place in a document: zero-based line, and UTF-16 code units into it.
#[derive(Clone, Copy, Debug, PartialEq, Eq, Structural)]
pub struct Position {
    pub line: u32,
    pub character: u32,
}

/// The text between two positions, the end not included.
#[derive(Clone, Copy, Debug, PartialEq, Eq, Structural)]
pub struct Range {
    pub start: Position,
    pub end: Position,
}

#[derive(Clone, Copy, Debug, PartialEq, Eq, Structural)]
pub enum Severity {
    Error,
    Warning,
    Information,
    Hint,
}

/// One finding on a document. A set of them is computed afresh from the
/// text whenever it is asked for.
#[derive(Clone, Debug, PartialEq, Eq)]
pub struct Diagnostic {
    pub range: Range,
    pub severity: Severity,
    pub message: String,
}

pub struct DiagnosticView {
    pub range: Range,
    pub severity: Severity,
    pub message: Seq<char>,
}

impl View for Diagnostic {
    type V = DiagnosticView;

    open spec fn view(&self) -> DiagnosticView {
        DiagnosticView { range: self.range, severity: self.severity, message: self.message@ }
    }
}

impl DeepView for Diagnostic {
    type V = DiagnosticView;

    open spec fn deep_view(&self) -> DiagnosticView {
        self@
    }
}

/// Where the rule fires: a line, and the UTF-16 column of the first
/// occurrence of the flagged text in it.
pub struct Finding {
    pub line: nat,
    pub column: nat,
}

/// The text that the rule flags.
pub open spec fn flagged() -> Seq<char> {
    seq!['A', 'A', 'A']
}

/// The message of every diagnostic of the rule.
pub open spec fn flagged_message() -> Seq<char> {
    "Avoid using 'AAA'"@
}

/// The finding on line number `line_no` with content `line`, if any.
pub open spec fn line_finding(line_no: nat, line: Seq<char>) -> Option<Finding> {
    match first_occurrence(line, flagged()) {
        Some(k) => Some(Finding { line: line_no, column: utf16_len(line.take(k)) }),
        None => None,
    }
}

/// The findings on `lines`, in line order.
pub open spec fn findings_of(lines: Seq<Seq<char>>) -> Seq<Finding>
    decreases lines.len(),
{
    if lines.len() == 0 {
        Seq::empty()
    } else {
        let before = findings_of(lines.drop_last());
        match line_finding((lines.len() - 1) as nat, lines.last()) {
            Some(f) => before.push(f),
            None => before,
        }
    }
}

/// The findings on `text`.
pub open spec fn findings(text: Seq<char>) -> Seq<Finding> {
    findings_of(split_lines(text))
}

/// The range of the diagnostic fits the 32-bit positions of the protocol.
pub open spec fn representable(f: Finding) -> bool {
    f.line <= u32::MAX && f.column + 3 <= u32::MAX
}

pub open spec fn all_representable(fs: Seq<Finding>) -> bool {
    forall|i: int| 0 <= i < fs.len() ==> representable(#[trigger] fs[i])
}

/// The diagnostic for a finding: an error over the three flagged characters.
pub open spec fn diagnostic_at(f: Finding) -> DiagnosticView {
    DiagnosticView {
        range: Range {
            start: Position { line: f.line as u32, character: f.column as u32 },
            end: Position { line: f.line as u32, character: (f.column + 3) as u32 },
        },
        severity: Severity::Error,
        message: flagged_message(),
    }
}

pub open spec fn diagnostics_at(fs: Seq<Finding>) -> Seq<DiagnosticView> {
    Seq::new(fs.len(), |i: int| diagnostic_at(fs[i]))
}

/// The diagnostics of `text`; `None` when a finding lies beyond what a
/// position can hold.
pub open spec fn diagnostics_of(text: Seq<char>) -> Option<Seq<DiagnosticView>> {
    let fs = findings(text);
    if all_representable(fs) {
        Some(diagnostics_at(fs))
    } else {
        None
    }
}

/// The findings on the first lines are the first findings on all lines.
pub proof fn lemma_findings_prefix(lines: Seq<Seq<char>>, n: int)
    requires
        0 <= n <= lines.len(),
    ensures
        findings_of(lines.take(n)).len() <= findings_of(lines).len(),
        findings_of(lines.take(n)) == findings_of(lines).take(
            findings_of(lines.take(n)).len() as int,
        ),
    decreases lines.len() - n,
{
    if n == lines.len() {
        assert(lines.take(n) =~= lines);
        assert(findings_of(lines).take(findings_of(lines).len() as int) =~= findings_of(lines));
    } else {
        lemma_findings_prefix(lines, n + 1);
        let longer = lines.take(n + 1);
        assert(longer.drop_last() =~= lines.take(n));
        let short = findings_of(lines.take(n));
        assert(findings_of(longer).take(short.len() as int) =~= short);
        assert(findings_of(lines).take(short.len() as int) =~= findings_of(longer).take(
            short.len() as int,
        ));
    }
}

/// What every list of findings looks like: each entry is the finding of its
/// own line, the entries stand in strictly rising line order, and no line
/// with a finding is left out.
pub proof fn lemma_findings_shape(lines: Seq<Seq<char>>)
    ensures
        forall|j: int|
            0 <= j < findings_of(lines).len() ==> (#[trigger] findings_of(lines)[j]).line
                < lines.len() && line_finding(
                findings_of(lines)[j].line,
                lines[findings_of(lines)[j].line as int],
            ) == Some(findings_of(lines)[j]),
        forall|j1: int, j2: int|
            0 <= j1 < j2 < findings_of(lines).len() ==> (#[trigger] findings_of(lines)[j1]).line
                < (#[trigger] findings_of(lines)[j2]).line,
        forall|i: int|
            0 <= i < lines.len() && line_finding(i as nat, #[trigger] lines[i]) is Some
                ==> exists|j: int|
                0 <= j < findings_of(lines).len() && findings_of(lines)[j].line == i,
    decreases lines.len(),
{
    if lines.len() > 0 {
        let init = lines.drop_last();
        let last_no = (lines.len() - 1) as nat;
        lemma_findings_shape(init);
        let before = findings_of(init);
        let all = findings_of(lines);
        assert forall|j: int| 0 <= j < all.len() implies (#[trigger] all[j]).line < lines.len()
            && line_finding(all[j].line, lines[all[j].line as int]) == Some(all[j]) by {
            if j < before.len() {
                assert(all[j] == before[j]);
                assert(init[before[j].line as int] == lines[before[j].line as int]);
            }
        }
        assert forall|j1: int, j2: int| 0 <= j1 < j2 < all.len() implies (#[trigger] all[j1]).line
            < (#[trigger] all[j2]).line by {
            assert(all[j1] == before[j1]);
            if j2 < before.len() {
                assert(all[j2] == before[j2]);
            }
        }
        assert forall|i: int|
            0 <= i < lines.len() && line_finding(
                i as nat,
                #[trigger] lines[i],
            ) is Some implies exists|j: int| 0 <= j < all.len() && all[j].line == i by {
            if i < init.len() {
                assert(init[i] == lines[i]);
                let j = choose|j: int| 0 <= j < before.len() && before[j].line == i;
                assert(all[j] == before[j]);
            } else {
                assert(all[all.len() - 1].line == i);
            }
        }
    }
}

/// A line that holds the flagged text, once or more often, has exactly one
/// diagnostic, and that one covers the three characters of the first
/// occurrence.
pub proof fn law_flagged_line_has_one_diagnostic(text: Seq<char>, i: int, k: int)
    requires
        0 <= i < split_lines(text).len(),
        occurs_at(split_lines(text)[i], flagged(), k),
        diagnostics_of(text) is Some,
    ensures
        ({
            let line = split_lines(text)[i];
            let first = first_occurrence(line, flagged());
            let column = utf16_len(line.take(first->0));
            let ds = diagnostics_of(text)->0;
            &&& first is Some
            &&& is_first_occurrence(line, flagged(), first->0)
            &&& first->0 <= k
            &&& i <= u32::MAX
            &&& column + 3 <= u32::MAX
            &&& exists|j: int| 0 <= j < ds.len() && (#[trigger] ds[j]).range.start.line == i
            &&& forall|j: int|
                0 <= j < ds.len() && (#[trigger] ds[j]).range.start.line == i ==> ds[j]
                    == diagnostic_at(Finding { line: i as nat, column })
            &&& forall|j1: int, j2: int|
                0 <= j1 < ds.len() && 0 <= j2 < ds.len() && (#[trigger] ds[j1]).range.start.line
                    == i && (#[trigger] ds[j2]).range.start.line == i ==> j1 == j2
        }),
{
    let lines = split_lines(text);
    let line = lines[i];
    let fs = findings(text);
    let ds = diagnostics_of(text)->0;
    lemma_first_occurrence_exists(line, flagged(), k);
    lemma_findings_shape(lines);
    assert(line_finding(i as nat, lines[i]) is Some);
    let j0 = choose|j: int| 0 <= j < fs.len() && fs[j].line == i;
    assert(representable(fs[j0]));
    assert(ds[j0] == diagnostic_at(fs[j0]));
    assert forall|j: int| 0 <= j < ds.len() implies fs[j].line == (
    #[trigger] ds[j]).range.start.line by {
        assert(representable(fs[j]));
        assert(ds[j] == diagnostic_at(fs[j]));
    }
    assert forall|j: int| 0 <= j < ds.len() && (#[trigger] ds[j]).range.start.line == i implies j
        == j0 by {
        assert(fs[j].line == i);
        if j < j0 {
            assert(fs[j].line < fs[j0].line);
        }
        if j0 < j {
            assert(fs[j0].line < fs[j].line);
        }
    }
}

/// Runs the rule on `text`. The result is `None` when a finding lies beyond
/// what a position can hold.
pub fn compute_diagnostics(text: &str) -> (r: Option<Vec<Diagnostic>>)
    ensures
        match r {
            Some(v) => diagnostics_of(text@) == Some(v.deep_view()),
            None => diagnostics_of(text@) is None,
        },
{
    let chars: Vec<char> = chars_of(text);
    let spans: Vec<Span> = line_spans(&chars);
    let needle: Vec<char> = vec!['A', 'A', 'A'];
    assert(needle@ =~= flagged());
    let ghost lines = split_lines(chars@);
    let mut out: Vec<Diagnostic> = Vec::new();
    let mut i: usize = 0;
    proof {
        assert(lines.take(0) =~= Seq::<Seq<char>>::empty());
        assert(out.deep_view() =~= diagnostics_at(findings_of(lines.take(0))));
    }
    while i < spans.len()
        invariant
            i <= spans.len(),
            chars@ == text@,
            needle@ == flagged(),
            lines == split_lines(chars@),
            lines == span_texts(chars@, spans@),
            forall|j: int|
                0 <= j < spans.len() ==> (#[trigger] spans[j]).start <= spans[j].end
                    <= chars.len(),
            all_representable(findings_of(lines.take(i as int))),
            out.deep_view() == diagnostics_at(findings_of(lines.take(i as int))),
        decreases spans.len() - i,
    {
        let span: Span = spans[i];
        let ghost line = lines[i as int];
        let ghost before = findings_of(lines.take(i as int));
        proof {
            assert(lines.take(i + 1).drop_last() =~= lines.take(i as int));
            assert(line == chars@.subrange(span.start as int, span.end as int));
        }
        match find_in(&chars, span, &needle) {
            None => {},
            Some(k) => {
                let column: Option<u32> = utf16_offset(&chars, span.start, k);
                let ghost f = Finding {
                    line: i as nat,
                    column: utf16_len(line.take(k - span.start)),
                };
                proof {
                    assert(line.take(k - span.start) =~= chars@.subrange(
                        span.start as int,
                        k as int,
                    ));
                    assert(findings_of(lines.take(i + 1)) == before.push(f));
                    lemma_findings_prefix(lines, i + 1);
                    let upto = findings_of(lines.take(i + 1));
                    assert(upto[before.len() as int] == f);
                    assert(findings_of(lines).take(upto.len() as int)[before.len() as int]
                        == findings_of(lines)[before.len() as int]);
                }
                if i > u32::MAX as usize {
                    assert(!representable(f));
                    return None;
                }
                match column {
                    None => {
                        assert(!representable(f));
                        return None;
                    },
                    Some(c) => {
                        if c > u32::MAX - 3 {
                            assert(!representable(f));
                            return None;
                        }
                        let line_no: u32 = i as u32;
                        let d = Diagnostic {
                            range: Range {
                                start: Position { line: line_no, character: c },
                                end: Position { line: line_no, character: c + 3 },
                            },
                            severity: Severity::Error,
                            message: "Avoid using 'AAA'".to_owned(),
                        };
                        assert(d@ == diagnostic_at(f));
                        let ghost old_views = out.deep_view();
                        out.push(d);
                        proof {
                            assert(out.deep_view() =~= old_views.push(diagnostic_at(f)));
                            assert(diagnostics_at(before.push(f)) =~= diagnostics_at(before).push(
                                diagnostic_at(f),
                            ));
                        }
                    },
                }
            },
        }
        i += 1;
    }
    proof {
        assert(lines.take(i as int) =~= lines);
    }
    Some(out)
}

} // verus!
