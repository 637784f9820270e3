//! The boundary to the analysis: what a session asks of it, and the
//! placeholder analysis that this server ships with.

use crate::diagnostics::{
    compute_diagnostics, diagnostics_of, Diagnostic, DiagnosticView, Position,
};
use vstd::prelude::*;

verus! {

#[derive(Clone, Copy, Debug, PartialEq, Eq, Structural)]
pub enum CompletionKind {
    Text,
    Method,
    Function,
    Variable,
    Keyword,
}

/// One proposal for what could stand at the cursor.
#[derive(Clone, Debug, PartialEq, Eq)]
pub struct CompletionItem {
    pub label: String,
    pub kind: Option<CompletionKind>,
    pub detail: Option<String>,
}

pub struct CompletionItemView {
    pub label: Seq<char>,
    pub kind: Option<CompletionKind>,
    pub detail: Option<Seq<char>>,
}

impl View for CompletionItem {
    type V = CompletionItemView;

    open spec fn view(&self) -> CompletionItemView {
        CompletionItemView {
            label: self.label@,
            kind: self.kind,
            detail: match self.detail {
                Some(d) => Some(d@),
                None => None,
            },
        }
    }
}

impl DeepView for CompletionItem {
    type V = CompletionItemView;

    open spec fn deep_view(&self) -> CompletionItemView {
        self@
    }
}

/// What is shown for the place under the cursor.
#[derive(Clone, Debug, PartialEq, Eq)]
pub struct Hover {
    pub contents: String,
}

impl View for Hover {
    type V = Seq<char>;

    open spec fn view(&self) -> Seq<char> {
        self.contents@
    }
}

/// The contents of `hover`, if there is one.
pub open spec fn hover_view(hover: Option<Hover>) -> Option<Seq<char>> {
    match hover {
        Some(h) => Some(h@),
        None => None,
    }
}

/// The analysis behind a session. Each answer is a function of the text
/// and the position that are handed in, and of nothing else.
pub trait CapabilityProvider {
    /// The proposals at `at` in `text`.
    spec fn completions(&self, text: Seq<char>, at: Position) -> Seq<CompletionItemView>;

    /// What is shown at `at` in `text`, if anything.
    spec fn hover_text(&self, text: Seq<char>, at: Position) -> Option<Seq<char>>;

    /// Every diagnostic of `text`.
    spec fn diagnostics(&self, text: Seq<char>) -> Seq<DiagnosticView>;

    fn complete(&self, text: &str, at: Position) -> (items: Vec<CompletionItem>)
        ensures
            items.deep_view() == self.completions(text@, at),
    ;

    fn hover(&self, text: &str, at: Position) -> (hover: Option<Hover>)
        ensures
            hover_view(hover) == self.hover_text(text@, at),
    ;

    fn diagnose(&self, text: &str) -> (found: Vec<Diagnostic>)
        ensures
            found.deep_view() == self.diagnostics(text@),
    ;
}

/// The placeholder analysis: the same two proposals and the same hover
/// text everywhere, and the rule on the flagged text for diagnostics.
#[derive(Clone, Copy, Debug)]
pub struct StubProvider;

/// The two proposals of the placeholder analysis.
pub open spec fn stub_completions() -> Seq<CompletionItemView> {
    seq![
        CompletionItemView {
            label: "Hello"@,
            kind: Some(CompletionKind::Text),
            detail: Some("Some detail"@),
        },
        CompletionItemView {
            label: "Bye"@,
            kind: Some(CompletionKind::Text),
            detail: Some("Some detail"@),
        },
    ]
}

/// The diagnostics of the placeholder analysis: those of the rule, and
/// none at all where the rule has a finding that no position can hold.
pub open spec fn stub_diagnostics(text: Seq<char>) -> Seq<DiagnosticView> {
    match diagnostics_of(text) {
        Some(found) => found,
        None => Seq::empty(),
    }
}

impl CapabilityProvider for StubProvider {
    open spec fn completions(&self, text: Seq<char>, at: Position) -> Seq<CompletionItemView> {
        stub_completions()
    }

    open spec fn hover_text(&self, text: Seq<char>, at: Position) -> Option<Seq<char>> {
        Some("You're hovering!"@)
    }

    open spec fn diagnostics(&self, text: Seq<char>) -> Seq<DiagnosticView> {
        stub_diagnostics(text)
    }

    fn complete(&self, text: &str, at: Position) -> (items: Vec<CompletionItem>) {
        let mut items: Vec<CompletionItem> = Vec::new();
        items.push(
            CompletionItem {
                label: "Hello".to_owned(),
                kind: Some(CompletionKind::Text),
                detail: Some("Some detail".to_owned()),
            },
        );
        items.push(
            CompletionItem {
                label: "Bye".to_owned(),
                kind: Some(CompletionKind::Text),
                detail: Some("Some detail".to_owned()),
            },
        );
        assert(items.deep_view() =~= stub_completions());
        items
    }

    fn hover(&self, text: &str, at: Position) -> (hover: Option<Hover>) {
        Some(Hover { contents: "You're hovering!".to_owned() })
    }

    fn diagnose(&self, text: &str) -> (found: Vec<Diagnostic>) {
        match compute_diagnostics(text) {
            Some(found) => found,
            None => {
                let found: Vec<Diagnostic> = Vec::new();
                assert(found.deep_view() =~= Seq::<DiagnosticView>::empty());
                found
            },
        }
    }
}

} // verus!
