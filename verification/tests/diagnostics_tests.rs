use pseudo_lsp::diagnostics::{compute_diagnostics, Diagnostic, Position, Range, Severity};

fn flagged_at(line: u32, character: u32) -> Diagnostic {
    Diagnostic {
        range: Range {
            start: Position { line, character },
            end: Position { line, character: character + 3 },
        },
        severity: Severity::Error,
        message: "Avoid using 'AAA'".to_string(),
    }
}

#[test]
fn one_flagged_line_among_three() {
    let found = compute_diagnostics("line0\nAAA here\nline2").unwrap();
    assert_eq!(found.len(), 1);
    assert_eq!(found[0].range.start, Position { line: 1, character: 0 });
    assert_eq!(found[0].range.end, Position { line: 1, character: 3 });
    assert_eq!(found[0].severity, Severity::Error);
    assert_eq!(found[0].message, "Avoid using 'AAA'");
}

#[test]
fn text_without_the_flagged_text_has_no_diagnostics() {
    assert_eq!(compute_diagnostics(""), Some(vec![]));
    assert_eq!(compute_diagnostics("AA\nA\nAA A"), Some(vec![]));
    assert_eq!(compute_diagnostics("aaa\n"), Some(vec![]));
}

#[test]
fn only_the_first_occurrence_of_a_line_is_flagged() {
    assert_eq!(compute_diagnostics("x AAA y AAA z AAA"), Some(vec![flagged_at(0, 2)]));
    assert_eq!(compute_diagnostics("AAAAAA"), Some(vec![flagged_at(0, 0)]));
    assert_eq!(compute_diagnostics("AAAA"), Some(vec![flagged_at(0, 0)]));
}

#[test]
fn every_flagged_line_gets_its_own_diagnostic() {
    assert_eq!(
        compute_diagnostics("AAA\nno\n  AAA\n\nxAAA"),
        Some(vec![flagged_at(0, 0), flagged_at(2, 2), flagged_at(4, 1)])
    );
}

#[test]
fn the_flagged_text_does_not_reach_across_lines() {
    assert_eq!(compute_diagnostics("AA\nA"), Some(vec![]));
    assert_eq!(compute_diagnostics("A\r\nAA"), Some(vec![]));
}

#[test]
fn columns_count_utf16_code_units() {
    assert_eq!(compute_diagnostics("éAAA"), Some(vec![flagged_at(0, 1)]));
    assert_eq!(compute_diagnostics("😀AAA"), Some(vec![flagged_at(0, 2)]));
    assert_eq!(compute_diagnostics("a😀é😀 AAA"), Some(vec![flagged_at(0, 7)]));
}

#[test]
fn line_numbers_count_terminators_of_both_kinds() {
    assert_eq!(
        compute_diagnostics("a\r\nAAA\r\nb\nAAA\r\n"),
        Some(vec![flagged_at(1, 0), flagged_at(3, 0)])
    );
}

#[test]
fn a_carriage_return_inside_a_line_stays_in_it() {
    assert_eq!(compute_diagnostics("a\rAAA"), Some(vec![flagged_at(0, 2)]));
}
