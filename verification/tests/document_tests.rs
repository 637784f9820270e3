use pseudo_lsp::diagnostics::{Position, Range};
use pseudo_lsp::document::{DocumentError, DocumentStore};
use pseudo_lsp::edit::ContentChange;
use pseudo_lsp::protocol::ErrorKind;

fn insert_at(line: u32, character: u32, text: &str) -> ContentChange {
    let p = Position { line, character };
    ContentChange { range: Some(Range { start: p, end: p }), text: text.to_string() }
}

#[test]
fn a_new_store_is_empty() {
    let store = DocumentStore::new();
    assert_eq!(store.len(), 0);
    assert_eq!(store.get("file:///a"), None);
    assert_eq!(store.version("file:///a"), None);
}

#[test]
fn open_then_get() {
    let mut store = DocumentStore::new();
    store.open("file:///a".to_string(), "alpha".to_string(), 1);
    store.open("file:///b".to_string(), "beta".to_string(), 7);
    assert_eq!(store.len(), 2);
    assert_eq!(store.get("file:///a"), Some("alpha"));
    assert_eq!(store.get("file:///b"), Some("beta"));
    assert_eq!(store.version("file:///b"), Some(7));
    assert_eq!(store.get("file:///c"), None);
}

#[test]
fn opening_again_replaces_the_document() {
    let mut store = DocumentStore::new();
    store.open("file:///a".to_string(), "first".to_string(), 5);
    store.open("file:///a".to_string(), "second".to_string(), 1);
    assert_eq!(store.len(), 1);
    assert_eq!(store.get("file:///a"), Some("second"));
    assert_eq!(store.version("file:///a"), Some(1));
}

#[test]
fn a_change_patches_the_text_and_sets_the_version() {
    let mut store = DocumentStore::new();
    store.open("file:///a".to_string(), "ab".to_string(), 1);
    store.open("file:///b".to_string(), "untouched".to_string(), 1);
    assert_eq!(store.apply_change("file:///a", 2, &vec![insert_at(0, 1, "-")]), Ok(()));
    assert_eq!(store.get("file:///a"), Some("a-b"));
    assert_eq!(store.version("file:///a"), Some(2));
    assert_eq!(store.get("file:///b"), Some("untouched"));
    assert_eq!(store.len(), 2);
}

#[test]
fn a_change_to_a_closed_uri_is_an_unknown_document() {
    let mut store = DocumentStore::new();
    store.open("file:///a".to_string(), "ab".to_string(), 1);
    assert_eq!(
        store.apply_change("file:///other", 2, &vec![insert_at(0, 0, "x")]),
        Err(DocumentError::UnknownDocument)
    );
    assert_eq!(store.get("file:///a"), Some("ab"));
    assert_eq!(store.get("file:///other"), None);
}

#[test]
fn a_change_with_an_old_version_is_stale() {
    let mut store = DocumentStore::new();
    store.open("file:///a".to_string(), "ab".to_string(), 4);
    let change = vec![insert_at(0, 0, "x")];
    assert_eq!(store.apply_change("file:///a", 4, &change), Err(DocumentError::StaleVersion));
    assert_eq!(store.apply_change("file:///a", 3, &change), Err(DocumentError::StaleVersion));
    assert_eq!(store.get("file:///a"), Some("ab"));
    assert_eq!(store.version("file:///a"), Some(4));
    assert_eq!(store.apply_change("file:///a", 5, &change), Ok(()));
    assert_eq!(store.get("file:///a"), Some("xab"));
}

#[test]
fn a_change_outside_the_text_is_an_invalid_range() {
    let mut store = DocumentStore::new();
    store.open("file:///a".to_string(), "ab".to_string(), 1);
    assert_eq!(
        store.apply_change("file:///a", 2, &vec![insert_at(0, 0, "x"), insert_at(3, 0, "y")]),
        Err(DocumentError::InvalidRange)
    );
    assert_eq!(store.get("file:///a"), Some("ab"));
    assert_eq!(store.version("file:///a"), Some(1));
}

#[test]
fn staleness_is_told_before_the_range() {
    let mut store = DocumentStore::new();
    store.open("file:///a".to_string(), "ab".to_string(), 9);
    assert_eq!(
        store.apply_change("file:///a", 1, &vec![insert_at(3, 0, "y")]),
        Err(DocumentError::StaleVersion)
    );
}

#[test]
fn close_removes_one_document() {
    let mut store = DocumentStore::new();
    store.open("file:///a".to_string(), "a".to_string(), 1);
    store.open("file:///b".to_string(), "b".to_string(), 1);
    store.open("file:///c".to_string(), "c".to_string(), 1);
    store.close("file:///b");
    assert_eq!(store.len(), 2);
    assert_eq!(store.get("file:///a"), Some("a"));
    assert_eq!(store.get("file:///b"), None);
    assert_eq!(store.get("file:///c"), Some("c"));
    store.close("file:///b");
    assert_eq!(store.len(), 2);
}

#[test]
fn clear_removes_every_document() {
    let mut store = DocumentStore::new();
    store.open("file:///a".to_string(), "a".to_string(), 1);
    store.open("file:///b".to_string(), "b".to_string(), 1);
    store.clear();
    assert_eq!(store.len(), 0);
    assert_eq!(store.get("file:///a"), None);
}

#[test]
fn every_refusal_counts_as_invalid_parameters() {
    for reason in [
        DocumentError::UnknownDocument,
        DocumentError::StaleVersion,
        DocumentError::InvalidRange,
    ] {
        assert_eq!(reason.kind(), ErrorKind::InvalidParams);
    }
}
