use espx_ls::doc_store::{init_doc_store, ChangeEvent, DocStoreError, Document, DocumentChange};
use espx_ls::lexer::{Position, Range};

fn at(line: u32, character: u32) -> Range {
    Range {
        start: Position { line, character },
        end: Position { line, character },
    }
}

fn changes_on(d: &Document, line: u32) -> Vec<DocumentChange> {
    d.changes.get(&line).cloned().unwrap_or_default()
}

#[test]
fn edit_records_each_character_by_line() {
    let mut d = Document::from_url_and_text("file:///tmp/foo", "hello".to_string());
    d.update(&ChangeEvent { range: Some(at(2, 4)), range_length: None, text: "ab\nc".to_string() });
    assert_eq!(changes_on(&d, 2), vec![DocumentChange(4, 'a'), DocumentChange(5, 'b')]);
    assert_eq!(changes_on(&d, 3), vec![DocumentChange(4, 'c')]);
    assert!(!d.changes.contains_key(&1));
    assert_eq!(d.current_text_str(), "hello");
}

#[test]
fn later_edits_append_to_a_line() {
    let mut d = Document::from_url_and_text("u", String::new());
    d.update(&ChangeEvent { range: Some(at(0, 0)), range_length: None, text: "x".to_string() });
    d.update(&ChangeEvent { range: Some(at(0, 7)), range_length: None, text: "y".to_string() });
    assert_eq!(changes_on(&d, 0), vec![DocumentChange(0, 'x'), DocumentChange(7, 'y')]);
}

#[test]
fn a_trailing_line_feed_opens_an_empty_line_entry() {
    let mut d = Document::from_url_and_text("u", String::new());
    d.update(&ChangeEvent { range: Some(at(5, 1)), range_length: None, text: "\n".to_string() });
    assert!(d.changes.contains_key(&5));
    assert!(d.changes.contains_key(&6));
    assert!(changes_on(&d, 5).is_empty());
    assert!(changes_on(&d, 6).is_empty());
}

#[test]
fn edit_without_range_changes_nothing() {
    let mut d = Document::from_url_and_text("file:///tmp/foo", "og".to_string());
    d.update(&ChangeEvent { range: None, range_length: None, text: "a".to_string() });
    assert!(d.changes.is_empty());
}

#[test]
fn store_reads_back_what_was_written() {
    let mut store = init_doc_store();
    assert_eq!(store.get_text_document_current("file:///a"), None);
    store.insert(Document::from_url_and_text("file:///a", "one".to_string()));
    assert_eq!(store.get_text_document_current("file:///a"), Some("one".to_string()));
    assert_eq!(store.set_doc_current("file:///a", "two"), Ok(()));
    assert_eq!(store.get_text_document_current("file:///a"), Some("two".to_string()));
    let change = ChangeEvent { range: Some(at(1, 1)), range_length: None, text: "z".to_string() };
    assert_eq!(store.update_doc_store("file:///a", &change), Ok(()));
    let d = store.get_text_document("file:///a").unwrap();
    assert_eq!(changes_on(d, 1), vec![DocumentChange(1, 'z')]);
    assert_eq!(d.url_str(), "file:///a");
}

#[test]
fn store_refuses_unknown_documents() {
    let mut store = init_doc_store();
    store.insert(Document::from_url_and_text("file:///a", "one".to_string()));
    assert_eq!(
        store.set_doc_current("file:///b", "x"),
        Err(DocStoreError::NoDocument("file:///b".to_string()))
    );
    let change = ChangeEvent { range: None, range_length: None, text: String::new() };
    assert_eq!(
        store.update_doc_store("file:///b", &change),
        Err(DocStoreError::NoDocument("file:///b".to_string()))
    );
    assert!(store.get_text_document("file:///b").is_none());
}

#[test]
fn inserting_again_replaces_the_document() {
    let mut store = init_doc_store();
    store.insert(Document::from_url_and_text("file:///a", "one".to_string()));
    store.insert(Document::from_url_and_text("file:///b", "bee".to_string()));
    store.insert(Document::from_url_and_text("file:///a", "uno".to_string()));
    assert_eq!(store.get_text_document_current("file:///a"), Some("uno".to_string()));
    assert_eq!(store.get_text_document_current("file:///b"), Some("bee".to_string()));
}

#[test]
fn edits_that_would_overflow_do_not_fit() {
    let ok = ChangeEvent { range: Some(at(1, 1)), range_length: None, text: "ab\ncd".to_string() };
    assert!(ok.fits());
    let no_range = ChangeEvent { range: None, range_length: None, text: "x".to_string() };
    assert!(no_range.fits());
    let far_line = ChangeEvent { range: Some(at(u32::MAX, 0)), range_length: None, text: "a\nb".to_string() };
    assert!(!far_line.fits());
    let far_char = ChangeEvent { range: Some(at(0, u32::MAX)), range_length: None, text: "ab".to_string() };
    assert!(!far_char.fits());
    let last_char = ChangeEvent { range: Some(at(0, u32::MAX)), range_length: None, text: "a".to_string() };
    assert!(last_char.fits());
}
