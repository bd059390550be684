//! Loading the metadata index: wrapper lines, duplicate ids, ordering,
//! lookup and interning.

use std::sync::Arc;

use fimfareader::error::ErrorKind;
use fimfareader::fetcher::{identity_tag, Fetcher};
use fimfareader::interner::Interner;
use fimfareader::story::{Author, Tag};

fn story_json(id: i32, author_id: i32, author_name: &str) -> String {
    format!(
        "{{\"archive\": {{\"path\": \"epub/{id}.epub\"}}, \"author\": {{\"id\": {aid}, \"name\": \"{aname}\", \"url\": \"/a\"}}, \"chapters\": [], \"completion_status\": \"complete\", \"content_rating\": \"everyone\", \"description_html\": \"<p>d</p>\", \"id\": {id}, \"num_chapters\": 2, \"num_comments\": 0, \"num_dislikes\": 0, \"num_likes\": 0, \"num_views\": 0, \"num_words\": 100, \"published\": true, \"rating\": 0, \"short_description\": \"s\", \"status\": \"visible\", \"submitted\": true, \"tags\": [], \"title\": \"T{id}\", \"total_num_views\": 0, \"url\": \"/s\"}}",
        id = id,
        aid = author_id,
        aname = author_name,
    )
}

fn line(id: i32, author_id: i32, author_name: &str) -> String {
    format!("\"{}\": {},", id, story_json(id, author_id, author_name))
}

fn load(lines: Vec<String>) -> Result<Fetcher, fimfareader::error::Error> {
    let mut authors: Interner<Author> = Interner::new();
    let mut tags: Interner<Tag> = Interner::new();
    Fetcher::from_lines(&lines, &mut authors, &mut tags)
}

#[test]
fn empty_index_is_legal() {
    let fetcher = load(vec!["{".to_owned(), "}".to_owned()]).unwrap();
    assert_eq!(fetcher.len(), 0);
}

#[test]
fn duplicate_id_aborts_load() {
    let lines = vec![
        "{".to_owned(),
        line(7, 1, "A"),
        line(7, 1, "A"),
        "}".to_owned(),
    ];
    let error = load(lines).unwrap_err();
    assert!(matches!(error.kind(), ErrorKind::IndexError));
}

#[test]
fn missing_wrappers_abort_load() {
    let error = load(vec![line(1, 1, "A")]).unwrap_err();
    assert!(matches!(error.kind(), ErrorKind::IndexError));
}

#[test]
fn single_wrapper_aborts_load() {
    let error = load(vec!["{".to_owned(), line(1, 1, "A")]).unwrap_err();
    assert!(matches!(error.kind(), ErrorKind::IndexError));
}

#[test]
fn wrappers_in_wrong_order_abort_load() {
    let lines = vec!["}".to_owned(), line(1, 1, "A"), "{".to_owned()];
    let error = load(lines).unwrap_err();
    assert!(matches!(error.kind(), ErrorKind::IndexError));
}

#[test]
fn three_wrappers_abort_load() {
    let lines = vec![
        "{".to_owned(),
        "{".to_owned(),
        line(1, 1, "A"),
        "}".to_owned(),
    ];
    let error = load(lines).unwrap_err();
    assert!(matches!(error.kind(), ErrorKind::IndexError));
}

#[test]
fn key_id_mismatch_aborts_load() {
    let bad = format!("\"9\": {},", story_json(1, 1, "A"));
    let lines = vec!["{".to_owned(), bad, "}".to_owned()];
    let error = load(lines).unwrap_err();
    assert!(matches!(error.kind(), ErrorKind::IndexError));
}

#[test]
fn table_is_sorted_ascending_by_id() {
    let lines = vec![
        "{".to_owned(),
        line(30, 1, "A"),
        line(10, 1, "A"),
        line(20, 1, "A"),
        "}".to_owned(),
    ];
    let fetcher = load(lines).unwrap();
    let stories = fetcher.stories();
    assert_eq!(stories.len(), 3);
    assert_eq!(stories[0].id, 10);
    assert_eq!(stories[1].id, 20);
    assert_eq!(stories[2].id, 30);
}

#[test]
fn fetch_finds_exactly_present_ids() {
    let lines = vec![
        "{".to_owned(),
        line(10, 1, "A"),
        line(20, 1, "A"),
        line(30, 1, "A"),
        "}".to_owned(),
    ];
    let fetcher = load(lines).unwrap();
    assert_eq!(fetcher.fetch(10).unwrap().id, 10);
    assert_eq!(fetcher.fetch(20).unwrap().id, 20);
    assert_eq!(fetcher.fetch(30).unwrap().id, 30);
    assert!(fetcher.fetch(15).is_none());
    assert!(fetcher.fetch(-1).is_none());
    assert!(fetcher.fetch(31).is_none());
}

#[test]
fn equal_authors_share_one_handle() {
    let lines = vec![
        "{".to_owned(),
        line(1, 5, "Same Author"),
        line(2, 5, "Same Author"),
        line(3, 6, "Other Author"),
        "}".to_owned(),
    ];
    let fetcher = load(lines).unwrap();
    let a = &fetcher.stories()[0].author;
    let b = &fetcher.stories()[1].author;
    let c = &fetcher.stories()[2].author;
    assert!(Arc::ptr_eq(a, b));
    assert!(!Arc::ptr_eq(a, c));
}

#[test]
fn identity_tag_is_decimal_of_checksum() {
    assert_eq!(identity_tag(3857432), "3857432");
    assert_eq!(identity_tag(0), "0");
    assert_eq!(identity_tag(u32::MAX), "4294967295");
    assert_eq!(identity_tag(3857432), identity_tag(3857432));
}
