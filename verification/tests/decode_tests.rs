//! The metadata decoder: special deserialization rules, schema violations,
//! and the serialization round trip.

use std::sync::Arc;

use fimfareader::decode::story_from_json;
use fimfareader::encode::encode_story;
use fimfareader::error::ErrorKind;
use fimfareader::index::decode_line;
use fimfareader::interner::{author_eq, tag_eq, Interner};
use fimfareader::json::parse_json;
use fimfareader::story::{Author, CompletionStatus, Story, Tag};

fn decode(json: &str) -> Result<Story, fimfareader::error::Error> {
    let mut authors: Interner<Author> = Interner::new();
    let mut tags: Interner<Tag> = Interner::new();
    let tree = parse_json(json).expect("fixture must be valid JSON");
    story_from_json(&tree, &mut authors, &mut tags)
}

fn fixture(extra: &str) -> String {
    format!(
        "{{\"archive\": {{\"path\": \"epub/1.epub\", \"date_created\": \"2014-03-01T12:30:00+00:00\"}}, \"author\": {{\"id\": 7, \"name\": \"Rose\", \"url\": \"/a\", \"bio_html\": \"<p>bio</p>\"}}, \"chapters\": [{{\"chapter_number\": 1, \"id\": 11, \"num_views\": 3, \"num_words\": 50, \"published\": true, \"title\": \"One\", \"url\": \"/c1\"}}], \"color\": {{\"hex\": \"aabbcc\"}}, \"completion_status\": \"complete\", \"content_rating\": \"everyone\", \"date_published\": \"2015-06-15T00:00:00+00:00\", \"description_html\": \"<p>d</p>\", \"id\": 1, \"num_chapters\": 1, \"num_comments\": 2, \"num_dislikes\": 3, \"num_likes\": 4, \"num_views\": 5, \"num_words\": 50, \"published\": true, \"rating\": 0, \"short_description\": \"s\", \"status\": \"visible\", \"submitted\": true, \"tags\": [{{\"id\": 3, \"name\": \"Adventure\", \"old_id\": \"a\", \"type\": \"genre\", \"url\": \"/t\"}}], \"title\": \"T\", \"total_num_views\": 9, \"url\": \"/s\"{extra}}}",
        extra = extra,
    )
}

#[test]
fn full_record_decodes() {
    let story = decode(&fixture("")).unwrap();
    assert_eq!(story.id, 1);
    assert_eq!(story.title, "T");
    assert_eq!(story.author.id, 7);
    assert_eq!(story.author.name, "Rose");
    assert_eq!(story.chapters.len(), 1);
    assert_eq!(story.chapters[0].title, "One");
    assert_eq!(story.tags.len(), 1);
    assert_eq!(story.tags[0].kind, "genre");
    let color = story.color.unwrap();
    assert_eq!((color.red, color.green, color.blue), (170, 187, 204));
    assert_eq!(story.date_published, Some(1434326400));
    assert_eq!(story.archive.date_created, Some(1393677000));
    assert!(matches!(story.completion_status, CompletionStatus::Complete));
}

#[test]
fn unknown_field_is_rejected() {
    let error = decode(&fixture(", \"surprise\": 1")).unwrap_err();
    assert!(matches!(error.kind(), ErrorKind::IndexError));
}

#[test]
fn author_id_as_string_is_normalized() {
    let json = fixture("").replace("\"id\": 7,", "\"id\": \"00123\",");
    let story = decode(&json).unwrap();
    assert_eq!(story.author.id, 123);
}

#[test]
fn author_id_as_garbage_string_is_rejected() {
    let json = fixture("").replace("\"id\": 7,", "\"id\": \"x1\",");
    let error = decode(&json).unwrap_err();
    assert!(matches!(error.kind(), ErrorKind::IndexError));
}

#[test]
fn nulls_coalesce_to_defaults() {
    let json = fixture("")
        .replace("\"title\": \"T\"", "\"title\": null")
        .replace("\"short_description\": \"s\"", "\"short_description\": null")
        .replace(
            "\"description_html\": \"<p>d</p>\"",
            "\"description_html\": null",
        )
        .replace("\"title\": \"One\"", "\"title\": null");
    let story = decode(&json).unwrap();
    assert_eq!(story.title, "");
    assert_eq!(story.short_description, "");
    assert_eq!(story.description_html, "<p></p>");
    assert_eq!(story.chapters[0].title, "");
}

#[test]
fn hiatus_accepts_both_spellings() {
    let json = fixture("").replace("\"complete\"", "\"hiatus\"");
    assert!(matches!(
        decode(&json).unwrap().completion_status,
        CompletionStatus::Hiatus
    ));
    let json = fixture("").replace("\"complete\"", "\"on hiatus\"");
    assert!(matches!(
        decode(&json).unwrap().completion_status,
        CompletionStatus::Hiatus
    ));
}

#[test]
fn bad_color_hex_is_rejected() {
    let json = fixture("").replace("aabbcc", "aabbc");
    assert!(decode(&json).is_err());
    let json = fixture("").replace("aabbcc", "aabbccdd");
    assert!(decode(&json).is_err());
    let json = fixture("").replace("aabbcc", "zzzzzz");
    assert!(decode(&json).is_err());
}

#[test]
fn line_key_must_match_story_id() {
    let mut authors: Interner<Author> = Interner::new();
    let mut tags: Interner<Tag> = Interner::new();
    let good = format!(" \"1\": {},", fixture(""));
    let story = decode_line(&good, &mut authors, &mut tags).unwrap();
    assert_eq!(story.id, 1);
    let bad = format!("\"2\": {},", fixture(""));
    let error = decode_line(&bad, &mut authors, &mut tags).unwrap_err();
    assert!(matches!(error.kind(), ErrorKind::IndexError));
    let error = decode_line("no colon here", &mut authors, &mut tags).unwrap_err();
    assert!(matches!(error.kind(), ErrorKind::IndexError));
}

fn stories_equal(a: &Story, b: &Story) -> bool {
    a.id == b.id
        && a.title == b.title
        && a.url == b.url
        && a.description_html == b.description_html
        && a.short_description == b.short_description
        && a.archive.path == b.archive.path
        && a.archive.date_created == b.archive.date_created
        && a.date_published == b.date_published
        && a.date_modified == b.date_modified
        && author_eq(&a.author, &b.author)
        && a.num_chapters == b.num_chapters
        && a.num_words == b.num_words
        && a.chapters.len() == b.chapters.len()
        && a
            .chapters
            .iter()
            .zip(b.chapters.iter())
            .all(|(x, y)| x.id == y.id && x.title == y.title && x.num_words == y.num_words)
        && a.tags.len() == b.tags.len()
        && a
            .tags
            .iter()
            .zip(b.tags.iter())
            .all(|(x, y)| tag_eq(x, y))
}

#[test]
fn round_trip_preserves_the_record() {
    let story = decode(&fixture("")).unwrap();
    let encoded = encode_story(&story).expect("fixture instants are representable");
    let mut authors: Interner<Author> = Interner::new();
    let mut tags: Interner<Tag> = Interner::new();
    let again = story_from_json(&encoded, &mut authors, &mut tags).unwrap();
    assert!(stories_equal(&story, &again));
}

#[test]
fn instants_beyond_year_9999_refuse_to_encode() {
    let mut story = decode(&fixture("")).unwrap();
    story.date_modified = Some(253402300800);
    assert!(encode_story(&story).is_none());
    story.date_modified = Some(253402300799);
    assert!(encode_story(&story).is_some());
    story.date_modified = Some(-62167219201);
    assert!(encode_story(&story).is_none());
}

#[test]
fn tags_intern_to_shared_handles() {
    let mut authors: Interner<Author> = Interner::new();
    let mut tags: Interner<Tag> = Interner::new();
    let one = parse_json(&fixture("")).unwrap();
    let a = story_from_json(&one, &mut authors, &mut tags).unwrap();
    let two = parse_json(&fixture("").replace("\"id\": 1,", "\"id\": 2,")).unwrap();
    let b = story_from_json(&two, &mut authors, &mut tags).unwrap();
    assert!(Arc::ptr_eq(&a.tags[0], &b.tags[0]));
    assert!(Arc::ptr_eq(&a.author, &b.author));
}
