//! The filter language: parsing, compilation, and evaluation against a
//! small story table.

use fimfareader::error::ErrorKind;
use fimfareader::fetcher::Fetcher;
use fimfareader::interner::Interner;
use fimfareader::parse::parse;
use fimfareader::query::eval;
use fimfareader::story::{Author, Story, Tag};

struct Fix {
    id: i32,
    chapters: i32,
    likes: i32,
    words: i32,
    author: &'static str,
    title: &'static str,
    published: Option<&'static str>,
    author_id_json: &'static str,
}

fn default_fix(id: i32) -> Fix {
    Fix {
        id,
        chapters: 1,
        likes: 0,
        words: 100,
        author: "Someone",
        title: "Untitled",
        published: None,
        author_id_json: "1",
    }
}

fn line(f: &Fix) -> String {
    let published = match f.published {
        Some(date) => format!("\"date_published\": \"{}\", ", date),
        None => String::new(),
    };
    format!(
        "\"{id}\": {{\"archive\": {{\"path\": \"epub/{id}.epub\"}}, \"author\": {{\"id\": {aid}, \"name\": \"{author}\", \"url\": \"/a\"}}, \"chapters\": [], \"completion_status\": \"complete\", \"content_rating\": \"everyone\", {published}\"description_html\": \"<p>d</p>\", \"id\": {id}, \"num_chapters\": {chapters}, \"num_comments\": 0, \"num_dislikes\": 0, \"num_likes\": {likes}, \"num_views\": 0, \"num_words\": {words}, \"published\": true, \"rating\": 0, \"short_description\": \"s\", \"status\": \"visible\", \"submitted\": true, \"tags\": [], \"title\": \"{title}\", \"total_num_views\": 0, \"url\": \"/s\"}},",
        id = f.id,
        aid = f.author_id_json,
        author = f.author,
        published = published,
        chapters = f.chapters,
        likes = f.likes,
        words = f.words,
        title = f.title,
    )
}

fn load(fixes: &[Fix]) -> Fetcher {
    let mut lines = vec!["{".to_owned()];
    for f in fixes {
        lines.push(line(f));
    }
    lines.push("}".to_owned());
    let mut authors: Interner<Author> = Interner::new();
    let mut tags: Interner<Tag> = Interner::new();
    Fetcher::from_lines(&lines, &mut authors, &mut tags).unwrap()
}

fn ids(stories: Vec<&Story>) -> Vec<i32> {
    stories.iter().map(|s| s.id).collect()
}

#[test]
fn conjunction_and_disjunction_combine() {
    let one = Fix {
        chapters: 20,
        likes: 500,
        ..default_fix(1)
    };
    let two = Fix {
        chapters: 5,
        likes: 5000,
        author: "Fluttershy",
        ..default_fix(2)
    };
    let three = Fix {
        chapters: 20,
        likes: 10,
        ..default_fix(3)
    };
    let fetcher = load(&[one, two, three]);
    let pred = parse("chapters > 10, likes > 100 | author = Fluttershy").unwrap();
    assert_eq!(ids(fetcher.filter(&pred)), vec![1, 2]);
}

#[test]
fn negation_and_exact_equality() {
    let one = Fix {
        title: "visible",
        words: 500,
        ..default_fix(1)
    };
    let two = Fix {
        title: "Visible",
        words: 500,
        ..default_fix(2)
    };
    let three = Fix {
        title: "other",
        words: 5000,
        ..default_fix(3)
    };
    let fetcher = load(&[one, two, three]);
    let pred = parse("!(title = visible), words < 1000").unwrap();
    // Exact equality is case-sensitive: only the capitalized title survives
    // the negation within the word limit.
    assert_eq!(ids(fetcher.filter(&pred)), vec![2]);
    let pred = parse("title = Visible").unwrap();
    assert_eq!(ids(fetcher.filter(&pred)), vec![2]);
}

#[test]
fn fuzzy_match_is_case_insensitive_substring() {
    let one = Fix {
        title: "Friendship is Magic",
        ..default_fix(1)
    };
    let two = Fix {
        title: "the friendship report",
        ..default_fix(2)
    };
    let three = Fix {
        title: "something else",
        ..default_fix(3)
    };
    let fetcher = load(&[one, two, three]);
    let pred = parse("title : friendship").unwrap();
    assert_eq!(ids(fetcher.filter(&pred)), vec![1, 2]);
}

#[test]
fn date_comparison_excludes_null_fields() {
    let one = Fix {
        published: Some("2015-06-15T00:00:00+00:00"),
        ..default_fix(1)
    };
    let two = Fix {
        published: Some("2016-06-01T00:00:00+00:00"),
        ..default_fix(2)
    };
    let three = default_fix(3);
    let fetcher = load(&[one, two, three]);
    let pred = parse("published > 2015-01-01, published < 2016-01-01").unwrap();
    assert_eq!(ids(fetcher.filter(&pred)), vec![1]);
}

#[test]
fn author_id_matches_number_and_string_forms() {
    let one = Fix {
        author_id_json: "12345",
        ..default_fix(1)
    };
    let two = Fix {
        author_id_json: "\"12345\"",
        author: "Other",
        ..default_fix(2)
    };
    let three = default_fix(3);
    let fetcher = load(&[one, two, three]);
    let pred = parse("author id = 12345").unwrap();
    assert_eq!(ids(fetcher.filter(&pred)), vec![1, 2]);
}

#[test]
fn conjunction_binds_tighter_than_disjunction() {
    let fetcher = load(&[default_fix(1), default_fix(2), default_fix(3)]);
    let pred = parse("id = 1 | id = 2, id = 3").unwrap();
    assert_eq!(ids(fetcher.filter(&pred)), vec![1]);
}

#[test]
fn escaped_delimiters_reach_the_value() {
    let one = Fix {
        title: "a,b",
        ..default_fix(1)
    };
    let two = Fix {
        title: "a",
        ..default_fix(2)
    };
    let fetcher = load(&[one, two]);
    let pred = parse("title = a\\,b").unwrap();
    assert_eq!(ids(fetcher.filter(&pred)), vec![1]);
    let pred = parse("(title = a\\)) | title = a\\,b").unwrap();
    assert_eq!(ids(fetcher.filter(&pred)), vec![1]);
}

#[test]
fn longest_field_name_wins() {
    let one = Fix {
        words: 7,
        ..default_fix(1)
    };
    let fetcher = load(&[one]);
    let pred = parse("total views = 0, views = 0, words = 7").unwrap();
    assert_eq!(ids(fetcher.filter(&pred)), vec![1]);
}

#[test]
fn query_errors_are_query_kind() {
    for bad in [
        "mystery = 1",
        "title < a",
        "words = abc",
        "published > not a date at all even loosely",
        "(id = 1",
        "",
        "id = 1 |",
    ] {
        let error = parse(bad).unwrap_err();
        assert!(
            matches!(error.kind(), ErrorKind::QueryError),
            "{:?} should be a query error",
            bad
        );
    }
}

#[test]
fn evaluation_is_repeatable() {
    let fetcher = load(&[default_fix(1), default_fix(2)]);
    let pred = parse("id < 2").unwrap();
    let first = ids(fetcher.filter(&pred));
    let second = ids(fetcher.filter(&pred));
    assert_eq!(first, vec![1]);
    assert_eq!(first, second);
    let story = fetcher.fetch(1).unwrap();
    assert!(eval(&pred, story));
    let story = fetcher.fetch(2).unwrap();
    assert!(!eval(&pred, story));
}
