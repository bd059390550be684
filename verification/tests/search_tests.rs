//! The full-text search path: ranked hits over an in-memory inverted index,
//! thresholded and mapped back through the story table.

use fimfareader::fetcher::Fetcher;
use fimfareader::interner::Interner;
use fimfareader::search::SearchFilter;
use fimfareader::story::{Author, Tag};

use tantivy::collector::TopDocs;
use tantivy::query::QueryParser;
use tantivy::schema::Value;
use tantivy::schema::{Schema, INDEXED, STORED, TEXT};
use tantivy::{Index, TantivyDocument};

fn line(id: i32) -> String {
    format!(
        "\"{id}\": {{\"archive\": {{\"path\": \"epub/{id}.epub\"}}, \"author\": {{\"id\": 1, \"name\": \"A\", \"url\": \"/a\"}}, \"chapters\": [], \"completion_status\": \"complete\", \"content_rating\": \"everyone\", \"description_html\": \"<p>d</p>\", \"id\": {id}, \"num_chapters\": 1, \"num_comments\": 0, \"num_dislikes\": 0, \"num_likes\": 0, \"num_views\": 0, \"num_words\": 10, \"published\": true, \"rating\": 0, \"short_description\": \"s\", \"status\": \"visible\", \"submitted\": true, \"tags\": [], \"title\": \"T{id}\", \"total_num_views\": 0, \"url\": \"/s\"}},",
        id = id,
    )
}

fn load(ids: &[i32]) -> Fetcher {
    let mut lines = vec!["{".to_owned()];
    for id in ids {
        lines.push(line(*id));
    }
    lines.push("}".to_owned());
    let mut authors: Interner<Author> = Interner::new();
    let mut tags: Interner<Tag> = Interner::new();
    Fetcher::from_lines(&lines, &mut authors, &mut tags).unwrap()
}

fn search_ids(index: &Index, sid: tantivy::schema::Field, text: &str) -> Vec<(i64, f32)> {
    let reader = index.reader().unwrap();
    let searcher = reader.searcher();
    let content = index.schema().get_field("content").unwrap();
    let parser = QueryParser::for_index(index, vec![content]);
    let query = parser.parse_query(text).unwrap();
    let docs = searcher.search(&query, &TopDocs::with_limit(32).order_by_score()).unwrap();
    docs.into_iter()
        .map(|(score, address)| {
            let doc: TantivyDocument = searcher.doc(address).unwrap();
            let value = doc.get_first(sid).and_then(|v| v.as_i64()).unwrap();
            (value, score)
        })
        .collect()
}

#[test]
fn phrase_hit_scores_above_threshold_and_filters_the_rest() {
    let mut builder = Schema::builder();
    let sid = builder.add_i64_field("sid", INDEXED | STORED);
    let content = builder.add_text_field("content", TEXT);
    let index = Index::create_in_ram(builder.build());
    let mut writer = index.writer(15_000_000).unwrap();

    let texts: Vec<(i64, String)> = {
        let mut all = vec![
            (1, "the heart of courage beats in every chapter; heart of courage indeed".to_owned()),
            (2, "bravery and valor carried her onward".to_owned()),
            (3, "a quiet tale about gardening and tea".to_owned()),
        ];
        for filler in 0..200 {
            all.push((100 + filler, format!("filler document number {filler} talking about weather")));
        }
        all
    };
    for (id, text) in &texts {
        let mut doc = TantivyDocument::default();
        doc.add_i64(sid, *id);
        doc.add_text(content, text);
        writer.add_document(doc).unwrap();
    }
    writer.commit().unwrap();

    let hits = search_ids(&index, sid, "heart of courage");
    assert!(!hits.is_empty());
    assert_eq!(hits[0].0, 1);
    assert!(hits[0].1 > 10.0, "top score was {}", hits[0].1);

    // The adapter: keep ids whose score clears the threshold, then use the
    // sorted-id membership filter over the table.
    let kept: Vec<i32> = hits
        .iter()
        .filter(|(_, score)| *score > 10.0)
        .map(|(id, _)| *id as i32)
        .collect();
    let filter = SearchFilter::from_hits(&kept);
    let fetcher = load(&[1, 2, 3]);
    let found = filter.filter_stories(&fetcher);
    assert_eq!(found.len(), 1);
    assert_eq!(found[0].id, 1);
}

#[test]
fn membership_filter_keeps_table_order_and_drops_unknown_ids() {
    let fetcher = load(&[5, 10, 15]);
    let filter = SearchFilter::from_hits(&vec![15, 999, 5, 15]);
    let found = filter.filter_stories(&fetcher);
    let ids: Vec<i32> = found.iter().map(|s| s.id).collect();
    assert_eq!(ids, vec![5, 15]);
    assert!(filter.matches(fetcher.fetch(5).unwrap()));
    assert!(!filter.matches(fetcher.fetch(10).unwrap()));
}
