//! Re-serialization of a story's canonical fields back into a JSON tree.
//! Decoding an encoded record gives the record back: the round trip holds.

use vstd::prelude::*;
use crate::decode::{hex_val, spec_hex_color, spec_tag};
use crate::json::{spec_obj_get, Json};
use crate::story::{Color, Tag};

verus! {

broadcast use vstd::string::group_string_axioms;

/// Looking a key up in an object finds the entry that holds it first.
pub proof fn lemma_obj_get_at(fields: Seq<(String, Json)>, key: Seq<char>, i: int)
    requires
        0 <= i < fields.len(),
        fields[i].0@ == key,
        forall|k: int| 0 <= k < i ==> (#[trigger] fields[k].0)@ != key,
    ensures
        spec_obj_get(fields, key) == Some(fields[i].1),
    decreases i,
{
    if i > 0 {
        let rest = fields.drop_first();
        assert(rest[i - 1] == fields[i]);
        assert forall|k: int| 0 <= k < i - 1 implies (#[trigger] rest[k].0)@ != key by {
            assert(rest[k] == fields[k + 1]);
        }
        lemma_obj_get_at(rest, key, i - 1);
    }
}

fn hex_char(d: u8) -> (c: char)
    requires
        d < 16,
    ensures
        hex_val(c) == Some(d as int),
{
    if d == 0 {
        '0'
    } else if d == 1 {
        '1'
    } else if d == 2 {
        '2'
    } else if d == 3 {
        '3'
    } else if d == 4 {
        '4'
    } else if d == 5 {
        '5'
    } else if d == 6 {
        '6'
    } else if d == 7 {
        '7'
    } else if d == 8 {
        '8'
    } else if d == 9 {
        '9'
    } else if d == 10 {
        'a'
    } else if d == 11 {
        'b'
    } else if d == 12 {
        'c'
    } else if d == 13 {
        'd'
    } else if d == 14 {
        'e'
    } else {
        'f'
    }
}

/// Writes a colour back as its six hex digits.
pub fn color_hex(c: &Color) -> (r: String)
    ensures
        spec_hex_color(r@) == Some(*c),
{
    let mut v: Vec<char> = Vec::new();
    v.push(hex_char(c.red / 16));
    v.push(hex_char(c.red % 16));
    v.push(hex_char(c.green / 16));
    v.push(hex_char(c.green % 16));
    v.push(hex_char(c.blue / 16));
    v.push(hex_char(c.blue % 16));
    let s = crate::text::string_from_chars(&v);
    proof {
        assert(crate::decode::hex_byte(s@[0], s@[1]) == Some(c.red));
        assert(crate::decode::hex_byte(s@[2], s@[3]) == Some(c.green));
        assert(crate::decode::hex_byte(s@[4], s@[5]) == Some(c.blue));
    }
    s
}

/// Relies on `chrono::DateTime::from_timestamp` and `to_rfc3339`: an
/// instant within years 0000 through 9999 is written with a four-digit
/// year, and the written text reads back to the same instant. Instants
/// outside that range are excluded: the writer would use a five-digit year
/// that the strict reader refuses.
#[verifier::external_body]
pub fn format_rfc3339(ts: i64) -> (r: String)
    requires
        crate::dates::rfc3339_writable(ts as int),
    ensures
        crate::dates::rfc3339_of(r@) == Some(ts),
{
    match chrono::DateTime::from_timestamp(ts, 0) {
        Some(d) => d.to_rfc3339(),
        None => String::new(),  // unreachable: the precondition bounds the instant
    }
}

/// Whether an optional instant can be written back as text: a missing one
/// needs no writing.
pub open spec fn opt_writable(v: Option<i64>) -> bool {
    match v {
        Some(ts) => crate::dates::rfc3339_writable(ts as int),
        None => true,
    }
}

/// All four archive instants are writable.
pub open spec fn archive_writable(a: crate::story::ArchiveView) -> bool {
    &&& opt_writable(a.date_checked)
    &&& opt_writable(a.date_created)
    &&& opt_writable(a.date_fetched)
    &&& opt_writable(a.date_updated)
}

/// The author's join instant is writable.
pub open spec fn author_writable(a: crate::story::AuthorView) -> bool {
    opt_writable(a.date_joined)
}

/// Both chapter instants are writable.
pub open spec fn chapter_writable(c: crate::story::ChapterView) -> bool {
    opt_writable(c.date_modified) && opt_writable(c.date_published)
}

pub open spec fn chapters_writable(cs: Seq<crate::story::ChapterView>) -> bool {
    forall|i: int| 0 <= i < cs.len() ==> chapter_writable(#[trigger] cs[i])
}

/// Every instant of the record can be written back as text: exactly the
/// records the re-serializer accepts.
pub open spec fn story_writable(s: crate::story::StoryView) -> bool {
    &&& archive_writable(s.archive)
    &&& author_writable(s.author)
    &&& chapters_writable(s.chapters)
    &&& opt_writable(s.date_modified)
    &&& opt_writable(s.date_published)
    &&& opt_writable(s.date_updated)
}

/// Re-serializes a tag's canonical fields. Decoding the result restores the
/// tag exactly.
pub fn encode_tag(t: &Tag) -> (r: Json)
    ensures
        spec_tag(r) == Some(t@),
{
    let mut fields: Vec<(String, Json)> = Vec::new();
    fields.push(("id".to_owned(), Json::Num(t.id as i64)));
    fields.push(("name".to_owned(), Json::Str(t.name.clone())));
    fields.push(("old_id".to_owned(), Json::Str(t.old_id.clone())));
    fields.push(("type".to_owned(), Json::Str(t.kind.clone())));
    fields.push(("url".to_owned(), Json::Str(t.url.clone())));
    let ghost fs = fields@;
    let r = Json::Obj(fields);
    proof {
        reveal_strlit("id");
        reveal_strlit("name");
        reveal_strlit("old_id");
        reveal_strlit("type");
        reveal_strlit("url");
        assert(fs.len() == 5);
        assert("id"@.len() == 2 && "name"@.len() == 4 && "old_id"@.len() == 6 && "type"@.len() == 4
            && "url"@.len() == 3);
        assert("name"@[0] == 'n' && "type"@[0] == 't');
        lemma_obj_get_at(fs, "id"@, 0);
        lemma_obj_get_at(fs, "name"@, 1);
        lemma_obj_get_at(fs, "old_id"@, 2);
        lemma_obj_get_at(fs, "type"@, 3);
        lemma_obj_get_at(fs, "url"@, 4);
        assert(crate::decode::keys_within(fs, |k: Seq<char>| crate::decode::is_tag_key(k)));
        assert(spec_tag(r)->0 =~= t@);
    }
    r
}


/// Re-serializes an avatar block. Decoding the result restores it exactly.
pub fn encode_avatar(a: &crate::story::Avatar) -> (r: Json)
    ensures
        crate::decode::spec_avatar(r) == Some(a@),
{
    let mut fields: Vec<(String, Json)> = Vec::new();
    fields.push(("16".to_owned(), opt_str_json(&a.x16)));
    fields.push(("32".to_owned(), opt_str_json(&a.x32)));
    fields.push(("48".to_owned(), opt_str_json(&a.x48)));
    fields.push(("64".to_owned(), opt_str_json(&a.x64)));
    fields.push(("96".to_owned(), opt_str_json(&a.x96)));
    fields.push(("128".to_owned(), opt_str_json(&a.x128)));
    fields.push(("160".to_owned(), opt_str_json(&a.x160)));
    fields.push(("192".to_owned(), opt_str_json(&a.x192)));
    fields.push(("256".to_owned(), opt_str_json(&a.x256)));
    fields.push(("320".to_owned(), opt_str_json(&a.x320)));
    fields.push(("384".to_owned(), opt_str_json(&a.x384)));
    fields.push(("512".to_owned(), opt_str_json(&a.x512)));
    let ghost fs = fields@;
    let r = Json::Obj(fields);
    proof {
        reveal_strlit("16");
        reveal_strlit("32");
        reveal_strlit("48");
        reveal_strlit("64");
        reveal_strlit("96");
        reveal_strlit("128");
        reveal_strlit("160");
        reveal_strlit("192");
        reveal_strlit("256");
        reveal_strlit("320");
        reveal_strlit("384");
        reveal_strlit("512");
        assert(fs.len() == 12);
        assert("16"@.len() == 2 && "32"@.len() == 2 && "48"@.len() == 2 && "64"@.len() == 2
            && "96"@.len() == 2 && "128"@.len() == 3 && "160"@.len() == 3 && "192"@.len() == 3
            && "256"@.len() == 3 && "320"@.len() == 3 && "384"@.len() == 3 && "512"@.len() == 3);
        assert("16"@[0] == '1' && "32"@[0] == '3' && "48"@[0] == '4' && "64"@[0] == '6' && "96"@[0]
            == '9');
        assert("128"@[0] == '1' && "160"@[0] == '1' && "192"@[0] == '1' && "256"@[0] == '2'
            && "320"@[0] == '3' && "384"@[0] == '3' && "512"@[0] == '5');
        assert("128"@[1] == '2' && "160"@[1] == '6' && "192"@[1] == '9' && "320"@[1] == '2'
            && "384"@[1] == '8');
        lemma_obj_get_at(fs, "16"@, 0);
        lemma_obj_get_at(fs, "32"@, 1);
        lemma_obj_get_at(fs, "48"@, 2);
        lemma_obj_get_at(fs, "64"@, 3);
        lemma_obj_get_at(fs, "96"@, 4);
        lemma_obj_get_at(fs, "128"@, 5);
        lemma_obj_get_at(fs, "160"@, 6);
        lemma_obj_get_at(fs, "192"@, 7);
        lemma_obj_get_at(fs, "256"@, 8);
        lemma_obj_get_at(fs, "320"@, 9);
        lemma_obj_get_at(fs, "384"@, 10);
        lemma_obj_get_at(fs, "512"@, 11);
        assert(crate::decode::keys_within(fs, |k: Seq<char>| crate::decode::is_avatar_key(k)));
        assert(crate::decode::spec_avatar(r)->0 =~= a@);
    }
    r
}

/// An optional text as a JSON value: the text, or null.
fn opt_str_json(v: &Option<String>) -> (r: Json)
    ensures
        match v {
            Some(s) => r == Json::Str(*s),
            None => r == Json::Null,
        },
{
    match v {
        Some(s) => Json::Str(s.clone()),
        None => Json::Null,
    }
}

/// An optional instant as a JSON value: an RFC 3339 string, or null.
/// Succeeds exactly when the instant is writable.
fn opt_date_json(v: &Option<i64>) -> (r: Option<Json>)
    ensures
        r is Some == opt_writable(*v),
        match v {
            Some(ts) => r matches Some(j) ==> (j matches Json::Str(s)
                && crate::dates::rfc3339_of(s@) == Some(*ts)),
            None => r == Some(Json::Null),
        },
{
    match v {
        Some(ts) => {
            let ts = *ts;
            if -62167219200 <= ts && ts <= 253402300799 {
                Some(Json::Str(format_rfc3339(ts)))
            } else {
                None
            }
        },
        None => Some(Json::Null),
    }
}

/// Re-serializes a cover image block.
pub fn encode_cover(c: &crate::story::CoverImage) -> (r: Json)
    ensures
        crate::decode::spec_cover(r) == Some(c@),
{
    let mut fields: Vec<(String, Json)> = Vec::new();
    fields.push(("full".to_owned(), Json::Str(c.full.clone())));
    fields.push(("large".to_owned(), Json::Str(c.large.clone())));
    fields.push(("medium".to_owned(), Json::Str(c.medium.clone())));
    fields.push(("thumbnail".to_owned(), Json::Str(c.thumbnail.clone())));
    let ghost fs = fields@;
    let r = Json::Obj(fields);
    proof {
        reveal_strlit("full");
        reveal_strlit("large");
        reveal_strlit("medium");
        reveal_strlit("thumbnail");
        assert(fs.len() == 4);
        assert("full"@.len() == 4 && "large"@.len() == 5 && "medium"@.len() == 6
            && "thumbnail"@.len() == 9);
        lemma_obj_get_at(fs, "full"@, 0);
        lemma_obj_get_at(fs, "large"@, 1);
        lemma_obj_get_at(fs, "medium"@, 2);
        lemma_obj_get_at(fs, "thumbnail"@, 3);
        assert(crate::decode::keys_within(fs, |k: Seq<char>| crate::decode::is_cover_key(k)));
        assert(crate::decode::spec_cover(r)->0 =~= c@);
    }
    r
}

/// Re-serializes an archive block. Succeeds exactly when its instants are
/// writable; decoding the result restores the block.
pub fn encode_archive(a: &crate::story::Archive) -> (r: Option<Json>)
    ensures
        r is Some == archive_writable(a@),
        r matches Some(j) ==> crate::decode::spec_archive(j) == Some(a@),
{
    let Some(checked) = opt_date_json(&a.date_checked) else { return None };
    let Some(created) = opt_date_json(&a.date_created) else { return None };
    let Some(fetched) = opt_date_json(&a.date_fetched) else { return None };
    let Some(updated) = opt_date_json(&a.date_updated) else { return None };
    let mut fields: Vec<(String, Json)> = Vec::new();
    fields.push(("date_checked".to_owned(), checked));
    fields.push(("date_created".to_owned(), created));
    fields.push(("date_fetched".to_owned(), fetched));
    fields.push(("date_updated".to_owned(), updated));
    fields.push(("path".to_owned(), Json::Str(a.path.clone())));
    let ghost fs = fields@;
    let r = Json::Obj(fields);
    proof {
        reveal_strlit("date_checked");
        reveal_strlit("date_created");
        reveal_strlit("date_fetched");
        reveal_strlit("date_updated");
        reveal_strlit("path");
        assert(fs.len() == 5);
        assert("date_checked"@.len() == 12 && "date_created"@.len() == 12 && "date_fetched"@.len()
            == 12 && "date_updated"@.len() == 12 && "path"@.len() == 4);
        assert("date_checked"@[5] == 'c' && "date_created"@[5] == 'c' && "date_fetched"@[5] == 'f'
            && "date_updated"@[5] == 'u');
        assert("date_checked"@[6] == 'h' && "date_created"@[6] == 'r');
        lemma_obj_get_at(fs, "date_checked"@, 0);
        lemma_obj_get_at(fs, "date_created"@, 1);
        lemma_obj_get_at(fs, "date_fetched"@, 2);
        lemma_obj_get_at(fs, "date_updated"@, 3);
        lemma_obj_get_at(fs, "path"@, 4);
        assert(crate::decode::keys_within(fs, |k: Seq<char>| crate::decode::is_archive_key(k)));
        assert(crate::decode::spec_archive(r)->0 =~= a@);
    }
    Some(r)
}

/// Re-serializes an author block. Succeeds exactly when its join instant is
/// writable; decoding the result restores the block.
pub fn encode_author(a: &crate::story::Author) -> (r: Option<Json>)
    ensures
        r is Some == author_writable(a@),
        r matches Some(j) ==> crate::decode::spec_author(j) == Some(a@),
{
    let avatar = match &a.avatar {
        Some(v) => encode_avatar(v),
        None => Json::Null,
    };
    let Some(joined) = opt_date_json(&a.date_joined) else { return None };
    let mut fields: Vec<(String, Json)> = Vec::new();
    fields.push(("avatar".to_owned(), avatar));
    fields.push(("bio_html".to_owned(), opt_str_json(&a.bio_html)));
    fields.push(("date_joined".to_owned(), joined));
    fields.push(("id".to_owned(), Json::Num(a.id as i64)));
    fields.push(("name".to_owned(), Json::Str(a.name.clone())));
    fields.push(("num_blog_posts".to_owned(), opt_i32_json(&a.num_blog_posts)));
    fields.push(("num_followers".to_owned(), opt_i32_json(&a.num_followers)));
    fields.push(("num_stories".to_owned(), opt_i32_json(&a.num_stories)));
    fields.push(("url".to_owned(), Json::Str(a.url.clone())));
    let ghost fs = fields@;
    let r = Json::Obj(fields);
    proof {
        reveal_strlit("avatar");
        reveal_strlit("bio_html");
        reveal_strlit("date_joined");
        reveal_strlit("id");
        reveal_strlit("name");
        reveal_strlit("num_blog_posts");
        reveal_strlit("num_followers");
        reveal_strlit("num_stories");
        reveal_strlit("url");
        assert(fs.len() == 9);
        assert("avatar"@.len() == 6 && "bio_html"@.len() == 8 && "date_joined"@.len() == 11
            && "id"@.len() == 2 && "name"@.len() == 4 && "num_blog_posts"@.len() == 14
            && "num_followers"@.len() == 13 && "num_stories"@.len() == 11 && "url"@.len() == 3);
        assert("date_joined"@[0] == 'd' && "num_stories"@[0] == 'n');
        lemma_obj_get_at(fs, "avatar"@, 0);
        lemma_obj_get_at(fs, "bio_html"@, 1);
        lemma_obj_get_at(fs, "date_joined"@, 2);
        lemma_obj_get_at(fs, "id"@, 3);
        lemma_obj_get_at(fs, "name"@, 4);
        lemma_obj_get_at(fs, "num_blog_posts"@, 5);
        lemma_obj_get_at(fs, "num_followers"@, 6);
        lemma_obj_get_at(fs, "num_stories"@, 7);
        lemma_obj_get_at(fs, "url"@, 8);
        assert(crate::decode::keys_within(fs, |k: Seq<char>| crate::decode::is_author_key(k)));
        assert(crate::decode::spec_author(r)->0 =~= a@);
    }
    Some(r)
}

/// An optional count as a JSON value: the number, or null.
fn opt_i32_json(v: &Option<i32>) -> (r: Json)
    ensures
        match v {
            Some(n) => r == Json::Num(*n as i64),
            None => r == Json::Null,
        },
{
    match v {
        Some(n) => Json::Num(*n as i64),
        None => Json::Null,
    }
}


/// Re-serializes a chapter. Succeeds exactly when its instants are
/// writable; decoding the result restores the chapter.
pub fn encode_chapter(c: &crate::story::Chapter) -> (r: Option<Json>)
    ensures
        r is Some == chapter_writable(c@),
        r matches Some(j) ==> crate::decode::spec_chapter(j) == Some(c@),
{
    let Some(modified) = opt_date_json(&c.date_modified) else { return None };
    let Some(published_at) = opt_date_json(&c.date_published) else { return None };
    let mut fields: Vec<(String, Json)> = Vec::new();
    fields.push(("chapter_number".to_owned(), Json::Num(c.chapter_number as i64)));
    fields.push(("date_modified".to_owned(), modified));
    fields.push(("date_published".to_owned(), published_at));
    fields.push(("id".to_owned(), Json::Num(c.id as i64)));
    fields.push(("num_views".to_owned(), Json::Num(c.num_views as i64)));
    fields.push(("num_words".to_owned(), Json::Num(c.num_words as i64)));
    fields.push(("published".to_owned(), Json::Bool(c.published)));
    fields.push(("title".to_owned(), Json::Str(c.title.clone())));
    fields.push(("url".to_owned(), Json::Str(c.url.clone())));
    let ghost fs = fields@;
    let r = Json::Obj(fields);
    proof {
        reveal_strlit("chapter_number");
        reveal_strlit("date_modified");
        reveal_strlit("date_published");
        reveal_strlit("id");
        reveal_strlit("num_views");
        reveal_strlit("num_words");
        reveal_strlit("published");
        reveal_strlit("title");
        reveal_strlit("url");
        assert(fs.len() == 9);
        assert("chapter_number"@.len() == 14 && "date_modified"@.len() == 13
            && "date_published"@.len() == 14 && "id"@.len() == 2 && "num_views"@.len() == 9
            && "num_words"@.len() == 9 && "published"@.len() == 9 && "title"@.len() == 5
            && "url"@.len() == 3);
        assert("chapter_number"@[0] == 'c' && "date_published"@[0] == 'd');
        assert("num_views"@[0] == 'n' && "num_words"@[0] == 'n' && "published"@[0] == 'p');
        assert("num_views"@[4] == 'v' && "num_words"@[4] == 'w');
        lemma_obj_get_at(fs, "chapter_number"@, 0);
        lemma_obj_get_at(fs, "date_modified"@, 1);
        lemma_obj_get_at(fs, "date_published"@, 2);
        lemma_obj_get_at(fs, "id"@, 3);
        lemma_obj_get_at(fs, "num_views"@, 4);
        lemma_obj_get_at(fs, "num_words"@, 5);
        lemma_obj_get_at(fs, "published"@, 6);
        lemma_obj_get_at(fs, "title"@, 7);
        lemma_obj_get_at(fs, "url"@, 8);
        assert(crate::decode::keys_within(fs, |k: Seq<char>| crate::decode::is_chapter_key(k)));
        assert(crate::decode::spec_chapter(r)->0 =~= c@);
    }
    Some(r)
}

/// A decoded element extends a decoded chapter sequence.
proof fn lemma_chapters_push(elems: Seq<Json>, vs: Seq<crate::story::ChapterView>, x: Json, v: crate::story::ChapterView)
    requires
        crate::decode::spec_chapters(elems) == Some(vs),
        crate::decode::spec_chapter(x) == Some(v),
    ensures
        crate::decode::spec_chapters(elems.push(x)) == Some(vs.push(v)),
    decreases elems.len(),
{
    let whole = elems.push(x);
    if elems.len() == 0 {
        assert(whole[0] == x);
        assert(whole.drop_first() =~= Seq::<Json>::empty());
        assert(whole.len() == 1);
        assert(crate::decode::spec_chapters(whole.drop_first()) == Some(Seq::<
            crate::story::ChapterView,
        >::empty()));
        assert(crate::decode::spec_chapters(whole) == Some(seq![v] + Seq::<
            crate::story::ChapterView,
        >::empty()));
        assert(seq![v] + Seq::<crate::story::ChapterView>::empty() =~= vs.push(v));
    } else {
        assert(whole[0] == elems[0]);
        assert(whole.drop_first() =~= elems.drop_first().push(x));
        let head = crate::decode::spec_chapter(elems[0])->0;
        let rest = crate::decode::spec_chapters(elems.drop_first())->0;
        assert(vs == seq![head] + rest);
        lemma_chapters_push(elems.drop_first(), rest, x, v);
        assert(seq![head] + rest.push(v) =~= vs.push(v));
    }
}

/// A decoded element extends a decoded tag sequence.
proof fn lemma_tags_push(elems: Seq<Json>, vs: Seq<crate::story::TagView>, x: Json, v: crate::story::TagView)
    requires
        crate::decode::spec_tags(elems) == Some(vs),
        crate::decode::spec_tag(x) == Some(v),
    ensures
        crate::decode::spec_tags(elems.push(x)) == Some(vs.push(v)),
    decreases elems.len(),
{
    let whole = elems.push(x);
    if elems.len() == 0 {
        assert(whole[0] == x);
        assert(whole.drop_first() =~= Seq::<Json>::empty());
        assert(whole.len() == 1);
        assert(crate::decode::spec_tags(whole.drop_first()) == Some(Seq::<
            crate::story::TagView,
        >::empty()));
        assert(crate::decode::spec_tags(whole) == Some(seq![v] + Seq::<
            crate::story::TagView,
        >::empty()));
        assert(seq![v] + Seq::<crate::story::TagView>::empty() =~= vs.push(v));
    } else {
        assert(whole[0] == elems[0]);
        assert(whole.drop_first() =~= elems.drop_first().push(x));
        let head = crate::decode::spec_tag(elems[0])->0;
        let rest = crate::decode::spec_tags(elems.drop_first())->0;
        assert(vs == seq![head] + rest);
        lemma_tags_push(elems.drop_first(), rest, x, v);
        assert(seq![head] + rest.push(v) =~= vs.push(v));
    }
}

/// Re-serializes the chapter list. Succeeds exactly when every chapter's
/// instants are writable.
fn encode_chapters(cs: &Vec<crate::story::Chapter>) -> (r: Option<Vec<Json>>)
    ensures
        r is Some == chapters_writable(cs@.map_values(|c: crate::story::Chapter| c@)),
        r matches Some(elems) ==> crate::decode::spec_chapters(elems@) == Some(
            cs@.map_values(|c: crate::story::Chapter| c@),
        ),
{
    let mut out: Vec<Json> = Vec::new();
    let mut i: usize = 0;
    proof {
        assert(out@ =~= Seq::<Json>::empty());
        assert(cs@.take(0).map_values(|c: crate::story::Chapter| c@) =~= Seq::<
            crate::story::ChapterView,
        >::empty());
    }
    while i < cs.len()
        invariant
            i <= cs@.len(),
            forall|k: int| 0 <= k < i ==> chapter_writable(#[trigger] cs@[k]@),
            crate::decode::spec_chapters(out@) == Some(
                cs@.take(i as int).map_values(|c: crate::story::Chapter| c@),
            ),
        decreases cs@.len() - i,
    {
        let Some(j) = encode_chapter(&cs[i]) else {
            proof {
                let views = cs@.map_values(|c: crate::story::Chapter| c@);
                assert(views[i as int] == cs@[i as int]@);
                assert(!chapters_writable(views));
            }
            return None;
        };
        let ghost opre = out@;
        let ghost vpre = cs@.take(i as int).map_values(|c: crate::story::Chapter| c@);
        out.push(j);
        proof {
            lemma_chapters_push(opre, vpre, j, cs@[i as int]@);
            assert(cs@.take(i as int + 1).map_values(|c: crate::story::Chapter| c@) =~= vpre.push(
                cs@[i as int]@,
            ));
        }
        i = i + 1;
    }
    proof {
        assert(cs@.take(cs@.len() as int) =~= cs@);
        let views = cs@.map_values(|c: crate::story::Chapter| c@);
        assert forall|k: int| 0 <= k < views.len() implies chapter_writable(
            #[trigger] views[k],
        ) by {
            assert(views[k] == cs@[k]@);
        }
    }
    Some(out)
}

/// Re-serializes the tag list; tags always encode.
fn encode_tags(ts: &Vec<std::sync::Arc<Tag>>) -> (r: Vec<Json>)
    ensures
        crate::decode::spec_tags(r@) == Some(
            ts@.map_values(|t: std::sync::Arc<Tag>| t@),
        ),
{
    let mut out: Vec<Json> = Vec::new();
    let mut i: usize = 0;
    proof {
        assert(out@ =~= Seq::<Json>::empty());
        assert(ts@.take(0).map_values(|t: std::sync::Arc<Tag>| t@) =~= Seq::<
            crate::story::TagView,
        >::empty());
    }
    while i < ts.len()
        invariant
            i <= ts@.len(),
            crate::decode::spec_tags(out@) == Some(
                ts@.take(i as int).map_values(|t: std::sync::Arc<Tag>| t@),
            ),
        decreases ts@.len() - i,
    {
        let j = encode_tag(&ts[i]);
        let ghost opre = out@;
        let ghost vpre = ts@.take(i as int).map_values(|t: std::sync::Arc<Tag>| t@);
        out.push(j);
        proof {
            lemma_tags_push(opre, vpre, j, ts@[i as int]@);
            assert(ts@.take(i as int + 1).map_values(|t: std::sync::Arc<Tag>| t@) =~= vpre.push(
                ts@[i as int]@,
            ));
        }
        i = i + 1;
    }
    proof {
        assert(ts@.take(ts@.len() as int) =~= ts@);
    }
    out
}


/// Re-serializes a story's canonical fields into one JSON tree. It
/// succeeds exactly when every instant of the record is writable, and
/// decoding the result restores the record exactly: the serialization
/// round trip.
#[verifier::rlimit(100)]
pub fn encode_story(story: &crate::story::Story) -> (r: Option<Json>)
    ensures
        r is Some == story_writable(story@),
        r matches Some(j) ==> crate::decode::spec_story(j) == Some(story@),
{
    let Some(archive) = encode_archive(&story.archive) else { return None };
    let Some(author) = encode_author(&*story.author) else { return None };
    let Some(chapters) = encode_chapters(&story.chapters) else { return None };
    let color = match &story.color {
        Some(c) => {
            let mut cf: Vec<(String, Json)> = Vec::new();
            cf.push(("hex".to_owned(), Json::Str(color_hex(c))));
            let ghost cfs = cf@;
            let j = Json::Obj(cf);
            proof {
                lemma_obj_get_at(cfs, "hex"@, 0);
                assert(crate::decode::spec_color_value(j) == Some(*c));
            }
            j
        },
        None => Json::Null,
    };
    let cover_image = match &story.cover_image {
        Some(c) => encode_cover(c),
        None => Json::Null,
    };
    let completion_status = match story.completion_status {
        crate::story::CompletionStatus::Cancelled => Json::Str("cancelled".to_owned()),
        crate::story::CompletionStatus::Complete => Json::Str("complete".to_owned()),
        crate::story::CompletionStatus::Hiatus => Json::Str("hiatus".to_owned()),
        crate::story::CompletionStatus::Incomplete => Json::Str("incomplete".to_owned()),
    };
    let content_rating = match story.content_rating {
        crate::story::ContentRating::Everyone => Json::Str("everyone".to_owned()),
        crate::story::ContentRating::Mature => Json::Str("mature".to_owned()),
        crate::story::ContentRating::Teen => Json::Str("teen".to_owned()),
    };
    let status = match story.status {
        crate::story::Status::ApproveQueue => Json::Str("approve_queue".to_owned()),
        crate::story::Status::NotVisible => Json::Str("not_visible".to_owned()),
        crate::story::Status::PostQueue => Json::Str("post_queue".to_owned()),
        crate::story::Status::Visible => Json::Str("visible".to_owned()),
    };
    proof {
        reveal_strlit("cancelled");
        reveal_strlit("complete");
        reveal_strlit("hiatus");
        reveal_strlit("on hiatus");
        reveal_strlit("incomplete");
        reveal_strlit("everyone");
        reveal_strlit("mature");
        reveal_strlit("teen");
        reveal_strlit("approve_queue");
        reveal_strlit("not_visible");
        reveal_strlit("post_queue");
        reveal_strlit("visible");
        assert("cancelled"@.len() == 9 && "complete"@.len() == 8 && "hiatus"@.len() == 6
            && "on hiatus"@.len() == 9 && "incomplete"@.len() == 10);
        assert("cancelled"@[0] == 'c' && "on hiatus"@[0] == 'o');
        assert("everyone"@.len() == 8 && "mature"@.len() == 6 && "teen"@.len() == 4);
        assert("approve_queue"@.len() == 13 && "not_visible"@.len() == 11 && "post_queue"@.len()
            == 10 && "visible"@.len() == 7);
        assert(crate::decode::spec_completion(completion_status) == Some(story.completion_status));
        assert(crate::decode::spec_rating(content_rating) == Some(story.content_rating));
        assert(crate::decode::spec_status(status) == Some(story.status));
    }
    let Some(date_modified) = opt_date_json(&story.date_modified) else { return None };
    let Some(date_published) = opt_date_json(&story.date_published) else { return None };
    let Some(date_updated) = opt_date_json(&story.date_updated) else { return None };
    let mut fields: Vec<(String, Json)> = Vec::new();
    fields.push(("archive".to_owned(), archive));
    fields.push(("author".to_owned(), author));
    fields.push(("chapters".to_owned(), Json::Arr(chapters)));
    fields.push(("color".to_owned(), color));
    fields.push(("completion_status".to_owned(), completion_status));
    fields.push(("content_rating".to_owned(), content_rating));
    fields.push(("cover_image".to_owned(), cover_image));
    fields.push(("date_modified".to_owned(), date_modified));
    fields.push(("date_published".to_owned(), date_published));
    fields.push(("date_updated".to_owned(), date_updated));
    fields.push(("description_html".to_owned(), Json::Str(story.description_html.clone())));
    fields.push(("id".to_owned(), Json::Num(story.id as i64)));
    fields.push(("num_chapters".to_owned(), Json::Num(story.num_chapters as i64)));
    fields.push(("num_comments".to_owned(), Json::Num(story.num_comments as i64)));
    fields.push(("num_dislikes".to_owned(), Json::Num(story.num_dislikes as i64)));
    fields.push(("num_likes".to_owned(), Json::Num(story.num_likes as i64)));
    fields.push(("num_views".to_owned(), Json::Num(story.num_views as i64)));
    fields.push(("num_words".to_owned(), Json::Num(story.num_words as i64)));
    fields.push(("prequel".to_owned(), opt_i32_json(&story.prequel)));
    fields.push(("published".to_owned(), Json::Bool(story.published)));
    fields.push(("rating".to_owned(), Json::Num(story.rating as i64)));
    fields.push(("short_description".to_owned(), Json::Str(story.short_description.clone())));
    fields.push(("status".to_owned(), status));
    fields.push(("submitted".to_owned(), Json::Bool(story.submitted)));
    fields.push(("tags".to_owned(), Json::Arr(encode_tags(&story.tags))));
    fields.push(("title".to_owned(), Json::Str(story.title.clone())));
    fields.push(("total_num_views".to_owned(), Json::Num(story.total_num_views as i64)));
    fields.push(("url".to_owned(), Json::Str(story.url.clone())));
    let ghost fs = fields@;
    let r = Json::Obj(fields);
    proof {
        reveal_strlit("archive");
        reveal_strlit("author");
        reveal_strlit("chapters");
        reveal_strlit("color");
        reveal_strlit("completion_status");
        reveal_strlit("content_rating");
        reveal_strlit("cover_image");
        reveal_strlit("date_modified");
        reveal_strlit("date_published");
        reveal_strlit("date_updated");
        reveal_strlit("description_html");
        reveal_strlit("id");
        reveal_strlit("num_chapters");
        reveal_strlit("num_comments");
        reveal_strlit("num_dislikes");
        reveal_strlit("num_likes");
        reveal_strlit("num_views");
        reveal_strlit("num_words");
        reveal_strlit("prequel");
        reveal_strlit("published");
        reveal_strlit("rating");
        reveal_strlit("short_description");
        reveal_strlit("status");
        reveal_strlit("submitted");
        reveal_strlit("tags");
        reveal_strlit("title");
        reveal_strlit("total_num_views");
        reveal_strlit("url");
        assert(fs.len() == 28);
        assert("archive"@.len() == 7 && "author"@.len() == 6 && "chapters"@.len() == 8
            && "color"@.len() == 5 && "completion_status"@.len() == 17 && "content_rating"@.len()
            == 14 && "cover_image"@.len() == 11 && "date_modified"@.len() == 13
            && "date_published"@.len() == 14 && "date_updated"@.len() == 12
            && "description_html"@.len() == 16 && "id"@.len() == 2 && "num_chapters"@.len() == 12
            && "num_comments"@.len() == 12 && "num_dislikes"@.len() == 12 && "num_likes"@.len()
            == 9 && "num_views"@.len() == 9 && "num_words"@.len() == 9 && "prequel"@.len() == 7
            && "published"@.len() == 9 && "rating"@.len() == 6 && "short_description"@.len() == 17
            && "status"@.len() == 6 && "submitted"@.len() == 9 && "tags"@.len() == 4
            && "title"@.len() == 5 && "total_num_views"@.len() == 15 && "url"@.len() == 3);
        assert("archive"@[0] == 'a' && "prequel"@[0] == 'p');
        assert("author"@[0] == 'a' && "rating"@[0] == 'r' && "status"@[0] == 's');
        assert("completion_status"@[0] == 'c' && "short_description"@[0] == 's');
        assert("content_rating"@[0] == 'c' && "date_published"@[0] == 'd');
        assert("date_updated"@[0] == 'd' && "num_chapters"@[0] == 'n' && "num_comments"@[0] == 'n'
            && "num_dislikes"@[0] == 'n');
        assert("num_chapters"@[4] == 'c' && "num_comments"@[4] == 'c' && "num_dislikes"@[4]
            == 'd');
        assert("num_chapters"@[5] == 'h' && "num_comments"@[5] == 'o');
        assert("num_likes"@[0] == 'n' && "num_views"@[0] == 'n' && "num_words"@[0] == 'n'
            && "published"@[0] == 'p' && "submitted"@[0] == 's');
        assert("num_likes"@[4] == 'l' && "num_views"@[4] == 'v' && "num_words"@[4] == 'w');
        assert("color"@[0] == 'c' && "title"@[0] == 't');
        lemma_obj_get_at(fs, "archive"@, 0);
        lemma_obj_get_at(fs, "author"@, 1);
        lemma_obj_get_at(fs, "chapters"@, 2);
        lemma_obj_get_at(fs, "color"@, 3);
        lemma_obj_get_at(fs, "completion_status"@, 4);
        lemma_obj_get_at(fs, "content_rating"@, 5);
        lemma_obj_get_at(fs, "cover_image"@, 6);
        lemma_obj_get_at(fs, "date_modified"@, 7);
        lemma_obj_get_at(fs, "date_published"@, 8);
        lemma_obj_get_at(fs, "date_updated"@, 9);
        lemma_obj_get_at(fs, "description_html"@, 10);
        lemma_obj_get_at(fs, "id"@, 11);
        lemma_obj_get_at(fs, "num_chapters"@, 12);
        lemma_obj_get_at(fs, "num_comments"@, 13);
        lemma_obj_get_at(fs, "num_dislikes"@, 14);
        lemma_obj_get_at(fs, "num_likes"@, 15);
        lemma_obj_get_at(fs, "num_views"@, 16);
        lemma_obj_get_at(fs, "num_words"@, 17);
        lemma_obj_get_at(fs, "prequel"@, 18);
        lemma_obj_get_at(fs, "published"@, 19);
        lemma_obj_get_at(fs, "rating"@, 20);
        lemma_obj_get_at(fs, "short_description"@, 21);
        lemma_obj_get_at(fs, "status"@, 22);
        lemma_obj_get_at(fs, "submitted"@, 23);
        lemma_obj_get_at(fs, "tags"@, 24);
        lemma_obj_get_at(fs, "title"@, 25);
        lemma_obj_get_at(fs, "total_num_views"@, 26);
        lemma_obj_get_at(fs, "url"@, 27);
        assert(crate::decode::keys_within(fs, |k: Seq<char>| crate::decode::is_story_key(k)));
        assert(crate::decode::spec_story(r)->0 =~= story@);
    }
    Some(r)
}

} // verus!
