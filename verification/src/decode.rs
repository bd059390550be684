//! The metadata decoder: one JSON tree to one story record, with the index's
//! special rules — null coalescing, a number-or-string author id, a hex
//! colour, enum aliases, and rejection of unknown fields.

use vstd::prelude::*;
use crate::json::{Json, spec_obj_get, obj_get};
use crate::dates::rfc3339_of;
use crate::text::{spec_parse_i32, str_eq};
use crate::story::Color;

verus! {

pub open spec fn hex_val(c: char) -> Option<int> {
    if '0' <= c && c <= '9' {
        Some(c as u32 - '0' as u32)
    } else if 'a' <= c && c <= 'f' {
        Some(c as u32 - 'a' as u32 + 10)
    } else if 'A' <= c && c <= 'F' {
        Some(c as u32 - 'A' as u32 + 10)
    } else {
        None
    }
}

pub open spec fn hex_byte(hi: char, lo: char) -> Option<u8> {
    match (hex_val(hi), hex_val(lo)) {
        (Some(h), Some(l)) => Some((h * 16 + l) as u8),
        _ => None,
    }
}

/// A colour is exactly six hex digits.
pub open spec fn spec_hex_color(s: Seq<char>) -> Option<Color> {
    if s.len() != 6 {
        None
    } else {
        match (hex_byte(s[0], s[1]), hex_byte(s[2], s[3]), hex_byte(s[4], s[5])) {
            (Some(red), Some(green), Some(blue)) => Some(Color { red, green, blue }),
            _ => None,
        }
    }
}

fn hex_digit(c: char) -> (r: Option<u8>)
    ensures
        match r {
            Some(v) => hex_val(c) == Some(v as int),
            None => hex_val(c) is None,
        },
{
    if '0' <= c && c <= '9' {
        Some((c as u32 as u8) - 48)
    } else if 'a' <= c && c <= 'f' {
        Some((c as u32 as u8) - 97 + 10)
    } else if 'A' <= c && c <= 'F' {
        Some((c as u32 as u8) - 65 + 10)
    } else {
        None
    }
}

/// Decodes a six-digit hex colour string.
pub fn hex_color(s: &str) -> (r: Option<Color>)
    ensures
        r == spec_hex_color(s@),
{
    let chars = crate::text::chars_of(s);
    if chars.len() != 6 {
        return None;
    }
    let b0 = match (hex_digit(chars[0]), hex_digit(chars[1])) {
        (Some(h), Some(l)) => h * 16 + l,
        _ => {
            return None;
        },
    };
    let b1 = match (hex_digit(chars[2]), hex_digit(chars[3])) {
        (Some(h), Some(l)) => h * 16 + l,
        _ => {
            return None;
        },
    };
    let b2 = match (hex_digit(chars[4]), hex_digit(chars[5])) {
        (Some(h), Some(l)) => h * 16 + l,
        _ => {
            return None;
        },
    };
    Some(Color { red: b0, green: b1, blue: b2 })
}

// Field extraction: each helper is `Some` exactly when the field decodes,
// and `None` stands for a schema violation.
/// A required 32-bit integer field.
pub open spec fn f_i32(fields: Seq<(String, Json)>, key: Seq<char>) -> Option<i32> {
    match spec_obj_get(fields, key) {
        Some(Json::Num(n)) => if i32::MIN <= n <= i32::MAX {
            Some(n as i32)
        } else {
            None
        },
        _ => None,
    }
}

/// An optional 32-bit integer field: absent or null is `None`.
pub open spec fn f_opt_i32(fields: Seq<(String, Json)>, key: Seq<char>) -> Option<Option<i32>> {
    match spec_obj_get(fields, key) {
        None => Some(None),
        Some(Json::Null) => Some(None),
        Some(Json::Num(n)) => if i32::MIN <= n <= i32::MAX {
            Some(Some(n as i32))
        } else {
            None
        },
        _ => None,
    }
}

/// A required boolean field.
pub open spec fn f_bool(fields: Seq<(String, Json)>, key: Seq<char>) -> Option<bool> {
    match spec_obj_get(fields, key) {
        Some(Json::Bool(b)) => Some(b),
        _ => None,
    }
}

/// A required string field.
pub open spec fn f_string(fields: Seq<(String, Json)>, key: Seq<char>) -> Option<Seq<char>> {
    match spec_obj_get(fields, key) {
        Some(Json::Str(s)) => Some(s@),
        _ => None,
    }
}

/// A required text field where null coalesces to `default`.
pub open spec fn f_text_or_null(
    fields: Seq<(String, Json)>,
    key: Seq<char>,
    default: Seq<char>,
) -> Option<Seq<char>> {
    match spec_obj_get(fields, key) {
        Some(Json::Str(s)) => Some(s@),
        Some(Json::Null) => Some(default),
        _ => None,
    }
}

/// An optional string field: absent or null is `None`.
pub open spec fn f_opt_string(fields: Seq<(String, Json)>, key: Seq<char>) -> Option<
    Option<Seq<char>>,
> {
    match spec_obj_get(fields, key) {
        None => Some(None),
        Some(Json::Null) => Some(None),
        Some(Json::Str(s)) => Some(Some(s@)),
        _ => None,
    }
}

/// An optional timestamp field: absent or null is `None`; a string must be
/// an RFC 3339 instant.
pub open spec fn f_opt_date(fields: Seq<(String, Json)>, key: Seq<char>) -> Option<Option<i64>> {
    match spec_obj_get(fields, key) {
        None => Some(None),
        Some(Json::Null) => Some(None),
        Some(Json::Str(s)) => match rfc3339_of(s@) {
            Some(ts) => Some(Some(ts)),
            None => None,
        },
        _ => None,
    }
}

/// The author id: a number, or a numeric string, read to 32-bit signed.
pub open spec fn f_author_id(fields: Seq<(String, Json)>, key: Seq<char>) -> Option<i32> {
    match spec_obj_get(fields, key) {
        Some(Json::Num(n)) => if i32::MIN <= n <= i32::MAX {
            Some(n as i32)
        } else {
            None
        },
        Some(Json::Str(s)) => spec_parse_i32(s@),
        _ => None,
    }
}

pub fn get_i32(fields: &Vec<(String, Json)>, key: &str) -> (r: Option<i32>)
    ensures
        r == f_i32(fields@, key@),
{
    match obj_get(fields, key) {
        Some(Json::Num(n)) => {
            let n = *n;
            if i32::MIN as i64 <= n && n <= i32::MAX as i64 {
                Some(n as i32)
            } else {
                None
            }
        },
        _ => None,
    }
}

pub fn get_opt_i32(fields: &Vec<(String, Json)>, key: &str) -> (r: Option<Option<i32>>)
    ensures
        r == f_opt_i32(fields@, key@),
{
    match obj_get(fields, key) {
        None => Some(None),
        Some(Json::Null) => Some(None),
        Some(Json::Num(n)) => {
            let n = *n;
            if i32::MIN as i64 <= n && n <= i32::MAX as i64 {
                Some(Some(n as i32))
            } else {
                None
            }
        },
        _ => None,
    }
}

pub fn get_bool(fields: &Vec<(String, Json)>, key: &str) -> (r: Option<bool>)
    ensures
        r == f_bool(fields@, key@),
{
    match obj_get(fields, key) {
        Some(Json::Bool(b)) => Some(*b),
        _ => None,
    }
}

pub fn get_string(fields: &Vec<(String, Json)>, key: &str) -> (r: Option<String>)
    ensures
        match r {
            Some(s) => f_string(fields@, key@) == Some(s@),
            None => f_string(fields@, key@) is None,
        },
{
    match obj_get(fields, key) {
        Some(Json::Str(s)) => Some(s.clone()),
        _ => None,
    }
}

pub fn get_text_or_null(fields: &Vec<(String, Json)>, key: &str, default: &str) -> (r: Option<
    String,
>)
    ensures
        match r {
            Some(s) => f_text_or_null(fields@, key@, default@) == Some(s@),
            None => f_text_or_null(fields@, key@, default@) is None,
        },
{
    match obj_get(fields, key) {
        Some(Json::Str(s)) => Some(s.clone()),
        Some(Json::Null) => Some(default.to_owned()),
        _ => None,
    }
}

pub fn get_opt_string(fields: &Vec<(String, Json)>, key: &str) -> (r: Option<Option<String>>)
    ensures
        match r {
            Some(s) => f_opt_string(fields@, key@) == Some(crate::story::view_opt_string(s)),
            None => f_opt_string(fields@, key@) is None,
        },
{
    match obj_get(fields, key) {
        None => Some(None),
        Some(Json::Null) => Some(None),
        Some(Json::Str(s)) => Some(Some(s.clone())),
        _ => None,
    }
}

pub fn get_opt_date(fields: &Vec<(String, Json)>, key: &str) -> (r: Option<Option<i64>>)
    ensures
        r == f_opt_date(fields@, key@),
{
    match obj_get(fields, key) {
        None => Some(None),
        Some(Json::Null) => Some(None),
        Some(Json::Str(s)) => match crate::dates::parse_rfc3339(s.as_str()) {
            Some(ts) => Some(Some(ts)),
            None => None,
        },
        _ => None,
    }
}

pub fn get_author_id(fields: &Vec<(String, Json)>, key: &str) -> (r: Option<i32>)
    ensures
        r == f_author_id(fields@, key@),
{
    match obj_get(fields, key) {
        Some(Json::Num(n)) => {
            let n = *n;
            if i32::MIN as i64 <= n && n <= i32::MAX as i64 {
                Some(n as i32)
            } else {
                None
            }
        },
        Some(Json::Str(s)) => {
            let chars = crate::text::chars_of(s.as_str());
            proof {
                assert(chars@.subrange(0, chars@.len() as int) =~= s@);
            }
            crate::text::parse_i32_range(&chars, 0, chars.len())
        },
        _ => None,
    }
}


/// Every key of the object satisfies `allowed`.
pub open spec fn keys_within(
    fields: Seq<(String, Json)>,
    allowed: spec_fn(Seq<char>) -> bool,
) -> bool {
    forall|i: int| 0 <= i < fields.len() ==> allowed(#[trigger] fields[i].0@)
}

pub open spec fn is_avatar_key(k: Seq<char>) -> bool {
    ||| k == "16"@
    ||| k == "32"@
    ||| k == "48"@
    ||| k == "64"@
    ||| k == "96"@
    ||| k == "128"@
    ||| k == "160"@
    ||| k == "192"@
    ||| k == "256"@
    ||| k == "320"@
    ||| k == "384"@
    ||| k == "512"@
}

fn avatar_key(k: &str) -> (r: bool)
    ensures
        r == is_avatar_key(k@),
{
    str_eq(k, "16") || str_eq(k, "32") || str_eq(k, "48") || str_eq(k, "64") || str_eq(k, "96")
        || str_eq(k, "128") || str_eq(k, "160") || str_eq(k, "192") || str_eq(k, "256") || str_eq(
        k,
        "320",
    ) || str_eq(k, "384") || str_eq(k, "512")
}

pub open spec fn is_author_key(k: Seq<char>) -> bool {
    ||| k == "avatar"@
    ||| k == "bio_html"@
    ||| k == "date_joined"@
    ||| k == "id"@
    ||| k == "name"@
    ||| k == "num_blog_posts"@
    ||| k == "num_followers"@
    ||| k == "num_stories"@
    ||| k == "url"@
}

fn author_key(k: &str) -> (r: bool)
    ensures
        r == is_author_key(k@),
{
    str_eq(k, "avatar") || str_eq(k, "bio_html") || str_eq(k, "date_joined") || str_eq(k, "id")
        || str_eq(k, "name") || str_eq(k, "num_blog_posts") || str_eq(k, "num_followers")
        || str_eq(k, "num_stories") || str_eq(k, "url")
}

pub open spec fn is_tag_key(k: Seq<char>) -> bool {
    ||| k == "id"@
    ||| k == "name"@
    ||| k == "old_id"@
    ||| k == "type"@
    ||| k == "url"@
}

fn tag_key(k: &str) -> (r: bool)
    ensures
        r == is_tag_key(k@),
{
    str_eq(k, "id") || str_eq(k, "name") || str_eq(k, "old_id") || str_eq(k, "type") || str_eq(
        k,
        "url",
    )
}

pub open spec fn is_chapter_key(k: Seq<char>) -> bool {
    ||| k == "chapter_number"@
    ||| k == "date_modified"@
    ||| k == "date_published"@
    ||| k == "id"@
    ||| k == "num_views"@
    ||| k == "num_words"@
    ||| k == "published"@
    ||| k == "title"@
    ||| k == "url"@
}

fn chapter_key(k: &str) -> (r: bool)
    ensures
        r == is_chapter_key(k@),
{
    str_eq(k, "chapter_number") || str_eq(k, "date_modified") || str_eq(k, "date_published")
        || str_eq(k, "id") || str_eq(k, "num_views") || str_eq(k, "num_words") || str_eq(
        k,
        "published",
    ) || str_eq(k, "title") || str_eq(k, "url")
}

pub open spec fn is_cover_key(k: Seq<char>) -> bool {
    ||| k == "full"@
    ||| k == "large"@
    ||| k == "medium"@
    ||| k == "thumbnail"@
}

fn cover_key(k: &str) -> (r: bool)
    ensures
        r == is_cover_key(k@),
{
    str_eq(k, "full") || str_eq(k, "large") || str_eq(k, "medium") || str_eq(k, "thumbnail")
}

pub open spec fn is_archive_key(k: Seq<char>) -> bool {
    ||| k == "date_checked"@
    ||| k == "date_created"@
    ||| k == "date_fetched"@
    ||| k == "date_updated"@
    ||| k == "path"@
}

fn archive_key(k: &str) -> (r: bool)
    ensures
        r == is_archive_key(k@),
{
    str_eq(k, "date_checked") || str_eq(k, "date_created") || str_eq(k, "date_fetched") || str_eq(
        k,
        "date_updated",
    ) || str_eq(k, "path")
}

pub open spec fn is_story_key(k: Seq<char>) -> bool {
    ||| k == "archive"@
    ||| k == "author"@
    ||| k == "chapters"@
    ||| k == "color"@
    ||| k == "completion_status"@
    ||| k == "content_rating"@
    ||| k == "cover_image"@
    ||| k == "date_modified"@
    ||| k == "date_published"@
    ||| k == "date_updated"@
    ||| k == "description_html"@
    ||| k == "id"@
    ||| k == "num_chapters"@
    ||| k == "num_comments"@
    ||| k == "num_dislikes"@
    ||| k == "num_likes"@
    ||| k == "num_views"@
    ||| k == "num_words"@
    ||| k == "prequel"@
    ||| k == "published"@
    ||| k == "rating"@
    ||| k == "short_description"@
    ||| k == "status"@
    ||| k == "submitted"@
    ||| k == "tags"@
    ||| k == "title"@
    ||| k == "total_num_views"@
    ||| k == "url"@
}

fn story_key(k: &str) -> (r: bool)
    ensures
        r == is_story_key(k@),
{
    str_eq(k, "archive") || str_eq(k, "author") || str_eq(k, "chapters") || str_eq(k, "color")
        || str_eq(k, "completion_status") || str_eq(k, "content_rating") || str_eq(
        k,
        "cover_image",
    ) || str_eq(k, "date_modified") || str_eq(k, "date_published") || str_eq(k, "date_updated")
        || str_eq(k, "description_html") || str_eq(k, "id") || str_eq(k, "num_chapters") || str_eq(
        k,
        "num_comments",
    ) || str_eq(k, "num_dislikes") || str_eq(k, "num_likes") || str_eq(k, "num_views") || str_eq(
        k,
        "num_words",
    ) || str_eq(k, "prequel") || str_eq(k, "published") || str_eq(k, "rating") || str_eq(
        k,
        "short_description",
    ) || str_eq(k, "status") || str_eq(k, "submitted") || str_eq(k, "tags") || str_eq(k, "title")
        || str_eq(k, "total_num_views") || str_eq(k, "url")
}


fn check_keys_avatar(fields: &Vec<(String, Json)>) -> (r: bool)
    ensures
        r == keys_within(fields@, |k: Seq<char>| is_avatar_key(k)),
{
    let mut i: usize = 0;
    while i < fields.len()
        invariant
            i <= fields@.len(),
            forall|j: int| 0 <= j < i ==> is_avatar_key(#[trigger] fields@[j].0@),
        decreases fields@.len() - i,
    {
        if !avatar_key(fields[i].0.as_str()) {
            return false;
        }
        i = i + 1;
    }
    true
}

fn check_keys_author(fields: &Vec<(String, Json)>) -> (r: bool)
    ensures
        r == keys_within(fields@, |k: Seq<char>| is_author_key(k)),
{
    let mut i: usize = 0;
    while i < fields.len()
        invariant
            i <= fields@.len(),
            forall|j: int| 0 <= j < i ==> is_author_key(#[trigger] fields@[j].0@),
        decreases fields@.len() - i,
    {
        if !author_key(fields[i].0.as_str()) {
            return false;
        }
        i = i + 1;
    }
    true
}

fn check_keys_tag(fields: &Vec<(String, Json)>) -> (r: bool)
    ensures
        r == keys_within(fields@, |k: Seq<char>| is_tag_key(k)),
{
    let mut i: usize = 0;
    while i < fields.len()
        invariant
            i <= fields@.len(),
            forall|j: int| 0 <= j < i ==> is_tag_key(#[trigger] fields@[j].0@),
        decreases fields@.len() - i,
    {
        if !tag_key(fields[i].0.as_str()) {
            return false;
        }
        i = i + 1;
    }
    true
}

fn check_keys_chapter(fields: &Vec<(String, Json)>) -> (r: bool)
    ensures
        r == keys_within(fields@, |k: Seq<char>| is_chapter_key(k)),
{
    let mut i: usize = 0;
    while i < fields.len()
        invariant
            i <= fields@.len(),
            forall|j: int| 0 <= j < i ==> is_chapter_key(#[trigger] fields@[j].0@),
        decreases fields@.len() - i,
    {
        if !chapter_key(fields[i].0.as_str()) {
            return false;
        }
        i = i + 1;
    }
    true
}

fn check_keys_cover(fields: &Vec<(String, Json)>) -> (r: bool)
    ensures
        r == keys_within(fields@, |k: Seq<char>| is_cover_key(k)),
{
    let mut i: usize = 0;
    while i < fields.len()
        invariant
            i <= fields@.len(),
            forall|j: int| 0 <= j < i ==> is_cover_key(#[trigger] fields@[j].0@),
        decreases fields@.len() - i,
    {
        if !cover_key(fields[i].0.as_str()) {
            return false;
        }
        i = i + 1;
    }
    true
}

fn check_keys_archive(fields: &Vec<(String, Json)>) -> (r: bool)
    ensures
        r == keys_within(fields@, |k: Seq<char>| is_archive_key(k)),
{
    let mut i: usize = 0;
    while i < fields.len()
        invariant
            i <= fields@.len(),
            forall|j: int| 0 <= j < i ==> is_archive_key(#[trigger] fields@[j].0@),
        decreases fields@.len() - i,
    {
        if !archive_key(fields[i].0.as_str()) {
            return false;
        }
        i = i + 1;
    }
    true
}

fn check_keys_story(fields: &Vec<(String, Json)>) -> (r: bool)
    ensures
        r == keys_within(fields@, |k: Seq<char>| is_story_key(k)),
{
    let mut i: usize = 0;
    while i < fields.len()
        invariant
            i <= fields@.len(),
            forall|j: int| 0 <= j < i ==> is_story_key(#[trigger] fields@[j].0@),
        decreases fields@.len() - i,
    {
        if !story_key(fields[i].0.as_str()) {
            return false;
        }
        i = i + 1;
    }
    true
}


// Enum fields.
pub open spec fn spec_completion(j: Json) -> Option<crate::story::CompletionStatus> {
    match j {
        Json::Str(s) => if s@ == "cancelled"@ {
            Some(crate::story::CompletionStatus::Cancelled)
        } else if s@ == "complete"@ {
            Some(crate::story::CompletionStatus::Complete)
        } else if s@ == "hiatus"@ || s@ == "on hiatus"@ {
            Some(crate::story::CompletionStatus::Hiatus)
        } else if s@ == "incomplete"@ {
            Some(crate::story::CompletionStatus::Incomplete)
        } else {
            None
        },
        _ => None,
    }
}

pub fn completion_from_json(j: &Json) -> (r: Option<crate::story::CompletionStatus>)
    ensures
        r == spec_completion(*j),
{
    match j {
        Json::Str(s) => {
            let s = s.as_str();
            if str_eq(s, "cancelled") {
                Some(crate::story::CompletionStatus::Cancelled)
            } else if str_eq(s, "complete") {
                Some(crate::story::CompletionStatus::Complete)
            } else if str_eq(s, "hiatus") || str_eq(s, "on hiatus") {
                Some(crate::story::CompletionStatus::Hiatus)
            } else if str_eq(s, "incomplete") {
                Some(crate::story::CompletionStatus::Incomplete)
            } else {
                None
            }
        },
        _ => None,
    }
}

pub open spec fn spec_rating(j: Json) -> Option<crate::story::ContentRating> {
    match j {
        Json::Str(s) => if s@ == "everyone"@ {
            Some(crate::story::ContentRating::Everyone)
        } else if s@ == "mature"@ {
            Some(crate::story::ContentRating::Mature)
        } else if s@ == "teen"@ {
            Some(crate::story::ContentRating::Teen)
        } else {
            None
        },
        _ => None,
    }
}

pub fn rating_from_json(j: &Json) -> (r: Option<crate::story::ContentRating>)
    ensures
        r == spec_rating(*j),
{
    match j {
        Json::Str(s) => {
            let s = s.as_str();
            if str_eq(s, "everyone") {
                Some(crate::story::ContentRating::Everyone)
            } else if str_eq(s, "mature") {
                Some(crate::story::ContentRating::Mature)
            } else if str_eq(s, "teen") {
                Some(crate::story::ContentRating::Teen)
            } else {
                None
            }
        },
        _ => None,
    }
}

pub open spec fn spec_status(j: Json) -> Option<crate::story::Status> {
    match j {
        Json::Str(s) => if s@ == "approve_queue"@ {
            Some(crate::story::Status::ApproveQueue)
        } else if s@ == "not_visible"@ {
            Some(crate::story::Status::NotVisible)
        } else if s@ == "post_queue"@ {
            Some(crate::story::Status::PostQueue)
        } else if s@ == "visible"@ {
            Some(crate::story::Status::Visible)
        } else {
            None
        },
        _ => None,
    }
}

pub fn status_from_json(j: &Json) -> (r: Option<crate::story::Status>)
    ensures
        r == spec_status(*j),
{
    match j {
        Json::Str(s) => {
            let s = s.as_str();
            if str_eq(s, "approve_queue") {
                Some(crate::story::Status::ApproveQueue)
            } else if str_eq(s, "not_visible") {
                Some(crate::story::Status::NotVisible)
            } else if str_eq(s, "post_queue") {
                Some(crate::story::Status::PostQueue)
            } else if str_eq(s, "visible") {
                Some(crate::story::Status::Visible)
            } else {
                None
            }
        },
        _ => None,
    }
}

// The colour field: an object holding a six-digit `hex` string; other keys
// of the colour object are ignored.
pub open spec fn spec_color_value(j: Json) -> Option<Color> {
    match j {
        Json::Obj(fs) => match f_string(fs@, "hex"@) {
            Some(h) => spec_hex_color(h),
            None => None,
        },
        _ => None,
    }
}

pub fn color_from_json(j: &Json) -> (r: Option<Color>)
    ensures
        r == spec_color_value(*j),
{
    match j {
        Json::Obj(fs) => match get_string(fs, "hex") {
            Some(h) => hex_color(h.as_str()),
            None => None,
        },
        _ => None,
    }
}

/// The avatar block: up to twelve size buckets, each a URL or null.
pub open spec fn spec_avatar(j: Json) -> Option<crate::story::AvatarView> {
    match j {
        Json::Obj(fs) => {
            let fields = fs@;
            if !keys_within(fields, |k: Seq<char>| is_avatar_key(k)) {
                None
            } else if f_opt_string(fields, "16"@) is None || f_opt_string(fields, "32"@) is None
                || f_opt_string(fields, "48"@) is None || f_opt_string(fields, "64"@) is None
                || f_opt_string(fields, "96"@) is None || f_opt_string(fields, "128"@) is None
                || f_opt_string(fields, "160"@) is None || f_opt_string(fields, "192"@) is None
                || f_opt_string(fields, "256"@) is None || f_opt_string(fields, "320"@) is None
                || f_opt_string(fields, "384"@) is None || f_opt_string(fields, "512"@) is None {
                None
            } else {
                Some(crate::story::AvatarView {
                    x16: f_opt_string(fields, "16"@)->0,
                    x32: f_opt_string(fields, "32"@)->0,
                    x48: f_opt_string(fields, "48"@)->0,
                    x64: f_opt_string(fields, "64"@)->0,
                    x96: f_opt_string(fields, "96"@)->0,
                    x128: f_opt_string(fields, "128"@)->0,
                    x160: f_opt_string(fields, "160"@)->0,
                    x192: f_opt_string(fields, "192"@)->0,
                    x256: f_opt_string(fields, "256"@)->0,
                    x320: f_opt_string(fields, "320"@)->0,
                    x384: f_opt_string(fields, "384"@)->0,
                    x512: f_opt_string(fields, "512"@)->0,
                })
            }
        },
        _ => None,
    }
}

pub fn avatar_from_json(j: &Json) -> (r: Option<crate::story::Avatar>)
    ensures
        match r {
            Some(a) => spec_avatar(*j) == Some(a@),
            None => spec_avatar(*j) is None,
        },
{
    match j {
        Json::Obj(fs) => {
            if !check_keys_avatar(fs) {
                return None;
            }
            let Some(x16) = get_opt_string(fs, "16") else { return None };
            let Some(x32) = get_opt_string(fs, "32") else { return None };
            let Some(x48) = get_opt_string(fs, "48") else { return None };
            let Some(x64) = get_opt_string(fs, "64") else { return None };
            let Some(x96) = get_opt_string(fs, "96") else { return None };
            let Some(x128) = get_opt_string(fs, "128") else { return None };
            let Some(x160) = get_opt_string(fs, "160") else { return None };
            let Some(x192) = get_opt_string(fs, "192") else { return None };
            let Some(x256) = get_opt_string(fs, "256") else { return None };
            let Some(x320) = get_opt_string(fs, "320") else { return None };
            let Some(x384) = get_opt_string(fs, "384") else { return None };
            let Some(x512) = get_opt_string(fs, "512") else { return None };
            let a = crate::story::Avatar {
                x16,
                x32,
                x48,
                x64,
                x96,
                x128,
                x160,
                x192,
                x256,
                x320,
                x384,
                x512,
            };
            proof {
                assert(spec_avatar(*j)->0 =~= a@);
            }
            Some(a)
        },
        _ => None,
    }
}

/// The author block.
pub open spec fn spec_author(j: Json) -> Option<crate::story::AuthorView> {
    match j {
        Json::Obj(fs) => {
            let fields = fs@;
            let avatar = match spec_obj_get(fields, "avatar"@) {
                None => Some(None),
                Some(Json::Null) => Some(None),
                Some(a) => match spec_avatar(a) {
                    Some(v) => Some(Some(v)),
                    None => None,
                },
            };
            if !keys_within(fields, |k: Seq<char>| is_author_key(k)) {
                None
            } else if avatar is None || f_opt_string(fields, "bio_html"@) is None || f_opt_date(
                fields,
                "date_joined"@,
            ) is None || f_author_id(fields, "id"@) is None || f_string(fields, "name"@) is None
                || f_opt_i32(fields, "num_blog_posts"@) is None || f_opt_i32(
                fields,
                "num_followers"@,
            ) is None || f_opt_i32(fields, "num_stories"@) is None || f_string(
                fields,
                "url"@,
            ) is None {
                None
            } else {
                Some(crate::story::AuthorView {
                    avatar: avatar->0,
                    bio_html: f_opt_string(fields, "bio_html"@)->0,
                    date_joined: f_opt_date(fields, "date_joined"@)->0,
                    id: f_author_id(fields, "id"@)->0,
                    name: f_string(fields, "name"@)->0,
                    num_blog_posts: f_opt_i32(fields, "num_blog_posts"@)->0,
                    num_followers: f_opt_i32(fields, "num_followers"@)->0,
                    num_stories: f_opt_i32(fields, "num_stories"@)->0,
                    url: f_string(fields, "url"@)->0,
                })
            }
        },
        _ => None,
    }
}

pub fn author_from_json(j: &Json) -> (r: Option<crate::story::Author>)
    ensures
        match r {
            Some(a) => spec_author(*j) == Some(a@),
            None => spec_author(*j) is None,
        },
{
    match j {
        Json::Obj(fs) => {
            if !check_keys_author(fs) {
                return None;
            }
            let avatar = match obj_get(fs, "avatar") {
                None => None,
                Some(Json::Null) => None,
                Some(a) => match avatar_from_json(a) {
                    Some(v) => Some(v),
                    None => {
                        return None;
                    },
                },
            };
            let Some(bio_html) = get_opt_string(fs, "bio_html") else { return None };
            let Some(date_joined) = get_opt_date(fs, "date_joined") else { return None };
            let Some(id) = get_author_id(fs, "id") else { return None };
            let Some(name) = get_string(fs, "name") else { return None };
            let Some(num_blog_posts) = get_opt_i32(fs, "num_blog_posts") else { return None };
            let Some(num_followers) = get_opt_i32(fs, "num_followers") else { return None };
            let Some(num_stories) = get_opt_i32(fs, "num_stories") else { return None };
            let Some(url) = get_string(fs, "url") else { return None };
            let a = crate::story::Author {
                avatar,
                bio_html,
                date_joined,
                id,
                name,
                num_blog_posts,
                num_followers,
                num_stories,
                url,
            };
            proof {
                assert(spec_author(*j)->0 =~= a@);
            }
            Some(a)
        },
        _ => None,
    }
}

/// A tag block; the JSON field `type` lands in `kind`.
pub open spec fn spec_tag(j: Json) -> Option<crate::story::TagView> {
    match j {
        Json::Obj(fs) => {
            let fields = fs@;
            if !keys_within(fields, |k: Seq<char>| is_tag_key(k)) {
                None
            } else if f_i32(fields, "id"@) is None || f_string(fields, "name"@) is None || f_string(
                fields,
                "old_id"@,
            ) is None || f_string(fields, "type"@) is None || f_string(fields, "url"@) is None {
                None
            } else {
                Some(crate::story::TagView {
                    id: f_i32(fields, "id"@)->0,
                    name: f_string(fields, "name"@)->0,
                    old_id: f_string(fields, "old_id"@)->0,
                    kind: f_string(fields, "type"@)->0,
                    url: f_string(fields, "url"@)->0,
                })
            }
        },
        _ => None,
    }
}

pub fn tag_from_json(j: &Json) -> (r: Option<crate::story::Tag>)
    ensures
        match r {
            Some(t) => spec_tag(*j) == Some(t@),
            None => spec_tag(*j) is None,
        },
{
    match j {
        Json::Obj(fs) => {
            if !check_keys_tag(fs) {
                return None;
            }
            let Some(id) = get_i32(fs, "id") else { return None };
            let Some(name) = get_string(fs, "name") else { return None };
            let Some(old_id) = get_string(fs, "old_id") else { return None };
            let Some(kind) = get_string(fs, "type") else { return None };
            let Some(url) = get_string(fs, "url") else { return None };
            let t = crate::story::Tag { id, name, old_id, kind, url };
            proof {
                assert(spec_tag(*j)->0 =~= t@);
            }
            Some(t)
        },
        _ => None,
    }
}

/// A chapter block.
pub open spec fn spec_chapter(j: Json) -> Option<crate::story::ChapterView> {
    match j {
        Json::Obj(fs) => {
            let fields = fs@;
            if !keys_within(fields, |k: Seq<char>| is_chapter_key(k)) {
                None
            } else if f_i32(fields, "chapter_number"@) is None || f_opt_date(
                fields,
                "date_modified"@,
            ) is None || f_opt_date(fields, "date_published"@) is None || f_i32(
                fields,
                "id"@,
            ) is None || f_i32(fields, "num_views"@) is None || f_i32(fields, "num_words"@) is None
                || f_bool(fields, "published"@) is None || f_text_or_null(
                fields,
                "title"@,
                ""@,
            ) is None || f_string(fields, "url"@) is None {
                None
            } else {
                Some(crate::story::ChapterView {
                    chapter_number: f_i32(fields, "chapter_number"@)->0,
                    date_modified: f_opt_date(fields, "date_modified"@)->0,
                    date_published: f_opt_date(fields, "date_published"@)->0,
                    id: f_i32(fields, "id"@)->0,
                    num_views: f_i32(fields, "num_views"@)->0,
                    num_words: f_i32(fields, "num_words"@)->0,
                    published: f_bool(fields, "published"@)->0,
                    title: f_text_or_null(fields, "title"@, ""@)->0,
                    url: f_string(fields, "url"@)->0,
                })
            }
        },
        _ => None,
    }
}

pub fn chapter_from_json(j: &Json) -> (r: Option<crate::story::Chapter>)
    ensures
        match r {
            Some(c) => spec_chapter(*j) == Some(c@),
            None => spec_chapter(*j) is None,
        },
{
    match j {
        Json::Obj(fs) => {
            if !check_keys_chapter(fs) {
                return None;
            }
            let Some(chapter_number) = get_i32(fs, "chapter_number") else { return None };
            let Some(date_modified) = get_opt_date(fs, "date_modified") else { return None };
            let Some(date_published) = get_opt_date(fs, "date_published") else { return None };
            let Some(id) = get_i32(fs, "id") else { return None };
            let Some(num_views) = get_i32(fs, "num_views") else { return None };
            let Some(num_words) = get_i32(fs, "num_words") else { return None };
            let Some(published) = get_bool(fs, "published") else { return None };
            let Some(title) = get_text_or_null(fs, "title", "") else { return None };
            let Some(url) = get_string(fs, "url") else { return None };
            let c = crate::story::Chapter {
                chapter_number,
                date_modified,
                date_published,
                id,
                num_views,
                num_words,
                published,
                title,
                url,
            };
            proof {
                assert(spec_chapter(*j)->0 =~= c@);
            }
            Some(c)
        },
        _ => None,
    }
}

/// The cover image block: four required URLs.
pub open spec fn spec_cover(j: Json) -> Option<crate::story::CoverImageView> {
    match j {
        Json::Obj(fs) => {
            let fields = fs@;
            if !keys_within(fields, |k: Seq<char>| is_cover_key(k)) {
                None
            } else if f_string(fields, "full"@) is None || f_string(fields, "large"@) is None
                || f_string(fields, "medium"@) is None || f_string(fields, "thumbnail"@) is None {
                None
            } else {
                Some(crate::story::CoverImageView {
                    full: f_string(fields, "full"@)->0,
                    large: f_string(fields, "large"@)->0,
                    medium: f_string(fields, "medium"@)->0,
                    thumbnail: f_string(fields, "thumbnail"@)->0,
                })
            }
        },
        _ => None,
    }
}

pub fn cover_from_json(j: &Json) -> (r: Option<crate::story::CoverImage>)
    ensures
        match r {
            Some(c) => spec_cover(*j) == Some(c@),
            None => spec_cover(*j) is None,
        },
{
    match j {
        Json::Obj(fs) => {
            if !check_keys_cover(fs) {
                return None;
            }
            let Some(full) = get_string(fs, "full") else { return None };
            let Some(large) = get_string(fs, "large") else { return None };
            let Some(medium) = get_string(fs, "medium") else { return None };
            let Some(thumbnail) = get_string(fs, "thumbnail") else { return None };
            let c = crate::story::CoverImage { full, large, medium, thumbnail };
            proof {
                assert(spec_cover(*j)->0 =~= c@);
            }
            Some(c)
        },
        _ => None,
    }
}

/// The archive block.
pub open spec fn spec_archive(j: Json) -> Option<crate::story::ArchiveView> {
    match j {
        Json::Obj(fs) => {
            let fields = fs@;
            if !keys_within(fields, |k: Seq<char>| is_archive_key(k)) {
                None
            } else if f_opt_date(fields, "date_checked"@) is None || f_opt_date(
                fields,
                "date_created"@,
            ) is None || f_opt_date(fields, "date_fetched"@) is None || f_opt_date(
                fields,
                "date_updated"@,
            ) is None || f_string(fields, "path"@) is None {
                None
            } else {
                Some(crate::story::ArchiveView {
                    date_checked: f_opt_date(fields, "date_checked"@)->0,
                    date_created: f_opt_date(fields, "date_created"@)->0,
                    date_fetched: f_opt_date(fields, "date_fetched"@)->0,
                    date_updated: f_opt_date(fields, "date_updated"@)->0,
                    path: f_string(fields, "path"@)->0,
                })
            }
        },
        _ => None,
    }
}

pub fn archive_from_json(j: &Json) -> (r: Option<crate::story::Archive>)
    ensures
        match r {
            Some(a) => spec_archive(*j) == Some(a@),
            None => spec_archive(*j) is None,
        },
{
    match j {
        Json::Obj(fs) => {
            if !check_keys_archive(fs) {
                return None;
            }
            let Some(date_checked) = get_opt_date(fs, "date_checked") else { return None };
            let Some(date_created) = get_opt_date(fs, "date_created") else { return None };
            let Some(date_fetched) = get_opt_date(fs, "date_fetched") else { return None };
            let Some(date_updated) = get_opt_date(fs, "date_updated") else { return None };
            let Some(path) = get_string(fs, "path") else { return None };
            let a = crate::story::Archive {
                date_checked,
                date_created,
                date_fetched,
                date_updated,
                path,
            };
            proof {
                assert(spec_archive(*j)->0 =~= a@);
            }
            Some(a)
        },
        _ => None,
    }
}


/// The chapter sequence, in order; any bad element rejects the story.
pub open spec fn spec_chapters(elems: Seq<Json>) -> Option<Seq<crate::story::ChapterView>>
    decreases elems.len(),
{
    if elems.len() == 0 {
        Some(Seq::empty())
    } else {
        match (spec_chapter(elems[0]), spec_chapters(elems.drop_first())) {
            (Some(c), Some(rest)) => Some(seq![c] + rest),
            _ => None,
        }
    }
}

/// The tag sequence, in order; any bad element rejects the story.
pub open spec fn spec_tags(elems: Seq<Json>) -> Option<Seq<crate::story::TagView>>
    decreases elems.len(),
{
    if elems.len() == 0 {
        Some(Seq::empty())
    } else {
        match (spec_tag(elems[0]), spec_tags(elems.drop_first())) {
            (Some(t), Some(rest)) => Some(seq![t] + rest),
            _ => None,
        }
    }
}

#[verifier::loop_isolation(false)]
pub fn chapters_from_vec(elems: &Vec<Json>) -> (r: Option<Vec<crate::story::Chapter>>)
    ensures
        match r {
            Some(cs) => spec_chapters(elems@) == Some(
                cs@.map_values(|c: crate::story::Chapter| c@),
            ),
            None => spec_chapters(elems@) is None,
        },
{
    let mut acc: Vec<crate::story::Chapter> = Vec::new();
    let mut i: usize = 0;
    proof {
        assert(elems@.skip(0) =~= elems@);
        assert(acc@.map_values(|c: crate::story::Chapter| c@) =~= Seq::<
            crate::story::ChapterView,
        >::empty());
    }
    while i < elems.len()
        invariant
            i <= elems@.len(),
            acc@.len() == i,
            spec_chapters(elems@) == match spec_chapters(elems@.skip(i as int)) {
                Some(rest) => Some(acc@.map_values(|c: crate::story::Chapter| c@) + rest),
                None => None::<Seq<crate::story::ChapterView>>,
            },
        decreases elems@.len() - i,
    {
        let ghost tail = elems@.skip(i as int);
        proof {
            assert(tail[0] == elems@[i as int]);
            assert(tail.drop_first() =~= elems@.skip(i as int + 1));
        }
        match chapter_from_json(&elems[i]) {
            Some(c) => {
                let ghost prev = acc@;
                acc.push(c);
                proof {
                    assert(acc@.map_values(|ch: crate::story::Chapter| ch@) =~= prev.map_values(
                        |ch: crate::story::Chapter| ch@,
                    ).push(c@));
                    let restopt = spec_chapters(elems@.skip(i as int + 1));
                    if restopt is Some {
                        let rest = restopt->0;
                        assert(prev.map_values(|ch: crate::story::Chapter| ch@) + (seq![c@] + rest)
                            =~= acc@.map_values(|ch: crate::story::Chapter| ch@) + rest);
                    }
                }
            },
            None => {
                return None;
            },
        }
        i = i + 1;
    }
    proof {
        assert(elems@.skip(elems@.len() as int) =~= Seq::<Json>::empty());
        assert(acc@.map_values(|c: crate::story::Chapter| c@) + Seq::<
            crate::story::ChapterView,
        >::empty() =~= acc@.map_values(|c: crate::story::Chapter| c@));
    }
    Some(acc)
}

#[verifier::loop_isolation(false)]
pub fn tags_from_vec(
    elems: &Vec<Json>,
    interner: &mut crate::interner::Interner<crate::story::Tag>,
) -> (r: Option<Vec<std::sync::Arc<crate::story::Tag>>>)
    requires
        old(interner).wf(),
    ensures
        final(interner).wf(),
        match r {
            Some(ts) => {
                &&& spec_tags(elems@) == Some(
                    ts@.map_values(|t: std::sync::Arc<crate::story::Tag>| t@),
                )
                &&& forall|k: int|
                    0 <= k < ts@.len() ==> final(interner).values().contains(#[trigger] ts@[k]@)
            },
            None => spec_tags(elems@) is None,
        },
{
    let mut acc: Vec<std::sync::Arc<crate::story::Tag>> = Vec::new();
    let mut i: usize = 0;
    proof {
        assert(elems@.skip(0) =~= elems@);
        assert(acc@.map_values(|t: std::sync::Arc<crate::story::Tag>| t@) =~= Seq::<
            crate::story::TagView,
        >::empty());
    }
    while i < elems.len()
        invariant
            i <= elems@.len(),
            acc@.len() == i,
            interner.wf(),
            forall|k: int|
                0 <= k < acc@.len() ==> interner.values().contains(#[trigger] acc@[k]@),
            spec_tags(elems@) == match spec_tags(elems@.skip(i as int)) {
                Some(rest) => Some(
                    acc@.map_values(|t: std::sync::Arc<crate::story::Tag>| t@) + rest,
                ),
                None => None::<Seq<crate::story::TagView>>,
            },
        decreases elems@.len() - i,
    {
        let ghost tail = elems@.skip(i as int);
        proof {
            assert(tail[0] == elems@[i as int]);
            assert(tail.drop_first() =~= elems@.skip(i as int + 1));
        }
        match tag_from_json(&elems[i]) {
            Some(t) => {
                let ghost tv = t@;
                let ghost pre_vals = interner.values();
                let handle = interner.intern(t);
                let ghost prev = acc@;
                acc.push(handle);
                proof {
                    assert(acc@.map_values(|x: std::sync::Arc<crate::story::Tag>| x@)
                        =~= prev.map_values(|x: std::sync::Arc<crate::story::Tag>| x@).push(tv));
                    let restopt = spec_tags(elems@.skip(i as int + 1));
                    if restopt is Some {
                        let rest = restopt->0;
                        assert(prev.map_values(|x: std::sync::Arc<crate::story::Tag>| x@) + (
                        seq![tv] + rest) =~= acc@.map_values(
                            |x: std::sync::Arc<crate::story::Tag>| x@,
                        ) + rest);
                    }
                    assert forall|k: int| 0 <= k < prev.len() implies interner.values().contains(
                        #[trigger] prev[k]@,
                    ) by {
                        assert(pre_vals.contains(prev[k]@));
                        let idx = choose|idx: int|
                            0 <= idx < pre_vals.len() && pre_vals[idx] == prev[k]@;
                        if !pre_vals.contains(tv) {
                            assert(interner.values()[idx] == prev[k]@);
                        }
                    }
                }
            },
            None => {
                return None;
            },
        }
        i = i + 1;
    }
    proof {
        assert(elems@.skip(elems@.len() as int) =~= Seq::<Json>::empty());
        assert(acc@.map_values(|t: std::sync::Arc<crate::story::Tag>| t@) + Seq::<
            crate::story::TagView,
        >::empty() =~= acc@.map_values(|t: std::sync::Arc<crate::story::Tag>| t@));
    }
    Some(acc)
}


/// The full story record read from one JSON tree, or `None` exactly when the
/// tree violates the schema.
pub open spec fn spec_story(j: Json) -> Option<crate::story::StoryView> {
    match j {
        Json::Obj(fs) => {
            let fields = fs@;
            let archive = match spec_obj_get(fields, "archive"@) {
                Some(a) => spec_archive(a),
                None => None,
            };
            let author = match spec_obj_get(fields, "author"@) {
                Some(a) => spec_author(a),
                None => None,
            };
            let chapters = match spec_obj_get(fields, "chapters"@) {
                Some(Json::Arr(es)) => spec_chapters(es@),
                _ => None,
            };
            let color = match spec_obj_get(fields, "color"@) {
                None => Some(None),
                Some(Json::Null) => Some(None),
                Some(c) => match spec_color_value(c) {
                    Some(v) => Some(Some(v)),
                    None => None,
                },
            };
            let completion_status = match spec_obj_get(fields, "completion_status"@) {
                Some(c) => spec_completion(c),
                None => None,
            };
            let content_rating = match spec_obj_get(fields, "content_rating"@) {
                Some(c) => spec_rating(c),
                None => None,
            };
            let cover_image = match spec_obj_get(fields, "cover_image"@) {
                None => Some(None),
                Some(Json::Null) => Some(None),
                Some(c) => match spec_cover(c) {
                    Some(v) => Some(Some(v)),
                    None => None,
                },
            };
            let status = match spec_obj_get(fields, "status"@) {
                Some(c) => spec_status(c),
                None => None,
            };
            let tags = match spec_obj_get(fields, "tags"@) {
                Some(Json::Arr(es)) => spec_tags(es@),
                _ => None,
            };
            if !keys_within(fields, |k: Seq<char>| is_story_key(k)) {
                None
            } else if archive is None || author is None || chapters is None || color is None
                || completion_status is None || content_rating is None || cover_image is None
                || f_opt_date(fields, "date_modified"@) is None || f_opt_date(
                fields,
                "date_published"@,
            ) is None || f_opt_date(fields, "date_updated"@) is None || f_text_or_null(
                fields,
                "description_html"@,
                "<p></p>"@,
            ) is None || f_i32(fields, "id"@) is None || f_i32(fields, "num_chapters"@) is None
                || f_i32(fields, "num_comments"@) is None || f_i32(
                fields,
                "num_dislikes"@,
            ) is None || f_i32(fields, "num_likes"@) is None || f_i32(fields, "num_views"@) is None
                || f_i32(fields, "num_words"@) is None || f_opt_i32(fields, "prequel"@) is None
                || f_bool(fields, "published"@) is None || f_i32(fields, "rating"@) is None
                || f_text_or_null(fields, "short_description"@, ""@) is None || status is None
                || f_bool(fields, "submitted"@) is None || tags is None || f_text_or_null(
                fields,
                "title"@,
                ""@,
            ) is None || f_i32(fields, "total_num_views"@) is None || f_string(
                fields,
                "url"@,
            ) is None {
                None
            } else {
                Some(crate::story::StoryView {
                    archive: archive->0,
                    author: author->0,
                    chapters: chapters->0,
                    color: color->0,
                    completion_status: completion_status->0,
                    content_rating: content_rating->0,
                    cover_image: cover_image->0,
                    date_modified: f_opt_date(fields, "date_modified"@)->0,
                    date_published: f_opt_date(fields, "date_published"@)->0,
                    date_updated: f_opt_date(fields, "date_updated"@)->0,
                    description_html: f_text_or_null(fields, "description_html"@, "<p></p>"@)->0,
                    id: f_i32(fields, "id"@)->0,
                    num_chapters: f_i32(fields, "num_chapters"@)->0,
                    num_comments: f_i32(fields, "num_comments"@)->0,
                    num_dislikes: f_i32(fields, "num_dislikes"@)->0,
                    num_likes: f_i32(fields, "num_likes"@)->0,
                    num_views: f_i32(fields, "num_views"@)->0,
                    num_words: f_i32(fields, "num_words"@)->0,
                    prequel: f_opt_i32(fields, "prequel"@)->0,
                    published: f_bool(fields, "published"@)->0,
                    rating: f_i32(fields, "rating"@)->0,
                    short_description: f_text_or_null(fields, "short_description"@, ""@)->0,
                    status: status->0,
                    submitted: f_bool(fields, "submitted"@)->0,
                    tags: tags->0,
                    title: f_text_or_null(fields, "title"@, ""@)->0,
                    total_num_views: f_i32(fields, "total_num_views"@)->0,
                    url: f_string(fields, "url"@)->0,
                })
            }
        },
        _ => None,
    }
}

/// Decodes one story record, interning its author and tag blocks; fails with
/// an `IndexError` exactly when the tree violates the schema.
pub fn story_from_json(
    j: &Json,
    authors: &mut crate::interner::Interner<crate::story::Author>,
    tag_pool: &mut crate::interner::Interner<crate::story::Tag>,
) -> (r: Result<crate::story::Story, crate::error::Error>)
    requires
        old(authors).wf(),
        old(tag_pool).wf(),
    ensures
        final(authors).wf(),
        final(tag_pool).wf(),
        match r {
            Ok(s) => {
                &&& spec_story(*j) == Some(s@)
                &&& final(authors).values().contains(s@.author)
                &&& forall|k: int|
                    0 <= k < s@.tags.len() ==> final(tag_pool).values().contains(
                        #[trigger] s@.tags[k],
                    )
            },
            Err(e) => spec_story(*j) is None && e.kind == crate::error::ErrorKind::IndexError,
        },
{
    let bad = "Invalid story value";
    match j {
        Json::Obj(fs) => {
            if !check_keys_story(fs) {
                return Err(crate::error::Error::index(bad));
            }
            let archive = match obj_get(fs, "archive") {
                Some(a) => match archive_from_json(a) {
                    Some(v) => v,
                    None => {
                        return Err(crate::error::Error::index(bad));
                    },
                },
                None => {
                    return Err(crate::error::Error::index(bad));
                },
            };
            let author_rec = match obj_get(fs, "author") {
                Some(a) => match author_from_json(a) {
                    Some(v) => v,
                    None => {
                        return Err(crate::error::Error::index(bad));
                    },
                },
                None => {
                    return Err(crate::error::Error::index(bad));
                },
            };
            let chapters = match obj_get(fs, "chapters") {
                Some(Json::Arr(es)) => match chapters_from_vec(es) {
                    Some(v) => v,
                    None => {
                        return Err(crate::error::Error::index(bad));
                    },
                },
                _ => {
                    return Err(crate::error::Error::index(bad));
                },
            };
            let color = match obj_get(fs, "color") {
                None => None,
                Some(Json::Null) => None,
                Some(c) => match color_from_json(c) {
                    Some(v) => Some(v),
                    None => {
                        return Err(crate::error::Error::index(bad));
                    },
                },
            };
            let completion_status = match obj_get(fs, "completion_status") {
                Some(c) => match completion_from_json(c) {
                    Some(v) => v,
                    None => {
                        return Err(crate::error::Error::index(bad));
                    },
                },
                None => {
                    return Err(crate::error::Error::index(bad));
                },
            };
            let content_rating = match obj_get(fs, "content_rating") {
                Some(c) => match rating_from_json(c) {
                    Some(v) => v,
                    None => {
                        return Err(crate::error::Error::index(bad));
                    },
                },
                None => {
                    return Err(crate::error::Error::index(bad));
                },
            };
            let cover_image = match obj_get(fs, "cover_image") {
                None => None,
                Some(Json::Null) => None,
                Some(c) => match cover_from_json(c) {
                    Some(v) => Some(v),
                    None => {
                        return Err(crate::error::Error::index(bad));
                    },
                },
            };
            let status = match obj_get(fs, "status") {
                Some(c) => match status_from_json(c) {
                    Some(v) => v,
                    None => {
                        return Err(crate::error::Error::index(bad));
                    },
                },
                None => {
                    return Err(crate::error::Error::index(bad));
                },
            };
            let tags = match obj_get(fs, "tags") {
                Some(Json::Arr(es)) => match tags_from_vec(es, tag_pool) {
                    Some(v) => v,
                    None => {
                        return Err(crate::error::Error::index(bad));
                    },
                },
                _ => {
                    return Err(crate::error::Error::index(bad));
                },
            };
            let Some(date_modified) = get_opt_date(fs, "date_modified") else {
                return Err(crate::error::Error::index(bad))
            };
            let Some(date_published) = get_opt_date(fs, "date_published") else {
                return Err(crate::error::Error::index(bad))
            };
            let Some(date_updated) = get_opt_date(fs, "date_updated") else {
                return Err(crate::error::Error::index(bad))
            };
            let Some(description_html) = get_text_or_null(fs, "description_html", "<p></p>") else {
                return Err(crate::error::Error::index(bad))
            };
            let Some(id) = get_i32(fs, "id") else {
                return Err(crate::error::Error::index(bad))
            };
            let Some(num_chapters) = get_i32(fs, "num_chapters") else {
                return Err(crate::error::Error::index(bad))
            };
            let Some(num_comments) = get_i32(fs, "num_comments") else {
                return Err(crate::error::Error::index(bad))
            };
            let Some(num_dislikes) = get_i32(fs, "num_dislikes") else {
                return Err(crate::error::Error::index(bad))
            };
            let Some(num_likes) = get_i32(fs, "num_likes") else {
                return Err(crate::error::Error::index(bad))
            };
            let Some(num_views) = get_i32(fs, "num_views") else {
                return Err(crate::error::Error::index(bad))
            };
            let Some(num_words) = get_i32(fs, "num_words") else {
                return Err(crate::error::Error::index(bad))
            };
            let Some(prequel) = get_opt_i32(fs, "prequel") else {
                return Err(crate::error::Error::index(bad))
            };
            let Some(published) = get_bool(fs, "published") else {
                return Err(crate::error::Error::index(bad))
            };
            let Some(rating) = get_i32(fs, "rating") else {
                return Err(crate::error::Error::index(bad))
            };
            let Some(short_description) = get_text_or_null(fs, "short_description", "") else {
                return Err(crate::error::Error::index(bad))
            };
            let Some(submitted) = get_bool(fs, "submitted") else {
                return Err(crate::error::Error::index(bad))
            };
            let Some(title) = get_text_or_null(fs, "title", "") else {
                return Err(crate::error::Error::index(bad))
            };
            let Some(total_num_views) = get_i32(fs, "total_num_views") else {
                return Err(crate::error::Error::index(bad))
            };
            let Some(url) = get_string(fs, "url") else {
                return Err(crate::error::Error::index(bad))
            };
            let ghost tag_views = tags@.map_values(|t: std::sync::Arc<crate::story::Tag>| t@);
            let ghost pre_authors = authors.values();
            let author = authors.intern(author_rec);
            proof {
                assert forall|k: int| 0 <= k < tag_views.len() implies tag_pool.values().contains(
                    #[trigger] tag_views[k],
                ) by {
                    assert(tag_views[k] == tags@[k]@);
                }
            }
            let s = crate::story::Story {
                archive,
                author,
                chapters,
                color,
                completion_status,
                content_rating,
                cover_image,
                date_modified,
                date_published,
                date_updated,
                description_html,
                id,
                num_chapters,
                num_comments,
                num_dislikes,
                num_likes,
                num_views,
                num_words,
                prequel,
                published,
                rating,
                short_description,
                status,
                submitted,
                tags,
                title,
                total_num_views,
                url,
            };
            proof {
                assert(spec_story(*j)->0 =~= s@);
            }
            Ok(s)
        },
        _ => Err(crate::error::Error::index(bad)),
    }
}

} // verus!
