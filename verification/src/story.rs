//! The story metadata model: the record one index line decodes to, and the
//! mathematical views the contracts speak of. Timestamps are Unix seconds.

use std::sync::Arc;
use vstd::prelude::*;

verus! {

#[derive(Clone, Copy, Debug, PartialEq, Eq, Structural)]
pub enum CompletionStatus {
    Cancelled,
    Complete,
    Hiatus,
    Incomplete,
}

#[derive(Clone, Copy, Debug, PartialEq, Eq, Structural)]
pub enum ContentRating {
    Everyone,
    Mature,
    Teen,
}

#[derive(Clone, Copy, Debug, PartialEq, Eq, Structural)]
pub enum Status {
    ApproveQueue,
    NotVisible,
    PostQueue,
    Visible,
}

/// An RGB colour decoded from a six-digit hex string.
#[derive(Clone, Copy, Debug, PartialEq, Eq, Structural)]
pub struct Color {
    pub red: u8,
    pub green: u8,
    pub blue: u8,
}

/// The archive block: where the payload package lives in the container.
#[derive(Clone, Debug)]
pub struct Archive {
    pub date_checked: Option<i64>,
    pub date_created: Option<i64>,
    pub date_fetched: Option<i64>,
    pub date_updated: Option<i64>,
    pub path: String,
}

#[verifier::ext_equal]
pub struct ArchiveView {
    pub date_checked: Option<i64>,
    pub date_created: Option<i64>,
    pub date_fetched: Option<i64>,
    pub date_updated: Option<i64>,
    pub path: Seq<char>,
}

impl View for Archive {
    type V = ArchiveView;

    open spec fn view(&self) -> ArchiveView {
        ArchiveView {
            date_checked: self.date_checked,
            date_created: self.date_created,
            date_fetched: self.date_fetched,
            date_updated: self.date_updated,
            path: self.path@,
        }
    }
}

/// The avatar URL set: twelve optional size buckets.
#[derive(Clone, Debug)]
pub struct Avatar {
    pub x16: Option<String>,
    pub x32: Option<String>,
    pub x48: Option<String>,
    pub x64: Option<String>,
    pub x96: Option<String>,
    pub x128: Option<String>,
    pub x160: Option<String>,
    pub x192: Option<String>,
    pub x256: Option<String>,
    pub x320: Option<String>,
    pub x384: Option<String>,
    pub x512: Option<String>,
}

#[verifier::ext_equal]
pub struct AvatarView {
    pub x16: Option<Seq<char>>,
    pub x32: Option<Seq<char>>,
    pub x48: Option<Seq<char>>,
    pub x64: Option<Seq<char>>,
    pub x96: Option<Seq<char>>,
    pub x128: Option<Seq<char>>,
    pub x160: Option<Seq<char>>,
    pub x192: Option<Seq<char>>,
    pub x256: Option<Seq<char>>,
    pub x320: Option<Seq<char>>,
    pub x384: Option<Seq<char>>,
    pub x512: Option<Seq<char>>,
}

pub open spec fn view_opt_string(s: Option<String>) -> Option<Seq<char>> {
    match s {
        Some(t) => Some(t@),
        None => None,
    }
}

impl View for Avatar {
    type V = AvatarView;

    open spec fn view(&self) -> AvatarView {
        AvatarView {
            x16: view_opt_string(self.x16),
            x32: view_opt_string(self.x32),
            x48: view_opt_string(self.x48),
            x64: view_opt_string(self.x64),
            x96: view_opt_string(self.x96),
            x128: view_opt_string(self.x128),
            x160: view_opt_string(self.x160),
            x192: view_opt_string(self.x192),
            x256: view_opt_string(self.x256),
            x320: view_opt_string(self.x320),
            x384: view_opt_string(self.x384),
            x512: view_opt_string(self.x512),
        }
    }
}

/// An author block. Two decoded authors with equal views share one handle.
#[derive(Clone, Debug)]
pub struct Author {
    pub avatar: Option<Avatar>,
    pub bio_html: Option<String>,
    pub date_joined: Option<i64>,
    pub id: i32,
    pub name: String,
    pub num_blog_posts: Option<i32>,
    pub num_followers: Option<i32>,
    pub num_stories: Option<i32>,
    pub url: String,
}

#[verifier::ext_equal]
pub struct AuthorView {
    pub avatar: Option<AvatarView>,
    pub bio_html: Option<Seq<char>>,
    pub date_joined: Option<i64>,
    pub id: i32,
    pub name: Seq<char>,
    pub num_blog_posts: Option<i32>,
    pub num_followers: Option<i32>,
    pub num_stories: Option<i32>,
    pub url: Seq<char>,
}

impl View for Author {
    type V = AuthorView;

    open spec fn view(&self) -> AuthorView {
        AuthorView {
            avatar: match self.avatar {
                Some(a) => Some(a@),
                None => None,
            },
            bio_html: view_opt_string(self.bio_html),
            date_joined: self.date_joined,
            id: self.id,
            name: self.name@,
            num_blog_posts: self.num_blog_posts,
            num_followers: self.num_followers,
            num_stories: self.num_stories,
            url: self.url@,
        }
    }
}

#[derive(Clone, Debug)]
pub struct Chapter {
    pub chapter_number: i32,
    pub date_modified: Option<i64>,
    pub date_published: Option<i64>,
    pub id: i32,
    pub num_views: i32,
    pub num_words: i32,
    pub published: bool,
    pub title: String,
    pub url: String,
}

#[verifier::ext_equal]
pub struct ChapterView {
    pub chapter_number: i32,
    pub date_modified: Option<i64>,
    pub date_published: Option<i64>,
    pub id: i32,
    pub num_views: i32,
    pub num_words: i32,
    pub published: bool,
    pub title: Seq<char>,
    pub url: Seq<char>,
}

impl View for Chapter {
    type V = ChapterView;

    open spec fn view(&self) -> ChapterView {
        ChapterView {
            chapter_number: self.chapter_number,
            date_modified: self.date_modified,
            date_published: self.date_published,
            id: self.id,
            num_views: self.num_views,
            num_words: self.num_words,
            published: self.published,
            title: self.title@,
            url: self.url@,
        }
    }
}

#[derive(Clone, Debug)]
pub struct CoverImage {
    pub full: String,
    pub large: String,
    pub medium: String,
    pub thumbnail: String,
}

#[verifier::ext_equal]
pub struct CoverImageView {
    pub full: Seq<char>,
    pub large: Seq<char>,
    pub medium: Seq<char>,
    pub thumbnail: Seq<char>,
}

impl View for CoverImage {
    type V = CoverImageView;

    open spec fn view(&self) -> CoverImageView {
        CoverImageView {
            full: self.full@,
            large: self.large@,
            medium: self.medium@,
            thumbnail: self.thumbnail@,
        }
    }
}

/// A tag block. The JSON field `type` is held as `kind`. Two decoded tags
/// with equal views share one handle.
#[derive(Clone, Debug)]
pub struct Tag {
    pub id: i32,
    pub name: String,
    pub old_id: String,
    pub kind: String,
    pub url: String,
}

#[verifier::ext_equal]
pub struct TagView {
    pub id: i32,
    pub name: Seq<char>,
    pub old_id: Seq<char>,
    pub kind: Seq<char>,
    pub url: Seq<char>,
}

impl View for Tag {
    type V = TagView;

    open spec fn view(&self) -> TagView {
        TagView {
            id: self.id,
            name: self.name@,
            old_id: self.old_id@,
            kind: self.kind@,
            url: self.url@,
        }
    }
}

/// One story record of the metadata index.
#[derive(Clone, Debug)]
pub struct Story {
    pub archive: Archive,
    pub author: Arc<Author>,
    pub chapters: Vec<Chapter>,
    pub color: Option<Color>,
    pub completion_status: CompletionStatus,
    pub content_rating: ContentRating,
    pub cover_image: Option<CoverImage>,
    pub date_modified: Option<i64>,
    pub date_published: Option<i64>,
    pub date_updated: Option<i64>,
    pub description_html: String,
    pub id: i32,
    pub num_chapters: i32,
    pub num_comments: i32,
    pub num_dislikes: i32,
    pub num_likes: i32,
    pub num_views: i32,
    pub num_words: i32,
    pub prequel: Option<i32>,
    pub published: bool,
    pub rating: i32,
    pub short_description: String,
    pub status: Status,
    pub submitted: bool,
    pub tags: Vec<Arc<Tag>>,
    pub title: String,
    pub total_num_views: i32,
    pub url: String,
}

#[verifier::ext_equal]
pub struct StoryView {
    pub archive: ArchiveView,
    pub author: AuthorView,
    pub chapters: Seq<ChapterView>,
    pub color: Option<Color>,
    pub completion_status: CompletionStatus,
    pub content_rating: ContentRating,
    pub cover_image: Option<CoverImageView>,
    pub date_modified: Option<i64>,
    pub date_published: Option<i64>,
    pub date_updated: Option<i64>,
    pub description_html: Seq<char>,
    pub id: i32,
    pub num_chapters: i32,
    pub num_comments: i32,
    pub num_dislikes: i32,
    pub num_likes: i32,
    pub num_views: i32,
    pub num_words: i32,
    pub prequel: Option<i32>,
    pub published: bool,
    pub rating: i32,
    pub short_description: Seq<char>,
    pub status: Status,
    pub submitted: bool,
    pub tags: Seq<TagView>,
    pub title: Seq<char>,
    pub total_num_views: i32,
    pub url: Seq<char>,
}

impl View for Story {
    type V = StoryView;

    open spec fn view(&self) -> StoryView {
        StoryView {
            archive: self.archive@,
            author: self.author@,
            chapters: self.chapters@.map_values(|c: Chapter| c@),
            color: self.color,
            completion_status: self.completion_status,
            content_rating: self.content_rating,
            cover_image: match self.cover_image {
                Some(c) => Some(c@),
                None => None,
            },
            date_modified: self.date_modified,
            date_published: self.date_published,
            date_updated: self.date_updated,
            description_html: self.description_html@,
            id: self.id,
            num_chapters: self.num_chapters,
            num_comments: self.num_comments,
            num_dislikes: self.num_dislikes,
            num_likes: self.num_likes,
            num_views: self.num_views,
            num_words: self.num_words,
            prequel: self.prequel,
            published: self.published,
            rating: self.rating,
            short_description: self.short_description@,
            status: self.status,
            submitted: self.submitted,
            tags: self.tags@.map_values(|t: Arc<Tag>| t@),
            title: self.title@,
            total_num_views: self.total_num_views,
            url: self.url@,
        }
    }
}

} // verus!
