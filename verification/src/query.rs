//! The metadata filter language: typed field accessors, the compiled
//! predicate, and its evaluation against one story.

use vstd::prelude::*;
use crate::dates::spec_day_of;
use crate::matcher::{ci_fuzzy, TextMatcher, matcher_is_match};
use crate::story::{Story, StoryView};

verus! {

#[derive(Clone, Copy, Debug, PartialEq, Eq, Structural)]
pub enum IntField {
    Id,
    Chapters,
    Comments,
    Dislikes,
    Likes,
    TotalViews,
    Views,
    Words,
    AuthorId,
}

#[derive(Clone, Copy, Debug, PartialEq, Eq, Structural)]
pub enum StrField {
    Title,
    Description,
    ShortDescription,
    Url,
    AuthorName,
    ArchivePath,
}

#[derive(Clone, Copy, Debug, PartialEq, Eq, Structural)]
pub enum DateField {
    Modified,
    Published,
    Updated,
    AuthorJoined,
    EntryChecked,
    EntryCreated,
    EntryFetched,
    EntryUpdated,
}

/// A field accessor: what a query leaf reads from a story.
#[derive(Clone, Copy, Debug, PartialEq, Eq, Structural)]
pub enum Field {
    Int(IntField),
    Str(StrField),
    Date(DateField),
}

#[derive(Clone, Copy, Debug, PartialEq, Eq, Structural)]
pub enum Operator {
    Exact,
    Fuzzy,
    LessThan,
    MoreThan,
}

pub open spec fn spec_int_field(f: IntField, s: StoryView) -> i32 {
    match f {
        IntField::Id => s.id,
        IntField::Chapters => s.num_chapters,
        IntField::Comments => s.num_comments,
        IntField::Dislikes => s.num_dislikes,
        IntField::Likes => s.num_likes,
        IntField::TotalViews => s.total_num_views,
        IntField::Views => s.num_views,
        IntField::Words => s.num_words,
        IntField::AuthorId => s.author.id,
    }
}

pub open spec fn spec_str_field(f: StrField, s: StoryView) -> Seq<char> {
    match f {
        StrField::Title => s.title,
        StrField::Description => s.description_html,
        StrField::ShortDescription => s.short_description,
        StrField::Url => s.url,
        StrField::AuthorName => s.author.name,
        StrField::ArchivePath => s.archive.path,
    }
}

pub open spec fn spec_date_field(f: DateField, s: StoryView) -> Option<i64> {
    match f {
        DateField::Modified => s.date_modified,
        DateField::Published => s.date_published,
        DateField::Updated => s.date_updated,
        DateField::AuthorJoined => s.author.date_joined,
        DateField::EntryChecked => s.archive.date_checked,
        DateField::EntryCreated => s.archive.date_created,
        DateField::EntryFetched => s.archive.date_fetched,
        DateField::EntryUpdated => s.archive.date_updated,
    }
}

pub fn int_field(f: IntField, s: &Story) -> (r: i32)
    ensures
        r == spec_int_field(f, s@),
{
    match f {
        IntField::Id => s.id,
        IntField::Chapters => s.num_chapters,
        IntField::Comments => s.num_comments,
        IntField::Dislikes => s.num_dislikes,
        IntField::Likes => s.num_likes,
        IntField::TotalViews => s.total_num_views,
        IntField::Views => s.num_views,
        IntField::Words => s.num_words,
        IntField::AuthorId => s.author.id,
    }
}

pub fn str_field<'a>(f: StrField, s: &'a Story) -> (r: &'a String)
    ensures
        r@ == spec_str_field(f, s@),
{
    match f {
        StrField::Title => &s.title,
        StrField::Description => &s.description_html,
        StrField::ShortDescription => &s.short_description,
        StrField::Url => &s.url,
        StrField::AuthorName => &s.author.name,
        StrField::ArchivePath => &s.archive.path,
    }
}

pub fn date_field(f: DateField, s: &Story) -> (r: Option<i64>)
    ensures
        r == spec_date_field(f, s@),
{
    match f {
        DateField::Modified => s.date_modified,
        DateField::Published => s.date_published,
        DateField::Updated => s.date_updated,
        DateField::AuthorJoined => s.author.date_joined,
        DateField::EntryChecked => s.archive.date_checked,
        DateField::EntryCreated => s.archive.date_created,
        DateField::EntryFetched => s.archive.date_fetched,
        DateField::EntryUpdated => s.archive.date_updated,
    }
}

/// A compiled predicate: all value-side work (integer parse, date parse,
/// regex compile) happened at compile time.
#[derive(Debug)]
pub enum Pred {
    IntCmp(IntField, Operator, i32),
    StrExact(StrField, String),
    StrFuzzy(StrField, TextMatcher),
    DateCmp(DateField, Operator, i64),
    Not(Box<Pred>),
    And(Box<Pred>, Box<Pred>),
    Or(Box<Pred>, Box<Pred>),
}

/// The mathematical form of a compiled predicate: a fuzzy leaf keeps only
/// the pattern it was built from.
pub enum PredView {
    IntCmp(IntField, Operator, i32),
    StrExact(StrField, Seq<char>),
    StrFuzzy(StrField, Seq<char>),
    DateCmp(DateField, Operator, i64),
    Not(Box<PredView>),
    And(Box<PredView>, Box<PredView>),
    Or(Box<PredView>, Box<PredView>),
}

impl View for Pred {
    type V = PredView;

    open spec fn view(&self) -> PredView
        decreases self,
    {
        match self {
            Pred::IntCmp(f, op, v) => PredView::IntCmp(*f, *op, *v),
            Pred::StrExact(f, v) => PredView::StrExact(*f, v@),
            Pred::StrFuzzy(f, m) => PredView::StrFuzzy(*f, m.pattern_view()),
            Pred::DateCmp(f, op, v) => PredView::DateCmp(*f, *op, *v),
            Pred::Not(p) => PredView::Not(Box::new((**p)@)),
            Pred::And(a, b) => PredView::And(Box::new((**a)@), Box::new((**b)@)),
            Pred::Or(a, b) => PredView::Or(Box::new((**a)@), Box::new((**b)@)),
        }
    }
}

pub open spec fn spec_int_cmp(x: i32, op: Operator, v: i32) -> bool {
    match op {
        Operator::Exact => x == v,
        Operator::Fuzzy => x == v,
        Operator::LessThan => x < v,
        Operator::MoreThan => x > v,
    }
}

/// Comparison on a present timestamp: `=` is instant equality, `:` is
/// same-UTC-day equality, `<` and `>` are strict.
pub open spec fn spec_date_cmp(d: i64, op: Operator, v: i64) -> bool {
    match op {
        Operator::Exact => d == v,
        Operator::Fuzzy => spec_day_of(d as int) == spec_day_of(v as int),
        Operator::LessThan => d < v,
        Operator::MoreThan => d > v,
    }
}

/// What a compiled predicate means on one story. A deterministic function of
/// the predicate and the story: evaluation has no other inputs.
pub open spec fn spec_eval(p: PredView, s: StoryView) -> bool
    decreases p,
{
    match p {
        PredView::IntCmp(f, op, v) => spec_int_cmp(spec_int_field(f, s), op, v),
        PredView::StrExact(f, v) => spec_str_field(f, s) == v,
        PredView::StrFuzzy(f, needle) => ci_fuzzy(needle, spec_str_field(f, s)),
        PredView::DateCmp(f, op, v) => match spec_date_field(f, s) {
            Some(d) => spec_date_cmp(d, op, v),
            None => false,
        },
        PredView::Not(q) => !spec_eval(*q, s),
        PredView::And(a, b) => spec_eval(*a, s) && spec_eval(*b, s),
        PredView::Or(a, b) => spec_eval(*a, s) || spec_eval(*b, s),
    }
}

/// Evaluates a compiled predicate on one story. Conjunction stops at the
/// first false branch and disjunction at the first true one.
pub fn eval(p: &Pred, s: &Story) -> (r: bool)
    ensures
        r == spec_eval(p@, s@),
    decreases *p,
{
    match p {
        Pred::IntCmp(f, op, v) => {
            let x = int_field(*f, s);
            match op {
                Operator::Exact => x == *v,
                Operator::Fuzzy => x == *v,
                Operator::LessThan => x < *v,
                Operator::MoreThan => x > *v,
            }
        },
        Pred::StrExact(f, v) => crate::text::str_eq(str_field(*f, s).as_str(), v.as_str()),
        Pred::StrFuzzy(f, m) => matcher_is_match(m, str_field(*f, s).as_str()),
        Pred::DateCmp(f, op, v) => match date_field(*f, s) {
            Some(d) => match op {
                Operator::Exact => d == *v,
                Operator::Fuzzy => crate::dates::day_of(d) == crate::dates::day_of(*v),
                Operator::LessThan => d < *v,
                Operator::MoreThan => d > *v,
            },
            None => false,
        },
        Pred::Not(q) => !eval(q, s),
        Pred::And(a, b) => eval(a, s) && eval(b, s),
        Pred::Or(a, b) => eval(a, s) || eval(b, s),
    }
}

} // verus!
