//! The filter-language parser: recursive descent over characters, compiling
//! each leaf as it is read. `,` is conjunction, `|` is disjunction, `!`
//! negates, and a leaf is `field OP value` with the value running to the
//! next unescaped `)`, `,` or `|`.

use vstd::prelude::*;
use crate::error::{Error, ErrorKind};
use crate::matcher::fuzzy_compiles;
use crate::query::{DateField, Field, IntField, Operator, Pred, PredView, StrField};
use crate::text::{spec_match_at, match_at, spec_parse_i32};

verus! {

broadcast use vstd::string::group_string_axioms;

/// The abstract syntax of a query: leaves keep the unescaped value text.
pub enum ExprView {
    Leaf(Field, Operator, Seq<char>),
    Not(Box<ExprView>),
    And(Box<ExprView>, Box<ExprView>),
    Or(Box<ExprView>, Box<ExprView>),
}

/// Unicode whitespace, as `str::trim` strips it.
pub open spec fn is_ws(c: char) -> bool {
    ||| c == '\u{0009}'
    ||| c == '\u{000A}'
    ||| c == '\u{000B}'
    ||| c == '\u{000C}'
    ||| c == '\u{000D}'
    ||| c == ' '
    ||| c == '\u{0085}'
    ||| c == '\u{00A0}'
    ||| c == '\u{1680}'
    ||| ('\u{2000}' <= c && c <= '\u{200A}')
    ||| c == '\u{2028}'
    ||| c == '\u{2029}'
    ||| c == '\u{202F}'
    ||| c == '\u{205F}'
    ||| c == '\u{3000}'
}

fn ws_char(c: char) -> (r: bool)
    ensures
        r == is_ws(c),
{
    c == '\u{0009}' || c == '\u{000A}' || c == '\u{000B}' || c == '\u{000C}' || c == '\u{000D}'
        || c == ' ' || c == '\u{0085}' || c == '\u{00A0}' || c == '\u{1680}' || ('\u{2000}' <= c
        && c <= '\u{200A}') || c == '\u{2028}' || c == '\u{2029}' || c == '\u{202F}' || c
        == '\u{205F}' || c == '\u{3000}'
}

pub open spec fn ws_front(s: Seq<char>) -> Seq<char>
    decreases s.len(),
{
    if s.len() > 0 && is_ws(s[0]) {
        ws_front(s.drop_first())
    } else {
        s
    }
}

pub open spec fn ws_back(s: Seq<char>) -> Seq<char>
    decreases s.len(),
{
    if s.len() > 0 && is_ws(s.last()) {
        ws_back(s.drop_last())
    } else {
        s
    }
}

/// A text with the whitespace stripped from both ends.
pub open spec fn trim_ws(s: Seq<char>) -> Seq<char> {
    ws_back(ws_front(s))
}

/// Finds the whitespace-trimmed bounds of `s[start..end]`.
#[verifier::loop_isolation(false)]
fn trim_ws_bounds(s: &Vec<char>, start: usize, end: usize) -> (r: (usize, usize))
    requires
        start <= end <= s@.len(),
    ensures
        start <= r.0 <= r.1 <= end,
        s@.subrange(r.0 as int, r.1 as int) == trim_ws(s@.subrange(start as int, end as int)),
{
    let mut i = start;
    while i < end && ws_char(s[i])
        invariant
            start <= i <= end,
            ws_front(s@.subrange(start as int, end as int)) == ws_front(
                s@.subrange(i as int, end as int),
            ),
        decreases end - i,
    {
        proof {
            let cur = s@.subrange(i as int, end as int);
            assert(cur[0] == s@[i as int]);
            assert(cur.drop_first() =~= s@.subrange(i as int + 1, end as int));
        }
        i = i + 1;
    }
    proof {
        assert(ws_front(s@.subrange(start as int, end as int)) == s@.subrange(
            i as int,
            end as int,
        ));
    }
    let mut j = end;
    while j > i && ws_char(s[j - 1])
        invariant
            i <= j <= end,
            ws_back(s@.subrange(i as int, end as int)) == ws_back(s@.subrange(i as int, j as int)),
        decreases j,
    {
        proof {
            let cur = s@.subrange(i as int, j as int);
            assert(cur.last() == s@[j - 1]);
            assert(cur.drop_last() =~= s@.subrange(i as int, j as int - 1));
        }
        j = j - 1;
    }
    proof {
        assert(ws_back(s@.subrange(i as int, j as int)) == s@.subrange(i as int, j as int));
    }
    (i, j)
}

/// Skips spaces and tabs, the blanks permitted before any token.
pub open spec fn sp_space(s: Seq<char>, i: int) -> int
    decreases s.len() - i,
{
    if 0 <= i < s.len() && (s[i] == ' ' || s[i] == '\t') {
        sp_space(s, i + 1)
    } else {
        i
    }
}

#[verifier::loop_isolation(false)]
fn p_space(s: &Vec<char>, pos: usize) -> (r: usize)
    requires
        pos <= s@.len(),
    ensures
        pos <= r <= s@.len(),
        r as int == sp_space(s@, pos as int),
{
    let mut i = pos;
    while i < s.len() && (s[i] == ' ' || s[i] == '\t')
        invariant
            pos <= i <= s@.len(),
            sp_space(s@, pos as int) == sp_space(s@, i as int),
        decreases s@.len() - i,
    {
        i = i + 1;
    }
    i
}

/// The four characters an escape may protect.
pub open spec fn is_escapable(c: char) -> bool {
    c == ')' || c == ',' || c == '|' || c == '\\'
}

fn escapable(c: char) -> (r: bool)
    ensures
        r == is_escapable(c),
{
    c == ')' || c == ',' || c == '|' || c == '\\'
}

/// Where a value token ends: it runs to the next unescaped `)`, `,` or `|`,
/// and a backslash protects exactly one of `) , | \\`.
pub open spec fn scan_value_end(s: Seq<char>, i: int) -> int
    decreases s.len() - i,
{
    if 0 <= i < s.len() {
        let c = s[i];
        if c == '\\' {
            if i + 1 < s.len() && is_escapable(s[i + 1]) {
                scan_value_end(s, i + 2)
            } else {
                i
            }
        } else if c == ')' || c == ',' || c == '|' {
            i
        } else {
            scan_value_end(s, i + 1)
        }
    } else {
        i
    }
}

fn p_scan_value_end(s: &Vec<char>, pos: usize) -> (r: usize)
    requires
        pos <= s@.len(),
    ensures
        pos <= r <= s@.len(),
        r as int == scan_value_end(s@, pos as int),
{
    let mut i = pos;
    loop
        invariant
            pos <= i <= s@.len(),
            scan_value_end(s@, pos as int) == scan_value_end(s@, i as int),
        ensures
            pos <= i <= s@.len(),
            scan_value_end(s@, pos as int) == i as int,
        decreases s@.len() - i,
    {
        if i >= s.len() {
            break ;
        }
        let c = s[i];
        if c == '\\' {
            if i + 1 < s.len() && escapable(s[i + 1]) {
                i = i + 2;
            } else {
                break ;
            }
        } else if c == ')' || c == ',' || c == '|' {
            break ;
        } else {
            i = i + 1;
        }
    }
    i
}

/// Left-to-right unescaping of a value: each `\\` protects one following
/// `) , | \\`; anything else passes through.
pub open spec fn spec_unescape(v: Seq<char>) -> Seq<char>
    decreases v.len(),
{
    if v.len() == 0 {
        v
    } else if v[0] == '\\' && v.len() >= 2 && is_escapable(v[1]) {
        seq![v[1]] + spec_unescape(v.skip(2))
    } else {
        seq![v[0]] + spec_unescape(v.skip(1))
    }
}

/// Unescapes a value in one left-to-right pass.
#[verifier::loop_isolation(false)]
pub fn unescape(v: &Vec<char>) -> (r: Vec<char>)
    ensures
        r@ == spec_unescape(v@),
{
    let mut out: Vec<char> = Vec::new();
    let mut i: usize = 0;
    proof {
        assert(v@.skip(0) =~= v@);
        assert(out@ + spec_unescape(v@) =~= spec_unescape(v@));
    }
    while i < v.len()
        invariant
            i <= v@.len(),
            spec_unescape(v@) == out@ + spec_unescape(v@.skip(i as int)),
        decreases v@.len() - i,
    {
        let ghost tail = v@.skip(i as int);
        let ghost opre = out@;
        proof {
            assert(tail[0] == v@[i as int]);
        }
        if v[i] == '\\' && i + 1 < v.len() && escapable(v[i + 1]) {
            proof {
                assert(tail[1] == v@[i + 1]);
                assert(tail.skip(2) =~= v@.skip(i as int + 2));
            }
            let c = v[i + 1];
            out.push(c);
            proof {
                assert(opre + (seq![c] + spec_unescape(v@.skip(i as int + 2))) =~= out@
                    + spec_unescape(v@.skip(i as int + 2)));
            }
            i = i + 2;
        } else {
            proof {
                assert(tail.skip(1) =~= v@.skip(i as int + 1));
            }
            let c = v[i];
            out.push(c);
            proof {
                assert(opre + (seq![c] + spec_unescape(v@.skip(i as int + 1))) =~= out@
                    + spec_unescape(v@.skip(i as int + 1)));
            }
            i = i + 1;
        }
    }
    proof {
        assert(v@.skip(v@.len() as int) =~= Seq::<char>::empty());
        assert(out@ + Seq::<char>::empty() =~= out@);
    }
    out
}

/// A value token: blanks skipped, the raw text scanned to its end, then
/// trimmed of whitespace and unescaped.
pub open spec fn sp_value(s: Seq<char>, i: int) -> (Seq<char>, int) {
    let j = sp_space(s, i);
    let end = scan_value_end(s, j);
    (spec_unescape(trim_ws(s.subrange(j, end))), end)
}

fn p_value(s: &Vec<char>, pos: usize) -> (r: (String, usize))
    requires
        pos <= s@.len(),
    ensures
        pos <= r.1 <= s@.len(),
        sp_value(s@, pos as int) == (r.0@, r.1 as int),
{
    let j = p_space(s, pos);
    let end = p_scan_value_end(s, j);
    let (a, b) = trim_ws_bounds(s, j, end);
    let mut raw: Vec<char> = Vec::new();
    let mut k = a;
    while k < b
        invariant
            a <= k <= b <= s@.len(),
            raw@ == s@.subrange(a as int, k as int),
        decreases b - k,
    {
        let c = s[k];
        raw.push(c);
        proof {
            assert(raw@ =~= s@.subrange(a as int, k + 1));
        }
        k = k + 1;
    }
    proof {
        assert(raw@ =~= s@.subrange(a as int, b as int));
    }
    let unescaped = unescape(&raw);
    (crate::text::string_from_chars(&unescaped), end)
}


/// The recognized field names, longest match first where one name is a
/// prefix of another.
pub open spec fn sp_source(s: Seq<char>, i: int) -> Option<(Field, int)> {
    let j = sp_space(s, i);
    if spec_match_at(s, j, "short description"@) {
        Some((Field::Str(StrField::ShortDescription), j + "short description"@.len()))
    } else if spec_match_at(s, j, "author joined"@) {
        Some((Field::Date(DateField::AuthorJoined), j + "author joined"@.len()))
    } else if spec_match_at(s, j, "entry checked"@) {
        Some((Field::Date(DateField::EntryChecked), j + "entry checked"@.len()))
    } else if spec_match_at(s, j, "entry created"@) {
        Some((Field::Date(DateField::EntryCreated), j + "entry created"@.len()))
    } else if spec_match_at(s, j, "entry fetched"@) {
        Some((Field::Date(DateField::EntryFetched), j + "entry fetched"@.len()))
    } else if spec_match_at(s, j, "entry updated"@) {
        Some((Field::Date(DateField::EntryUpdated), j + "entry updated"@.len()))
    } else if spec_match_at(s, j, "archive path"@) {
        Some((Field::Str(StrField::ArchivePath), j + "archive path"@.len()))
    } else if spec_match_at(s, j, "total views"@) {
        Some((Field::Int(IntField::TotalViews), j + "total views"@.len()))
    } else if spec_match_at(s, j, "description"@) {
        Some((Field::Str(StrField::Description), j + "description"@.len()))
    } else if spec_match_at(s, j, "author name"@) {
        Some((Field::Str(StrField::AuthorName), j + "author name"@.len()))
    } else if spec_match_at(s, j, "author id"@) {
        Some((Field::Int(IntField::AuthorId), j + "author id"@.len()))
    } else if spec_match_at(s, j, "chapters"@) {
        Some((Field::Int(IntField::Chapters), j + "chapters"@.len()))
    } else if spec_match_at(s, j, "comments"@) {
        Some((Field::Int(IntField::Comments), j + "comments"@.len()))
    } else if spec_match_at(s, j, "dislikes"@) {
        Some((Field::Int(IntField::Dislikes), j + "dislikes"@.len()))
    } else if spec_match_at(s, j, "modified"@) {
        Some((Field::Date(DateField::Modified), j + "modified"@.len()))
    } else if spec_match_at(s, j, "published"@) {
        Some((Field::Date(DateField::Published), j + "published"@.len()))
    } else if spec_match_at(s, j, "updated"@) {
        Some((Field::Date(DateField::Updated), j + "updated"@.len()))
    } else if spec_match_at(s, j, "archive"@) {
        Some((Field::Str(StrField::ArchivePath), j + "archive"@.len()))
    } else if spec_match_at(s, j, "author"@) {
        Some((Field::Str(StrField::AuthorName), j + "author"@.len()))
    } else if spec_match_at(s, j, "likes"@) {
        Some((Field::Int(IntField::Likes), j + "likes"@.len()))
    } else if spec_match_at(s, j, "story"@) {
        Some((Field::Str(StrField::Title), j + "story"@.len()))
    } else if spec_match_at(s, j, "title"@) {
        Some((Field::Str(StrField::Title), j + "title"@.len()))
    } else if spec_match_at(s, j, "views"@) {
        Some((Field::Int(IntField::Views), j + "views"@.len()))
    } else if spec_match_at(s, j, "words"@) {
        Some((Field::Int(IntField::Words), j + "words"@.len()))
    } else if spec_match_at(s, j, "path"@) {
        Some((Field::Str(StrField::ArchivePath), j + "path"@.len()))
    } else if spec_match_at(s, j, "url"@) {
        Some((Field::Str(StrField::Url), j + "url"@.len()))
    } else if spec_match_at(s, j, "id"@) {
        Some((Field::Int(IntField::Id), j + "id"@.len()))
    } else {
        None
    }
}

fn p_source(s: &Vec<char>, pos: usize) -> (r: Option<(Field, usize)>)
    requires
        pos <= s@.len(),
    ensures
        match r {
            Some(pair) => sp_source(s@, pos as int) == Some((pair.0, pair.1 as int)) && pair.1
                <= s@.len(),
            None => sp_source(s@, pos as int) is None,
        },
{
    let _limit: usize = s.len();
    let j = p_space(s, pos);
    if match_at(s, j, "short description") {
        Some((Field::Str(StrField::ShortDescription), j + "short description".unicode_len()))
    } else if match_at(s, j, "author joined") {
        Some((Field::Date(DateField::AuthorJoined), j + "author joined".unicode_len()))
    } else if match_at(s, j, "entry checked") {
        Some((Field::Date(DateField::EntryChecked), j + "entry checked".unicode_len()))
    } else if match_at(s, j, "entry created") {
        Some((Field::Date(DateField::EntryCreated), j + "entry created".unicode_len()))
    } else if match_at(s, j, "entry fetched") {
        Some((Field::Date(DateField::EntryFetched), j + "entry fetched".unicode_len()))
    } else if match_at(s, j, "entry updated") {
        Some((Field::Date(DateField::EntryUpdated), j + "entry updated".unicode_len()))
    } else if match_at(s, j, "archive path") {
        Some((Field::Str(StrField::ArchivePath), j + "archive path".unicode_len()))
    } else if match_at(s, j, "total views") {
        Some((Field::Int(IntField::TotalViews), j + "total views".unicode_len()))
    } else if match_at(s, j, "description") {
        Some((Field::Str(StrField::Description), j + "description".unicode_len()))
    } else if match_at(s, j, "author name") {
        Some((Field::Str(StrField::AuthorName), j + "author name".unicode_len()))
    } else if match_at(s, j, "author id") {
        Some((Field::Int(IntField::AuthorId), j + "author id".unicode_len()))
    } else if match_at(s, j, "chapters") {
        Some((Field::Int(IntField::Chapters), j + "chapters".unicode_len()))
    } else if match_at(s, j, "comments") {
        Some((Field::Int(IntField::Comments), j + "comments".unicode_len()))
    } else if match_at(s, j, "dislikes") {
        Some((Field::Int(IntField::Dislikes), j + "dislikes".unicode_len()))
    } else if match_at(s, j, "modified") {
        Some((Field::Date(DateField::Modified), j + "modified".unicode_len()))
    } else if match_at(s, j, "published") {
        Some((Field::Date(DateField::Published), j + "published".unicode_len()))
    } else if match_at(s, j, "updated") {
        Some((Field::Date(DateField::Updated), j + "updated".unicode_len()))
    } else if match_at(s, j, "archive") {
        Some((Field::Str(StrField::ArchivePath), j + "archive".unicode_len()))
    } else if match_at(s, j, "author") {
        Some((Field::Str(StrField::AuthorName), j + "author".unicode_len()))
    } else if match_at(s, j, "likes") {
        Some((Field::Int(IntField::Likes), j + "likes".unicode_len()))
    } else if match_at(s, j, "story") {
        Some((Field::Str(StrField::Title), j + "story".unicode_len()))
    } else if match_at(s, j, "title") {
        Some((Field::Str(StrField::Title), j + "title".unicode_len()))
    } else if match_at(s, j, "views") {
        Some((Field::Int(IntField::Views), j + "views".unicode_len()))
    } else if match_at(s, j, "words") {
        Some((Field::Int(IntField::Words), j + "words".unicode_len()))
    } else if match_at(s, j, "path") {
        Some((Field::Str(StrField::ArchivePath), j + "path".unicode_len()))
    } else if match_at(s, j, "url") {
        Some((Field::Str(StrField::Url), j + "url".unicode_len()))
    } else if match_at(s, j, "id") {
        Some((Field::Int(IntField::Id), j + "id".unicode_len()))
    } else {
        None
    }
}

/// The four operators.
pub open spec fn sp_operator(s: Seq<char>, i: int) -> Option<(Operator, int)> {
    let j = sp_space(s, i);
    if 0 <= j < s.len() && s[j] == '=' {
        Some((Operator::Exact, j + 1))
    } else if 0 <= j < s.len() && s[j] == ':' {
        Some((Operator::Fuzzy, j + 1))
    } else if 0 <= j < s.len() && s[j] == '<' {
        Some((Operator::LessThan, j + 1))
    } else if 0 <= j < s.len() && s[j] == '>' {
        Some((Operator::MoreThan, j + 1))
    } else {
        None
    }
}

fn p_operator(s: &Vec<char>, pos: usize) -> (r: Option<(Operator, usize)>)
    requires
        pos <= s@.len(),
    ensures
        match r {
            Some(pair) => sp_operator(s@, pos as int) == Some((pair.0, pair.1 as int)) && pair.1
                <= s@.len(),
            None => sp_operator(s@, pos as int) is None,
        },
{
    let j = p_space(s, pos);
    if j < s.len() {
        let c = s[j];
        if c == '=' {
            return Some((Operator::Exact, j + 1));
        }
        if c == ':' {
            return Some((Operator::Fuzzy, j + 1));
        }
        if c == '<' {
            return Some((Operator::LessThan, j + 1));
        }
        if c == '>' {
            return Some((Operator::MoreThan, j + 1));
        }
    }
    None
}

/// One leaf: a field, an operator, and the value text.
pub open spec fn sp_item(s: Seq<char>, i: int) -> Option<(ExprView, int)> {
    match sp_source(s, i) {
        None => None,
        Some((f, p1)) => match sp_operator(s, p1) {
            None => None,
            Some((op, p2)) => {
                let (v, p3) = sp_value(s, p2);
                Some((ExprView::Leaf(f, op, v), p3))
            },
        },
    }
}

/// Whether a compiled predicate is a faithful compilation of an abstract
/// query: every deterministic leaf is pinned exactly; a date leaf keeps its
/// field and operator, while its instant came from the date reader.
pub open spec fn pred_matches(p: PredView, e: ExprView) -> bool
    decreases e,
{
    match e {
        ExprView::Leaf(f, op, v) => match (f, p) {
            (Field::Int(g), PredView::IntCmp(g2, op2, n)) => g2 == g && op2 == op
                && spec_parse_i32(v) == Some(n),
            (Field::Str(g), PredView::StrExact(g2, v2)) => g2 == g && op == Operator::Exact && v2
                == v,
            (Field::Str(g), PredView::StrFuzzy(g2, needle)) => g2 == g && op == Operator::Fuzzy
                && needle == v && fuzzy_compiles(v),
            (Field::Date(g), PredView::DateCmp(g2, op2, _ts)) => g2 == g && op2 == op,
            _ => false,
        },
        ExprView::Not(a) => match p {
            PredView::Not(q) => pred_matches(*q, *a),
            _ => false,
        },
        ExprView::And(a, b) => match p {
            PredView::And(x, y) => pred_matches(*x, *a) && pred_matches(*y, *b),
            _ => false,
        },
        ExprView::Or(a, b) => match p {
            PredView::Or(x, y) => pred_matches(*x, *a) && pred_matches(*y, *b),
            _ => false,
        },
    }
}

/// Whether every decision in compiling a query is already settled by its
/// text: integer values parse, exact string leaves always compile, a fuzzy
/// leaf compiles exactly when its escaped pattern does, and no date leaf
/// asks the date reader. Parsing such a query always compiles.
pub open spec fn surely_compiles(e: ExprView) -> bool
    decreases e,
{
    match e {
        ExprView::Leaf(f, op, v) => match f {
            Field::Int(_) => spec_parse_i32(v) is Some,
            Field::Str(_) => op == Operator::Exact || (op == Operator::Fuzzy
                && fuzzy_compiles(v)),
            Field::Date(_) => false,
        },
        ExprView::Not(a) => surely_compiles(*a),
        ExprView::And(a, b) => surely_compiles(*a) && surely_compiles(*b),
        ExprView::Or(a, b) => surely_compiles(*a) && surely_compiles(*b),
    }
}

/// Compiles one leaf: all value-side work happens here, once.
pub fn optimize(f: Field, op: Operator, value: String) -> (r: Result<Pred, Error>)
    ensures
        match r {
            Ok(p) => pred_matches(p@, ExprView::Leaf(f, op, value@)),
            Err(e) => e.kind == ErrorKind::QueryError && !surely_compiles(
                ExprView::Leaf(f, op, value@),
            ),
        },
{
    match f {
        Field::Int(g) => {
            let chars = crate::text::chars_of(value.as_str());
            proof {
                assert(chars@.subrange(0, chars@.len() as int) =~= value@);
            }
            match crate::text::parse_i32_range(&chars, 0, chars.len()) {
                Some(n) => Ok(Pred::IntCmp(g, op, n)),
                None => Err(Error::query("Invalid value for number type")),
            }
        },
        Field::Str(g) => match op {
            Operator::Exact => Ok(Pred::StrExact(g, value)),
            Operator::Fuzzy => match crate::matcher::build_matcher(value.as_str()) {
                Some(m) => Ok(Pred::StrFuzzy(g, m)),
                None => Err(Error::query("Invalid value for fuzzy match")),
            },
            _ => Err(Error::query("Invalid operation for text type")),
        },
        Field::Date(g) => match crate::dates::parse_date_query(value.as_str()) {
            Some(ts) => Ok(Pred::DateCmp(g, op, ts)),
            None => Err(Error::query("Invalid value for date type")),
        },
    }
}

fn p_item(s: &Vec<char>, pos: usize) -> (r: Result<(Pred, usize), Error>)
    requires
        pos <= s@.len(),
    ensures
        match r {
            Ok(pair) => pair.1 <= s@.len() && (sp_item(s@, pos as int) matches Some(sp) && sp.1
                == pair.1 as int && pred_matches(pair.0@, sp.0)),
            Err(e) => e.kind == ErrorKind::QueryError && !(sp_item(s@, pos as int) matches Some(sp)
                && surely_compiles(sp.0)),
        },
{
    let Some((f, p1)) = p_source(s, pos) else {
        return Err(parse_error(pos));
    };
    let Some((op, p2)) = p_operator(s, p1) else {
        return Err(parse_error(p1));
    };
    let (value, p3) = p_value(s, p2);
    let pred = optimize(f, op, value)?;
    Ok((pred, p3))
}

/// A parse failure at a character position.
fn parse_error(pos: usize) -> (r: Error)
    ensures
        r.kind == ErrorKind::QueryError,
{
    let n = crate::text::decimal_string(pos as u64);
    let msg = "Invalid query at ".to_owned().concat(n.as_str());
    Error::query(msg.as_str())
}


// The grammar cycle. Each level carries fuel: it drops by one whenever the
// parse re-enters the cycle after consuming a delimiter, so recursion is
// well-founded; the top level hands in more fuel than any input can use.
/// A parenthesized group, or a leaf.
pub open spec fn sp_parens(s: Seq<char>, i: int, fuel: nat) -> Option<(ExprView, int)>
    decreases fuel, 0int,
{
    let j = sp_space(s, i);
    if 0 <= j < s.len() && s[j] == '(' {
        if fuel == 0 {
            None
        } else {
            match sp_ofunc(s, j + 1, (fuel - 1) as nat) {
                None => None,
                Some((e, p)) => {
                    let q = sp_space(s, p);
                    if 0 <= q < s.len() && s[q] == ')' {
                        Some((e, q + 1))
                    } else {
                        None
                    }
                },
            }
        }
    } else {
        sp_item(s, i)
    }
}

/// An optionally negated group or leaf.
pub open spec fn sp_nlist(s: Seq<char>, i: int, fuel: nat) -> Option<(ExprView, int)>
    decreases fuel, 1int,
{
    let j = sp_space(s, i);
    if 0 <= j < s.len() && s[j] == '!' {
        match sp_parens(s, j + 1, fuel) {
            Some((e, p)) => Some((ExprView::Not(Box::new(e)), p)),
            None => None,
        }
    } else {
        sp_parens(s, i, fuel)
    }
}

/// The rest of a `,`-separated conjunction.
pub open spec fn sp_alist_rest(s: Seq<char>, i: int, acc: ExprView, fuel: nat) -> Option<
    (ExprView, int),
>
    decreases fuel, 2int,
{
    let j = sp_space(s, i);
    if 0 <= j < s.len() && s[j] == ',' {
        if fuel == 0 {
            None
        } else {
            match sp_nlist(s, j + 1, fuel) {
                None => None,
                Some((e2, p2)) => sp_alist_rest(
                    s,
                    p2,
                    ExprView::And(Box::new(acc), Box::new(e2)),
                    (fuel - 1) as nat,
                ),
            }
        }
    } else {
        Some((acc, i))
    }
}

/// A conjunction: one or more negated groups joined by `,`.
pub open spec fn sp_afunc(s: Seq<char>, i: int, fuel: nat) -> Option<(ExprView, int)>
    decreases fuel, 3int,
{
    match sp_nlist(s, i, fuel) {
        None => None,
        Some((e, p)) => sp_alist_rest(s, p, e, fuel),
    }
}

/// The rest of a `|`-separated disjunction.
pub open spec fn sp_olist_rest(s: Seq<char>, i: int, acc: ExprView, fuel: nat) -> Option<
    (ExprView, int),
>
    decreases fuel, 4int,
{
    let j = sp_space(s, i);
    if 0 <= j < s.len() && s[j] == '|' {
        if fuel == 0 {
            None
        } else {
            match sp_afunc(s, j + 1, fuel) {
                None => None,
                Some((e2, p2)) => sp_olist_rest(
                    s,
                    p2,
                    ExprView::Or(Box::new(acc), Box::new(e2)),
                    (fuel - 1) as nat,
                ),
            }
        }
    } else {
        Some((acc, i))
    }
}

/// A disjunction: one or more conjunctions joined by `|`.
pub open spec fn sp_ofunc(s: Seq<char>, i: int, fuel: nat) -> Option<(ExprView, int)>
    decreases fuel, 5int,
{
    match sp_afunc(s, i, fuel) {
        None => None,
        Some((e, p)) => sp_olist_rest(s, p, e, fuel),
    }
}

/// A whole query: trimmed, parsed as a disjunction, and required to consume
/// every character.
pub open spec fn spec_parse_query(q: Seq<char>) -> Option<ExprView> {
    let t = trim_ws(q);
    if t.len() + 1 > usize::MAX {
        None
    } else {
        match sp_ofunc(t, 0, (t.len() + 1) as nat) {
            Some((e, p)) => if p == t.len() {
                Some(e)
            } else {
                None
            },
            None => None,
        }
    }
}

/// The conjunction built by the rest of a `,`-list embeds what it started
/// from: a surely-compiling result has a surely-compiling seed.
proof fn lemma_alist_rest_surely(s: Seq<char>, i: int, acc: ExprView, fuel: nat)
    ensures
        (sp_alist_rest(s, i, acc, fuel) matches Some(pair) && surely_compiles(pair.0))
            ==> surely_compiles(acc),
    decreases fuel,
{
    let j = sp_space(s, i);
    if 0 <= j < s.len() && s[j] == ',' && fuel > 0 {
        match sp_nlist(s, j + 1, fuel) {
            Some((e2, p2)) => {
                lemma_alist_rest_surely(
                    s,
                    p2,
                    ExprView::And(Box::new(acc), Box::new(e2)),
                    (fuel - 1) as nat,
                );
            },
            None => {},
        }
    }
}

/// The disjunction built by the rest of a `|`-list embeds what it started
/// from: a surely-compiling result has a surely-compiling seed.
proof fn lemma_olist_rest_surely(s: Seq<char>, i: int, acc: ExprView, fuel: nat)
    ensures
        (sp_olist_rest(s, i, acc, fuel) matches Some(pair) && surely_compiles(pair.0))
            ==> surely_compiles(acc),
    decreases fuel,
{
    let j = sp_space(s, i);
    if 0 <= j < s.len() && s[j] == '|' && fuel > 0 {
        match sp_afunc(s, j + 1, fuel) {
            Some((e2, p2)) => {
                lemma_olist_rest_surely(
                    s,
                    p2,
                    ExprView::Or(Box::new(acc), Box::new(e2)),
                    (fuel - 1) as nat,
                );
            },
            None => {},
        }
    }
}

fn p_parens(s: &Vec<char>, pos: usize, fuel: usize) -> (r: Result<(Pred, usize), Error>)
    requires
        pos <= s@.len(),
    ensures
        match r {
            Ok(pair) => pair.1 <= s@.len() && (sp_parens(s@, pos as int, fuel as nat)
                matches Some(sp) && sp.1 == pair.1 as int && pred_matches(pair.0@, sp.0)),
            Err(e) => e.kind == ErrorKind::QueryError && !(sp_parens(s@, pos as int, fuel as nat) matches Some(sp)
                && surely_compiles(sp.0)),
        },
    decreases fuel, 0int,
{
    let j = p_space(s, pos);
    if j < s.len() && s[j] == '(' {
        if fuel == 0 {
            return Err(parse_error(j));
        }
        let (e, p) = match p_ofunc(s, j + 1, fuel - 1) {
            Ok(pair) => pair,
            Err(err) => {
                proof {
                    let whole = sp_parens(s@, pos as int, fuel as nat);
                    let sub = sp_ofunc(s@, j + 1, (fuel - 1) as nat);
                    if whole is Some {
                        assert(sub is Some && (sub->0).0 == (whole->0).0);
                    }
                }
                return Err(err);
            },
        };
        let q = p_space(s, p);
        if q < s.len() && s[q] == ')' {
            Ok((e, q + 1))
        } else {
            Err(parse_error(q))
        }
    } else {
        p_item(s, pos)
    }
}

fn p_nlist(s: &Vec<char>, pos: usize, fuel: usize) -> (r: Result<(Pred, usize), Error>)
    requires
        pos <= s@.len(),
    ensures
        match r {
            Ok(pair) => pair.1 <= s@.len() && (sp_nlist(s@, pos as int, fuel as nat)
                matches Some(sp) && sp.1 == pair.1 as int && pred_matches(pair.0@, sp.0)),
            Err(e) => e.kind == ErrorKind::QueryError && !(sp_nlist(s@, pos as int, fuel as nat) matches Some(sp)
                && surely_compiles(sp.0)),
        },
    decreases fuel, 1int,
{
    let j = p_space(s, pos);
    if j < s.len() && s[j] == '!' {
        let (e, p) = p_parens(s, j + 1, fuel)?;
        Ok((Pred::Not(Box::new(e)), p))
    } else {
        p_parens(s, pos, fuel)
    }
}

fn p_alist_rest(
    s: &Vec<char>,
    pos: usize,
    acc: Pred,
    av: Ghost<ExprView>,
    fuel: usize,
) -> (r: Result<(Pred, usize), Error>)
    requires
        pos <= s@.len(),
        pred_matches(acc@, av@),
    ensures
        match r {
            Ok(pair) => pair.1 <= s@.len() && (sp_alist_rest(s@, pos as int, av@, fuel as nat)
                matches Some(sp) && sp.1 == pair.1 as int && pred_matches(pair.0@, sp.0)),
            Err(e) => e.kind == ErrorKind::QueryError && !(sp_alist_rest(s@, pos as int, av@, fuel as nat) matches Some(sp)
                && surely_compiles(sp.0)),
        },
    decreases fuel, 2int,
{
    let j = p_space(s, pos);
    if j < s.len() && s[j] == ',' {
        if fuel == 0 {
            return Err(parse_error(j));
        }
        let (e2, p2) = match p_nlist(s, j + 1, fuel) {
            Ok(pair) => pair,
            Err(err) => {
                proof {
                    let whole = sp_alist_rest(s@, pos as int, av@, fuel as nat);
                    if whole is Some && surely_compiles((whole->0).0) {
                        let sub = sp_nlist(s@, j + 1, fuel as nat);
                        assert(sub is Some);
                        let inner = sub->0;
                        lemma_alist_rest_surely(
                            s@,
                            inner.1,
                            ExprView::And(Box::new(av@), Box::new(inner.0)),
                            (fuel - 1) as nat,
                        );
                        assert(surely_compiles(inner.0));
                    }
                }
                return Err(err);
            },
        };
        let ghost ev2 = choose|ev2: (ExprView, int)|
            sp_nlist(s@, j + 1, fuel as nat) == Some(ev2) && ev2.1 == p2 as int && pred_matches(
                e2@,
                ev2.0,
            );
        let joined = Pred::And(Box::new(acc), Box::new(e2));
        p_alist_rest(
            s,
            p2,
            joined,
            Ghost(ExprView::And(Box::new(av@), Box::new(ev2.0))),
            fuel - 1,
        )
    } else {
        Ok((acc, pos))
    }
}

fn p_afunc(s: &Vec<char>, pos: usize, fuel: usize) -> (r: Result<(Pred, usize), Error>)
    requires
        pos <= s@.len(),
    ensures
        match r {
            Ok(pair) => pair.1 <= s@.len() && (sp_afunc(s@, pos as int, fuel as nat)
                matches Some(sp) && sp.1 == pair.1 as int && pred_matches(pair.0@, sp.0)),
            Err(e) => e.kind == ErrorKind::QueryError && !(sp_afunc(s@, pos as int, fuel as nat) matches Some(sp)
                && surely_compiles(sp.0)),
        },
    decreases fuel, 3int,
{
    let (e, p) = match p_nlist(s, pos, fuel) {
        Ok(pair) => pair,
        Err(err) => {
            proof {
                let whole = sp_afunc(s@, pos as int, fuel as nat);
                if whole is Some && surely_compiles((whole->0).0) {
                    let sub = sp_nlist(s@, pos as int, fuel as nat);
                    assert(sub is Some);
                    let inner = sub->0;
                    lemma_alist_rest_surely(s@, inner.1, inner.0, fuel as nat);
                    assert(surely_compiles(inner.0));
                }
            }
            return Err(err);
        },
    };
    let ghost ev = choose|ev: (ExprView, int)|
        sp_nlist(s@, pos as int, fuel as nat) == Some(ev) && ev.1 == p as int && pred_matches(
            e@,
            ev.0,
        );
    p_alist_rest(s, p, e, Ghost(ev.0), fuel)
}

fn p_olist_rest(
    s: &Vec<char>,
    pos: usize,
    acc: Pred,
    av: Ghost<ExprView>,
    fuel: usize,
) -> (r: Result<(Pred, usize), Error>)
    requires
        pos <= s@.len(),
        pred_matches(acc@, av@),
    ensures
        match r {
            Ok(pair) => pair.1 <= s@.len() && (sp_olist_rest(s@, pos as int, av@, fuel as nat)
                matches Some(sp) && sp.1 == pair.1 as int && pred_matches(pair.0@, sp.0)),
            Err(e) => e.kind == ErrorKind::QueryError && !(sp_olist_rest(s@, pos as int, av@, fuel as nat) matches Some(sp)
                && surely_compiles(sp.0)),
        },
    decreases fuel, 4int,
{
    let j = p_space(s, pos);
    if j < s.len() && s[j] == '|' {
        if fuel == 0 {
            return Err(parse_error(j));
        }
        let (e2, p2) = match p_afunc(s, j + 1, fuel) {
            Ok(pair) => pair,
            Err(err) => {
                proof {
                    let whole = sp_olist_rest(s@, pos as int, av@, fuel as nat);
                    if whole is Some && surely_compiles((whole->0).0) {
                        let sub = sp_afunc(s@, j + 1, fuel as nat);
                        assert(sub is Some);
                        let inner = sub->0;
                        lemma_olist_rest_surely(
                            s@,
                            inner.1,
                            ExprView::Or(Box::new(av@), Box::new(inner.0)),
                            (fuel - 1) as nat,
                        );
                        assert(surely_compiles(inner.0));
                    }
                }
                return Err(err);
            },
        };
        let ghost ev2 = choose|ev2: (ExprView, int)|
            sp_afunc(s@, j + 1, fuel as nat) == Some(ev2) && ev2.1 == p2 as int && pred_matches(
                e2@,
                ev2.0,
            );
        let joined = Pred::Or(Box::new(acc), Box::new(e2));
        p_olist_rest(
            s,
            p2,
            joined,
            Ghost(ExprView::Or(Box::new(av@), Box::new(ev2.0))),
            fuel - 1,
        )
    } else {
        Ok((acc, pos))
    }
}

fn p_ofunc(s: &Vec<char>, pos: usize, fuel: usize) -> (r: Result<(Pred, usize), Error>)
    requires
        pos <= s@.len(),
    ensures
        match r {
            Ok(pair) => pair.1 <= s@.len() && (sp_ofunc(s@, pos as int, fuel as nat)
                matches Some(sp) && sp.1 == pair.1 as int && pred_matches(pair.0@, sp.0)),
            Err(e) => e.kind == ErrorKind::QueryError && !(sp_ofunc(s@, pos as int, fuel as nat) matches Some(sp)
                && surely_compiles(sp.0)),
        },
    decreases fuel, 5int,
{
    let (e, p) = match p_afunc(s, pos, fuel) {
        Ok(pair) => pair,
        Err(err) => {
            proof {
                let whole = sp_ofunc(s@, pos as int, fuel as nat);
                if whole is Some && surely_compiles((whole->0).0) {
                    let sub = sp_afunc(s@, pos as int, fuel as nat);
                    assert(sub is Some);
                    let inner = sub->0;
                    lemma_olist_rest_surely(s@, inner.1, inner.0, fuel as nat);
                    assert(surely_compiles(inner.0));
                }
            }
            return Err(err);
        },
    };
    let ghost ev = choose|ev: (ExprView, int)|
        sp_afunc(s@, pos as int, fuel as nat) == Some(ev) && ev.1 == p as int && pred_matches(
            e@,
            ev.0,
        );
    p_olist_rest(s, p, e, Ghost(ev.0), fuel)
}

/// Parses and compiles a whole query. On success the predicate is a
/// faithful compilation of the query's abstract syntax; a query that does
/// not parse is always refused, with a `QueryError`.
pub fn parse(query: &str) -> (r: Result<Pred, Error>)
    ensures
        match r {
            Ok(p) => spec_parse_query(query@) matches Some(ast) && pred_matches(p@, ast),
            Err(e) => e.kind == ErrorKind::QueryError && !(spec_parse_query(query@)
                matches Some(ast) && surely_compiles(ast)),
        },
{
    let chars = crate::text::chars_of(query);
    let (a, b) = trim_ws_bounds(&chars, 0, chars.len());
    let mut t: Vec<char> = Vec::new();
    let mut k = a;
    while k < b
        invariant
            a <= k <= b <= chars@.len(),
            t@ == chars@.subrange(a as int, k as int),
        decreases b - k,
    {
        let c = chars[k];
        t.push(c);
        proof {
            assert(t@ =~= chars@.subrange(a as int, k + 1));
        }
        k = k + 1;
    }
    proof {
        assert(t@ =~= chars@.subrange(a as int, b as int));
        assert(chars@.subrange(0, chars@.len() as int) =~= chars@);
        assert(t@ == trim_ws(query@));
    }
    if t.len() == usize::MAX {
        return Err(Error::query("Query too long"));
    }
    let fuel = t.len() + 1;
    let (p, np) = p_ofunc(&t, 0, fuel)?;
    if np != t.len() {
        let n = crate::text::decimal_string(np as u64);
        let msg = "Incomplete input at ".to_owned().concat(n.as_str());
        return Err(Error::query(msg.as_str()));
    }
    Ok(p)
}

} // verus!
