//! The index loader: one line of the metadata index to one story record, and
//! the whole line stream to a sorted, duplicate-free story table.

use vstd::prelude::*;
use vstd::seq_lib::group_to_multiset_ensures;
use vstd::seq_lib::to_multiset_insert;
use crate::decode::spec_story;
use crate::error::{Error, ErrorKind};
use crate::interner::Interner;
use crate::json::json_of;
use crate::story::{Author, Story, StoryView, Tag};
use crate::text::{chars_of, spec_parse_i32, string_from_chars};

verus! {

broadcast use vstd::string::group_string_axioms;

/// The characters stripped from both ends of a line's key and body.
pub open spec fn is_trim_char(c: char) -> bool {
    c == '"' || c == ',' || c == ' ' || c == '\t' || c == '\n' || c == '\r'
}

fn trim_char(c: char) -> (r: bool)
    ensures
        r == is_trim_char(c),
{
    c == '"' || c == ',' || c == ' ' || c == '\t' || c == '\n' || c == '\r'
}

pub open spec fn trim_front(s: Seq<char>) -> Seq<char>
    decreases s.len(),
{
    if s.len() > 0 && is_trim_char(s[0]) {
        trim_front(s.drop_first())
    } else {
        s
    }
}

pub open spec fn trim_back(s: Seq<char>) -> Seq<char>
    decreases s.len(),
{
    if s.len() > 0 && is_trim_char(s.last()) {
        trim_back(s.drop_last())
    } else {
        s
    }
}

/// A line part with the wrapper characters stripped from both ends.
pub open spec fn spec_trim(s: Seq<char>) -> Seq<char> {
    trim_back(trim_front(s))
}

/// Finds the trimmed bounds of `s[start..end]`.
#[verifier::loop_isolation(false)]
fn trim_bounds(s: &Vec<char>, start: usize, end: usize) -> (r: (usize, usize))
    requires
        start <= end <= s@.len(),
    ensures
        start <= r.0 <= r.1 <= end,
        s@.subrange(r.0 as int, r.1 as int) == spec_trim(s@.subrange(start as int, end as int)),
{
    let mut i = start;
    while i < end && trim_char(s[i])
        invariant
            start <= i <= end,
            trim_front(s@.subrange(start as int, end as int)) == trim_front(
                s@.subrange(i as int, end as int),
            ),
        decreases end - i,
    {
        proof {
            let cur = s@.subrange(i as int, end as int);
            assert(cur[0] == s@[i as int]);
            assert(cur.drop_first() =~= s@.subrange(i as int + 1, end as int));
        }
        i = i + 1;
    }
    proof {
        assert(trim_front(s@.subrange(start as int, end as int)) == s@.subrange(
            i as int,
            end as int,
        ));
    }
    let mut j = end;
    while j > i && trim_char(s[j - 1])
        invariant
            i <= j <= end,
            trim_back(s@.subrange(i as int, end as int)) == trim_back(
                s@.subrange(i as int, j as int),
            ),
        decreases j,
    {
        proof {
            let cur = s@.subrange(i as int, j as int);
            assert(cur.last() == s@[j - 1]);
            assert(cur.drop_last() =~= s@.subrange(i as int, j as int - 1));
        }
        j = j - 1;
    }
    proof {
        assert(trim_back(s@.subrange(i as int, j as int)) == s@.subrange(i as int, j as int));
    }
    (i, j)
}

/// The position of the first colon, if any.
pub open spec fn first_colon(s: Seq<char>) -> Option<int>
    decreases s.len(),
{
    if s.len() == 0 {
        None
    } else if s[0] == ':' {
        Some(0)
    } else {
        match first_colon(s.drop_first()) {
            Some(p) => Some(p + 1),
            None => None,
        }
    }
}

#[verifier::loop_isolation(false)]
fn find_colon(s: &Vec<char>) -> (r: Option<usize>)
    ensures
        match r {
            Some(p) => first_colon(s@) == Some(p as int) && p < s@.len(),
            None => first_colon(s@) is None,
        },
{
    let mut i: usize = 0;
    proof {
        assert(s@.skip(0) =~= s@);
    }
    while i < s.len()
        invariant
            i <= s@.len(),
            first_colon(s@) == match first_colon(s@.skip(i as int)) {
                Some(p) => Some(p + i),
                None => None::<int>,
            },
        decreases s@.len() - i,
    {
        proof {
            let cur = s@.skip(i as int);
            assert(cur[0] == s@[i as int]);
            assert(cur.drop_first() =~= s@.skip(i as int + 1));
        }
        if s[i] == ':' {
            return Some(i);
        }
        i = i + 1;
    }
    proof {
        assert(s@.skip(s@.len() as int) =~= Seq::<char>::empty());
    }
    None
}

/// One line of the index body: `"<id>": <story-json>` with an optional
/// trailing comma, where the id key must match the story's own id.
pub open spec fn spec_decode_line(line: Seq<char>) -> Option<StoryView> {
    match first_colon(line) {
        None => None,
        Some(p) => {
            let key = spec_trim(line.take(p));
            let body = spec_trim(line.skip(p + 1));
            match json_of(body) {
                None => None,
                Some(j) => match (spec_story(j), spec_parse_i32(key)) {
                    (Some(sv), Some(k)) => if sv.id == k {
                        Some(sv)
                    } else {
                        None
                    },
                    _ => None,
                },
            }
        },
    }
}

/// Decodes one line of the index body, interning author and tag blocks.
/// Fails with an `IndexError` exactly when the line is not a well-formed
/// record whose key matches its story id.
pub fn decode_line(
    line: &str,
    authors: &mut Interner<Author>,
    tag_pool: &mut Interner<Tag>,
) -> (r: Result<Story, Error>)
    requires
        old(authors).wf(),
        old(tag_pool).wf(),
    ensures
        final(authors).wf(),
        final(tag_pool).wf(),
        match r {
            Ok(s) => spec_decode_line(line@) == Some(s@),
            Err(e) => spec_decode_line(line@) is None && e.kind == ErrorKind::IndexError,
        },
{
    let chars = chars_of(line);
    let Some(p) = find_colon(&chars) else {
        return Err(Error::index("Invalid line format"));
    };
    let (key_start, key_end) = trim_bounds(&chars, 0, p);
    proof {
        assert(chars@.subrange(0, p as int) =~= line@.take(p as int));
    }
    let (body_start, body_end) = trim_bounds(&chars, p + 1, chars.len());
    proof {
        assert(chars@.subrange(p as int + 1, chars@.len() as int) =~= line@.skip(p as int + 1));
    }
    let mut body_chars: Vec<char> = Vec::new();
    let mut k = body_start;
    while k < body_end
        invariant
            body_start <= k <= body_end <= chars@.len(),
            body_chars@ == chars@.subrange(body_start as int, k as int),
        decreases body_end - k,
    {
        let c = chars[k];
        body_chars.push(c);
        proof {
            assert(body_chars@ =~= chars@.subrange(body_start as int, k + 1));
        }
        k = k + 1;
    }
    proof {
        assert(body_chars@ =~= chars@.subrange(body_start as int, body_end as int));
    }
    let body = string_from_chars(&body_chars);
    let Some(json) = crate::json::parse_json(body.as_str()) else {
        return Err(Error::index("Invalid story value"));
    };
    let story = match crate::decode::story_from_json(&json, authors, tag_pool) {
        Ok(s) => s,
        Err(e) => {
            return Err(e);
        },
    };
    let Some(key) = crate::text::parse_i32_range(&chars, key_start, key_end) else {
        return Err(Error::index("Invalid line key"));
    };
    if key != story.id {
        return Err(Error::index("Line key mismatch"));
    }
    Ok(story)
}


/// The views of a story table.
pub open spec fn story_views(stories: Seq<Story>) -> Seq<StoryView> {
    stories.map_values(|s: Story| s@)
}

/// Strictly ascending by id: the table invariant.
pub open spec fn sorted_by_id(views: Seq<StoryView>) -> bool {
    forall|i: int, j: int| 0 <= i < j < views.len() ==> views[i].id < views[j].id
}

/// Two records somewhere in the stream share one id.
pub open spec fn has_dup_ids(views: Seq<StoryView>) -> bool {
    exists|i: int, j: int| 0 <= i < j < views.len() && views[i].id == views[j].id
}

/// The single-character lines of the stream, in order.
pub open spec fn wrapper_accum(lines: Seq<Seq<char>>) -> Seq<char>
    decreases lines.len(),
{
    if lines.len() == 0 {
        Seq::empty()
    } else if lines[0].len() == 1 {
        lines[0] + wrapper_accum(lines.drop_first())
    } else {
        wrapper_accum(lines.drop_first())
    }
}

/// All multi-character lines decoded in order, or `None` if any line fails.
pub open spec fn spec_decode_all(lines: Seq<Seq<char>>) -> Option<Seq<StoryView>>
    decreases lines.len(),
{
    if lines.len() == 0 {
        Some(Seq::empty())
    } else if lines[0].len() == 1 {
        spec_decode_all(lines.drop_first())
    } else {
        match (spec_decode_line(lines[0]), spec_decode_all(lines.drop_first())) {
            (Some(sv), Some(rest)) => Some(seq![sv] + rest),
            _ => None,
        }
    }
}

/// The views of the lines of the stream.
pub open spec fn line_views(lines: Seq<String>) -> Seq<Seq<char>> {
    lines.map_values(|l: String| l@)
}

/// A strictly id-sorted table holds no id twice: an ascending table is
/// duplicate-free.
pub proof fn lemma_sorted_ids_unique(views: Seq<StoryView>)
    requires
        sorted_by_id(views),
    ensures
        !has_dup_ids(views),
{
    if has_dup_ids(views) {
        let (i, j) = choose|i: int, j: int|
            0 <= i < j < views.len() && #[trigger] views[i].id == #[trigger] views[j].id;
        assert(views[i].id < views[j].id);
    }
}

/// Inserts `story` into a strictly id-sorted table, or reports the id it
/// collides with.
#[verifier::loop_isolation(false)]
fn insert_story(out: &mut Vec<Story>, story: Story) -> (r: bool)
    requires
        sorted_by_id(story_views(old(out)@)),
    ensures
        sorted_by_id(story_views(final(out)@)),
        r ==> {
            &&& story_views(final(out)@).to_multiset() == story_views(
                old(out)@,
            ).to_multiset().insert(story@)
            &&& forall|k: int|
                0 <= k < old(out)@.len() ==> (#[trigger] story_views(old(out)@)[k]).id != story@.id
        },
        !r ==> {
            &&& *final(out) == *old(out)
            &&& exists|k: int|
                0 <= k < old(out)@.len() && (#[trigger] story_views(old(out)@)[k]).id == story@.id
        },
{
    broadcast use group_to_multiset_ensures;
    broadcast use to_multiset_insert;

    let id = story.id;
    let mut lo: usize = 0;
    let mut hi: usize = out.len();
    while lo < hi
        invariant
            lo <= hi <= out@.len(),
            forall|k: int| 0 <= k < lo ==> (#[trigger] story_views(out@)[k]).id < id,
            forall|k: int| hi <= k < out@.len() ==> (#[trigger] story_views(out@)[k]).id >= id,
        decreases hi - lo,
    {
        let mid = lo + (hi - lo) / 2;
        if out[mid].id < id {
            proof {
                let v = story_views(out@);
                assert forall|k: int| 0 <= k < mid + 1 implies (#[trigger] v[k]).id < id by {
                    if k < mid {
                        assert(v[k].id < v[mid as int].id);
                    }
                }
            }
            lo = mid + 1;
        } else {
            proof {
                let v = story_views(out@);
                assert forall|k: int| mid <= k < out@.len() implies (#[trigger] v[k]).id >= id by {
                    if k > mid {
                        assert(v[mid as int].id < v[k].id);
                    }
                }
            }
            hi = mid;
        }
    }
    if lo < out.len() && out[lo].id == id {
        proof {
            assert((story_views(out@)[lo as int]).id == id);
        }
        return false;
    }
    let ghost pre = out@;
    out.insert(lo, story);
    proof {
        assert(story_views(out@) =~= story_views(pre).insert(lo as int, story@));
        assert(forall|k: int|
            0 <= k < pre.len() ==> (#[trigger] story_views(pre)[k]).id != id);
        assert forall|a: int, b: int|
            0 <= a < b < story_views(out@).len() implies story_views(out@)[a].id < story_views(
            out@,
        )[b].id by {
            let v = story_views(out@);
            let pv = story_views(pre);
            if a < lo && b == lo {
                assert(v[a] == pv[a]);
            } else if a == lo && b > lo {
                assert(v[b] == pv[b - 1]);
                assert(pv[b - 1].id >= id && pv[b - 1].id != id);
            } else if b < lo {
                assert(v[a] == pv[a] && v[b] == pv[b]);
            } else if a > lo {
                assert(v[a] == pv[a - 1] && v[b] == pv[b - 1]);
            } else if a < lo && b > lo {
                assert(v[a] == pv[a] && v[b] == pv[b - 1]);
                assert(pv[b - 1].id >= id && pv[b - 1].id != id);
            }
        }
    }
    true
}

/// Loads the whole line stream: every multi-character line decodes, the
/// single-character lines read exactly `{` then `}`, no two records share an
/// id, and the table comes back sorted ascending by id. Any violation is an
/// `IndexError`.
#[verifier::loop_isolation(false)]
pub fn parse_index(
    lines: &Vec<String>,
    authors: &mut Interner<Author>,
    tag_pool: &mut Interner<Tag>,
) -> (r: Result<Vec<Story>, Error>)
    requires
        old(authors).wf(),
        old(tag_pool).wf(),
    ensures
        final(authors).wf(),
        final(tag_pool).wf(),
        match r {
            Ok(stories) => {
                &&& spec_decode_all(line_views(lines@)) matches Some(decoded)
                    && story_views(stories@).to_multiset() == decoded.to_multiset()
                    && !has_dup_ids(decoded)
                &&& wrapper_accum(line_views(lines@)) == "{}"@
                &&& sorted_by_id(story_views(stories@))
            },
            Err(e) => {
                &&& e.kind == ErrorKind::IndexError
                &&& {
                    ||| spec_decode_all(line_views(lines@)) is None
                    ||| wrapper_accum(line_views(lines@)) != "{}"@
                    ||| has_dup_ids(spec_decode_all(line_views(lines@))->0)
                }
            },
        },
{
    broadcast use group_to_multiset_ensures;

    let ghost ls = line_views(lines@);
    let mut wrappers: Vec<char> = Vec::new();
    let mut out: Vec<Story> = Vec::new();
    let ghost decoded: Seq<StoryView> = Seq::empty();
    let mut i: usize = 0;
    proof {
        assert(ls.skip(0) =~= ls);
        assert(story_views(out@) =~= Seq::<StoryView>::empty());
        assert(story_views(out@).to_multiset() =~= decoded.to_multiset());
    }
    let mut decoded_tracker: Ghost<Seq<StoryView>> = Ghost(decoded);
    while i < lines.len()
        invariant
            i <= lines@.len(),
            authors.wf(),
            tag_pool.wf(),
            sorted_by_id(story_views(out@)),
            story_views(out@).to_multiset() == decoded_tracker@.to_multiset(),
            !has_dup_ids(decoded_tracker@),
            spec_decode_all(ls) == match spec_decode_all(ls.skip(i as int)) {
                Some(rest) => Some(decoded_tracker@ + rest),
                None => None::<Seq<StoryView>>,
            },
            wrapper_accum(ls) == wrappers@ + wrapper_accum(ls.skip(i as int)),
        decreases lines@.len() - i,
    {
        let ghost tail = ls.skip(i as int);
        proof {
            assert(tail[0] == ls[i as int]);
            assert(tail[0] == lines@[i as int]@);
            assert(tail.drop_first() =~= ls.skip(i as int + 1));
        }
        let line = &lines[i];
        let n = line.as_str().unicode_len();
        if n == 1 {
            let c = line.as_str().get_char(0);
            let ghost wpre = wrappers@;
            wrappers.push(c);
            proof {
                assert(tail[0] =~= seq![c]);
                assert(wpre + (tail[0] + wrapper_accum(ls.skip(i as int + 1))) =~= wrappers@
                    + wrapper_accum(ls.skip(i as int + 1)));
            }
        } else {
            let story = match decode_line(line.as_str(), authors, tag_pool) {
                Ok(s) => s,
                Err(e) => {
                    return Err(e);
                },
            };
            let ghost sv = story@;
            let ghost dpre = decoded_tracker@;
            if !insert_story(&mut out, story) {
                // The colliding id is already in the table, whose contents are
                // exactly the records decoded so far: the stream repeats an id.
                proof {
                    let prev = choose|k: int|
                        0 <= k < out@.len() && (#[trigger] story_views(out@)[k]).id == sv.id;
                    let pv = story_views(out@)[prev];
                    assert(story_views(out@).to_multiset().count(pv) > 0);
                    assert(dpre.to_multiset().count(pv) > 0);
                    assert(dpre.contains(pv));
                    let d = choose|d: int| 0 <= d < dpre.len() && dpre[d] == pv;
                    let full = dpre.push(sv);
                    assert(full[d] == pv && full[full.len() - 1] == sv);
                    assert(has_dup_ids(full));
                    let restopt = spec_decode_all(ls.skip(i as int + 1));
                    if restopt is Some {
                        let whole = decoded_tracker@ + (seq![sv] + restopt->0);
                        assert(whole[d] == pv);
                        assert(whole[dpre.len() as int] == sv);
                        assert(has_dup_ids(whole));
                    }
                }
                return Err(Error::index("Found duplicate story"));
            }
            proof {
                decoded_tracker@ = dpre.push(sv);
                assert(story_views(out@).to_multiset() == dpre.to_multiset().insert(sv));
                assert(dpre.push(sv).to_multiset() =~= dpre.to_multiset().insert(sv));
                assert forall|a: int, b: int|
                    0 <= a < b < dpre.push(sv).len() implies dpre.push(sv)[a].id != dpre.push(
                    sv,
                )[b].id by {
                    let full = dpre.push(sv);
                    if b < dpre.len() {
                        assert(!has_dup_ids(dpre));
                        assert(full[a] == dpre[a] && full[b] == dpre[b]);
                        if full[a].id == full[b].id {
                            assert(has_dup_ids(dpre));
                        }
                    } else {
                        assert(full[b] == sv);
                        assert(full[a] == dpre[a]);
                        assert(dpre.to_multiset().count(dpre[a]) > 0);
                        assert(story_views(out@).to_multiset().count(dpre[a]) > 0);
                        // hold the pre-insert table element facts
                    }
                }
                let restopt = spec_decode_all(ls.skip(i as int + 1));
                if restopt is Some {
                    let rest = restopt->0;
                    assert(dpre + (seq![sv] + rest) =~= dpre.push(sv) + rest);
                }
            }
        }
        i = i + 1;
    }
    proof {
        assert(ls.skip(ls.len() as int) =~= Seq::<Seq<char>>::empty());
        assert(decoded_tracker@ + Seq::<StoryView>::empty() =~= decoded_tracker@);
        assert(wrappers@ + Seq::<char>::empty() =~= wrappers@);
    }
    let ok = wrappers.len() == 2 && wrappers[0] == '{' && wrappers[1] == '}';
    proof {
        reveal_strlit("{}");
        if ok {
            assert(wrappers@ =~= "{}"@);
        } else {
            assert(wrappers@ != "{}"@);
        }
    }
    if !ok {
        return Err(Error::index("Invalid file structure"));
    }
    Ok(out)
}

} // verus!
