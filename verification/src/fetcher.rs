//! The fetcher: the id-sorted story table with binary-search lookup, and the
//! container identity tag.

use vstd::prelude::*;
use crate::error::Error;
use crate::index::{line_views, parse_index, sorted_by_id, story_views};
use crate::interner::Interner;
use crate::story::{Author, Story, Tag};

verus! {

/// The story table, strictly ascending by id.
#[derive(Debug)]
pub struct Fetcher {
    stories: Vec<Story>,
}

impl Fetcher {
    /// The views of the table, in table order.
    pub closed spec fn table(&self) -> Seq<crate::story::StoryView> {
        story_views(self.stories@)
    }

    /// The table invariant: ids strictly ascend, so no id repeats.
    pub open spec fn wf(&self) -> bool {
        sorted_by_id(self.table())
    }

    /// Builds the table from the lines of the metadata index entry.
    pub fn from_lines(
        lines: &Vec<String>,
        authors: &mut Interner<Author>,
        tag_pool: &mut Interner<Tag>,
    ) -> (r: Result<Fetcher, Error>)
        requires
            old(authors).wf(),
            old(tag_pool).wf(),
        ensures
            final(authors).wf(),
            final(tag_pool).wf(),
            match r {
                Ok(f) => {
                    &&& f.wf()
                    &&& crate::index::spec_decode_all(line_views(lines@)) matches Some(decoded)
                        && f.table().to_multiset() == decoded.to_multiset()
                        && !crate::index::has_dup_ids(decoded)
                    &&& crate::index::wrapper_accum(line_views(lines@)) == "{}"@
                },
                Err(e) => {
                    &&& e.kind == crate::error::ErrorKind::IndexError
                    &&& {
                        ||| crate::index::spec_decode_all(line_views(lines@)) is None
                        ||| crate::index::wrapper_accum(line_views(lines@)) != "{}"@
                        ||| crate::index::has_dup_ids(
                            crate::index::spec_decode_all(line_views(lines@))->0,
                        )
                    }
                },
            },
    {
        match parse_index(lines, authors, tag_pool) {
            Ok(stories) => Ok(Fetcher { stories }),
            Err(e) => Err(e),
        }
    }

    pub fn len(&self) -> (r: usize)
        ensures
            r == self.table().len(),
    {
        self.stories.len()
    }

    /// The table itself, in id order.
    pub fn stories(&self) -> (r: &Vec<Story>)
        ensures
            story_views(r@) == self.table(),
    {
        &self.stories
    }

    pub fn get(&self, i: usize) -> (r: &Story)
        requires
            i < self.table().len(),
        ensures
            r@ == self.table()[i as int],
    {
        &self.stories[i]
    }

    /// Binary-search lookup: some record with this id, exactly when the
    /// table holds one.
    #[verifier::loop_isolation(false)]
    pub fn fetch(&self, key: i32) -> (r: Option<&Story>)
        requires
            self.wf(),
        ensures
            match r {
                Some(s) => s@.id == key && exists|i: int|
                    0 <= i < self.table().len() && #[trigger] self.table()[i] == s@,
                None => forall|i: int|
                    0 <= i < self.table().len() ==> (#[trigger] self.table()[i]).id != key,
            },
    {
        let mut lo: usize = 0;
        let mut hi: usize = self.stories.len();
        while lo < hi
            invariant
                lo <= hi <= self.table().len(),
                forall|k: int| 0 <= k < lo ==> (#[trigger] self.table()[k]).id < key,
                forall|k: int|
                    hi <= k < self.table().len() ==> (#[trigger] self.table()[k]).id > key,
            decreases hi - lo,
        {
            let mid = lo + (hi - lo) / 2;
            let mid_id = self.stories[mid].id;
            if mid_id < key {
                proof {
                    let v = self.table();
                    assert forall|k: int| 0 <= k < mid + 1 implies (#[trigger] v[k]).id < key by {
                        if k < mid {
                            assert(v[k].id < v[mid as int].id);
                        }
                    }
                }
                lo = mid + 1;
            } else if mid_id > key {
                proof {
                    let v = self.table();
                    assert forall|k: int| mid <= k < v.len() implies (#[trigger] v[k]).id
                        > key by {
                        if k > mid {
                            assert(v[mid as int].id < v[k].id);
                        }
                    }
                }
                hi = mid;
            } else {
                let s = &self.stories[mid];
                proof {
                    assert(self.table()[mid as int] == s@);
                }
                return Some(s);
            }
        }
        None
    }
}

/// The identity tag of a container: the decimal text of the 32-bit checksum
/// of its index entry. One checksum always writes one tag, so the tag is a
/// function of the container's contents.
pub fn identity_tag(crc: u32) -> (r: String)
    ensures
        r@ == crate::text::spec_decimal(crc as int),
{
    crate::text::decimal_string(crc as u64)
}

} // verus!
