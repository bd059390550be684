//! The search-to-filter bridge: the ids of the top-ranked hits become a
//! membership predicate over the story table.

use vstd::prelude::*;
use crate::fetcher::Fetcher;
use crate::filter::{spec_filter, spec_filter_from};
use crate::story::Story;
use crate::story::StoryView;

verus! {

/// The ids of the stories a search accepted, held sorted for binary-search
/// membership tests.
pub struct SearchFilter {
    ids: Vec<i32>,
}

/// Strictly ascending ids.
pub open spec fn sorted_ids(ids: Seq<i32>) -> bool {
    forall|i: int, j: int| 0 <= i < j < ids.len() ==> ids[i] < ids[j]
}

#[verifier::loop_isolation(false)]
fn insert_id(out: &mut Vec<i32>, id: i32)
    requires
        sorted_ids(old(out)@),
    ensures
        sorted_ids(final(out)@),
        forall|x: i32| final(out)@.contains(x) <==> (old(out)@.contains(x) || x == id),
{
    let mut lo: usize = 0;
    let mut hi: usize = out.len();
    while lo < hi
        invariant
            lo <= hi <= out@.len(),
            forall|k: int| 0 <= k < lo ==> out@[k] < id,
            forall|k: int| hi <= k < out@.len() ==> out@[k] >= id,
        decreases hi - lo,
    {
        let mid = lo + (hi - lo) / 2;
        if out[mid] < id {
            proof {
                assert forall|k: int| 0 <= k < mid + 1 implies out@[k] < id by {
                    if k < mid {
                        assert(out@[k] < out@[mid as int]);
                    }
                }
            }
            lo = mid + 1;
        } else {
            proof {
                assert forall|k: int| mid <= k < out@.len() implies out@[k] >= id by {
                    if k > mid {
                        assert(out@[mid as int] < out@[k]);
                    }
                }
            }
            hi = mid;
        }
    }
    if lo < out.len() && out[lo] == id {
        proof {
            assert(out@.contains(id)) by {
                assert(out@[lo as int] == id);
            }
        }
        return ;
    }
    let ghost pre = out@;
    out.insert(lo, id);
    proof {
        assert(out@ =~= pre.insert(lo as int, id));
        assert forall|a: int, b: int| 0 <= a < b < out@.len() implies out@[a] < out@[b] by {
            if b < lo {
            } else if a >= lo + 1 {
                assert(out@[a] == pre[a - 1] && out@[b] == pre[b - 1]);
            } else if a < lo && b == lo {
                assert(out@[a] == pre[a]);
            } else if a == lo {
                assert(out@[b] == pre[b - 1]);
                assert(pre[b - 1] >= id && pre[b - 1] != id);
            } else {
                assert(out@[a] == pre[a] && out@[b] == pre[b - 1]);
                assert(pre[b - 1] >= id && pre[b - 1] != id);
            }
        }
        assert forall|x: i32| out@.contains(x) <==> (pre.contains(x) || x == id) by {
            if pre.contains(x) {
                let k = choose|k: int| 0 <= k < pre.len() && pre[k] == x;
                if k < lo {
                    assert(out@[k] == x);
                } else {
                    assert(out@[k + 1] == x);
                }
            }
            assert(out@[lo as int] == id);
            if out@.contains(x) {
                let k = choose|k: int| 0 <= k < out@.len() && out@[k] == x;
                if k < lo {
                    assert(pre[k] == x);
                } else if k > lo {
                    assert(pre[k - 1] == x);
                }
            }
        }
    }
}

impl SearchFilter {
    pub closed spec fn ids_view(&self) -> Seq<i32> {
        self.ids@
    }

    pub open spec fn wf(&self) -> bool {
        sorted_ids(self.ids_view())
    }

    /// Whether an id is among the hits.
    pub open spec fn accepts(&self, id: i32) -> bool {
        self.ids_view().contains(id)
    }

    /// Builds the membership filter from the hit ids, in any order and with
    /// repeats: exactly the given ids are kept.
    #[verifier::loop_isolation(false)]
    pub fn from_hits(hits: &Vec<i32>) -> (r: SearchFilter)
        ensures
            r.wf(),
            forall|x: i32| r.accepts(x) <==> hits@.contains(x),
    {
        let mut ids: Vec<i32> = Vec::new();
        let mut i: usize = 0;
        while i < hits.len()
            invariant
                i <= hits@.len(),
                sorted_ids(ids@),
                forall|x: i32| ids@.contains(x) <==> hits@.take(i as int).contains(x),
            decreases hits@.len() - i,
        {
            let id = hits[i];
            insert_id(&mut ids, id);
            proof {
                let taken = hits@.take(i as int);
                let taken2 = hits@.take(i as int + 1);
                assert(taken2.drop_last() =~= taken);
                assert(taken2.last() == hits@[i as int]);
                assert forall|x: i32| ids@.contains(x) <==> taken2.contains(x) by {
                    if taken2.contains(x) {
                        let k = choose|k: int| 0 <= k < taken2.len() && taken2[k] == x;
                        if k < taken.len() {
                            assert(taken[k] == x);
                        }
                    }
                    if taken.contains(x) {
                        let k = choose|k: int| 0 <= k < taken.len() && taken[k] == x;
                        assert(taken2[k] == x);
                    }
                }
            }
            i = i + 1;
        }
        proof {
            assert(hits@.take(hits@.len() as int) =~= hits@);
        }
        SearchFilter { ids }
    }

    /// Binary-search membership: whether this story is among the hits.
    #[verifier::loop_isolation(false)]
    pub fn matches(&self, story: &Story) -> (r: bool)
        requires
            self.wf(),
        ensures
            r == self.accepts(story@.id),
    {
        let key = story.id;
        let mut lo: usize = 0;
        let mut hi: usize = self.ids.len();
        while lo < hi
            invariant
                lo <= hi <= self.ids@.len(),
                forall|k: int| 0 <= k < lo ==> self.ids@[k] < key,
                forall|k: int| hi <= k < self.ids@.len() ==> self.ids@[k] > key,
            decreases hi - lo,
        {
            let mid = lo + (hi - lo) / 2;
            let v = self.ids[mid];
            if v < key {
                proof {
                    assert forall|k: int| 0 <= k < mid + 1 implies self.ids@[k] < key by {
                        if k < mid {
                            assert(self.ids@[k] < self.ids@[mid as int]);
                        }
                    }
                }
                lo = mid + 1;
            } else if v > key {
                proof {
                    assert forall|k: int| mid <= k < self.ids@.len() implies self.ids@[k]
                        > key by {
                        if k > mid {
                            assert(self.ids@[mid as int] < self.ids@[k]);
                        }
                    }
                }
                hi = mid;
            } else {
                proof {
                    assert(self.ids@[mid as int] == key);
                }
                return true;
            }
        }
        proof {
            if self.ids@.contains(key) {
                let k = choose|k: int| 0 <= k < self.ids@.len() && self.ids@[k] == key;
            }
        }
        false
    }

    /// Keeps exactly the table records whose id the search accepted, in
    /// ascending id order.
    #[verifier::loop_isolation(false)]
    pub fn filter_stories<'a>(&self, fetcher: &'a Fetcher) -> (r: Vec<&'a Story>)
        requires
            self.wf(),
        ensures
            r@.map_values(|s: &Story| s@) == spec_filter(
                fetcher.table(),
                |sv: StoryView| self.ids_view().contains(sv.id),
            ),
    {
        let ghost t = fetcher.table();
        let ghost accept = |sv: StoryView| self.ids_view().contains(sv.id);
        let n = fetcher.len();
        let mut out: Vec<&Story> = Vec::new();
        let mut i: usize = 0;
        proof {
            assert(out@.map_values(|s: &Story| s@) + spec_filter_from(t, accept, 0)
                =~= spec_filter_from(t, accept, 0));
        }
        while i < n
            invariant
                i <= n,
                n == t.len(),
                spec_filter(t, accept) == out@.map_values(|s: &Story| s@) + spec_filter_from(
                    t,
                    accept,
                    i as int,
                ),
            decreases n - i,
        {
            let story = fetcher.get(i);
            let ghost opre = out@;
            if self.matches(story) {
                out.push(story);
                proof {
                    assert(out@.map_values(|s: &Story| s@) =~= opre.map_values(|s: &Story| s@).push(
                        t[i as int],
                    ));
                    assert(opre.map_values(|s: &Story| s@) + (seq![t[i as int]] + spec_filter_from(
                        t,
                        accept,
                        i as int + 1,
                    )) =~= out@.map_values(|s: &Story| s@) + spec_filter_from(
                        t,
                        accept,
                        i as int + 1,
                    ));
                }
            }
            i = i + 1;
        }
        proof {
            assert(out@.map_values(|s: &Story| s@) + Seq::<StoryView>::empty() =~= out@.map_values(
                |s: &Story| s@,
            ));
        }
        out
    }
}

} // verus!
