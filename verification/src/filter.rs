//! Filtering the story table: parallel evaluation of a compiled predicate,
//! with the output pinned to id order.

use rayon::iter::IntoParallelIterator;
use rayon::iter::ParallelIterator;
use vstd::prelude::*;
use crate::fetcher::Fetcher;
use crate::index::sorted_by_id;
use crate::parse::{pred_matches, ExprView};
use crate::query::{spec_eval, eval, Pred, PredView};
use crate::story::{Story, StoryView};

verus! {

/// The records of `t[from..]` accepted by `accept`, in table order.
pub open spec fn spec_filter_from(
    t: Seq<StoryView>,
    accept: spec_fn(StoryView) -> bool,
    from: int,
) -> Seq<StoryView>
    decreases t.len() - from,
{
    if 0 <= from < t.len() {
        if accept(t[from]) {
            seq![t[from]] + spec_filter_from(t, accept, from + 1)
        } else {
            spec_filter_from(t, accept, from + 1)
        }
    } else {
        Seq::empty()
    }
}

/// The records of `t` accepted by `accept`, in table order: what `filter`
/// returns, as a function of the table and the predicate alone.
pub open spec fn spec_filter(t: Seq<StoryView>, accept: spec_fn(StoryView) -> bool) -> Seq<
    StoryView,
> {
    spec_filter_from(t, accept, 0)
}

/// Ascending, in-bounds, sound and complete indices select exactly the
/// accepted subsequence.
pub proof fn lemma_indices_filter(
    t: Seq<StoryView>,
    accept: spec_fn(StoryView) -> bool,
    idx: Seq<usize>,
    from: int,
)
    requires
        0 <= from <= t.len(),
        forall|k: int| 0 <= k < idx.len() ==> from <= #[trigger] idx[k] < t.len(),
        forall|k1: int, k2: int| 0 <= k1 < k2 < idx.len() ==> idx[k1] < idx[k2],
        forall|k: int| 0 <= k < idx.len() ==> accept(t[#[trigger] idx[k] as int]),
        forall|i: int|
            from <= i < t.len() && accept(t[i]) ==> exists|k: int|
                0 <= k < idx.len() && #[trigger] idx[k] == i,
    ensures
        idx.map_values(|u: usize| t[u as int]) == spec_filter_from(t, accept, from),
    decreases t.len() - from,
{
    let mapped = idx.map_values(|u: usize| t[u as int]);
    if from == t.len() {
        assert(idx.len() == 0) by {
            if idx.len() > 0 {
                assert(from <= idx[0] < t.len());
            }
        }
        assert(mapped =~= spec_filter_from(t, accept, from));
    } else {
        if accept(t[from]) {
            let k0 = choose|k: int| 0 <= k < idx.len() && #[trigger] idx[k] == from;
            assert(k0 == 0) by {
                if k0 > 0 {
                    assert(idx[0] < idx[k0]);
                    assert(from <= idx[0]);
                }
            }
            let rest = idx.drop_first();
            assert forall|k: int| 0 <= k < rest.len() implies from + 1 <= #[trigger] rest[k]
                < t.len() by {
                assert(rest[k] == idx[k + 1]);
                assert(idx[0] < idx[k + 1]);
            }
            assert forall|i: int| from + 1 <= i < t.len() && accept(t[i]) implies exists|k: int|
                0 <= k < rest.len() && #[trigger] rest[k] == i by {
                let k = choose|k: int| 0 <= k < idx.len() && #[trigger] idx[k] == i;
                assert(k > 0) by {
                    assert(idx[0] == from);
                }
                assert(rest[k - 1] == i);
            }
            assert forall|k1: int, k2: int| 0 <= k1 < k2 < rest.len() implies rest[k1]
                < rest[k2] by {
                assert(rest[k1] == idx[k1 + 1] && rest[k2] == idx[k2 + 1]);
            }
            assert forall|k: int| 0 <= k < rest.len() implies accept(
                t[#[trigger] rest[k] as int],
            ) by {
                assert(rest[k] == idx[k + 1]);
            }
            lemma_indices_filter(t, accept, rest, from + 1);
            assert(mapped =~= seq![t[from]] + rest.map_values(|u: usize| t[u as int]));
        } else {
            assert forall|k: int| 0 <= k < idx.len() implies from + 1 <= #[trigger] idx[k]
                < t.len() by {
                if idx[k] == from {
                    assert(accept(t[from]));
                }
            }
            lemma_indices_filter(t, accept, idx, from + 1);
        }
    }
}

/// A filtered table keeps ascending id order: the output of `filter` is
/// id-sorted whenever the table is.
pub proof fn lemma_filter_sorted_from(
    t: Seq<StoryView>,
    accept: spec_fn(StoryView) -> bool,
    from: int,
)
    requires
        sorted_by_id(t),
        0 <= from <= t.len(),
    ensures
        sorted_by_id(spec_filter_from(t, accept, from)),
        forall|k: int|
            0 <= k < spec_filter_from(t, accept, from).len() ==> exists|i: int|
                from <= i < t.len() && t[i] == #[trigger] spec_filter_from(t, accept, from)[k],
    decreases t.len() - from,
{
    if from < t.len() {
        lemma_filter_sorted_from(t, accept, from + 1);
        let rest = spec_filter_from(t, accept, from + 1);
        let cur = spec_filter_from(t, accept, from);
        if accept(t[from]) {
            assert(cur == seq![t[from]] + rest);
            assert forall|a: int, b: int| 0 <= a < b < cur.len() implies cur[a].id < cur[b].id by {
                if a == 0 {
                    let i = choose|i: int|
                        from + 1 <= i < t.len() && t[i] == #[trigger] rest[b - 1];
                    assert(t[from].id < t[i].id);
                } else {
                    assert(cur[a] == rest[a - 1] && cur[b] == rest[b - 1]);
                }
            }
            assert forall|k: int| 0 <= k < cur.len() implies exists|i: int|
                from <= i < t.len() && t[i] == #[trigger] cur[k] by {
                if k == 0 {
                    assert(t[from] == cur[0]);
                } else {
                    let i = choose|i: int|
                        from + 1 <= i < t.len() && t[i] == #[trigger] rest[k - 1];
                    assert(t[i] == cur[k]);
                }
            }
        }
    }
}

/// What filtering keeps, for any membership test: every returned record is
/// an accepted record of the table, and every accepted record of the table
/// is returned.
pub proof fn lemma_filter_membership_from(
    t: Seq<StoryView>,
    accept: spec_fn(StoryView) -> bool,
    from: int,
)
    requires
        0 <= from <= t.len(),
    ensures
        forall|k: int|
            0 <= k < spec_filter_from(t, accept, from).len() ==> accept(
                #[trigger] spec_filter_from(t, accept, from)[k],
            ),
        forall|i: int|
            from <= i < t.len() && accept(#[trigger] t[i]) ==> spec_filter_from(
                t,
                accept,
                from,
            ).contains(t[i]),
    decreases t.len() - from,
{
    if from < t.len() {
        lemma_filter_membership_from(t, accept, from + 1);
        let rest = spec_filter_from(t, accept, from + 1);
        let cur = spec_filter_from(t, accept, from);
        let offset: int = if accept(t[from]) {
            1
        } else {
            0
        };
        assert forall|i: int| from <= i < t.len() && accept(#[trigger] t[i]) implies cur.contains(
            t[i],
        ) by {
            if i == from {
                assert(cur[0] == t[from]);
            } else {
                let k = choose|k: int| 0 <= k < rest.len() && rest[k] == t[i];
                assert(cur[k + offset] == t[i]);
            }
        }
    }
}

/// The membership form over the whole table.
pub proof fn lemma_filter_membership(t: Seq<StoryView>, accept: spec_fn(StoryView) -> bool)
    ensures
        forall|k: int|
            0 <= k < spec_filter(t, accept).len() ==> accept(#[trigger] spec_filter(t, accept)[k]),
        forall|i: int|
            0 <= i < t.len() && accept(#[trigger] t[i]) ==> spec_filter(t, accept).contains(t[i]),
{
    lemma_filter_membership_from(t, accept, 0);
}

/// A filtered table keeps ascending id order, however the predicate came
/// to be: the whole accepted subsequence of an id-sorted table is id-sorted.
pub proof fn lemma_filter_sorted(t: Seq<StoryView>, accept: spec_fn(StoryView) -> bool)
    requires
        sorted_by_id(t),
    ensures
        sorted_by_id(spec_filter(t, accept)),
{
    lemma_filter_sorted_from(t, accept, 0);
}

/// Equal queries compile to equal predicates wherever no date leaf is
/// involved: with `filter` a function of the predicate and the table, a
/// parsed-and-compiled query filters deterministically.
pub open spec fn date_free_ast(e: ExprView) -> bool
    decreases e,
{
    match e {
        ExprView::Leaf(f, _op, _v) => !(f is Date),
        ExprView::Not(a) => date_free_ast(*a),
        ExprView::And(a, b) => date_free_ast(*a) && date_free_ast(*b),
        ExprView::Or(a, b) => date_free_ast(*a) && date_free_ast(*b),
    }
}

pub proof fn lemma_compile_deterministic(e: ExprView, p1: PredView, p2: PredView)
    requires
        date_free_ast(e),
        pred_matches(p1, e),
        pred_matches(p2, e),
    ensures
        p1 == p2,
    decreases e,
{
    match e {
        ExprView::Leaf(_f, _op, _v) => {},
        ExprView::Not(a) => {
            match (p1, p2) {
                (PredView::Not(q1), PredView::Not(q2)) => {
                    lemma_compile_deterministic(*a, *q1, *q2);
                },
                _ => {},
            }
        },
        ExprView::And(a, b) => {
            match (p1, p2) {
                (PredView::And(x1, y1), PredView::And(x2, y2)) => {
                    lemma_compile_deterministic(*a, *x1, *x2);
                    lemma_compile_deterministic(*b, *y1, *y2);
                },
                _ => {},
            }
        },
        ExprView::Or(a, b) => {
            match (p1, p2) {
                (PredView::Or(x1, y1), PredView::Or(x2, y2)) => {
                    lemma_compile_deterministic(*a, *x1, *x2);
                    lemma_compile_deterministic(*b, *y1, *y2);
                },
                _ => {},
            }
        },
    }
}

/// Relies on rayon's indexed parallel iterators: `filter` keeps exactly the
/// indices the predicate accepts, and `collect` on an indexed parallel
/// iterator returns them in the input's (ascending) order. The closure only
/// calls the library's own `eval`.
#[verifier::external_body]
fn par_match_indices(stories: &Vec<Story>, p: &Pred) -> (r: Vec<usize>)
    ensures
        forall|k: int| 0 <= k < r@.len() ==> 0 <= #[trigger] r@[k] < stories@.len(),
        forall|k1: int, k2: int| 0 <= k1 < k2 < r@.len() ==> r@[k1] < r@[k2],
        forall|k: int|
            0 <= k < r@.len() ==> spec_eval(p@, stories@[#[trigger] r@[k] as int]@),
        forall|i: int|
            0 <= i < stories@.len() && spec_eval(p@, stories@[i]@) ==> exists|k: int|
                0 <= k < r@.len() && #[trigger] r@[k] == i as usize,
{
    (0..stories.len()).into_par_iter().filter(|i| eval(p, &stories[*i])).collect()
}

impl Fetcher {
    /// Evaluates a compiled predicate across the table in parallel and
    /// returns the matching records in ascending id order: exactly the
    /// accepted subsequence of the table, a function of table and predicate.
    pub fn filter<'a>(&'a self, p: &Pred) -> (r: Vec<&'a Story>)
        ensures
            r@.map_values(|s: &Story| s@) == spec_filter(
                self.table(),
                |sv: StoryView| spec_eval(p@, sv),
            ),
    {
        let stories = self.stories();
        let _limit: usize = stories.len();
        let idx = par_match_indices(stories, p);
        let mut out: Vec<&Story> = Vec::new();
        let mut k: usize = 0;
        proof {
            assert(out@.map_values(|s: &Story| s@) =~= idx@.take(0).map_values(
                |u: usize| self.table()[u as int],
            ));
        }
        while k < idx.len()
            invariant
                k <= idx@.len(),
                forall|m: int| 0 <= m < idx@.len() ==> 0 <= #[trigger] idx@[m] < stories@.len(),
                crate::index::story_views(stories@) == self.table(),
                out@.map_values(|s: &Story| s@) == idx@.take(k as int).map_values(
                    |u: usize| self.table()[u as int],
                ),
            decreases idx@.len() - k,
        {
            let i = idx[k];
            let ghost opre = out@;
            out.push(&stories[i]);
            proof {
                assert(out@.map_values(|s: &Story| s@) =~= opre.map_values(|s: &Story| s@).push(
                    stories@[i as int]@,
                ));
                assert(idx@.take(k + 1).map_values(|u: usize| self.table()[u as int])
                    =~= idx@.take(k as int).map_values(|u: usize| self.table()[u as int]).push(
                    self.table()[i as int],
                ));
            }
            k = k + 1;
        }
        proof {
            assert(idx@.take(idx@.len() as int) =~= idx@);
            assert forall|i: int|
                0 <= i < self.table().len() && spec_eval(p@, self.table()[i]) implies exists|
                m: int,
            | 0 <= m < idx@.len() && #[trigger] idx@[m] == i by {
                assert(self.table()[i] == stories@[i]@);
                let m = choose|m: int| 0 <= m < idx@.len() && #[trigger] idx@[m] == i as usize;
                assert(idx@[m] == i);
            }
            lemma_indices_filter(self.table(), |sv: StoryView| spec_eval(p@, sv), idx@, 0);
        }
        out
    }
}

} // verus!
