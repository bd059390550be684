//! Content interning: equal author and tag blocks collapse to one shared,
//! reference-counted handle.

use std::sync::Arc;
use vstd::prelude::*;
use crate::story::{Author, Avatar, Tag};
use crate::text::str_eq;

verus! {

/// A pool of shared handles, at most one per distinct value.
pub struct Interner<T> {
    pool: Vec<Arc<T>>,
}

impl<T: View> Interner<T> {
    /// The pooled values, as views.
    pub closed spec fn values(&self) -> Seq<T::V> {
        self.pool@.map_values(|a: Arc<T>| a@)
    }

    /// No two pooled values are equal.
    pub open spec fn wf(&self) -> bool {
        forall|i: int, j: int|
            0 <= i < j < self.values().len() ==> #[trigger] self.values()[i]
                != #[trigger] self.values()[j]
    }

    pub fn new() -> (r: Self)
        ensures
            r.values().len() == 0,
            r.wf(),
    {
        Interner { pool: Vec::new() }
    }

    /// Drops all pooled handles.
    pub fn clear(&mut self)
        ensures
            final(self).values().len() == 0,
            final(self).wf(),
    {
        self.pool = Vec::new();
    }
}

/// Two pooled values with equal views sit at the same index: the pool hands
/// every holder of such a value one shared entry.
pub proof fn lemma_interner_unique<T: View>(interner: &Interner<T>, i: int, j: int)
    requires
        interner.wf(),
        0 <= i < interner.values().len(),
        0 <= j < interner.values().len(),
        interner.values()[i] == interner.values()[j],
    ensures
        i == j,
{
}

fn opt_str_eq(a: &Option<String>, b: &Option<String>) -> (r: bool)
    ensures
        r == (crate::story::view_opt_string(*a) == crate::story::view_opt_string(*b)),
{
    match (a, b) {
        (Some(x), Some(y)) => str_eq(x.as_str(), y.as_str()),
        (None, None) => true,
        _ => false,
    }
}

fn opt_i64_eq(a: &Option<i64>, b: &Option<i64>) -> (r: bool)
    ensures
        r == (*a == *b),
{
    match (a, b) {
        (Some(x), Some(y)) => x == y,
        (None, None) => true,
        _ => false,
    }
}

fn opt_i32_eq(a: &Option<i32>, b: &Option<i32>) -> (r: bool)
    ensures
        r == (*a == *b),
{
    match (a, b) {
        (Some(x), Some(y)) => x == y,
        (None, None) => true,
        _ => false,
    }
}

fn avatar_eq(a: &Avatar, b: &Avatar) -> (r: bool)
    ensures
        r == (a@ == b@),
{
    let r = opt_str_eq(&a.x16, &b.x16) && opt_str_eq(&a.x32, &b.x32) && opt_str_eq(
        &a.x48,
        &b.x48,
    ) && opt_str_eq(&a.x64, &b.x64) && opt_str_eq(&a.x96, &b.x96) && opt_str_eq(&a.x128, &b.x128)
        && opt_str_eq(&a.x160, &b.x160) && opt_str_eq(&a.x192, &b.x192) && opt_str_eq(
        &a.x256,
        &b.x256,
    ) && opt_str_eq(&a.x320, &b.x320) && opt_str_eq(&a.x384, &b.x384) && opt_str_eq(
        &a.x512,
        &b.x512,
    );
    proof {
        if r {
            assert(a@ =~= b@);
        }
    }
    r
}

/// Compares two author blocks by content.
pub fn author_eq(a: &Author, b: &Author) -> (r: bool)
    ensures
        r == (a@ == b@),
{
    let avatars = match (&a.avatar, &b.avatar) {
        (Some(x), Some(y)) => avatar_eq(x, y),
        (None, None) => true,
        _ => false,
    };
    let r = avatars && opt_str_eq(&a.bio_html, &b.bio_html) && opt_i64_eq(
        &a.date_joined,
        &b.date_joined,
    ) && a.id == b.id && str_eq(a.name.as_str(), b.name.as_str()) && opt_i32_eq(
        &a.num_blog_posts,
        &b.num_blog_posts,
    ) && opt_i32_eq(&a.num_followers, &b.num_followers) && opt_i32_eq(
        &a.num_stories,
        &b.num_stories,
    ) && str_eq(a.url.as_str(), b.url.as_str());
    proof {
        if r {
            assert(a@ =~= b@);
        }
    }
    r
}

/// Compares two tag blocks by content.
pub fn tag_eq(a: &Tag, b: &Tag) -> (r: bool)
    ensures
        r == (a@ == b@),
{
    let r = a.id == b.id && str_eq(a.name.as_str(), b.name.as_str()) && str_eq(
        a.old_id.as_str(),
        b.old_id.as_str(),
    ) && str_eq(a.kind.as_str(), b.kind.as_str()) && str_eq(a.url.as_str(), b.url.as_str());
    proof {
        if r {
            assert(a@ =~= b@);
        }
    }
    r
}

impl Interner<Author> {
    /// Returns the pooled handle equal to `value`, adding one if none is.
    #[verifier::loop_isolation(false)]
    pub fn intern(&mut self, value: Author) -> (r: Arc<Author>)
        requires
            old(self).wf(),
        ensures
            final(self).wf(),
            r@ == value@,
            final(self).values().contains(value@),
            old(self).values().contains(value@) ==> *final(self) == *old(self),
            !old(self).values().contains(value@) ==> final(self).values() =~= old(
                self,
            ).values().push(value@),
    {
        let n = self.pool.len();
        let mut i: usize = 0;
        while i < n
            invariant
                i <= n,
                n == self.pool@.len(),
                forall|k: int| 0 <= k < i ==> self.values()[k] != value@,
            decreases n - i,
        {
            if author_eq(&self.pool[i], &value) {
                proof {
                    assert(self.values()[i as int] == value@);
                    assert(self.values().contains(value@));
                }
                return self.pool[i].clone();
            }
            i = i + 1;
        }
        proof {
            assert(forall|k: int| 0 <= k < self.values().len() ==> self.values()[k] != value@);
            assert(!self.values().contains(value@));
        }
        let arc = Arc::new(value);
        let out = arc.clone();
        self.pool.push(arc);
        proof {
            assert(self.values() =~= old(self).values().push(value@));
            assert(self.values()[self.values().len() - 1] == value@);
            assert(self.values().contains(value@));
        }
        out
    }
}

impl Interner<Tag> {
    /// Returns the pooled handle equal to `value`, adding one if none is.
    #[verifier::loop_isolation(false)]
    pub fn intern(&mut self, value: Tag) -> (r: Arc<Tag>)
        requires
            old(self).wf(),
        ensures
            final(self).wf(),
            r@ == value@,
            final(self).values().contains(value@),
            old(self).values().contains(value@) ==> *final(self) == *old(self),
            !old(self).values().contains(value@) ==> final(self).values() =~= old(
                self,
            ).values().push(value@),
    {
        let n = self.pool.len();
        let mut i: usize = 0;
        while i < n
            invariant
                i <= n,
                n == self.pool@.len(),
                forall|k: int| 0 <= k < i ==> self.values()[k] != value@,
            decreases n - i,
        {
            if tag_eq(&self.pool[i], &value) {
                proof {
                    assert(self.values()[i as int] == value@);
                    assert(self.values().contains(value@));
                }
                return self.pool[i].clone();
            }
            i = i + 1;
        }
        proof {
            assert(forall|k: int| 0 <= k < self.values().len() ==> self.values()[k] != value@);
            assert(!self.values().contains(value@));
        }
        let arc = Arc::new(value);
        let out = arc.clone();
        self.pool.push(arc);
        proof {
            assert(self.values() =~= old(self).values().push(value@));
            assert(self.values()[self.values().len() - 1] == value@);
            assert(self.values().contains(value@));
        }
        out
    }
}

} // verus!
