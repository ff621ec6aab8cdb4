use vstd::prelude::*;

verus! {

/// An opaque, ordered, hashable, cloneable value identifying a field and an
/// indexed value within it: the field by its ordinal, the value by an interned
/// token identifier. Immutable once constructed.
#[derive(Clone, Copy, Debug, PartialEq, Eq, PartialOrd, Ord, Hash, Structural)]
pub struct Term {
    /// The ordinal of the field the term belongs to.
    pub field: u32,
    /// The indexed value, as an interned token identifier.
    pub value: u64,
}

impl Term {
    /// Builds the term for `value` in `field`.
    pub fn new(field: u32, value: u64) -> (r: Term)
        ensures
            r == (Term { field, value }),
    {
        Term { field, value }
    }
}

/// A duplicate-free collection of terms, filled by queries reporting which
/// terms they directly match.
pub struct TermSet {
    terms: Vec<Term>,
}

impl TermSet {
    /// No term occurs twice.
    pub closed spec fn wf(self) -> bool {
        forall|i: int, j: int|
            0 <= i < j < self.terms@.len() ==> self.terms@[i] != self.terms@[j]
    }

    /// Whether `t` has been added.
    pub closed spec fn spec_contains(self, t: Term) -> bool {
        self.terms@.contains(t)
    }

    /// How many distinct terms have been added.
    pub closed spec fn spec_len(self) -> nat {
        self.terms@.len()
    }

    /// An empty set.
    pub fn new() -> (r: TermSet)
        ensures
            r.wf(),
            r.spec_len() == 0,
            forall|t: Term| !r.spec_contains(t),
    {
        TermSet { terms: Vec::new() }
    }

    /// Membership test.
    pub fn contains(&self, t: &Term) -> (r: bool)
        ensures
            r == self.spec_contains(*t),
    {
        let mut i: usize = 0;
        while i < self.terms.len()
            invariant
                i <= self.terms@.len(),
                forall|k: int| 0 <= k < i ==> self.terms@[k] != *t,
            decreases self.terms@.len() - i,
        {
            if self.terms[i] == *t {
                return true;
            }
            i = i + 1;
        }
        false
    }

    /// Adds `t`; adding a term already present changes nothing.
    pub fn insert(&mut self, t: Term)
        requires
            old(self).wf(),
        ensures
            final(self).wf(),
            forall|x: Term|
                final(self).spec_contains(x) <==> old(self).spec_contains(x) || x == t,
            final(self).spec_len() == old(self).spec_len() + (if old(self).spec_contains(t) {
                0int
            } else {
                1int
            }),
    {
        if !self.contains(&t) {
            self.terms.push(t);
            proof {
                let pre = old(self).terms@;
                let post = self.terms@;
                assert forall|x: Term| #[trigger] post.contains(x) implies pre.contains(x) || x
                    == t by {
                    let k = choose|k: int| 0 <= k < post.len() && post[k] == x;
                    if k < pre.len() {
                        assert(pre[k] == x);
                    }
                }
                assert forall|x: Term| pre.contains(x) || x == t implies #[trigger] post.contains(
                    x,
                ) by {
                    if x == t {
                        assert(post[post.len() - 1] == x);
                    } else {
                        let k = choose|k: int| 0 <= k < pre.len() && pre[k] == x;
                        assert(post[k] == x);
                    }
                }
                assert forall|k: int| 0 <= k < pre.len() implies pre[k] != t by {
                    if pre[k] == t {
                        assert(pre.contains(t));
                    }
                }
            }
        }
    }

    /// How many distinct terms have been added.
    pub fn len(&self) -> (r: usize)
        ensures
            r == self.spec_len(),
    {
        self.terms.len()
    }
}

} // verus!
