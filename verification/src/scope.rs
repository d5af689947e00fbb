//! An arena of lifetime scopes.
//!
//! The reactive runtime owns every cell, binding and selector through a
//! hierarchy of scopes: a child scope may be disposed on its own, but
//! disposing a scope always disposes every scope nested inside it, so a
//! live scope always has a live parent. Bindings and selectors consult
//! this arena before they fire; once their scope is disposed they stay
//! silent forever.

use vstd::prelude::*;

verus! {

/// The scope arena. Scope `0` is the root; every later scope records the
/// scope it was created under. A scope is either live or disposed, and
/// disposal is final.
pub struct ScopeTree {
    parents: Vec<usize>,
    live: Vec<bool>,
}

impl ScopeTree {
    /// How many scopes have ever been created (disposed ones included).
    pub closed spec fn count(self) -> nat {
        self.parents@.len()
    }

    /// The scope under which `s` was created; the root is its own parent.
    pub closed spec fn parent_of(self, s: int) -> int {
        self.parents@[s] as int
    }

    /// Scope `s` exists and has not been disposed.
    pub closed spec fn is_live(self, s: int) -> bool {
        &&& 0 <= s < self.live@.len()
        &&& self.live@[s]
    }

    /// Scope `s` lies in the region owned by scope `r`: it is `r` itself
    /// or a (transitive) child of `r`.
    #[verifier::opaque]
    pub closed spec fn in_region(self, s: int, r: int) -> bool
        decreases (if s >= 0 { s } else { 0 }),
    {
        if s == r {
            true
        } else if s <= 0 {
            false
        } else if 0 <= self.parent_of(s) < s {
            self.in_region(self.parent_of(s), r)
        } else {
            false
        }
    }

    /// The arena is well formed: parents precede their children, and a
    /// live scope always has a live parent (children are disposed before
    /// or together with their parent, never after).
    pub closed spec fn wf(self) -> bool {
        &&& self.live@.len() == self.parents@.len()
        &&& self.parents@.len() >= 1
        &&& self.parents@[0] == 0
        &&& forall|i: int| 1 <= i < self.parents@.len() ==> #[trigger] self.parents@[i] < i
        &&& forall|i: int|
            1 <= i < self.parents@.len() && #[trigger] self.live@[i]
                ==> self.live@[self.parents@[i] as int]
    }

    /// Every scope lies in its own region.
    pub proof fn lemma_region_self(self, r: int)
        ensures
            self.in_region(r, r),
    {
        reveal(ScopeTree::in_region);
    }

    /// Walking to the parent keeps region membership unchanged.
    proof fn lemma_region_step(self, j: int, r: int)
        requires
            j != r,
            1 <= j,
            0 <= self.parent_of(j) < j,
        ensures
            self.in_region(j, r) == self.in_region(self.parent_of(j), r),
    {
        reveal(ScopeTree::in_region);
    }

    /// The root lies in no region but its own.
    proof fn lemma_region_root(self, r: int)
        requires
            r != 0,
        ensures
            !self.in_region(0, r),
    {
        reveal(ScopeTree::in_region);
    }

    /// A fresh arena holding only the live root scope.
    pub fn new() -> (t: ScopeTree)
        ensures
            t.wf(),
            t.count() == 1,
            t.is_live(0),
    {
        let parents: Vec<usize> = vec![0];
        let live: Vec<bool> = vec![true];
        ScopeTree { parents, live }
    }

    /// Opens a new scope nested inside the live scope `parent`.
    pub fn create_child(&mut self, parent: usize) -> (s: usize)
        requires
            old(self).wf(),
            old(self).is_live(parent as int),
        ensures
            final(self).wf(),
            s == old(self).count(),
            final(self).count() == old(self).count() + 1,
            final(self).parent_of(s as int) == parent as int,
            final(self).is_live(s as int),
            final(self).in_region(s as int, parent as int),
            forall|j: int|
                0 <= j < old(self).count() ==> (final(self).is_live(j) <==> old(self).is_live(j)),
            forall|j: int|
                0 <= j < old(self).count() ==> final(self).parent_of(j) == old(self).parent_of(j),
    {
        let s = self.parents.len();
        self.parents.push(parent);
        self.live.push(true);
        proof {
            if s as int != parent as int {
                self.lemma_region_step(s as int, parent as int);
            }
            self.lemma_region_self(parent as int);
        }
        s
    }

    /// Whether scope `s` is still live.
    pub fn live(&self, s: usize) -> (r: bool)
        ensures
            r == self.is_live(s as int),
    {
        s < self.live.len() && self.live[s]
    }

    /// In a well-formed arena the owner of any region a live scope lies
    /// in is itself live: an enclosing scope is never disposed before a
    /// scope nested inside it.
    pub proof fn lemma_live_region(self, s: int, r: int)
        requires
            self.wf(),
            0 <= s < self.count(),
            self.is_live(s),
            self.in_region(s, r),
        ensures
            self.is_live(r),
        decreases s,
    {
        reveal(ScopeTree::in_region);
        if s != r {
            self.lemma_live_region(self.parent_of(s), r);
        }
    }

    /// Whether scope `s` lies in the region owned by scope `r`, computed
    /// by climbing the parent chain.
    pub fn within(&self, s: usize, r: usize) -> (b: bool)
        requires
            self.wf(),
            s < self.count(),
        ensures
            b == self.in_region(s as int, r as int),
    {
        let mut c = s;
        loop
            invariant
                self.wf(),
                c < self.count(),
                self.in_region(s as int, r as int) == self.in_region(c as int, r as int),
            decreases c,
        {
            if c == r {
                proof {
                    self.lemma_region_self(r as int);
                }
                return true;
            }
            if c == 0 {
                proof {
                    self.lemma_region_root(r as int);
                }
                return false;
            }
            proof {
                self.lemma_region_step(c as int, r as int);
            }
            c = self.parents[c];
        }
    }

    /// The per-scope liveness computed by `dispose` keeps every live
    /// scope's parent live, so disposal preserves well-formedness.
    proof fn lemma_kill_wf(t0: ScopeTree, lv: Seq<bool>, s: int)
        requires
            t0.wf(),
            0 <= s < t0.parents@.len(),
            lv.len() == t0.parents@.len(),
            forall|k: int|
                0 <= k < lv.len() ==> (#[trigger] lv[k] <==> (t0.live@[k] && !t0.in_region(k, s))),
        ensures
            forall|k: int|
                1 <= k < t0.parents@.len() && #[trigger] lv[k] ==> lv[t0.parents@[k] as int],
    {
        assert forall|k: int|
            1 <= k < t0.parents@.len() && #[trigger] lv[k] implies lv[t0.parents@[k] as int] by {
            let pk = t0.parents@[k] as int;
            assert(lv[k] <==> (t0.live@[k] && !t0.in_region(k, s)));
            assert(t0.live@[k] ==> t0.live@[pk]);
            if k == s {
                t0.lemma_region_self(s);
                assert(false);
            } else {
                t0.lemma_region_step(k, s);
                assert(lv[pk] <==> (t0.live@[pk] && !t0.in_region(pk, s)));
            }
        }
    }

    /// Disposes scope `s`: `s` and exactly the scopes in its region stop
    /// being live; everything outside the region is untouched.
    pub fn dispose(&mut self, s: usize)
        requires
            old(self).wf(),
            s < old(self).count(),
        ensures
            final(self).wf(),
            final(self).count() == old(self).count(),
            forall|j: int|
                0 <= j < final(self).count() ==> final(self).parent_of(j) == old(self).parent_of(j),
            forall|j: int|
                0 <= j < final(self).count() ==> (final(self).is_live(j) <==> (old(self).is_live(j)
                    && !old(self).in_region(j, s as int))),
    {
        let ghost t0 = *old(self);
        let n = self.parents.len();
        let mut next: Vec<bool> = Vec::new();
        let mut j: usize = 0;
        while j < n
            invariant
                *self == t0,
                t0.wf(),
                s < n,
                n == t0.parents@.len(),
                j <= n,
                next@.len() == j,
                forall|k: int|
                    0 <= k < j ==> (#[trigger] next@[k] <==> (t0.live@[k] && !t0.in_region(
                        k,
                        s as int,
                    ))),
            decreases n - j,
        {
            let inr = self.within(j, s);
            let v = self.live[j] && !inr;
            next.push(v);
            j = j + 1;
        }
        proof {
            Self::lemma_kill_wf(t0, next@, s as int);
        }
        self.live = next;
    }
}

} // verus!
