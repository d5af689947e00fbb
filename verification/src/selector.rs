//! Selectors: memoized, change-deduplicated derived reads over a
//! handler's state cell.
//!
//! A [`Selector`] caches the projected value it last produced together
//! with the version of the state cell it observed. Refreshing it
//! recomputes the projection only when the cell has been written since,
//! and notifies the selector's observers only when the projected value
//! itself changed — so observers of one field of a large composite state
//! never re-run because an unrelated field changed.

use vstd::prelude::*;

use crate::handler::Handler;
use crate::handler::MessageMapper;
use crate::scope::ScopeTree;

verus! {

/// Projects a derived value out of the state. `project_spec` is the
/// mathematical meaning of the projection; the executable `project` must
/// return exactly that value. `outputs_equal` stands for the equality
/// comparison the projected type must support: it decides the structural
/// equality that notification deduplication is defined by.
pub trait StateProjection<T, V> {
    /// The mathematical projection.
    spec fn project_spec(&self, state: T) -> V;

    /// Computes the projected value of a state.
    fn project(&self, state: &T) -> (v: V)
        ensures
            v == self.project_spec(*state),
    ;

    /// Decides equality of two projected values.
    fn outputs_equal(&self, a: &V, b: &V) -> (r: bool)
        ensures
            r == (a == b),
    ;
}

/// A memoized read-only view derived from one handler's state cell,
/// owned by a scope of the arena.
pub struct Selector<V, P> {
    projection: P,
    cached: V,
    seen: u64,
    scope: usize,
}

/// Whether refreshing `sel` against `handler` would notify the
/// selector's observers: its scope is live, the state cell has been
/// written since the selector last observed it, and the projected value
/// of the current state differs from the cached one.
pub open spec fn notifies<Msg, T, V, D: MessageMapper<Msg, T>, P: StateProjection<T, V>>(
    sel: Selector<V, P>,
    scopes: ScopeTree,
    handler: Handler<D, T, Msg>,
) -> bool {
    &&& scopes.is_live(sel.scope_id() as int)
    &&& sel.seen() != handler.version()
    &&& sel.projection().project_spec(handler.current()) != sel.cached()
}

impl<V, P> Selector<V, P> {
    /// The projection this selector applies to the state.
    pub closed spec fn projection(self) -> P {
        self.projection
    }

    /// The projected value the selector last produced.
    pub closed spec fn cached(self) -> V {
        self.cached
    }

    /// The version of the state cell the selector last observed.
    pub closed spec fn seen(self) -> u64 {
        self.seen
    }

    /// The scope that owns this selector.
    pub closed spec fn scope_id(self) -> usize {
        self.scope
    }

    /// The memoized value: observers reading the selector outside a
    /// refresh see the value it last produced.
    pub fn get(&self) -> (v: &V)
        ensures
            *v == self.cached(),
    {
        &self.cached
    }

    /// Brings the memo up to date with the handler's state cell and
    /// reports whether the selector's observers are notified.
    ///
    /// The projection is recomputed only when the selector's scope is
    /// live and the cell has been written since the last observation;
    /// observers are notified only when the recomputed value differs
    /// from the cached one, so a state change whose projected value is
    /// unchanged notifies nobody. A refresh leaves the selector
    /// quiescent: refreshing again against the same handler state never
    /// notifies twice.
    pub fn refresh<Msg, T, D>(
        &mut self,
        scopes: &ScopeTree,
        handler: &Handler<D, T, Msg>,
    ) -> (notified: bool) where D: MessageMapper<Msg, T>, P: StateProjection<T, V>
        ensures
            final(self).projection() == old(self).projection(),
            final(self).scope_id() == old(self).scope_id(),
            notified == notifies(*old(self), *scopes, *handler),
            (scopes.is_live(old(self).scope_id() as int) && old(self).seen()
                != handler.version()) ==> {
                &&& final(self).cached() == old(self).projection().project_spec(handler.current())
                &&& final(self).seen() == handler.version()
            },
            !(scopes.is_live(old(self).scope_id() as int) && old(self).seen()
                != handler.version()) ==> {
                &&& final(self).cached() == old(self).cached()
                &&& final(self).seen() == old(self).seen()
            },
            !notifies(*final(self), *scopes, *handler),
    {
        if !scopes.live(self.scope) {
            return false;
        }
        if self.seen == handler.version_count() {
            return false;
        }
        let v = self.projection.project(handler.read_signal());
        self.seen = handler.version_count();
        if self.projection.outputs_equal(&v, &self.cached) {
            return false;
        }
        self.cached = v;
        true
    }
}

impl<D, T, Msg> Handler<D, T, Msg> where D: MessageMapper<Msg, T> {
    /// Derives a memoized view of this handler's state, owned by the
    /// live scope `scope`, which must lie in the region of the handler's
    /// own scope. The projection is computed once immediately; the
    /// resulting selector notifies its observers only when the projected
    /// value actually changes.
    pub fn get_selector<V, P: StateProjection<T, V>>(
        &self,
        scopes: &ScopeTree,
        scope: usize,
        projection: P,
    ) -> (sel: Selector<V, P>)
        requires
            scopes.wf(),
            scopes.is_live(scope as int),
            scopes.in_region(scope as int, self.scope_id() as int),
        ensures
            sel.projection() == projection,
            sel.scope_id() == scope,
            sel.cached() == projection.project_spec(self.current()),
            sel.seen() == self.version(),
    {
        let v = projection.project(self.read_signal());
        let seen = self.version_count();
        Selector { projection, cached: v, seen, scope }
    }
}

/// The independence law for selectors derived from one handler: after a
/// dispatch, a selector whose projected value is unchanged is never
/// notified, whatever the dispatch did to the projections of other
/// selectors; and a selector is notified exactly when its own projected
/// value changed (its scope being live). Here both selectors are up to
/// date with the state before the dispatch.
pub proof fn lemma_selectors_independent<Msg, T, VA, VB, D, FA, FB>(
    scopes: ScopeTree,
    before: Handler<D, T, Msg>,
    after: Handler<D, T, Msg>,
    msg: Msg,
    first: Selector<VA, FA>,
    second: Selector<VB, FB>,
) where
    D: MessageMapper<Msg, T>,
    FA: StateProjection<T, VA>,
    FB: StateProjection<T, VB>,
    requires
        before.wf(),
        after.wf(),
        after.log() == before.log().push(msg),
        after.dispatcher() == before.dispatcher(),
        after.initial() == before.initial(),
        first.seen() == before.version(),
        first.cached() == first.projection().project_spec(before.current()),
        second.seen() == before.version(),
        second.cached() == second.projection().project_spec(before.current()),
    ensures
        after.current() == before.dispatcher().map_spec(msg, before.current()),
        second.projection().project_spec(after.current()) == second.cached() ==> !notifies(
            second,
            scopes,
            after,
        ),
        notifies(first, scopes, after) <==> (scopes.is_live(first.scope_id() as int)
            && first.projection().project_spec(after.current()) != first.cached()),
{
    crate::handler::lemma_replay_push(before.dispatcher(), before.initial(), before.log(), msg);
    crate::handler::lemma_handler_is_replay(before);
    crate::handler::lemma_handler_is_replay(after);
    assert(after.log().len() == before.log().len() + 1);
    assert(after.version() == before.version() + 1);
}

} // verus!
