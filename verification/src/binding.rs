//! Bindings: scoped subscriptions that turn an upstream value change into
//! a dispatched message.
//!
//! A [`Binding`] pairs an upstream cell with a message-constructing
//! capability and the scope that owns the subscription. Writing the
//! upstream cell through [`Binding::set_upstream`] models the runtime's
//! synchronous propagation: while the binding's scope is live, every
//! write dispatches exactly one message, built from the new upstream
//! value; once the scope is disposed the upstream cell keeps changing but
//! nothing is dispatched any more.

use vstd::prelude::*;

use crate::handler::Handler;
use crate::handler::MessageMapper;
use crate::scope::ScopeTree;

verus! {

/// Builds the message a binding dispatches from the upstream value it
/// observed. This is the binding-side counterpart of a mapper: `message_spec`
/// is its mathematical meaning, and the executable `message` must return
/// exactly that value.
pub trait MessageBuilder<Val, Msg> {
    /// The mathematical message construction.
    spec fn message_spec(&self, val: Val) -> Msg;

    /// Builds the message for an observed upstream value.
    fn message(&self, val: &Val) -> (m: Msg)
        ensures
            m == self.message_spec(*val),
    ;
}

/// A live subscription from an upstream cell into a handler. The binding
/// owns the upstream cell's current value; the scope that owns the
/// subscription may be narrower than the handler's own scope.
pub struct Binding<Val, S> {
    upstream: Val,
    source: S,
    scope: usize,
}

impl<Val, S> Binding<Val, S> {
    /// The value the upstream cell holds right now.
    pub closed spec fn upstream(self) -> Val {
        self.upstream
    }

    /// The message-constructing capability of this binding.
    pub closed spec fn source(self) -> S {
        self.source
    }

    /// The scope that owns this subscription.
    pub closed spec fn scope_id(self) -> usize {
        self.scope
    }

    /// Writes a new value into the upstream cell. While the binding's
    /// scope is live this dispatches exactly one message, built from the
    /// new upstream value; after the scope is disposed the handler is
    /// left untouched, however often the upstream changes.
    pub fn set_upstream<D, T, Msg>(
        &mut self,
        scopes: &ScopeTree,
        handler: &mut Handler<D, T, Msg>,
        value: Val,
    ) where D: MessageMapper<Msg, T>, S: MessageBuilder<Val, Msg>
        requires
            scopes.wf(),
            old(handler).wf(),
            old(handler).version() < u64::MAX,
        ensures
            final(self).upstream() == value,
            final(self).source() == old(self).source(),
            final(self).scope_id() == old(self).scope_id(),
            final(handler).wf(),
            scopes.is_live(old(self).scope_id() as int) ==> {
                &&& final(handler).log() == old(handler).log().push(
                    old(self).source().message_spec(value),
                )
                &&& final(handler).current() == old(handler).dispatcher().map_spec(
                    old(self).source().message_spec(value),
                    old(handler).current(),
                )
                &&& final(handler).version() == old(handler).version() + 1
            },
            !scopes.is_live(old(self).scope_id() as int) ==> *final(handler) == *old(handler),
            final(handler).dispatcher() == old(handler).dispatcher(),
            final(handler).initial() == old(handler).initial(),
            final(handler).scope_id() == old(handler).scope_id(),
    {
        self.upstream = value;
        if scopes.live(self.scope) {
            let msg = self.source.message(&self.upstream);
            handler.dispatch(msg);
        }
    }
}

impl<D, T, Msg> Handler<D, T, Msg> where D: MessageMapper<Msg, T> {
    /// Binds an upstream cell holding `trigger` to this handler: builds a
    /// subscription owned by the live scope `scope`, which must lie in
    /// the region of the handler's own scope, and performs the initial
    /// dispatch from the current upstream value that establishes the
    /// dependency.
    pub fn bind_trigger<Val, S: MessageBuilder<Val, Msg>>(
        &mut self,
        scopes: &ScopeTree,
        scope: usize,
        trigger: Val,
        source: S,
    ) -> (b: Binding<Val, S>)
        requires
            scopes.wf(),
            scopes.is_live(scope as int),
            scopes.in_region(scope as int, old(self).scope_id() as int),
            old(self).wf(),
            old(self).version() < u64::MAX,
        ensures
            b.upstream() == trigger,
            b.source() == source,
            b.scope_id() == scope,
            final(self).wf(),
            final(self).log() == old(self).log().push(source.message_spec(trigger)),
            final(self).current() == old(self).dispatcher().map_spec(
                source.message_spec(trigger),
                old(self).current(),
            ),
            final(self).version() == old(self).version() + 1,
            final(self).dispatcher() == old(self).dispatcher(),
            final(self).initial() == old(self).initial(),
            final(self).scope_id() == old(self).scope_id(),
    {
        let msg = source.message(&trigger);
        self.dispatch(msg);
        Binding { upstream: trigger, source, scope }
    }
}

} // verus!
