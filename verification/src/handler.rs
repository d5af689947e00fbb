//! The reducer core: a state cell driven by a pure message-to-state
//! mapping.
//!
//! A [`Handler`] owns exactly one state cell and one mapper. Every change
//! to the cell funnels through [`Handler::dispatch`], which reads the
//! current value once, applies the mapper once, and writes the result
//! back once. The handler carries a ghost log of every message dispatched
//! so far; its well-formedness invariant states that the current value is
//! exactly the left fold of the mapper over that log, so the handler is a
//! faithful reducer machine.

use vstd::prelude::*;

use crate::scope::ScopeTree;

verus! {

/// Maps a message and the observed current state to the next state.
/// Implementors keep all of their state-transition logic in one place.
///
/// The mapping must be pure: `map_spec` is its mathematical meaning, and
/// the executable `map` must return exactly that value, so a mapper has
/// no effect beyond its return value.
pub trait MessageMapper<Msg, T> {
    /// The mathematical state transition.
    spec fn map_spec(&self, msg: Msg, original: T) -> T;

    /// Computes the next state from a message and the current state.
    fn map(&self, msg: Msg, original: &T) -> (next: T)
        ensures
            next == self.map_spec(msg, *original),
    ;
}

/// The left fold of a mapper over a sequence of messages, starting from
/// an initial state: the state a reducer reaches after dispatching the
/// whole sequence in order.
pub open spec fn replay<Msg, T, D: MessageMapper<Msg, T>>(d: D, init: T, msgs: Seq<Msg>) -> T
    decreases msgs.len(),
{
    if msgs.len() == 0 {
        init
    } else {
        d.map_spec(msgs.last(), replay(d, init, msgs.drop_last()))
    }
}

/// Appending one message to a replayed sequence applies the mapper once
/// to the state reached before it.
pub proof fn lemma_replay_push<Msg, T, D: MessageMapper<Msg, T>>(
    d: D,
    init: T,
    msgs: Seq<Msg>,
    m: Msg,
)
    ensures
        replay(d, init, msgs.push(m)) == d.map_spec(m, replay(d, init, msgs)),
{
    assert(msgs.push(m).drop_last() =~= msgs);
    assert(msgs.push(m).last() == m);
}

/// The centralized state holder: one state cell, one mapper, anchored to
/// one scope of the arena. All mutation of the cell goes through
/// `dispatch`; readers observe the cell through `read_signal`.
pub struct Handler<D, T, Msg> {
    state: T,
    dispatcher: D,
    scope: usize,
    writes: u64,
    init: Ghost<T>,
    log: Ghost<Seq<Msg>>,
}

impl<D, T, Msg> Handler<D, T, Msg> where D: MessageMapper<Msg, T> {
    /// The value the state cell holds right now.
    pub closed spec fn current(self) -> T {
        self.state
    }

    /// The mapper this handler applies to every message.
    pub closed spec fn dispatcher(self) -> D {
        self.dispatcher
    }

    /// The scope the handler is anchored to.
    pub closed spec fn scope_id(self) -> usize {
        self.scope
    }

    /// How many times the state cell has been written. Each write is
    /// visible to selectors as a new version of the cell.
    pub closed spec fn version(self) -> u64 {
        self.writes
    }

    /// The value the state cell was seeded with.
    pub closed spec fn initial(self) -> T {
        self.init@
    }

    /// Every message dispatched so far, in dispatch order.
    pub closed spec fn log(self) -> Seq<Msg> {
        self.log@
    }

    /// The reducer invariant: the cell holds exactly the left fold of the
    /// mapper over the dispatched messages, and the write counter equals
    /// their number.
    pub closed spec fn wf(self) -> bool {
        &&& self.state == replay(self.dispatcher, self.init@, self.log@)
        &&& self.writes == self.log@.len()
    }

    /// Creates a handler anchored to the live scope `scope`, seeding its
    /// state cell with `initial`.
    pub fn new(scopes: &ScopeTree, scope: usize, initial: T, dispatcher: D) -> (h: Self)
        requires
            scopes.wf(),
            scopes.is_live(scope as int),
        ensures
            h.wf(),
            h.current() == initial,
            h.initial() == initial,
            h.dispatcher() == dispatcher,
            h.scope_id() == scope,
            h.log() == Seq::<Msg>::empty(),
            h.version() == 0,
    {
        let ghost gi = initial;
        Handler {
            state: initial,
            dispatcher,
            scope,
            writes: 0,
            init: Ghost(gi),
            log: Ghost(Seq::empty()),
        }
    }

    /// Handles one state message: reads the cell, applies the mapper to
    /// the message and the value read, and writes the result back. The
    /// new value is written even when it equals the old one.
    pub fn dispatch(&mut self, msg: Msg)
        requires
            old(self).wf(),
            old(self).version() < u64::MAX,
        ensures
            final(self).wf(),
            final(self).current() == old(self).dispatcher().map_spec(msg, old(self).current()),
            final(self).log() == old(self).log().push(msg),
            final(self).version() == old(self).version() + 1,
            final(self).dispatcher() == old(self).dispatcher(),
            final(self).initial() == old(self).initial(),
            final(self).scope_id() == old(self).scope_id(),
    {
        let ghost m = msg;
        let next = self.dispatcher.map(msg, &self.state);
        self.state = next;
        self.writes = self.writes + 1;
        self.log = Ghost(self.log@.push(m));
        proof {
            lemma_replay_push(self.dispatcher, self.init@, old(self).log@, m);
        }
    }

    /// How many writes the state cell has seen so far; selectors compare
    /// this version to decide whether the cell changed since they last
    /// observed it.
    pub fn version_count(&self) -> (v: u64)
        ensures
            v == self.version(),
    {
        self.writes
    }

    /// A read-only view of the state cell: the latest committed value.
    pub fn read_signal(&self) -> (r: &T)
        ensures
            *r == self.current(),
    {
        &self.state
    }
}

/// The reducer law: a well-formed handler's state is always the left fold
/// of its mapper over the messages dispatched so far, applied to the
/// initial state.
pub proof fn lemma_handler_is_replay<Msg, T, D: MessageMapper<Msg, T>>(h: Handler<D, T, Msg>)
    requires
        h.wf(),
    ensures
        h.current() == replay(h.dispatcher(), h.initial(), h.log()),
        h.version() == h.log().len(),
{
}

} // verus!
