//! The mailbox between the render path and the worker: one slot, and the
//! latest input wins.
//!
//! The render path must never wait, and the worker must never work on a frame
//! that a newer one has replaced. So the mailbox never queues: a push replaces
//! what is pending. This module is the mailbox's state and its three
//! operations. The caller puts it behind a lock, wakes a waiting worker after
//! a push that was taken in and after a shutdown, and lets the worker wait
//! while a pop finds the mailbox empty.

use vstd::prelude::*;

verus! {

/// What the mailbox holds: at most one pending input, and whether it has been
/// shut down.
pub struct SegInbox<T> {
    latest: Option<T>,
    shutdown: bool,
}

/// The mailbox as contracts see it.
pub struct InboxState<T> {
    /// The input that the next pop hands out.
    pub pending: Option<T>,
    /// Whether the mailbox was shut down.
    pub closed: bool,
}

/// What a pop finds.
pub enum Popped<T> {
    /// The pending input, which now belongs to the worker.
    Input(T),
    /// Nothing is pending: wait for a push or a shutdown.
    Empty,
    /// The mailbox was shut down: the worker stops.
    Closed,
}

/// What holds of every mailbox: once it is shut down, nothing is pending.
pub open spec fn consistent<T>(state: InboxState<T>) -> bool {
    state.closed ==> state.pending is None
}

/// The mailbox after `input` was pushed: `input` takes the place of whatever
/// was pending. A mailbox that was shut down takes nothing in.
pub open spec fn after_push<T>(state: InboxState<T>, input: T) -> InboxState<T> {
    if state.closed {
        state
    } else {
        InboxState { pending: Some(input), closed: false }
    }
}

/// The mailbox after each of `inputs` was pushed, in order, with no pop
/// between them.
pub open spec fn after_pushes<T>(state: InboxState<T>, inputs: Seq<T>) -> InboxState<T>
    decreases inputs.len(),
{
    if inputs.len() == 0 {
        state
    } else {
        after_push(after_pushes(state, inputs.drop_last()), inputs.last())
    }
}

/// The mailbox after a shutdown: closed, with nothing pending.
pub open spec fn after_shutdown<T>(state: InboxState<T>) -> InboxState<T> {
    InboxState { pending: None, closed: true }
}

/// What a pop finds in the mailbox. Shutdown comes before anything pending.
pub open spec fn pop_result<T>(state: InboxState<T>) -> Popped<T> {
    if state.closed {
        Popped::Closed
    } else {
        match state.pending {
            Some(input) => Popped::Input(input),
            None => Popped::Empty,
        }
    }
}

/// The mailbox after a pop: what was handed out is no longer pending.
pub open spec fn after_pop<T>(state: InboxState<T>) -> InboxState<T> {
    if state.closed {
        state
    } else {
        InboxState { pending: None, closed: false }
    }
}

impl<T> View for SegInbox<T> {
    type V = InboxState<T>;

    closed spec fn view(&self) -> InboxState<T> {
        InboxState { pending: self.latest, closed: self.shutdown }
    }
}

impl<T> SegInbox<T> {
    #[verifier::type_invariant]
    spec fn holds_nothing_once_closed(&self) -> bool {
        self.shutdown ==> self.latest is None
    }

    /// An open mailbox with nothing pending.
    pub fn new() -> (inbox: Self)
        ensures
            inbox@ == (InboxState::<T> { pending: None, closed: false }),
    {
        SegInbox { latest: None, shutdown: false }
    }

    /// Puts `input` in the place of whatever is pending. Returns whether the
    /// input was taken in, which is when a waiting worker is to be woken: a
    /// mailbox that was shut down takes nothing in.
    pub fn push_latest(&mut self, input: T) -> (accepted: bool)
        ensures
            final(self)@ == after_push(old(self)@, input),
            accepted == !old(self)@.closed,
            consistent(final(self)@),
    {
        proof {
            use_type_invariant(&*self);
        }
        if self.shutdown {
            return false;
        }
        self.latest = Some(input);
        true
    }

    /// Shuts the mailbox down and drops what is pending. Every waiting worker
    /// is to be woken after it. Shutting down twice is the same as once.
    pub fn shutdown(&mut self)
        ensures
            final(self)@ == after_shutdown(old(self)@),
            consistent(final(self)@),
    {
        self.latest = None;
        self.shutdown = true;
    }

    /// Hands out the pending input, if the mailbox is open and there is one.
    pub fn pop_latest(&mut self) -> (popped: Popped<T>)
        ensures
            popped == pop_result(old(self)@),
            final(self)@ == after_pop(old(self)@),
            consistent(old(self)@),
            consistent(final(self)@),
    {
        proof {
            use_type_invariant(&*self);
        }
        if self.shutdown {
            return Popped::Closed;
        }
        let mut taken = SegInbox { latest: None, shutdown: false };
        core::mem::swap(self, &mut taken);
        match taken.latest {
            Some(input) => Popped::Input(input),
            None => Popped::Empty,
        }
    }

    /// Whether the mailbox was shut down.
    pub fn is_shut_down(&self) -> (closed: bool)
        ensures
            closed == self@.closed,
            consistent(self@),
    {
        proof {
            use_type_invariant(self);
        }
        self.shutdown
    }
}

/// Latest wins: after two pushes with no pop between them, the next pop hands
/// out the second input, and the first is never handed out at all.
pub proof fn lemma_latest_wins<T>(state: InboxState<T>, first: T, second: T)
    requires
        !state.closed,
    ensures
        pop_result(after_push(after_push(state, first), second)) == Popped::Input(second),
        pop_result(after_pop(after_push(after_push(state, first), second))) == Popped::<T>::Empty,
        after_push(after_push(state, first), second) == after_push(state, second),
{
}

/// However many inputs are pushed with no pop between them, the next pop
/// hands out the last of them, and the one after it finds the mailbox empty:
/// the worker is never more than one input behind, and never sees one that
/// a newer one has replaced.
pub proof fn lemma_last_push_wins<T>(state: InboxState<T>, inputs: Seq<T>)
    requires
        !state.closed,
        inputs.len() > 0,
    ensures
        after_pushes(state, inputs) == (InboxState { pending: Some(inputs.last()), closed: false }),
        pop_result(after_pushes(state, inputs)) == Popped::Input(inputs.last()),
        pop_result(after_pop(after_pushes(state, inputs))) == Popped::<T>::Empty,
    decreases inputs.len(),
{
    if inputs.len() > 1 {
        lemma_last_push_wins(state, inputs.drop_last());
    } else {
        assert(after_pushes(state, inputs.drop_last()) == state);
    }
}

/// After a shutdown every pop reports that the mailbox is closed, at once,
/// whatever was pending before, and whatever is pushed or popped later.
pub proof fn lemma_shutdown_closes<T>(state: InboxState<T>, later: T)
    ensures
        pop_result(after_shutdown(state)) == Popped::<T>::Closed,
        after_shutdown(state).pending is None,
        after_push(after_shutdown(state), later) == after_shutdown(state),
        after_pop(after_shutdown(state)) == after_shutdown(state),
        after_shutdown(after_shutdown(state)) == after_shutdown(state),
{
}

/// An input is handed out once: right after a pop, nothing is pending, and
/// the next pop of an open mailbox finds it empty.
pub proof fn lemma_pop_empties<T>(state: InboxState<T>)
    requires
        consistent(state),
    ensures
        after_pop(state).pending is None,
        !state.closed ==> pop_result(after_pop(state)) == Popped::<T>::Empty,
{
}

/// No operation breaks the rule that a closed mailbox holds nothing.
pub proof fn lemma_operations_keep_consistency<T>(state: InboxState<T>, input: T)
    requires
        consistent(state),
    ensures
        consistent(after_push(state, input)),
        consistent(after_shutdown(state)),
        consistent(after_pop(state)),
{
}

} // verus!
