//! A state that moves through a begin, update and end phase before giving way to the next.

use vstd::prelude::*;

verus! {

/// The phase of the current state.
#[derive(Debug, Clone, Copy, PartialEq, Eq, Structural)]
pub enum Substate {
    Begin,
    Update,
    End,
}

impl Default for Substate {
    fn default() -> (r: Self)
        ensures
            r is Begin,
    {
        Substate::Begin
    }
}

/// A state and its phase.
#[derive(Debug, Clone, Copy, PartialEq, Eq, Default)]
pub struct FullState<S>(pub S, pub Substate);

/// The current state, and the state that is to follow it.
#[derive(Debug, Clone, Copy, PartialEq, Eq, Default)]
pub struct StateInstance<S> {
    pub current: FullState<S>,
    pub next: Option<S>,
}

/// The state and pending state after one cycle.
pub open spec fn cycled<S>(current: FullState<S>, next: Option<S>) -> (FullState<S>, Option<S>) {
    match current.1 {
        Substate::Begin => (FullState(current.0, Substate::Update), next),
        Substate::Update => if next is Some {
            (FullState(current.0, Substate::End), next)
        } else {
            (current, next)
        },
        Substate::End => match next {
            Some(n) => (FullState(n, Substate::Begin), None),
            None => (current, next),
        },
    }
}

impl<S> StateInstance<S> {
    /// A state in its begin phase, with nothing to follow yet.
    pub fn new(state: S) -> (r: Self)
        ensures
            r.current == FullState(state, Substate::Begin),
            r.next is None,
    {
        StateInstance { current: FullState(state, Substate::Begin), next: None }
    }

    /// Move on by one phase: begin goes to update; update goes to end once a
    /// next state is set; end gives way to the next state, in its begin phase.
    pub fn cycle(&mut self)
        ensures
            (final(self).current, final(self).next) == cycled(old(self).current, old(self).next),
    {
        match self.current.1 {
            Substate::Begin => self.current.1 = Substate::Update,
            Substate::Update => if self.next.is_some() {
                self.current.1 = Substate::End;
            },
            Substate::End => if let Some(next) = self.next.take() {
                self.current = FullState(next, Substate::Begin);
            },
        }
    }

    /// Set the state that follows the current one.
    pub fn set(&mut self, next: S)
        ensures
            final(self).current == old(self).current,
            final(self).next == Some(next),
    {
        self.next = Some(next);
    }
}

/// A state set during the update phase takes over after two cycles, in its begin phase.
pub proof fn lemma_set_then_cycle<S>(state: S, n: S)
    ensures
        cycled(cycled(FullState(state, Substate::Update), Some(n)).0, cycled(FullState(state, Substate::Update), Some(n)).1)
            == (FullState(n, Substate::Begin), None::<S>),
{
}

/// Without a next state, cycling never leaves the update phase.
pub proof fn lemma_update_waits<S>(state: S)
    ensures
        cycled(FullState(state, Substate::Update), None::<S>) == (FullState(state, Substate::Update), None::<S>),
{
}

} // verus!
