//! The acceptance sequence: a listener's accept protocol seen as an endless
//! lazy sequence of items, one per accepted connection or per accept error.
use vstd::prelude::*;

use crate::accept::{transition, fits, Acceptor, Action, Event, Phase};

verus! {

/// What the sequence asks of its driver after one step.
pub enum SequenceAction<S, E> {
    PollReadiness,
    Suspend,
    TryAccept,
    ClearReadiness,
    /// The pull is over and yields this item; `None` would end the sequence.
    Yield(Option<Result<S, E>>),
}

/// The item yielded for an accept outcome: the stream without the peer's
/// address, or the error. It is never the end of the sequence.
pub open spec fn sequence_item<S, A, E>(outcome: Result<(S, A), E>) -> Option<Result<S, E>> {
    match outcome {
        Ok((s, _)) => Some(Ok(s)),
        Err(e) => Some(Err(e)),
    }
}

/// The sequence's view of a listener action.
pub open spec fn sequence_action<S, A, E>(action: Action<(S, A), E>) -> SequenceAction<S, E> {
    match action {
        Action::PollReadiness => SequenceAction::PollReadiness,
        Action::Suspend => SequenceAction::Suspend,
        Action::TryAccept => SequenceAction::TryAccept,
        Action::ClearReadiness => SequenceAction::ClearReadiness,
        Action::Emit(outcome) => SequenceAction::Yield(sequence_item(outcome)),
    }
}

/// Turns an accept outcome into the item that the sequence yields.
pub fn next_item<S, A, E>(outcome: Result<(S, A), E>) -> (r: Option<Result<S, E>>)
    ensures
        r == sequence_item(outcome),
        r is Some,
{
    match outcome {
        Ok((s, _)) => Some(Ok(s)),
        Err(e) => Some(Err(e)),
    }
}

/// An endless sequence of accept outcomes, driven one event at a time.
pub struct Incoming {
    inner: Acceptor,
}

impl Incoming {
    /// The phase of the listener's current pull.
    pub closed spec fn phase_spec(&self) -> Phase {
        self.inner.phase_spec()
    }

    /// Takes over a listener's accept state.
    pub fn new(listener: Acceptor) -> (r: Incoming)
        ensures
            r.phase_spec() == listener.phase_spec(),
    {
        Incoming { inner: listener }
    }

    /// The phase of the listener's current pull.
    pub fn phase(&self) -> (r: Phase)
        ensures
            r == self.phase_spec(),
    {
        self.inner.phase()
    }

    /// Whether `event` can arrive now.
    pub fn accepts<S, A, E>(&self, event: &Event<(S, A), E>) -> (r: bool)
        ensures
            r == fits(self.phase_spec(), *event),
    {
        self.inner.accepts(event)
    }

    /// Feeds `event` to the listener's protocol; an emitted outcome becomes
    /// the item yielded.
    pub fn advance<S, A, E>(&mut self, event: Event<(S, A), E>) -> (r: SequenceAction<S, E>)
        requires
            fits(old(self).phase_spec(), event),
        ensures
            final(self).phase_spec() == transition(old(self).phase_spec(), event).0,
            r == sequence_action(transition(old(self).phase_spec(), event).1),
    {
        let action = self.inner.handle(event);
        match action {
            Action::PollReadiness => SequenceAction::PollReadiness,
            Action::Suspend => SequenceAction::Suspend,
            Action::TryAccept => SequenceAction::TryAccept,
            Action::ClearReadiness => SequenceAction::ClearReadiness,
            Action::Emit(outcome) => SequenceAction::Yield(next_item(outcome)),
        }
    }
}

/// The sequence never ends of itself: a step yields either no item or an
/// item that is `Some`, a failure as much as a success, and after an item the
/// listener is idle and ready for the next pull.
pub proof fn lemma_sequence_never_ends<S, A, E>(phase: Phase, event: Event<(S, A), E>)
    requires
        fits(phase, event),
    ensures
        !(sequence_action(transition(phase, event).1) matches SequenceAction::Yield(None)),
        sequence_action(transition(phase, event).1) is Yield ==> (transition(phase, event).0
            == Phase::Idle && fits(Phase::Idle, Event::<(S, A), E>::Pulled)),
{
}

} // verus!
