//! The suspension point of a listener: one pull runs from `Idle` through
//! readiness and accept attempts until an item is emitted.
use vstd::prelude::*;

verus! {

/// Where a listener's current pull stands.
#[derive(Clone, Copy, Debug, PartialEq, Eq, Structural)]
pub enum Phase {
    /// No pull is in progress.
    Idle,
    /// The pull waits for the readiness source to report the socket readable.
    AwaitingReadiness,
    /// One non-blocking accept attempt is under way.
    Attempting,
    /// The readiness flag is being cleared after an attempt found nothing.
    Clearing,
}

/// What the readiness source reported for the listening socket.
pub enum Readiness<E> {
    Readable,
    /// Not readable yet; interest has been registered for a wake-up.
    NotReadable,
    Failed(E),
}

/// What one non-blocking accept attempt on the socket gave.
pub enum AttemptOutcome<C, E> {
    Accepted(C),
    /// The readiness report was stale: no connection was queued.
    NoConnection,
    /// The socket would have blocked.
    WouldBlock,
    Failed(E),
}

/// What the caller hands to the state machine.
pub enum Event<C, E> {
    /// The consumer asks for an item, or is resumed after a suspension.
    Pulled,
    Reported(Readiness<E>),
    Attempted(AttemptOutcome<C, E>),
    /// The readiness flag was cleared, or clearing it failed.
    Cleared(Result<(), E>),
}

/// What the caller is to do next.
pub enum Action<C, E> {
    /// Ask the readiness source whether the socket is readable.
    PollReadiness,
    /// Return control to the scheduler until the readiness source wakes the task.
    Suspend,
    /// Make one non-blocking accept attempt.
    TryAccept,
    /// Clear the socket's readiness flag, registering interest anew.
    ClearReadiness,
    /// Hand this outcome to the consumer; the pull is over.
    Emit(Result<C, E>),
}

/// Whether `event` can arrive while a pull stands at `phase`.
pub open spec fn fits<C, E>(phase: Phase, event: Event<C, E>) -> bool {
    match event {
        Event::Pulled => phase == Phase::Idle || phase == Phase::AwaitingReadiness,
        Event::Reported(_) => phase == Phase::AwaitingReadiness,
        Event::Attempted(_) => phase == Phase::Attempting,
        Event::Cleared(_) => phase == Phase::Clearing,
    }
}

/// The phase that follows `event` at `phase`, and the action it calls for.
pub open spec fn transition<C, E>(phase: Phase, event: Event<C, E>) -> (Phase, Action<C, E>) {
    match event {
        Event::Pulled => (Phase::AwaitingReadiness, Action::PollReadiness),
        Event::Reported(Readiness::Readable) => (Phase::Attempting, Action::TryAccept),
        Event::Reported(Readiness::NotReadable) => (Phase::AwaitingReadiness, Action::Suspend),
        Event::Reported(Readiness::Failed(e)) => (Phase::Idle, Action::Emit(Err(e))),
        Event::Attempted(AttemptOutcome::Accepted(c)) => (Phase::Idle, Action::Emit(Ok(c))),
        Event::Attempted(AttemptOutcome::NoConnection) => (Phase::Clearing, Action::ClearReadiness),
        Event::Attempted(AttemptOutcome::WouldBlock) => (Phase::Clearing, Action::ClearReadiness),
        Event::Attempted(AttemptOutcome::Failed(e)) => (Phase::Idle, Action::Emit(Err(e))),
        Event::Cleared(Ok(())) => (Phase::AwaitingReadiness, Action::Suspend),
        Event::Cleared(Err(e)) => (Phase::Idle, Action::Emit(Err(e))),
    }
}

/// Whether `event` can arrive at `phase`.
pub fn event_fits<C, E>(phase: Phase, event: &Event<C, E>) -> (r: bool)
    ensures
        r == fits(phase, *event),
{
    match event {
        Event::Pulled => phase == Phase::Idle || phase == Phase::AwaitingReadiness,
        Event::Reported(_) => phase == Phase::AwaitingReadiness,
        Event::Attempted(_) => phase == Phase::Attempting,
        Event::Cleared(_) => phase == Phase::Clearing,
    }
}

/// Takes one step of the accept protocol.
pub fn step<C, E>(phase: Phase, event: Event<C, E>) -> (r: (Phase, Action<C, E>))
    requires
        fits(phase, event),
    ensures
        r == transition(phase, event),
{
    match event {
        Event::Pulled => (Phase::AwaitingReadiness, Action::PollReadiness),
        Event::Reported(report) => match report {
            Readiness::Readable => (Phase::Attempting, Action::TryAccept),
            Readiness::NotReadable => (Phase::AwaitingReadiness, Action::Suspend),
            Readiness::Failed(e) => (Phase::Idle, Action::Emit(Err(e))),
        },
        Event::Attempted(outcome) => match outcome {
            AttemptOutcome::Accepted(c) => (Phase::Idle, Action::Emit(Ok(c))),
            AttemptOutcome::NoConnection => (Phase::Clearing, Action::ClearReadiness),
            AttemptOutcome::WouldBlock => (Phase::Clearing, Action::ClearReadiness),
            AttemptOutcome::Failed(e) => (Phase::Idle, Action::Emit(Err(e))),
        },
        Event::Cleared(cleared) => match cleared {
            Ok(()) => (Phase::AwaitingReadiness, Action::Suspend),
            Err(e) => (Phase::Idle, Action::Emit(Err(e))),
        },
    }
}

/// The accept state that a listener keeps between pulls.
pub struct Acceptor {
    phase: Phase,
}

impl Acceptor {
    /// The phase of the current pull.
    pub closed spec fn phase_spec(&self) -> Phase {
        self.phase
    }

    /// An acceptor with no pull in progress.
    pub fn new() -> (r: Acceptor)
        ensures
            r.phase_spec() == Phase::Idle,
    {
        Acceptor { phase: Phase::Idle }
    }

    /// The phase of the current pull.
    pub fn phase(&self) -> (r: Phase)
        ensures
            r == self.phase_spec(),
    {
        self.phase
    }

    /// Whether `event` can arrive now.
    pub fn accepts<C, E>(&self, event: &Event<C, E>) -> (r: bool)
        ensures
            r == fits(self.phase_spec(), *event),
    {
        event_fits(self.phase, event)
    }

    /// Feeds `event` to the protocol and returns what to do next.
    pub fn handle<C, E>(&mut self, event: Event<C, E>) -> (r: Action<C, E>)
        requires
            fits(old(self).phase_spec(), event),
        ensures
            final(self).phase_spec() == transition(old(self).phase_spec(), event).0,
            r == transition(old(self).phase_spec(), event).1,
    {
        let (next, action) = step(self.phase, event);
        self.phase = next;
        action
    }
}

} // verus!
