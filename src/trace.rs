//! Runs of the accept protocol over a whole series of events, and the laws
//! that hold of every such run.
use vstd::prelude::*;

use crate::accept::{fits, transition, Action, AttemptOutcome, Event, Phase, Readiness};

verus! {

/// Whether every event of `events` fits the phase that the ones before it
/// left, starting at `phase`.
pub open spec fn valid_trace<C, E>(phase: Phase, events: Seq<Event<C, E>>) -> bool
    decreases events.len(),
{
    events.len() == 0 || (fits(phase, events[0]) && valid_trace(
        transition(phase, events[0]).0,
        events.drop_first(),
    ))
}

/// The phase reached and the actions called for when `events` arrive at `phase`.
pub open spec fn run<C, E>(phase: Phase, events: Seq<Event<C, E>>) -> (Phase, Seq<Action<C, E>>)
    decreases events.len(),
{
    if events.len() == 0 {
        (phase, Seq::empty())
    } else {
        let (next, action) = transition(phase, events[0]);
        let (last, rest) = run(next, events.drop_first());
        (last, seq![action] + rest)
    }
}

/// The outcomes handed to the consumer, in order.
pub open spec fn emitted<C, E>(actions: Seq<Action<C, E>>) -> Seq<Result<C, E>>
    decreases actions.len(),
{
    if actions.len() == 0 {
        Seq::empty()
    } else {
        let head = match actions[0] {
            Action::Emit(outcome) => seq![outcome],
            _ => Seq::empty(),
        };
        head + emitted(actions.drop_first())
    }
}

/// The outcome that an event settles, if it settles one.
pub open spec fn settled<C, E>(event: Event<C, E>) -> Option<Result<C, E>> {
    match event {
        Event::Reported(Readiness::Failed(e)) => Some(Err(e)),
        Event::Attempted(AttemptOutcome::Accepted(c)) => Some(Ok(c)),
        Event::Attempted(AttemptOutcome::Failed(e)) => Some(Err(e)),
        Event::Cleared(Err(e)) => Some(Err(e)),
        _ => None,
    }
}

/// The outcomes that the events of `events` settle, in order.
pub open spec fn outcomes<C, E>(events: Seq<Event<C, E>>) -> Seq<Result<C, E>>
    decreases events.len(),
{
    if events.len() == 0 {
        Seq::empty()
    } else {
        let head = match settled(events[0]) {
            Some(outcome) => seq![outcome],
            None => Seq::empty(),
        };
        head + outcomes(events.drop_first())
    }
}

/// The connections that the accept attempts of `events` returned, in order.
pub open spec fn accepted<C, E>(events: Seq<Event<C, E>>) -> Seq<C>
    decreases events.len(),
{
    if events.len() == 0 {
        Seq::empty()
    } else {
        let head = match events[0] {
            Event::Attempted(AttemptOutcome::Accepted(c)) => seq![c],
            _ => Seq::empty(),
        };
        head + accepted(events.drop_first())
    }
}

/// Whether `event` settles a failure.
pub open spec fn is_failure<C, E>(event: Event<C, E>) -> bool {
    settled(event) matches Some(Err(_))
}

/// Whether some event of `events` settles a failure.
pub open spec fn has_failure<C, E>(events: Seq<Event<C, E>>) -> bool {
    exists|i: int| 0 <= i < events.len() && #[trigger] is_failure(events[i])
}

/// The number of pulls that `events` start: `Pulled` events that arrive with
/// no pull in progress.
pub open spec fn pulls_started<C, E>(phase: Phase, events: Seq<Event<C, E>>) -> nat
    decreases events.len(),
{
    if events.len() == 0 {
        0
    } else {
        let fresh: nat = if phase == Phase::Idle && events[0] is Pulled { 1 } else { 0 };
        fresh + pulls_started(transition(phase, events[0]).0, events.drop_first())
    }
}

/// One while a pull is in progress, else zero.
pub open spec fn busy(phase: Phase) -> nat {
    if phase == Phase::Idle { 0 } else { 1 }
}

proof fn lemma_emitted_step<C, E>(action: Action<C, E>, rest: Seq<Action<C, E>>)
    ensures
        emitted(seq![action] + rest) == (match action {
            Action::Emit(outcome) => seq![outcome],
            _ => Seq::<Result<C, E>>::empty(),
        }) + emitted(rest),
{
    let all = seq![action] + rest;
    assert(all.drop_first() =~= rest);
    assert(all[0] == action);
}

/// Every outcome that the socket and the readiness source settle is handed
/// to the consumer exactly once, in the order it was settled, and nothing
/// else is: no item is lost, duplicated or invented, however the readiness
/// reports were batched or went stale.
pub proof fn lemma_outcomes_emitted_in_order<C, E>(phase: Phase, events: Seq<Event<C, E>>)
    requires
        valid_trace(phase, events),
    ensures
        emitted(run(phase, events).1) == outcomes(events),
    decreases events.len(),
{
    if events.len() > 0 {
        let (next, action) = transition(phase, events[0]);
        lemma_outcomes_emitted_in_order(next, events.drop_first());
        lemma_emitted_step(action, run(next, events.drop_first()).1);
    }
}

/// Each pull ends by emitting exactly one outcome: the outcomes emitted, and
/// the pull still in progress if any, match the pulls started.
pub proof fn lemma_one_item_per_pull<C, E>(phase: Phase, events: Seq<Event<C, E>>)
    requires
        valid_trace(phase, events),
    ensures
        emitted(run(phase, events).1).len() + busy(run(phase, events).0)
            == pulls_started(phase, events) + busy(phase),
    decreases events.len(),
{
    if events.len() > 0 {
        let (next, action) = transition(phase, events[0]);
        lemma_one_item_per_pull(next, events.drop_first());
        lemma_emitted_step(action, run(next, events.drop_first()).1);
    }
}

proof fn lemma_outcomes_without_failure<C, E>(events: Seq<Event<C, E>>)
    requires
        !has_failure(events),
    ensures
        outcomes(events) == accepted(events).map_values(|c: C| Ok::<C, E>(c)),
    decreases events.len(),
{
    if events.len() > 0 {
        let rest = events.drop_first();
        assert(!has_failure(rest)) by {
            if has_failure(rest) {
                let i = choose|i: int| 0 <= i < rest.len() && #[trigger] is_failure(rest[i]);
                assert(events[i + 1] == rest[i]);
            }
        }
        lemma_outcomes_without_failure(rest);
        assert(!is_failure(events[0]));
        let head = match events[0] {
            Event::Attempted(AttemptOutcome::Accepted(c)) => seq![c],
            _ => Seq::<C>::empty(),
        };
        assert((head + accepted(rest)).map_values(|c: C| Ok::<C, E>(c))
            =~= head.map_values(|c: C| Ok::<C, E>(c)) + accepted(rest).map_values(|c: C| Ok::<C, E>(c)));
    }
}

/// With no failure along the way, pulling N times to completion yields
/// exactly N items, each a success, and they are the connections accepted,
/// each once and in order.
pub proof fn lemma_pulls_yield_accepted<C, E>(events: Seq<Event<C, E>>)
    requires
        valid_trace(Phase::Idle, events),
        run(Phase::Idle, events).0 == Phase::Idle,
        !has_failure(events),
    ensures
        emitted(run(Phase::Idle, events).1) == accepted(events).map_values(|c: C| Ok::<C, E>(c)),
        accepted(events).len() == pulls_started(Phase::Idle, events),
{
    lemma_outcomes_emitted_in_order(Phase::Idle, events);
    lemma_one_item_per_pull(Phase::Idle, events);
    lemma_outcomes_without_failure(events);
}

/// One pull that finds the socket readable and accepts `c`.
pub open spec fn accepting_pull<C, E>(c: C) -> Seq<Event<C, E>> {
    seq![
        Event::Pulled,
        Event::Reported(Readiness::Readable),
        Event::Attempted(AttemptOutcome::Accepted(c)),
    ]
}

proof fn lemma_accepting_pull<C, E>(phase: Phase, c: C)
    requires
        phase == Phase::Idle || phase == Phase::AwaitingReadiness,
    ensures
        valid_trace(phase, accepting_pull::<C, E>(c)),
        run(phase, accepting_pull::<C, E>(c)) == (
            Phase::Idle,
            seq![Action::<C, E>::PollReadiness, Action::TryAccept, Action::Emit(Ok(c))],
        ),
{
    let evs = accepting_pull::<C, E>(c);
    let e1 = evs.drop_first();
    let e2 = e1.drop_first();
    let e3 = e2.drop_first();
    assert(e1 =~= seq![
        Event::<C, E>::Reported(Readiness::Readable),
        Event::Attempted(AttemptOutcome::Accepted(c)),
    ]);
    assert(e2 =~= seq![Event::<C, E>::Attempted(AttemptOutcome::Accepted(c))]);
    assert(e3 =~= Seq::<Event<C, E>>::empty());
    assert(valid_trace(Phase::Idle, e3));
    assert(valid_trace(Phase::Attempting, e2));
    assert(valid_trace(Phase::AwaitingReadiness, e1));
    assert(run(Phase::Idle, e3) == (Phase::Idle, Seq::<Action<C, E>>::empty()));
    assert(run(Phase::Attempting, e2).1 =~= seq![Action::<C, E>::Emit(Ok(c))]);
    assert(run(Phase::AwaitingReadiness, e1).1 =~= seq![Action::<C, E>::TryAccept, Action::Emit(Ok(c))]);
    assert(run(phase, evs).1 =~= seq![Action::<C, E>::PollReadiness, Action::TryAccept, Action::Emit(Ok(c))]);
}

/// An accept attempt that finds no connection, whether the readiness report
/// was stale or the socket would block, yields no item and does not end the
/// pull: the readiness flag is cleared and the pull waits again. A later
/// readiness report and an accepted connection still yield a success.
pub proof fn lemma_empty_attempt_waits_again<C, E>(empty: AttemptOutcome<C, E>, c: C)
    requires
        empty is NoConnection || empty is WouldBlock,
    ensures
        transition(Phase::Attempting, Event::Attempted(empty)) == (
            Phase::Clearing,
            Action::<C, E>::ClearReadiness,
        ),
        transition(Phase::Clearing, Event::<C, E>::Cleared(Ok(()))) == (
            Phase::AwaitingReadiness,
            Action::<C, E>::Suspend,
        ),
        valid_trace(Phase::AwaitingReadiness, accepting_pull::<C, E>(c)),
        emitted(run(Phase::AwaitingReadiness, accepting_pull::<C, E>(c)).1) == seq![
            Ok::<C, E>(c),
        ],
{
    lemma_accepting_pull::<C, E>(Phase::AwaitingReadiness, c);
    lemma_outcomes_emitted_in_order(Phase::AwaitingReadiness, accepting_pull::<C, E>(c));
    let evs = accepting_pull::<C, E>(c);
    let e1 = evs.drop_first();
    let e2 = e1.drop_first();
    let e3 = e2.drop_first();
    assert(e1 =~= seq![
        Event::<C, E>::Reported(Readiness::Readable),
        Event::Attempted(AttemptOutcome::Accepted(c)),
    ]);
    assert(e2 =~= seq![Event::<C, E>::Attempted(AttemptOutcome::Accepted(c))]);
    assert(e3 =~= Seq::<Event<C, E>>::empty());
    assert(outcomes(e3) =~= Seq::<Result<C, E>>::empty());
    assert(outcomes(e2) =~= seq![Ok::<C, E>(c)]);
    assert(outcomes(e1) =~= seq![Ok::<C, E>(c)]);
    assert(outcomes(evs) =~= seq![Ok::<C, E>(c)]);
}

/// Once a failure has been emitted the listener is idle and still usable:
/// the next pull that accepts a connection yields it as a success.
pub proof fn lemma_usable_after_failure<C, E>(phase: Phase, event: Event<C, E>, c: C)
    requires
        fits(phase, event),
        transition(phase, event).1 matches Action::Emit(Err(_)),
    ensures
        transition(phase, event).0 == Phase::Idle,
        valid_trace(transition(phase, event).0, accepting_pull::<C, E>(c)),
        run(transition(phase, event).0, accepting_pull::<C, E>(c)).1.last() == Action::<C, E>::Emit(Ok(c)),
{
    lemma_accepting_pull::<C, E>(Phase::Idle, c);
}

/// The protocol has no terminal phase: at every phase some event can arrive.
pub proof fn lemma_no_terminal_phase<C, E>(phase: Phase)
    ensures
        exists|event: Event<C, E>| #[trigger] fits(phase, event),
{
    let event: Event<C, E> = match phase {
        Phase::Idle => Event::Pulled,
        Phase::AwaitingReadiness => Event::Pulled,
        Phase::Attempting => Event::Attempted(AttemptOutcome::NoConnection),
        Phase::Clearing => Event::Cleared(Ok(())),
    };
    assert(fits(phase, event));
}

} // verus!
