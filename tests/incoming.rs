use romio::accept::{Acceptor, AttemptOutcome, Event, Phase, Readiness};
use romio::incoming::{next_item, Incoming, SequenceAction};

type Ev = Event<(u32, &'static str), String>;

#[test]
fn next_item_drops_peer_address() {
    let item = next_item::<u32, &str, String>(Ok((5, "/tmp/peer")));
    assert!(matches!(item, Some(Ok(5))));
}

#[test]
fn next_item_keeps_error() {
    let item = next_item::<u32, &str, String>(Err("reset".to_string()));
    assert!(matches!(item, Some(Err(ref e)) if e == "reset"));
}

fn pull(seq: &mut Incoming, outcome: AttemptOutcome<(u32, &'static str), String>) -> SequenceAction<u32, String> {
    let p: Ev = Event::Pulled;
    assert!(seq.accepts(&p));
    assert!(matches!(seq.advance(p), SequenceAction::PollReadiness));
    let r: Ev = Event::Reported(Readiness::Readable);
    assert!(matches!(seq.advance(r), SequenceAction::TryAccept));
    seq.advance(Event::Attempted(outcome))
}

#[test]
fn sequence_yields_streams_and_continues_after_errors() {
    let mut seq = Incoming::new(Acceptor::new());
    assert_eq!(seq.phase(), Phase::Idle);
    let a = pull(&mut seq, AttemptOutcome::Accepted((1, "peer-a")));
    assert!(matches!(a, SequenceAction::Yield(Some(Ok(1)))));
    let b = pull(&mut seq, AttemptOutcome::Failed("connection aborted".to_string()));
    assert!(matches!(b, SequenceAction::Yield(Some(Err(ref e))) if e == "connection aborted"));
    assert_eq!(seq.phase(), Phase::Idle);
    let c = pull(&mut seq, AttemptOutcome::Accepted((2, "peer-b")));
    assert!(matches!(c, SequenceAction::Yield(Some(Ok(2)))));
}

#[test]
fn sequence_absorbs_empty_attempts() {
    let mut seq = Incoming::new(Acceptor::new());
    let empty = pull(&mut seq, AttemptOutcome::NoConnection);
    assert!(matches!(empty, SequenceAction::ClearReadiness));
    let cleared: Ev = Event::Cleared(Ok(()));
    assert!(matches!(seq.advance(cleared), SequenceAction::Suspend));
    assert_eq!(seq.phase(), Phase::AwaitingReadiness);
    let after = pull(&mut seq, AttemptOutcome::Accepted((9, "peer")));
    assert!(matches!(after, SequenceAction::Yield(Some(Ok(9)))));
}

#[test]
fn sequence_reports_readiness_failure_as_item() {
    let mut seq = Incoming::new(Acceptor::new());
    let p: Ev = Event::Pulled;
    seq.advance(p);
    let f: Ev = Event::Reported(Readiness::Failed("too many open files".to_string()));
    let item = seq.advance(f);
    assert!(matches!(item, SequenceAction::Yield(Some(Err(ref e))) if e == "too many open files"));
    let again: Ev = Event::Pulled;
    assert!(seq.accepts(&again));
}
