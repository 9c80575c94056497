use keygen::buffered::{DriveOutcome, Readiness, SinkAction, SinkEvent};
use keygen::message::{ConfirmPeersMessage, GossipMessage, MessageWithSender, SignMessage};
use keygen::signer::{Progress, Signer};
use keygen::state::{Environment, Error, KeyGenState, NodeConfig};
use keygen::registry::Registry;
use keygen::work::KeyGenWork;
use libp2p_identity::PeerId;
use std::collections::VecDeque;

fn id(i: u8) -> PeerId {
    PeerId::from_bytes(&[0x00, 0x04, 0x10 + i, 0xa0, 0x5e, 0x01 + 7 * i]).unwrap()
}

/// A message that is handled well, or one that is not.
fn message(ok: bool) -> MessageWithSender {
    if ok {
        (GossipMessage::Sign(SignMessage { payload: vec![1, 2, 3] }), Some(id(1)))
    } else {
        (GossipMessage::ConfirmPeers(ConfirmPeersMessage::Confirming(0), 0), None)
    }
}

fn work(first_outcome_before: bool) -> KeyGenWork {
    let mut w = KeyGenWork::new(NodeConfig { threshold: 1, players: 2 }, id(0));
    w.peer_connected(id(1));
    w.rebuild(first_outcome_before);
    w
}

/// One tick on the given messages against a transport that takes everything.
fn tick(w: &mut KeyGenWork, outcomes: &[bool], refuse: bool) -> bool {
    w.poll(outcomes.iter().map(|ok| message(*ok)).collect::<VecDeque<_>>());
    let mut action = w.drive(SinkEvent::Begin);
    loop {
        action = match action {
            SinkAction::PollReady => w.drive(SinkEvent::ReadyPolled(Readiness::Ready)),
            SinkAction::StartSend(_) => w.drive(SinkEvent::SendStarted(!refuse)),
            SinkAction::PollFlush => w.drive(SinkEvent::FlushPolled(Readiness::Ready)),
            SinkAction::Done(outcome) => {
                let step = w.conclude(outcome);
                assert!(matches!(step.progress, Progress::Pending));
                return step.rebuilt;
            }
        };
    }
}

/// Number of rebuilds when the outcomes arrive one per tick.
fn rebuilds(before: bool, outcomes: &[bool]) -> Vec<bool> {
    let mut w = work(before);
    outcomes.iter().map(|ok| tick(&mut w, &[*ok], false)).collect()
}

#[test]
fn steady_success_never_rebuilds() {
    assert_eq!(rebuilds(true, &[true, true, true]), vec![false, false, false]);
}

#[test]
fn the_first_failure_rebuilds_once() {
    assert_eq!(rebuilds(true, &[true, false, false]), vec![false, true, false]);
}

#[test]
fn the_first_success_after_failures_rebuilds_once() {
    assert_eq!(rebuilds(false, &[false, false, true]), vec![false, false, true]);
}

#[test]
fn every_change_rebuilds() {
    assert_eq!(rebuilds(true, &[true, false, true, false]), vec![false, true, true, true]);
}

#[test]
fn a_fresh_supervisor_expects_success() {
    let mut w = KeyGenWork::new(NodeConfig { threshold: 1, players: 2 }, id(0));
    assert!(tick(&mut w, &[false], false));
    let mut w = KeyGenWork::new(NodeConfig { threshold: 1, players: 2 }, id(0));
    assert!(!tick(&mut w, &[true], false));
}

#[test]
fn only_the_first_change_of_a_tick_counts() {
    let mut w = work(true);
    assert!(tick(&mut w, &[true, false, true, false], false));
    // The new driver has taken over the outcome at the change: a failure.
    assert!(!tick(&mut w, &[false], false));
    assert!(tick(&mut w, &[true], false));
    let mut w = work(true);
    assert!(tick(&mut w, &[true, false, true], false));
    assert!(tick(&mut w, &[true], false));
}

#[test]
fn a_tick_without_messages_changes_nothing() {
    let mut w = work(true);
    assert!(!tick(&mut w, &[], false));
    let mut w = work(false);
    assert!(!tick(&mut w, &[], false));
}

#[test]
fn a_refused_item_counts_as_a_failure() {
    let mut w = work(true);
    // A request for confirmation that names a known index is answered, so an
    // item is queued; the transport refuses it.
    let ask = (GossipMessage::ConfirmPeers(ConfirmPeersMessage::Confirming(1), 0), Some(id(1)));
    w.poll(VecDeque::from(vec![ask]));
    assert_eq!(w.pending(), 1);
    assert!(matches!(w.drive(SinkEvent::Begin), SinkAction::PollReady));
    assert!(matches!(w.drive(SinkEvent::ReadyPolled(Readiness::Ready)), SinkAction::StartSend(_)));
    assert!(matches!(w.drive(SinkEvent::SendStarted(false)), SinkAction::PollReady));
    assert!(matches!(w.drive(SinkEvent::ReadyPolled(Readiness::Ready)), SinkAction::PollFlush));
    let outcome = match w.drive(SinkEvent::FlushPolled(Readiness::Ready)) {
        SinkAction::Done(outcome) => outcome,
        _ => panic!("the drive should be over"),
    };
    assert_eq!(outcome, DriveOutcome { ready: true, send_failed: true });
    assert!(w.conclude(outcome).rebuilt);
    // The failure is what the new driver has seen last.
    assert!(!tick(&mut w, &[false], false));
}

#[test]
fn a_driver_reports_its_request_as_an_error() {
    let mut env = Environment {
        config: NodeConfig { threshold: 1, players: 2 },
        registry: Registry::new(id(0)),
        state: KeyGenState::new(),
    };
    let mut signer = Signer::new(true);
    assert!(signer.last_message_ok());
    assert!(!signer.should_rebuild());
    signer.poll(&mut env, VecDeque::from(vec![message(false)]));
    assert!(signer.should_rebuild());
    assert!(!signer.last_message_ok());
    let quiet = DriveOutcome { ready: true, send_failed: false };
    assert!(matches!(signer.conclude(quiet), Progress::Ready(Err(Error::Rebuild))));
    let mut signer = Signer::new(true);
    signer.poll(&mut env, VecDeque::from(vec![message(true)]));
    assert!(matches!(signer.conclude(quiet), Progress::Pending));
    signer.note_outcome(false);
    assert!(signer.should_rebuild());
}

#[test]
fn a_rebuild_drops_the_queue_and_keeps_the_rest() {
    let mut w = work(true);
    let ask = (GossipMessage::ConfirmPeers(ConfirmPeersMessage::Confirming(1), 0), Some(id(1)));
    w.poll(VecDeque::from(vec![ask]));
    assert_eq!(w.pending(), 1);
    let before = format!("{:?}", w.environment());
    w.rebuild(false);
    assert_eq!(w.pending(), 0);
    assert_eq!(format!("{:?}", w.environment()), before);
}

#[test]
fn what_stands_behind_a_refused_item_is_sent_before_the_driver_is_replaced() {
    let mut w = work(true);
    let ask = || (GossipMessage::ConfirmPeers(ConfirmPeersMessage::Confirming(1), 0), Some(id(1)));
    w.poll(VecDeque::from(vec![ask(), ask()]));
    assert_eq!(w.pending(), 2);
    let mut handed = 0;
    let mut taken = 0;
    let mut action = w.drive(SinkEvent::Begin);
    let outcome = loop {
        action = match action {
            SinkAction::PollReady => w.drive(SinkEvent::ReadyPolled(Readiness::Ready)),
            SinkAction::StartSend(_) => {
                handed += 1;
                // The transport refuses the first answer and takes the second.
                if handed > 1 {
                    taken += 1;
                }
                w.drive(SinkEvent::SendStarted(handed > 1))
            }
            SinkAction::PollFlush => w.drive(SinkEvent::FlushPolled(Readiness::Ready)),
            SinkAction::Done(outcome) => break outcome,
        };
    };
    assert_eq!((handed, taken), (2, 1));
    assert_eq!(outcome, DriveOutcome { ready: true, send_failed: true });
    assert_eq!(w.pending(), 0);
    assert!(w.conclude(outcome).rebuilt);
}
