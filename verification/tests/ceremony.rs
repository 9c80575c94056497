use keygen::buffered::{Readiness, SinkAction, SinkEvent};
use keygen::message::{ConfirmPeersMessage, GossipMessage, KeyGenMessage, MessageWithSender};
use keygen::peer::PeerState;
use keygen::state::NodeConfig;
use keygen::work::KeyGenWork;
use libp2p_identity::PeerId;
use std::collections::VecDeque;

/// Four identities, sorted by their base-58 text.
fn identities(n: usize) -> Vec<PeerId> {
    let mut ids: Vec<PeerId> = (0..n)
        .map(|i| {
            let mut bytes = vec![0x00u8, 0x04];
            bytes.extend_from_slice(&[0x10 + i as u8, 0xa0, 0x5e, 0x01 + 7 * i as u8]);
            PeerId::from_bytes(&bytes).unwrap()
        })
        .collect();
    ids.sort_by_key(|id| id.to_base58());
    ids
}

/// One node with the identities of all nodes known to it.
fn node(ids: &[PeerId], own: usize, threshold: u16) -> KeyGenWork {
    let config = NodeConfig { threshold, players: ids.len() as u16 };
    let mut work = KeyGenWork::new(config, ids[own]);
    for (i, id) in ids.iter().enumerate() {
        if i != own {
            work.peer_connected(*id);
        }
    }
    work
}

/// Runs one tick of a node against a transport that takes everything, and
/// returns what the node sent and whether its driver was replaced.
fn tick(work: &mut KeyGenWork, inbound: Vec<MessageWithSender>) -> (Vec<MessageWithSender>, bool) {
    work.poll(VecDeque::from(inbound));
    let mut sent = Vec::new();
    let mut action = work.drive(SinkEvent::Begin);
    loop {
        action = match action {
            SinkAction::PollReady => work.drive(SinkEvent::ReadyPolled(Readiness::Ready)),
            SinkAction::StartSend(m) => {
                sent.push(m);
                work.drive(SinkEvent::SendStarted(true))
            }
            SinkAction::PollFlush => work.drive(SinkEvent::FlushPolled(Readiness::Ready)),
            SinkAction::Done(outcome) => {
                let step = work.conclude(outcome);
                return (sent, step.rebuilt);
            }
        };
    }
}

/// A network of nodes with one inbox per node.
struct Net {
    ids: Vec<PeerId>,
    nodes: Vec<KeyGenWork>,
    inboxes: Vec<Vec<MessageWithSender>>,
    sent: Vec<Vec<MessageWithSender>>,
}

impl Net {
    fn new(n: usize, threshold: u16) -> Net {
        let ids = identities(n);
        let nodes = (0..n).map(|i| node(&ids, i, threshold)).collect();
        Net { ids, nodes, inboxes: vec![Vec::new(); 0].into_iter().chain((0..n).map(|_| Vec::new())).collect(), sent: (0..n).map(|_| Vec::new()).collect() }
    }

    /// Puts what `from` sent into the inboxes of its recipients.
    fn route(&mut self, from: usize, out: Vec<MessageWithSender>) {
        for (msg, to) in out {
            self.sent[from].push((msg.clone(), to));
            match to {
                Some(peer) => {
                    let j = self.ids.iter().position(|id| *id == peer).unwrap();
                    self.inboxes[j].push((msg, Some(self.ids[from])));
                }
                None => {
                    for j in 0..self.ids.len() {
                        if j != from {
                            self.inboxes[j].push((msg.clone(), Some(self.ids[from])));
                        }
                    }
                }
            }
        }
    }

    /// One tick of every node, each on what has arrived for it.
    fn round(&mut self) {
        let mut outs = Vec::new();
        for i in 0..self.nodes.len() {
            let inbound = std::mem::take(&mut self.inboxes[i]);
            let (out, _) = tick(&mut self.nodes[i], inbound);
            outs.push(out);
        }
        for (i, out) in outs.into_iter().enumerate() {
            self.route(i, out);
        }
    }

    /// Every node asks every other node for a confirmation.
    fn ask_for_confirmations(&mut self) {
        let n = self.ids.len();
        for i in 0..n {
            for j in 0..n {
                if i != j {
                    let ask = GossipMessage::ConfirmPeers(ConfirmPeersMessage::Confirming(i as u16), 0);
                    self.inboxes[j].push((ask, Some(self.ids[i])));
                }
            }
        }
    }
}

fn count<F: Fn(&MessageWithSender) -> bool>(sent: &[MessageWithSender], f: F) -> usize {
    sent.iter().filter(|m| f(m)).count()
}

#[test]
fn four_nodes_agree_on_a_shared_key() {
    let mut net = Net::new(4, 2);
    for (i, work) in net.nodes.iter().enumerate() {
        let status = work.status();
        assert_eq!(status.local_index, i);
        assert_eq!(status.peers, 4);
        assert_eq!(status.local_state, PeerState::AwaitingPeers);
    }
    let hash = net.nodes[0].status().peers_hash;
    assert!(net.nodes.iter().all(|w| w.status().peers_hash == hash));

    // The handshake: requests go out, confirmations come back.
    net.ask_for_confirmations();
    net.round();
    for i in 0..4 {
        assert_eq!(net.sent[i].len(), 3);
        assert!(net.sent[i].iter().all(|(m, to)| to.is_some()
            && matches!(m, GossipMessage::ConfirmPeers(ConfirmPeersMessage::Confirmed(text), h)
                if *text == net.ids[i].to_base58() && *h == hash)));
        assert_eq!(net.nodes[i].status().local_state, PeerState::AwaitingPeers);
    }
    // The confirmations arrive: every node enters the ceremony.
    net.round();
    for i in 0..4 {
        let status = net.nodes[i].status();
        assert_eq!(status.local_state, PeerState::Generating);
        assert!(status.has_key);
        assert_eq!(status.local_index, i);
        assert_eq!((status.commits, status.decommits), (1, 1));
        let key = net.nodes[i].environment().state.local_key.as_ref().unwrap();
        assert_eq!(key.party_index, i as u16);
        assert_eq!(
            count(&net.sent[i], |(m, to)| to.is_none()
                && matches!(m, GossipMessage::KeyGen(KeyGenMessage::CommitAndDecommit(idx, _, _), _) if *idx == i as u16)),
            1
        );
    }
    // The commitments arrive: every node distributes.
    net.round();
    for i in 0..4 {
        let status = net.nodes[i].status();
        assert_eq!((status.commits, status.decommits), (4, 4));
        assert_eq!((status.vsss, status.secret_shares), (1, 1));
        assert_eq!(
            count(&net.sent[i], |(m, to)| to.is_none()
                && matches!(m, GossipMessage::KeyGen(KeyGenMessage::VSS(idx, _), _) if *idx == i as u16)),
            1
        );
        assert_eq!(
            count(&net.sent[i], |(m, to)| to.is_some()
                && matches!(m, GossipMessage::KeyGen(KeyGenMessage::SecretShare(idx, _), _) if *idx == i as u16)),
            3
        );
        assert_eq!(
            count(&net.sent[i], |(m, to)| to.is_none()
                && matches!(m, GossipMessage::KeyGen(KeyGenMessage::SecretShare(_, _), _))),
            0
        );
        let mut owners: Vec<PeerId> = net.sent[i]
            .iter()
            .filter(|(m, _)| matches!(m, GossipMessage::KeyGen(KeyGenMessage::SecretShare(_, _), _)))
            .map(|(_, to)| to.unwrap())
            .collect();
        owners.sort_by_key(|id| id.to_base58());
        let others: Vec<PeerId> = net.ids.iter().copied().filter(|id| *id != net.ids[i]).collect();
        assert_eq!(owners, others);
    }
    // The schemes and shares arrive: every node constructs its key material.
    net.round();
    for i in 0..4 {
        let status = net.nodes[i].status();
        assert_eq!((status.vsss, status.secret_shares), (4, 4));
        assert_eq!(status.proofs, 1);
        assert!(!status.complete);
        assert!(net.nodes[i].environment().state.shared_keys.is_some());
        assert!(net.nodes[i].completed_key().is_none());
        assert_eq!(
            count(&net.sent[i], |(m, to)| to.is_none()
                && matches!(m, GossipMessage::KeyGen(KeyGenMessage::Proof(idx, _), _) if *idx == i as u16)),
            1
        );
    }
    // The proofs arrive: every node completes.
    net.round();
    let mut keys = Vec::new();
    for i in 0..4 {
        let status = net.nodes[i].status();
        assert_eq!(status.proofs, 4);
        assert!(status.complete);
        assert_eq!(status.local_state, PeerState::Complete);
        keys.push(net.nodes[i].environment().state.shared_public_key().unwrap().inner);
    }
    assert!(keys.iter().all(|k| *k == keys[0]));
    assert!(net.nodes.iter().all(|w| w.completed_key().unwrap().inner == keys[0]));
    // Nothing more is said.
    let before: Vec<usize> = net.sent.iter().map(|s| s.len()).collect();
    net.round();
    let after: Vec<usize> = net.sent.iter().map(|s| s.len()).collect();
    assert_eq!(before, after);
}

/// A network in which every node has entered the ceremony and the
/// commitments are on their way.
fn generating(n: usize, threshold: u16) -> Net {
    let mut net = Net::new(n, threshold);
    net.ask_for_confirmations();
    net.round();
    net.round();
    assert!(net.nodes.iter().all(|w| w.status().local_state == PeerState::Generating));
    net
}

fn state_text(work: &KeyGenWork) -> String {
    format!("{:?}", work.environment())
}

fn is_cleared(work: &KeyGenWork) -> bool {
    let s = work.status();
    let state = &work.environment().state;
    s.local_state == PeerState::Canceled
        && !s.complete
        && !s.has_key
        && (s.commits, s.decommits, s.vsss, s.secret_shares, s.proofs) == (0, 0, 0, 0, 0)
        && state.shared_keys.is_none()
        && state.shared_public_key().is_none()
        && state.commits.is_empty()
        && state.proofs.is_empty()
}

#[test]
fn a_second_delivery_changes_nothing() {
    let mut net = generating(2, 1);
    net.round();
    // Schemes and shares are on their way; keep copies of what node 0 gets.
    let first: Vec<MessageWithSender> = net.inboxes[0].clone();
    assert_eq!(first.len(), 2);
    net.round();
    assert_eq!(net.nodes[0].status().vsss, 2);
    let proofs: Vec<MessageWithSender> = net.inboxes[0].clone();
    assert_eq!(proofs.len(), 1);
    let before = state_text(&net.nodes[0]);
    let (out, rebuilt) = tick(&mut net.nodes[0], first.clone());
    assert!(out.is_empty() && !rebuilt);
    assert_eq!(state_text(&net.nodes[0]), before);
    // Another artifact under a taken index is dropped: the first write wins.
    let own_scheme = net.sent[0]
        .iter()
        .find_map(|(m, _)| match m {
            GossipMessage::KeyGen(KeyGenMessage::VSS(_, scheme), h) => {
                Some(GossipMessage::KeyGen(KeyGenMessage::VSS(1, scheme.clone()), *h))
            }
            _ => None,
        })
        .unwrap();
    let (out, _) = tick(&mut net.nodes[0], vec![(own_scheme, Some(net.ids[1]))]);
    assert!(out.is_empty());
    assert_eq!(state_text(&net.nodes[0]), before);
    // The proof completes the ceremony; delivered again, it changes nothing.
    net.round();
    assert!(net.nodes[0].status().complete);
    let done = state_text(&net.nodes[0]);
    let (out, _) = tick(&mut net.nodes[0], proofs.clone());
    assert!(out.is_empty());
    assert_eq!(state_text(&net.nodes[0]), done);
    let (out, _) = tick(&mut net.nodes[0], first);
    assert!(out.is_empty());
    assert_eq!(state_text(&net.nodes[0]), done);
}

#[test]
fn a_proof_delivered_twice_before_the_others_is_filed_once() {
    let mut net = generating(3, 1);
    net.round();
    net.round();
    // Node 0 has constructed its key material; proofs of 1 and 2 are waiting.
    let waiting = std::mem::take(&mut net.inboxes[0]);
    assert_eq!(waiting.len(), 2);
    let one = vec![waiting[0].clone()];
    tick(&mut net.nodes[0], one.clone());
    assert_eq!(net.nodes[0].status().proofs, 2);
    let before = state_text(&net.nodes[0]);
    tick(&mut net.nodes[0], one);
    assert_eq!(state_text(&net.nodes[0]), before);
    assert!(!net.nodes[0].status().complete);
    tick(&mut net.nodes[0], vec![waiting[1].clone()]);
    assert!(net.nodes[0].status().complete);
}

#[test]
fn the_shared_key_is_constructed_once() {
    let mut net = generating(2, 1);
    net.round();
    let shares: Vec<MessageWithSender> = net.inboxes[0].clone();
    net.round();
    let proofs_sent = |net: &Net| {
        count(&net.sent[0], |(m, _)| matches!(m, GossipMessage::KeyGen(KeyGenMessage::Proof(_, _), _)))
    };
    assert_eq!(proofs_sent(&net), 1);
    assert_eq!(net.nodes[0].status().proofs, 1);
    // All inputs of the construction are still at hand, and arrive again.
    for _ in 0..3 {
        let (out, _) = tick(&mut net.nodes[0], shares.clone());
        assert!(out.is_empty());
        let (out, _) = tick(&mut net.nodes[0], Vec::new());
        assert!(out.is_empty());
    }
    assert_eq!(net.nodes[0].status().proofs, 1);
    net.round();
    net.round();
    assert_eq!(proofs_sent(&net), 1);
    assert!(net.nodes[0].status().complete);
}

#[test]
fn a_failed_verification_clears_everything_at_once() {
    let mut net = generating(2, 1);
    net.round();
    net.round();
    for (m, _) in net.inboxes[0].iter_mut() {
        if let GossipMessage::KeyGen(KeyGenMessage::Proof(_, proof), _) = m {
            proof.inner.pk_t_rand_commitment = proof.inner.pk.clone();
        }
    }
    assert!(net.nodes[0].environment().state.shared_keys.is_some());
    net.round();
    assert!(is_cleared(&net.nodes[0]));
    assert!(net.nodes[1].status().complete);
    // The node passes key-generation messages over until it starts again.
    let before = state_text(&net.nodes[0]);
    let late = net.sent[1]
        .iter()
        .find(|(m, _)| matches!(m, GossipMessage::KeyGen(KeyGenMessage::VSS(_, _), _)))
        .unwrap()
        .0
        .clone();
    let (out, rebuilt) = tick(&mut net.nodes[0], vec![(late, Some(net.ids[1]))]);
    assert!(out.is_empty() && !rebuilt);
    assert_eq!(state_text(&net.nodes[0]), before);
}

#[test]
fn a_ceremony_that_was_given_up_starts_again_with_the_handshake() {
    let mut net = generating(2, 1);
    net.round();
    net.round();
    for (m, _) in net.inboxes[0].iter_mut() {
        if let GossipMessage::KeyGen(KeyGenMessage::Proof(_, proof), _) = m {
            proof.inner.pk_t_rand_commitment = proof.inner.pk.clone();
        }
    }
    net.round();
    assert!(is_cleared(&net.nodes[0]));
    let confirmed = GossipMessage::ConfirmPeers(ConfirmPeersMessage::Confirmed(net.ids[1].to_base58()), 0);
    let (out, _) = tick(&mut net.nodes[0], vec![(confirmed, Some(net.ids[1]))]);
    let status = net.nodes[0].status();
    assert_eq!(status.local_state, PeerState::Generating);
    assert!(status.has_key);
    assert_eq!((status.commits, status.decommits), (1, 1));
    assert_eq!(out.len(), 1);
    assert!(matches!(&out[0], (GossipMessage::KeyGen(KeyGenMessage::CommitAndDecommit(0, _, _), _), None)));
}

#[test]
fn a_failed_construction_clears_everything_at_once() {
    let mut net = generating(2, 1);
    net.round();
    for (m, _) in net.inboxes[0].iter_mut() {
        if let GossipMessage::KeyGen(KeyGenMessage::SecretShare(_, share), _) = m {
            share.inner = &share.inner + &share.inner;
        }
    }
    net.round();
    assert!(is_cleared(&net.nodes[0]));
    assert_eq!(
        count(&net.sent[0], |(m, _)| matches!(m, GossipMessage::KeyGen(KeyGenMessage::Proof(_, _), _))),
        0
    );
    assert_eq!(net.nodes[1].status().proofs, 1);
}

#[test]
fn a_commitment_that_does_not_open_gives_the_ceremony_up() {
    let mut net = generating(2, 1);
    for (m, _) in net.inboxes[0].iter_mut() {
        if let GossipMessage::KeyGen(KeyGenMessage::CommitAndDecommit(_, commit, _), _) = m {
            commit.com = &commit.com + &commit.com;
        }
    }
    net.round();
    assert!(is_cleared(&net.nodes[0]));
    assert_eq!(net.nodes[1].status().vsss, 1);
}

#[test]
fn a_short_key_proof_gives_the_ceremony_up() {
    let mut net = generating(2, 1);
    for (m, _) in net.inboxes[0].iter_mut() {
        if let GossipMessage::KeyGen(KeyGenMessage::CommitAndDecommit(_, commit, _), _) = m {
            commit.correct_key_proof.sigma_vec.truncate(10);
        }
    }
    net.round();
    assert!(is_cleared(&net.nodes[0]));
}

#[test]
fn a_modulus_of_zero_gives_the_ceremony_up() {
    let mut net = generating(2, 1);
    for (m, _) in net.inboxes[0].iter_mut() {
        if let GossipMessage::KeyGen(KeyGenMessage::CommitAndDecommit(_, commit, _), _) = m {
            commit.e.n = &commit.e.n - &commit.e.n;
        }
    }
    net.round();
    assert!(is_cleared(&net.nodes[0]));
}

#[test]
fn a_scheme_without_commitments_gives_the_ceremony_up() {
    let mut net = generating(2, 1);
    net.round();
    for (m, _) in net.inboxes[0].iter_mut() {
        if let GossipMessage::KeyGen(KeyGenMessage::VSS(_, scheme), _) = m {
            scheme.inner.commitments.clear();
        }
    }
    net.round();
    assert!(is_cleared(&net.nodes[0]));
}

#[test]
fn a_threshold_that_is_not_below_the_players_gives_the_ceremony_up() {
    let mut net = generating(2, 2);
    net.round();
    assert!(is_cleared(&net.nodes[0]));
    assert!(is_cleared(&net.nodes[1]));
}

#[test]
fn messages_out_of_phase_are_not_ok() {
    let net = generating(2, 1);
    let commitment = net.inboxes[0][0].clone();
    let mut fresh = node(&net.ids, 0, 1);
    let before = state_text(&fresh);
    // Without first-round material of its own, the node takes no
    // key-generation message: the outcome turns, and the driver is replaced.
    let (out, rebuilt) = tick(&mut fresh, vec![commitment]);
    assert!(out.is_empty());
    assert!(rebuilt);
    assert_eq!(state_text(&fresh), before);
}

#[test]
fn the_handshake_rejects_what_it_cannot_place() {
    let ids = identities(3);
    let mut work = node(&ids, 0, 1);
    let before = state_text(&work);
    let from = |i: usize, m: ConfirmPeersMessage| (GossipMessage::ConfirmPeers(m, 7), Some(ids[i]));
    // An index that no participant has.
    let (out, rebuilt) = tick(&mut work, vec![from(1, ConfirmPeersMessage::Confirming(3))]);
    assert!(out.is_empty() && rebuilt);
    // A confirmation that names another identity than its sender's. The new
    // driver has seen a failure last, so nothing turns.
    let (out, rebuilt) = tick(&mut work, vec![from(1, ConfirmPeersMessage::Confirmed(ids[2].to_base58()))]);
    assert!(out.is_empty() && !rebuilt);
    // A confirmation from a stranger.
    let stranger = PeerId::from_bytes(&[0x00, 0x02, 0x77, 0x78]).unwrap();
    let hello = ConfirmPeersMessage::Confirmed(stranger.to_base58());
    let (out, rebuilt) = tick(&mut work, vec![(GossipMessage::ConfirmPeers(hello, 7), Some(stranger))]);
    assert!(out.is_empty() && !rebuilt);
    // A handshake message without a sender.
    let (out, rebuilt) = tick(&mut work, vec![(GossipMessage::ConfirmPeers(ConfirmPeersMessage::Confirming(1), 7), None)]);
    assert!(out.is_empty() && !rebuilt);
    assert_eq!(state_text(&work), before);
    // A request that names a known index is answered to its sender, with the
    // node's own text and fingerprint.
    let (out, rebuilt) = tick(&mut work, vec![from(2, ConfirmPeersMessage::Confirming(1))]);
    assert!(rebuilt);
    assert_eq!(out.len(), 1);
    assert_eq!(out[0].1, Some(ids[2]));
    assert!(matches!(&out[0].0, GossipMessage::ConfirmPeers(ConfirmPeersMessage::Confirmed(text), h)
        if *text == ids[0].to_base58() && *h == work.status().peers_hash));
    assert_eq!(state_text(&work), before);
}

#[test]
fn the_quorum_counts_confirmations_not_connections() {
    let ids = identities(3);
    let mut work = node(&ids, 1, 1);
    let confirmed = |i: usize| {
        (GossipMessage::ConfirmPeers(ConfirmPeersMessage::Confirmed(ids[i].to_base58()), 0), Some(ids[i]))
    };
    let (out, _) = tick(&mut work, vec![confirmed(0)]);
    assert!(out.is_empty());
    assert!(!work.status().has_key);
    // The same confirmation again does not count twice.
    let (out, _) = tick(&mut work, vec![confirmed(0)]);
    assert!(out.is_empty());
    assert!(!work.status().has_key);
    let (out, _) = tick(&mut work, vec![confirmed(2)]);
    assert_eq!(out.len(), 1);
    assert!(work.status().has_key);
    assert_eq!(work.environment().state.local_key.as_ref().unwrap().party_index, 1);
    // Once the node has entered, further confirmations change nothing.
    let before = state_text(&work);
    let (out, rebuilt) = tick(&mut work, vec![confirmed(0), confirmed(2)]);
    assert!(out.is_empty() && !rebuilt);
    assert_eq!(state_text(&work), before);
}

#[test]
fn stored_and_broadcast_artifacts_are_the_same() {
    let mut net = generating(2, 1);
    net.round();
    net.round();
    let state = &net.nodes[0].environment().state;
    for (m, _) in net.sent[0].iter() {
        match m {
            GossipMessage::KeyGen(KeyGenMessage::CommitAndDecommit(i, commit, decommit), _) => {
                assert_eq!(format!("{:?}", state.commits.get(*i).unwrap()), format!("{:?}", commit));
                assert_eq!(format!("{:?}", state.decommits.get(*i).unwrap()), format!("{:?}", decommit));
            }
            GossipMessage::KeyGen(KeyGenMessage::VSS(i, scheme), _) => {
                assert_eq!(state.vsss.get(*i).unwrap().inner, scheme.inner);
            }
            GossipMessage::KeyGen(KeyGenMessage::Proof(i, proof), _) => {
                assert_eq!(format!("{:?}", state.proofs.get(*i).unwrap()), format!("{:?}", proof));
            }
            _ => {}
        }
    }
    assert_eq!(state.commits.keys(), &vec![0u16, 1]);
    assert_eq!(state.vsss.values().len(), 2);
    assert!(state.vsss.contains_key(1) && !state.vsss.contains_key(2));
    assert_eq!(net.nodes[0].environment().config.get_params().share_count, 2);
    assert_eq!(net.nodes[0].environment().config.get_params().threshold, 1);
}

#[test]
fn a_foreign_fingerprint_is_not_held_against_a_message() {
    let mut net = generating(2, 1);
    let own = net.nodes[0].status().peers_hash;
    for (m, _) in net.inboxes[0].iter_mut() {
        if let GossipMessage::KeyGen(_, h) = m {
            assert_eq!(*h, own);
            *h = own ^ 1;
        }
    }
    net.round();
    assert_eq!(net.nodes[0].status().commits, 2);
    assert_eq!(net.nodes[0].status().vsss, 1);
    // What the node sends carries its own fingerprint all the same.
    assert!(net.sent[0].iter().all(|(m, _)| match m {
        GossipMessage::ConfirmPeers(_, h) | GossipMessage::KeyGen(_, h) => *h == own,
        GossipMessage::Sign(_) => true,
    }));
}

/// The proofs that the nodes of a ceremony of their own have broadcast, in the
/// order of their authors.
fn proofs_of_another_ceremony(n: usize) -> Vec<GossipMessage> {
    let mut net = generating(n, 1);
    net.round();
    net.round();
    let mut proofs = Vec::new();
    for i in 0..n {
        for (m, _) in net.sent[i].iter() {
            if let GossipMessage::KeyGen(KeyGenMessage::Proof(_, _), _) = m {
                proofs.push(m.clone());
            }
        }
    }
    assert_eq!(proofs.len(), n);
    proofs
}

#[test]
fn failing_proofs_give_the_ceremony_up_before_the_key_material_is_made() {
    let mut net = generating(2, 1);
    net.round();
    // Node 0 holds all commitments, and no key material yet.
    let _held = std::mem::take(&mut net.inboxes[0]);
    assert_eq!(net.nodes[0].status().decommits, 2);
    assert!(net.nodes[0].environment().state.shared_keys.is_none());
    let mut proofs = proofs_of_another_ceremony(2);
    if let GossipMessage::KeyGen(KeyGenMessage::Proof(_, proof), _) = &mut proofs[1] {
        proof.inner.pk_t_rand_commitment = proof.inner.pk.clone();
    }
    let from = net.ids[1];
    let (out, _) = tick(&mut net.nodes[0], vec![(proofs[0].clone(), Some(from))]);
    assert!(out.is_empty());
    assert_eq!(net.nodes[0].status().proofs, 1);
    assert_eq!(net.nodes[0].status().local_state, PeerState::Generating);
    let (out, _) = tick(&mut net.nodes[0], vec![(proofs[1].clone(), Some(from))]);
    assert!(out.is_empty());
    assert!(is_cleared(&net.nodes[0]));
}

#[test]
fn valid_proofs_complete_nothing_before_the_key_material_is_made() {
    let mut net = generating(2, 1);
    net.round();
    let held = std::mem::take(&mut net.inboxes[0]);
    let proofs = proofs_of_another_ceremony(2);
    let from = net.ids[1];
    let early: Vec<MessageWithSender> = proofs.iter().map(|m| (m.clone(), Some(from))).collect();
    let before = net.nodes[0].status();
    let (out, _) = tick(&mut net.nodes[0], early.clone());
    assert!(out.is_empty());
    let status = net.nodes[0].status();
    assert_eq!(status.proofs, 2);
    assert!(!status.complete);
    assert_eq!(status.local_state, PeerState::Generating);
    assert!(status.has_key);
    assert_eq!((status.commits, status.decommits, status.vsss), (before.commits, before.decommits, before.vsss));
    assert!(net.nodes[0].completed_key().is_none());
    // Verified again, the same proofs change nothing.
    let text = state_text(&net.nodes[0]);
    tick(&mut net.nodes[0], early.clone());
    assert_eq!(state_text(&net.nodes[0]), text);
    // Once the key material is made, the next proof completes the ceremony.
    let (out, _) = tick(&mut net.nodes[0], held);
    assert!(net.nodes[0].environment().state.shared_keys.is_some());
    assert_eq!(out.len(), 1);
    assert!(!net.nodes[0].status().complete);
    tick(&mut net.nodes[0], early);
    assert!(net.nodes[0].status().complete);
    assert_eq!(net.nodes[0].status().local_state, PeerState::Complete);
    assert!(net.nodes[0].completed_key().is_some());
}
