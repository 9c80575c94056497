use keygen::bytes::{rank_bytes, Rank};
use keygen::peer::{PeerInfo, PeerState, Peers};
use keygen::registry::Registry;
use libp2p_identity::PeerId;

fn id(i: u8) -> PeerId {
    PeerId::from_bytes(&[0x00, 0x04, 0x10 + i, 0xa0, 0x5e, 0x01 + 7 * i]).unwrap()
}

#[test]
fn identities_have_the_expected_texts() {
    assert_eq!(id(0).to_base58(), "1TbmzHW");
    assert_eq!(id(1).to_base58(), "1TdFyZy");
    assert_eq!(id(2).to_base58(), "1TejxrS");
    assert_eq!(id(3).to_base58(), "1TgDx8u");
}

#[test]
fn defaults_await_peers() {
    assert_eq!(Peers::default().len(), 0);
    assert_eq!(PeerState::default(), PeerState::AwaitingPeers);
    assert_eq!(PeerInfo::default().state, PeerState::AwaitingPeers);
}

#[test]
fn positions_follow_the_text_whatever_the_order_of_arrival() {
    let mut p = Peers::new();
    for i in [2u8, 0, 3, 1] {
        p.add(id(i));
    }
    let mut q = Peers::new();
    for i in [1u8, 3, 0, 2] {
        q.add(id(i));
    }
    assert_eq!(p.len(), 4);
    for i in 0..4u8 {
        assert_eq!(p.get_position(&id(i)), Some(i as usize));
        assert_eq!(q.get_position(&id(i)), Some(i as usize));
        assert_eq!(p.get_peer_id_by_index(i as usize), Some(id(i)));
    }
    assert_eq!(p.keys(), vec![id(0), id(1), id(2), id(3)]);
    assert_eq!(p.keys(), q.keys());
    assert_eq!(p.get_hash(), q.get_hash());
    assert_eq!(p.get_peer_id_by_index(4), None);
    assert_eq!(p.get_position(&id(4)), None);
}

#[test]
fn order_is_by_bytes_of_the_text_not_by_the_raw_identity() {
    // The raw bytes of the second identity are below those of the first,
    // while its text is above.
    let low_text = PeerId::from_bytes(&[0x00, 0x02, 0xff, 0xff]).unwrap();
    let high_text = PeerId::from_bytes(&[0x00, 0x01, 0x01]).unwrap();
    assert!(low_text.to_bytes() > high_text.to_bytes());
    let (first, second) = if low_text.to_base58() < high_text.to_base58() {
        (low_text, high_text)
    } else {
        (high_text, low_text)
    };
    let mut p = Peers::new();
    p.add(second);
    p.add(first);
    assert_eq!(p.get_position(&first), Some(0));
    assert_eq!(p.get_position(&second), Some(1));
    assert_eq!(p.keys(), vec![first, second]);
}

#[test]
fn fingerprint_is_fnv_over_the_texts() {
    let mut p = Peers::new();
    assert_eq!(p.get_hash(), 0xcbf2_9ce4_8422_2325);
    p.add(id(0));
    assert_eq!(p.get_hash(), 0xb705_7a3a_ec54_ff99);
    p.add(id(3));
    p.add(id(1));
    p.add(id(2));
    assert_eq!(p.get_hash(), 0xa9f5_7226_4e86_e399);
    // A participant that has left still belongs to the set.
    p.del(&id(3));
    p.del(&id(2));
    p.del(&id(1));
    assert_eq!(p.get_hash(), 0xa9f5_7226_4e86_e399);
    assert_eq!(p.len(), 4);
}

#[test]
fn states_are_kept_per_participant() {
    let mut p = Peers::new();
    p.add(id(1));
    p.add(id(0));
    assert!(p.contains_peer_id(&id(0)));
    assert!(!p.contains_peer_id(&id(2)));
    assert_eq!(p.get_state(&id(0)), Some(PeerState::AwaitingPeers));
    assert_eq!(p.get_state(&id(2)), None);
    p.set_state(&id(1), PeerState::Generating);
    assert_eq!(p.get_state(&id(1)), Some(PeerState::Generating));
    assert_eq!(p.get_state(&id(0)), Some(PeerState::AwaitingPeers));
    assert_eq!(p.state_at(1), PeerState::Generating);
    let all = p.iter();
    assert_eq!(all.len(), 2);
    assert_eq!((all[0].0, all[0].1.state), (id(0), PeerState::AwaitingPeers));
    assert_eq!((all[1].0, all[1].1.state), (id(1), PeerState::Generating));
}

#[test]
fn a_known_participant_is_left_as_it_is() {
    let mut p = Peers::new();
    p.add(id(0));
    p.add(id(1));
    p.add(id(2));
    p.set_state(&id(1), PeerState::Generating);
    p.set_state(&id(2), PeerState::Complete);
    p.add(id(1));
    p.add(id(2));
    p.add(id(0));
    assert_eq!(p.len(), 3);
    assert_eq!(p.get_state(&id(0)), Some(PeerState::AwaitingPeers));
    assert_eq!(p.get_state(&id(1)), Some(PeerState::Generating));
    assert_eq!(p.get_state(&id(2)), Some(PeerState::Complete));
    assert_eq!(p.keys(), vec![id(0), id(1), id(2)]);
}

#[test]
fn a_participant_that_leaves_is_marked_and_keeps_its_index() {
    let mut p = Peers::new();
    p.add(id(0));
    p.add(id(1));
    p.add(id(2));
    p.set_state(&id(1), PeerState::Generating);
    p.del(&id(0));
    assert_eq!(p.len(), 3);
    assert_eq!(p.get_position(&id(0)), Some(0));
    assert_eq!(p.get_position(&id(1)), Some(1));
    assert_eq!(p.get_position(&id(2)), Some(2));
    assert_eq!(p.get_state(&id(0)), Some(PeerState::Canceled));
    assert_eq!(p.get_state(&id(1)), Some(PeerState::Generating));
    assert_eq!(p.get_state(&id(2)), Some(PeerState::AwaitingPeers));
    assert_eq!(p.get_peer_id_by_index(0), Some(id(0)));
    // Leaving twice, or leaving without having been known, changes nothing.
    p.del(&id(0));
    p.del(&id(3));
    assert_eq!(p.len(), 3);
    assert_eq!(p.get_position(&id(3)), None);
    assert_eq!(p.get_state(&id(0)), Some(PeerState::Canceled));
    // Nor does coming back: a participant is created on first contact only.
    p.add(id(0));
    assert_eq!(p.get_state(&id(0)), Some(PeerState::Canceled));
    assert_eq!(p.get_position(&id(1)), Some(1));
}

#[test]
fn bytes_are_ranked_lexicographically() {
    assert_eq!(rank_bytes(b"abc", b"abd"), Rank::Below);
    assert_eq!(rank_bytes(b"ab", b"abc"), Rank::Below);
    assert_eq!(rank_bytes(b"abc", b"abc"), Rank::Same);
    assert_eq!(rank_bytes(b"b", b"abc"), Rank::Above);
    assert_eq!(rank_bytes(b"abc", b"ab"), Rank::Above);
    assert_eq!(rank_bytes(b"", b""), Rank::Same);
    assert_eq!(rank_bytes(b"", b"a"), Rank::Below);
}

#[test]
fn a_node_knows_itself_and_counts_the_others() {
    let mut r = Registry::new(id(2));
    assert_eq!(r.get_peers_len(), 1);
    assert_eq!(r.get_local_index(), 0);
    assert_eq!(r.local_peer_id(), id(2));
    assert_eq!(r.local_string_peer_id(), "1TejxrS");
    assert_eq!(r.add_peer(id(0)), 0);
    assert_eq!(r.add_peer(id(3)), 2);
    assert_eq!(r.add_peer(id(0)), 0);
    assert_eq!(r.get_local_index(), 1);
    assert_eq!(r.get_peers_len(), 3);
    assert_eq!(r.get_peer_id_by_index(2), Some(id(3)));
    assert_eq!(r.generating_count(), 0);
    assert!(r.set_peer_generating(&id(0)));
    assert!(!r.set_peer_generating(&id(1)));
    assert_eq!(r.generating_count(), 1);
    // A mark on the node's own entry does not count among the others.
    assert!(r.set_peer_generating(&id(2)));
    assert_eq!(r.generating_count(), 1);
    assert!(r.set_peer_generating(&id(3)));
    assert_eq!(r.generating_count(), 2);
    // A known participant keeps what is recorded about it.
    assert_eq!(r.add_peer(id(3)), 2);
    assert_eq!(r.generating_count(), 2);
    // A participant that leaves keeps its index.
    r.peer_disconnected(&id(0));
    assert_eq!(r.get_peers_len(), 3);
    assert_eq!(r.get_local_index(), 1);
    assert_eq!(r.generating_count(), 1);
    r.peer_disconnected(&id(1));
    assert_eq!(r.get_peers_len(), 3);
}

#[test]
fn a_node_tracks_its_own_state() {
    let mut r = Registry::new(id(0));
    assert_eq!(r.local_state(), PeerState::AwaitingPeers);
    r.set_local_generating();
    assert_eq!(r.local_state(), PeerState::Generating);
    assert!(!r.is_local_complete() && !r.is_local_canceled());
    r.set_local_complete();
    assert!(r.is_local_complete());
    r.set_local_canceled();
    assert!(r.is_local_canceled());
    r.set_local_state(PeerState::AwaitingPeers);
    assert_eq!(r.local_state(), PeerState::AwaitingPeers);
}
