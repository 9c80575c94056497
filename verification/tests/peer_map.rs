use keygen::peer_map::PeerMap;
use keygen::state::{KeyGenState, NodeConfig};

#[test]
fn the_first_write_wins() {
    let mut m: PeerMap<&str> = PeerMap::new();
    assert!(m.is_empty());
    assert!(m.insert_if_absent(3, "three"));
    assert!(!m.insert_if_absent(3, "drei"));
    assert_eq!(m.get(3), Some(&"three"));
    assert_eq!(m.len(), 1);
}

#[test]
fn entries_come_out_in_the_order_of_their_index() {
    let mut m: PeerMap<u32> = PeerMap::new();
    for k in [5u16, 1, 65535, 0, 3, 2, 4] {
        assert!(m.insert_if_absent(k, 10 * k as u32));
    }
    assert_eq!(m.keys(), &vec![0u16, 1, 2, 3, 4, 5, 65535]);
    assert_eq!(m.values(), &vec![0u32, 10, 20, 30, 40, 50, 655350]);
    assert_eq!(m.len(), 7);
    for k in [0u16, 1, 2, 3, 4, 5, 65535] {
        assert!(m.contains_key(k));
        assert_eq!(m.get(k), Some(&(10 * k as u32)));
    }
    for k in [6u16, 100, 65534] {
        assert!(!m.contains_key(k));
        assert_eq!(m.get(k), None);
    }
    assert!(!m.insert_if_absent(4, 7));
    assert_eq!(m.values(), &vec![0u32, 10, 20, 30, 40, 50, 655350]);
}

#[test]
fn clearing_drops_everything() {
    let mut m: PeerMap<u8> = PeerMap::new();
    m.insert_if_absent(1, 1);
    m.insert_if_absent(0, 0);
    m.clear();
    assert!(m.is_empty());
    assert_eq!(m.len(), 0);
    assert!(!m.contains_key(1));
    assert!(m.insert_if_absent(1, 9));
    assert_eq!(m.get(1), Some(&9));
}

#[test]
fn a_fresh_state_holds_nothing() {
    for state in [KeyGenState::new(), KeyGenState::default()] {
        assert!(!state.complete);
        assert!(state.local_key.is_none());
        assert!(state.shared_keys.is_none());
        assert!(state.shared_public_key().is_none());
        assert!(state.commits.is_empty() && state.decommits.is_empty());
        assert!(state.vsss.is_empty() && state.secret_shares.is_empty() && state.proofs.is_empty());
        assert!(!state.is_construction_due(1));
        // Without first-round material nothing is due, not even for no players.
        assert!(!state.is_construction_due(0));
    }
}

#[test]
fn a_reset_leaves_a_fresh_state() {
    let mut state = KeyGenState::new();
    state.complete = true;
    state.reset();
    assert!(!state.complete);
    assert_eq!(format!("{:?}", state), format!("{:?}", KeyGenState::new()));
}

#[test]
fn the_shape_of_a_ceremony_is_its_configuration() {
    let config = NodeConfig { threshold: 2, players: 4 };
    let shape = config.get_params();
    assert_eq!((shape.threshold, shape.share_count), (2, 4));
}
