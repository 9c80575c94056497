//! One node's view of the participants: the registry of all of them, the
//! node's own identity among them, and the node's own lifecycle state.

use crate::peer::{base58_text, peer_key, to_base58, PeerInfo, PeerState, Peers};
use libp2p_identity::PeerId;
use vstd::prelude::*;

verus! {

/// How many of the first `n` participants, the one at `skip` left out, are in
/// state `Generating`.
pub open spec fn generating_in(states: Seq<PeerState>, skip: int, n: int) -> nat
    decreases n,
{
    if n <= 0 {
        0
    } else {
        let rest = generating_in(states, skip, n - 1);
        if n - 1 != skip && states[n - 1] == PeerState::Generating {
            rest + 1
        } else {
            rest
        }
    }
}

/// The participants as one node sees them.
#[derive(Debug)]
pub struct Registry {
    local: PeerId,
    local_info: PeerInfo,
    peers: Peers,
}

impl Registry {
    /// All participants, this node among them.
    pub closed spec fn peers(&self) -> Peers {
        self.peers
    }

    /// This node's own identity.
    pub closed spec fn local(&self) -> PeerId {
        self.local
    }

    /// This node's own lifecycle state.
    pub closed spec fn local_state_spec(&self) -> PeerState {
        self.local_info.state
    }

    /// Well-formedness: the registry is well formed and knows this node.
    pub open spec fn wf(&self) -> bool {
        &&& self.peers().wf()
        &&& self.peers().position(peer_key(self.local())) is Some
    }

    /// This node's index in the canonical order.
    pub open spec fn local_index(&self) -> int {
        self.peers().position(peer_key(self.local()))->0
    }

    /// How many participants other than this node are in state `Generating`.
    pub open spec fn others_generating(&self) -> nat {
        generating_in(self.peers().states(), self.local_index(), self.peers().states().len() as int)
    }

    /// The view of a node that knows only itself.
    pub fn new(local: PeerId) -> (r: Self)
        ensures
            r.wf(),
            r.local() == local,
            r.local_state_spec() == PeerState::AwaitingPeers,
            r.peers().canon() == seq![peer_key(local)],
            r.peers().texts() == seq![base58_text(local)],
            r.peers().ids() == seq![local],
            r.peers().states() == seq![PeerState::AwaitingPeers],
    {
        let mut peers = Peers::new();
        peers.add(local);
        proof {
            assert(peers.canon() =~= seq![peer_key(local)]);
            assert(peers.texts() =~= seq![base58_text(local)]);
            assert(peers.ids() =~= seq![local]);
            assert(peers.states() =~= seq![PeerState::AwaitingPeers]);
        }
        Registry { local, local_info: PeerInfo { state: PeerState::AwaitingPeers }, peers }
    }

    /// Takes note of a participant and returns its index. A participant that
    /// is already known keeps what is recorded about it.
    pub fn add_peer(&mut self, who: PeerId) -> (index: usize)
        requires
            old(self).wf(),
        ensures
            final(self).wf(),
            final(self).local() == old(self).local(),
            final(self).local_state_spec() == old(self).local_state_spec(),
            final(self).peers().position(peer_key(who)) == Some(index as int),
            match old(self).peers().position(peer_key(who)) {
                Some(p) => final(self).peers() == old(self).peers(),
                None => {
                    &&& index <= old(self).peers().canon().len()
                    &&& final(self).peers().canon() == old(self).peers().canon().insert(
                        index as int,
                        peer_key(who),
                    )
                    &&& final(self).peers().texts() == old(self).peers().texts().insert(
                        index as int,
                        base58_text(who),
                    )
                    &&& final(self).peers().ids() == old(self).peers().ids().insert(
                        index as int,
                        who,
                    )
                    &&& final(self).peers().states() == old(self).peers().states().insert(
                        index as int,
                        PeerState::AwaitingPeers,
                    )
                },
            },
    {
        self.peers.add(who);
        proof {
            let key = peer_key(self.local);
            let before = old(self).peers;
            if before.position(peer_key(who)) is None {
                let i = before.canon().index_of(key);
                let p = self.peers.position(peer_key(who))->0;
                assert(0 <= i < before.canon().len() && before.canon()[i] == key);
                if i < p {
                    assert(self.peers.canon()[i] == key);
                } else {
                    assert(self.peers.canon()[i + 1] == key);
                }
            }
        }
        match self.peers.get_position(&who) {
            Some(p) => p,
            None => 0,
        }
    }

    /// Takes note that a participant has left: it keeps its index and is
    /// marked `Canceled`. Nothing changes for an unknown participant.
    pub fn peer_disconnected(&mut self, who: &PeerId)
        requires
            old(self).wf(),
        ensures
            final(self).wf(),
            final(self).local() == old(self).local(),
            final(self).local_state_spec() == old(self).local_state_spec(),
            final(self).peers().canon() == old(self).peers().canon(),
            final(self).peers().texts() == old(self).peers().texts(),
            final(self).peers().ids() == old(self).peers().ids(),
            final(self).peers().states() == match old(self).peers().position(peer_key(*who)) {
                Some(p) => old(self).peers().states().update(p, PeerState::Canceled),
                None => old(self).peers().states(),
            },
    {
        self.peers.del(who);
    }

    /// Number of known participants, this node among them.
    pub fn get_peers_len(&self) -> (n: usize)
        ensures
            n == self.peers().canon().len(),
    {
        self.peers.len()
    }

    /// The fingerprint of the participant set.
    pub fn get_peers_hash(&self) -> (h: u64)
        ensures
            h == crate::peer::fingerprint(self.peers().canon()),
    {
        self.peers.get_hash()
    }

    /// This node's index in the canonical order.
    pub fn get_local_index(&self) -> (index: usize)
        requires
            self.wf(),
        ensures
            index == self.local_index(),
            index < self.peers().canon().len(),
    {
        proof {
            let key = peer_key(self.local);
            let i = self.peers.canon().index_of(key);
            assert(0 <= i < self.peers.canon().len());
        }
        match self.peers.get_position(&self.local) {
            Some(p) => p,
            None => 0,
        }
    }

    /// The participant at `index` of the canonical order, if there is one.
    pub fn get_peer_id_by_index(&self, index: usize) -> (r: Option<PeerId>)
        requires
            self.wf(),
        ensures
            r == if index < self.peers().ids().len() {
                Some(self.peers().ids()[index as int])
            } else {
                None
            },
    {
        self.peers.get_peer_id_by_index(index)
    }

    /// The base-58 text of this node's identity.
    pub fn local_string_peer_id(&self) -> (s: String)
        ensures
            s@ == base58_text(self.local()),
    {
        to_base58(&self.local)
    }

    /// This node's own identity.
    pub fn local_peer_id(&self) -> (id: PeerId)
        ensures
            id == self.local(),
    {
        self.local
    }

    /// This node's own lifecycle state.
    pub fn local_state(&self) -> (s: PeerState)
        ensures
            s == self.local_state_spec(),
    {
        self.local_info.state
    }

    /// Whether this node has completed the ceremony.
    pub fn is_local_complete(&self) -> (b: bool)
        ensures
            b == (self.local_state_spec() == PeerState::Complete),
    {
        self.local_info.state == PeerState::Complete
    }

    /// Whether this node has given the ceremony up.
    pub fn is_local_canceled(&self) -> (b: bool)
        ensures
            b == (self.local_state_spec() == PeerState::Canceled),
    {
        self.local_info.state == PeerState::Canceled
    }

    /// Sets this node's own lifecycle state.
    pub fn set_local_state(&mut self, state: PeerState)
        ensures
            final(self).local_state_spec() == state,
            final(self).local() == old(self).local(),
            final(self).peers() == old(self).peers(),
    {
        self.local_info = PeerInfo { state };
    }

    /// Marks this node as generating.
    pub fn set_local_generating(&mut self)
        ensures
            final(self).local_state_spec() == PeerState::Generating,
            final(self).local() == old(self).local(),
            final(self).peers() == old(self).peers(),
    {
        self.set_local_state(PeerState::Generating);
    }

    /// Marks this node as done.
    pub fn set_local_complete(&mut self)
        ensures
            final(self).local_state_spec() == PeerState::Complete,
            final(self).local() == old(self).local(),
            final(self).peers() == old(self).peers(),
    {
        self.set_local_state(PeerState::Complete);
    }

    /// Marks this node as having given up.
    pub fn set_local_canceled(&mut self)
        ensures
            final(self).local_state_spec() == PeerState::Canceled,
            final(self).local() == old(self).local(),
            final(self).peers() == old(self).peers(),
    {
        self.set_local_state(PeerState::Canceled);
    }

    /// Marks a participant as generating. Returns whether the participant is
    /// known; nothing changes for an unknown one.
    pub fn set_peer_generating(&mut self, who: &PeerId) -> (known: bool)
        requires
            old(self).wf(),
        ensures
            final(self).wf(),
            known == old(self).peers().position(peer_key(*who)) is Some,
            !known ==> *final(self) == *old(self),
            final(self).local() == old(self).local(),
            final(self).local_state_spec() == old(self).local_state_spec(),
            final(self).peers().canon() == old(self).peers().canon(),
            final(self).peers().texts() == old(self).peers().texts(),
            final(self).peers().ids() == old(self).peers().ids(),
            final(self).peers().states() == match old(self).peers().position(peer_key(*who)) {
                Some(p) => old(self).peers().states().update(p, PeerState::Generating),
                None => old(self).peers().states(),
            },
    {
        if self.peers.contains_peer_id(who) {
            self.peers.set_state(who, PeerState::Generating);
            true
        } else {
            false
        }
    }

    /// How many participants other than this node are marked as generating.
    pub fn generating_count(&self) -> (n: usize)
        requires
            self.wf(),
        ensures
            n == self.others_generating(),
    {
        let own = self.get_local_index();
        let total = self.peers.len();
        let mut n: usize = 0;
        let mut i: usize = 0;
        while i < total
            invariant
                i <= total,
                total == self.peers.states().len(),
                n == generating_in(self.peers.states(), own as int, i as int),
                n <= i,
            decreases total - i,
        {
            if i != own && self.peers.state_at(i) == PeerState::Generating {
                n += 1;
            }
            i += 1;
        }
        n
    }
}

} // verus!
