//! What one node has accumulated in the course of a ceremony.

use crate::party::{key_index, shared_key_point, shared_point, KeyMaterial, KeyProof, Params, PublicPoint, Share, VssScheme};
use crate::peer::PeerState;
use crate::peer_map::{PeerIndex, PeerMap};
use crate::registry::Registry;
use multi_party_ecdsa::protocols::multi_party_ecdsa::gg_2018::party_i::{
    KeyGenBroadcastMessage1 as KeyGenCommit, KeyGenDecommitMessage1 as KeyGenDecommit, SharedKeys,
};
use vstd::prelude::*;

verus! {

/// A count of participants.
pub type Count = u16;

/// What can go wrong around a ceremony.
#[derive(Debug)]
pub enum Error {
    /// The transport failed.
    Network(String),
    /// The periodic wake-up failed.
    Periodic,
    /// The chain client failed.
    Client(String),
    /// Not a failure: the protocol driver asks to be replaced by a fresh one.
    Rebuild,
}

/// The parameters of a ceremony, supplied from outside.
#[derive(Debug, PartialEq, Eq, Structural, Copy, Clone)]
pub struct NodeConfig {
    pub threshold: Count,
    pub players: Count,
}

impl NodeConfig {
    /// The shape of the ceremony as the threshold scheme wants it.
    pub fn get_params(&self) -> (r: Params)
        ensures
            r.threshold == self.threshold,
            r.share_count == self.players,
    {
        Params { threshold: self.threshold, share_count: self.players }
    }
}

/// This node's private first-round material, with the index it was made for.
#[derive(Debug)]
pub struct LocalKey {
    pub party_index: PeerIndex,
    pub material: KeyMaterial,
}

/// The artifacts of a ceremony, each filed under the index of its author.
#[derive(Debug)]
pub struct KeyGenState {
    /// The proofs of all participants have been verified.
    pub complete: bool,
    /// This node's private first-round material.
    pub local_key: Option<LocalKey>,
    pub commits: PeerMap<KeyGenCommit>,
    pub decommits: PeerMap<KeyGenDecommit>,
    pub vsss: PeerMap<VssScheme>,
    pub secret_shares: PeerMap<Share>,
    pub proofs: PeerMap<KeyProof>,
    /// This node's share of the private key and the shared public key.
    pub shared_keys: Option<SharedKeys>,
}

/// The accumulated artifacts as the contracts see them: each map by what it
/// holds under each index.
pub struct StateView {
    pub complete: bool,
    pub local_key: Option<LocalKey>,
    pub commits: Map<PeerIndex, KeyGenCommit>,
    pub decommits: Map<PeerIndex, KeyGenDecommit>,
    pub vsss: Map<PeerIndex, VssScheme>,
    pub secret_shares: Map<PeerIndex, Share>,
    pub proofs: Map<PeerIndex, KeyProof>,
    pub shared_keys: Option<SharedKeys>,
}

impl View for KeyGenState {
    type V = StateView;

    open spec fn view(&self) -> StateView {
        StateView {
            complete: self.complete,
            local_key: self.local_key,
            commits: self.commits@,
            decommits: self.decommits@,
            vsss: self.vsss@,
            secret_shares: self.secret_shares@,
            proofs: self.proofs@,
            shared_keys: self.shared_keys,
        }
    }
}

impl KeyGenState {
    /// Well-formedness: the five maps are well formed, a complete ceremony
    /// has its key material, key material has been constructed from
    /// first-round material only, and first-round material is kept with the
    /// index it was made for.
    pub open spec fn wf(&self) -> bool {
        &&& self.commits.wf()
        &&& self.decommits.wf()
        &&& self.vsss.wf()
        &&& self.secret_shares.wf()
        &&& self.proofs.wf()
        &&& self.complete ==> self.shared_keys is Some
        &&& self.shared_keys is Some ==> self.local_key is Some
        &&& self.local_key matches Some(key) ==> key_index(key.material) == key.party_index
    }

    /// Nothing has been accumulated.
    pub open spec fn is_clear(&self) -> bool {
        &&& !self.complete
        &&& self.local_key is None
        &&& self.commits.count() == 0
        &&& self.decommits.count() == 0
        &&& self.vsss.count() == 0
        &&& self.secret_shares.count() == 0
        &&& self.proofs.count() == 0
        &&& self.shared_keys is None
    }

    /// Whether the shared key is due to be constructed: it has not been, this
    /// node holds its own first-round material, and a sharing scheme, a share
    /// and a decommitment are at hand from each of the `players`.
    pub open spec fn construction_due(&self, players: Count) -> bool {
        &&& !self.complete
        &&& self.shared_keys is None
        &&& self.local_key is Some
        &&& self.vsss.count() == players
        &&& self.secret_shares.count() == players
        &&& self.decommits.count() == players
    }

    /// A state in which nothing has been accumulated.
    pub fn new() -> (r: Self)
        ensures
            r.wf(),
            r.is_clear(),
    {
        KeyGenState {
            complete: false,
            local_key: None,
            commits: PeerMap::new(),
            decommits: PeerMap::new(),
            vsss: PeerMap::new(),
            secret_shares: PeerMap::new(),
            proofs: PeerMap::new(),
            shared_keys: None,
        }
    }

    /// The shared public key, once it has been constructed.
    pub fn shared_public_key(&self) -> (r: Option<PublicPoint>)
        ensures
            r == match self.shared_keys {
                Some(keys) => Some(shared_key_point(keys)),
                None => None,
            },
    {
        match &self.shared_keys {
            Some(keys) => Some(shared_point(keys)),
            None => None,
        }
    }

    /// Forgets everything: all five maps, the completion flag, the key
    /// material and this node's first-round material, at once.
    pub fn reset(&mut self)
        ensures
            final(self).wf(),
            final(self).is_clear(),
    {
        *self = KeyGenState::new();
    }

    /// Whether the shared key is due to be constructed.
    pub fn is_construction_due(&self, players: Count) -> (due: bool)
        ensures
            due == self.construction_due(players),
    {
        !self.complete && self.shared_keys.is_none() && self.local_key.is_some() && self.vsss.len()
            == players as usize && self.secret_shares.len() == players as usize
            && self.decommits.len() == players as usize
    }
}

impl Default for KeyGenState {
    fn default() -> (r: Self)
        ensures
            r.wf(),
            r.is_clear(),
    {
        KeyGenState::new()
    }
}

/// What a protocol driver works on and what outlives it: the parameters of
/// the ceremony, the participants, and the accumulated artifacts.
#[derive(Debug)]
pub struct Environment {
    pub config: NodeConfig,
    pub registry: Registry,
    pub state: KeyGenState,
}

impl Environment {
    /// Well-formedness of the participants and of the accumulated artifacts;
    /// a node whose ceremony is complete is marked as complete.
    pub open spec fn wf(&self) -> bool {
        &&& self.registry.wf()
        &&& self.state.wf()
        &&& self.state.complete ==> self.registry.local_state_spec() == PeerState::Complete
    }
}

} // verus!
