//! The messages that the participants of a ceremony exchange.

use crate::party::{KeyProof, Share, VssScheme};
use crate::peer_map::PeerIndex;
use libp2p_identity::PeerId;
use multi_party_ecdsa::protocols::multi_party_ecdsa::gg_2018::party_i::{
    KeyGenBroadcastMessage1 as KeyGenCommit, KeyGenDecommitMessage1 as KeyGenDecommit,
};
use vstd::prelude::*;

verus! {

/// The handshake by which the participants learn that all of them are
/// reachable.
#[derive(Debug, Clone)]
pub enum ConfirmPeersMessage {
    /// Sent by the participant at the given index to ask for a confirmation.
    Confirming(PeerIndex),
    /// The answer: the base-58 text of the identity of the participant that
    /// answers.
    Confirmed(String),
}

/// The rounds of the key generation itself, each tagged with the index of its
/// author.
#[derive(Debug, Clone)]
pub enum KeyGenMessage {
    CommitAndDecommit(PeerIndex, KeyGenCommit, KeyGenDecommit),
    VSS(PeerIndex, VssScheme),
    SecretShare(PeerIndex, Share),
    Proof(PeerIndex, KeyProof),
}

/// A message of the signing protocol, which the key generation passes over.
#[derive(Debug, Clone)]
pub struct SignMessage {
    pub payload: Vec<u8>,
}

/// Anything that travels between participants. The handshake and the key
/// generation carry the fingerprint of the sender's participant set.
#[derive(Debug, Clone)]
pub enum GossipMessage {
    ConfirmPeers(ConfirmPeersMessage, u64),
    KeyGen(KeyGenMessage, u64),
    Sign(SignMessage),
}

/// An incoming message with its sender, where the transport knows it; an
/// outgoing message with its one recipient, or with none to reach everyone.
pub type MessageWithSender = (GossipMessage, Option<PeerId>);

} // verus!
