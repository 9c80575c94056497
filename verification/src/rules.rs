//! The rules of the ceremony, as relations between what a node has before
//! and after it handles a message or runs a step.
//!
//! The steps of the threshold scheme draw random numbers, so what they return
//! is not determined by what they are given; whether they succeed is. A rule
//! that involves a step therefore says that some result of the step was dealt
//! with, and that the result was a success exactly when the scheme's own
//! check of the inputs holds.

use crate::buffered::DriveOutcome;
use crate::message::{ConfirmPeersMessage, GossipMessage, KeyGenMessage, MessageWithSender};
use crate::party::{
    commitments_open, key_proof_len, modulus_positive, proofs_valid, shared_key_point,
    shares_valid, summed_point, vss_commitment_count, KeyMaterial, KeyProof, Share, VssScheme,
    KEY_PROOF_ROUNDS,
};
use crate::peer::{base58_text, fingerprint, peer_key, PeerState};
use crate::peer_map::PeerIndex;
use crate::registry::Registry;
use crate::state::{Environment, KeyGenState, LocalKey};
use libp2p_identity::PeerId;
use multi_party_ecdsa::protocols::multi_party_ecdsa::gg_2018::party_i::{
    KeyGenBroadcastMessage1 as KeyGenCommit, KeyGenDecommitMessage1 as KeyGenDecommit, SharedKeys,
};
use multi_party_ecdsa::Error as PartyError;
use vstd::prelude::*;

verus! {

/// What the driver remembers of the outcomes of the messages it has handled.
#[derive(Debug, PartialEq, Eq, Structural, Copy, Clone)]
pub struct Edge {
    /// Whether the message last taken into account was handled well.
    pub last_ok: bool,
    /// Whether the driver asks to be replaced.
    pub should_rebuild: bool,
    /// Whether the request has changed in the tick under way; no further
    /// outcome is taken into account until the next tick.
    pub latched: bool,
}

/// Takes one outcome into account: the driver asks to be replaced exactly
/// when the outcome differs from the one before it.
pub open spec fn observe(e: Edge, ok: bool) -> Edge {
    if e.latched {
        e
    } else {
        Edge {
            last_ok: ok,
            should_rebuild: e.last_ok != ok,
            latched: e.should_rebuild != (e.last_ok != ok),
        }
    }
}

/// The fingerprint that outgoing messages carry: that of the participants as
/// this node knows them.
pub open spec fn our_hash(env: Environment) -> u64 {
    fingerprint(env.registry.peers().canon())
}

/// The participant that stands at `index` of the canonical order, if there
/// is one.
pub open spec fn recipient(env: Environment, index: int) -> Option<PeerId> {
    if 0 <= index < env.registry.peers().ids().len() {
        Some(env.registry.peers().ids()[index])
    } else {
        None
    }
}

/// The participants are the same, with the given lifecycle states, and this
/// node is in the given lifecycle state.
pub open spec fn registry_is(
    pre: Registry,
    post: Registry,
    states: Seq<PeerState>,
    local_state: PeerState,
) -> bool {
    &&& post.local() == pre.local()
    &&& post.peers().canon() == pre.peers().canon()
    &&& post.peers().texts() == pre.peers().texts()
    &&& post.peers().ids() == pre.peers().ids()
    &&& post.peers().states() == states
    &&& post.local_state_spec() == local_state
}

/// The ceremony has been given up: everything accumulated is gone at once,
/// and this node is marked as canceled. The participants stay as they are.
pub open spec fn aborted(pre: Environment, post: Environment) -> bool {
    &&& post.config == pre.config
    &&& post.state.wf()
    &&& post.state.is_clear()
    &&& registry_is(pre.registry, post.registry, pre.registry.peers().states(), PeerState::Canceled)
}

/// This node has entered the ceremony with the given first-round material:
/// the material is kept, commitment and decommitment are filed under the
/// node's index and broadcast, and the node is marked as generating.
pub open spec fn generation_begun(
    pre: Environment,
    pre_out: Seq<MessageWithSender>,
    index: PeerIndex,
    key: KeyMaterial,
    commit: KeyGenCommit,
    decommit: KeyGenDecommit,
    post: Environment,
    post_out: Seq<MessageWithSender>,
) -> bool {
    &&& post.config == pre.config
    &&& registry_is(
        pre.registry,
        post.registry,
        pre.registry.peers().states(),
        PeerState::Generating,
    )
    &&& post.state.wf()
    &&& post.state == (KeyGenState {
        local_key: Some(LocalKey { party_index: index, material: key }),
        commits: post.state.commits,
        decommits: post.state.decommits,
        ..pre.state
    })
    &&& post.state.commits@ == pre.state.commits.with_entry(index, commit)
    &&& post.state.decommits@ == pre.state.decommits.with_entry(index, decommit)
    &&& post_out == pre_out.push(
        (
            GossipMessage::KeyGen(
                KeyGenMessage::CommitAndDecommit(index, commit, decommit),
                our_hash(pre),
            ),
            None,
        ),
    )
}

/// The messages that carry the first `n` shares to their owners, one message
/// per participant other than the author, each addressed to that participant
/// alone. A share that no participant stands for is not sent.
pub open spec fn share_messages(
    env: Environment,
    author: PeerIndex,
    shares: Seq<Share>,
    n: int,
) -> Seq<MessageWithSender>
    decreases n,
{
    if n <= 0 {
        Seq::empty()
    } else {
        let rest = share_messages(env, author, shares, n - 1);
        let to = recipient(env, n - 1);
        if n - 1 != author && to is Some {
            rest.push(
                (
                    GossipMessage::KeyGen(
                        KeyGenMessage::SecretShare(author, shares[n - 1]),
                        our_hash(env),
                    ),
                    to,
                ),
            )
        } else {
            rest
        }
    }
}

/// Whether the result of the distribution step can be used: it succeeded, it
/// names this node's own index, and it holds a share for this node.
pub open spec fn distribution_usable(
    pre: Environment,
    outcome: Result<(VssScheme, Vec<Share>, PeerIndex), PartyError>,
) -> bool {
    &&& pre.state.local_key is Some
    &&& outcome matches Ok(made)
    &&& made.2 == pre.state.local_key->0.party_index
    &&& made.2 < made.1@.len()
}

/// The result of the distribution step has been dealt with. A usable result
/// is filed under this node's index; the sharing scheme is broadcast and each
/// other participant is sent its share. Any other result ends the ceremony.
pub open spec fn distribution_accepted(
    pre: Environment,
    pre_out: Seq<MessageWithSender>,
    outcome: Result<(VssScheme, Vec<Share>, PeerIndex), PartyError>,
    post: Environment,
    post_out: Seq<MessageWithSender>,
) -> bool {
    if distribution_usable(pre, outcome) {
        let made = outcome->Ok_0;
        &&& post.config == pre.config
        &&& post.registry == pre.registry
        &&& post.state.wf()
        &&& post.state == (KeyGenState {
            vsss: post.state.vsss,
            secret_shares: post.state.secret_shares,
            ..pre.state
        })
        &&& post.state.vsss@ == pre.state.vsss.with_entry(made.2, made.0)
        &&& post.state.secret_shares@ == pre.state.secret_shares.with_entry(
            made.2,
            made.1@[made.2 as int],
        )
        &&& post_out == pre_out.push(
            (GossipMessage::KeyGen(KeyGenMessage::VSS(made.2, made.0), our_hash(pre)), None),
        ) + share_messages(pre, made.2, made.1@, made.1@.len() as int)
    } else {
        &&& aborted(pre, post)
        &&& post_out == pre_out
    }
}

/// The result of the construction step has been dealt with. On success the
/// key material is kept, and this node's proof is filed under its index and
/// broadcast. A failure ends the ceremony.
pub open spec fn construction_accepted(
    pre: Environment,
    pre_out: Seq<MessageWithSender>,
    outcome: Result<(SharedKeys, KeyProof), PartyError>,
    post: Environment,
    post_out: Seq<MessageWithSender>,
) -> bool {
    if pre.state.local_key is Some && outcome is Ok {
        let own = pre.state.local_key->0.party_index;
        let made = outcome->Ok_0;
        &&& post.config == pre.config
        &&& post.registry == pre.registry
        &&& post.state.wf()
        &&& post.state == (KeyGenState {
            proofs: post.state.proofs,
            shared_keys: Some(made.0),
            ..pre.state
        })
        &&& post.state.proofs@ == pre.state.proofs.with_entry(own, made.1)
        &&& post_out == pre_out.push(
            (GossipMessage::KeyGen(KeyGenMessage::Proof(own, made.1), our_hash(pre)), None),
        )
    } else {
        &&& aborted(pre, post)
        &&& post_out == pre_out
    }
}

/// The result of the verification of all proofs has been dealt with. A
/// failure ends the ceremony. A success completes it, and this node is marked
/// so, where the node has constructed its key material; a node without key
/// material is left as it is, since a complete ceremony has its key material.
pub open spec fn verification_accepted(
    pre: Environment,
    outcome: Result<(), PartyError>,
    post: Environment,
) -> bool {
    if outcome is Err {
        aborted(pre, post)
    } else if pre.state.shared_keys is Some {
        &&& post.config == pre.config
        &&& registry_is(
            pre.registry,
            post.registry,
            pre.registry.peers().states(),
            PeerState::Complete,
        )
        &&& post.state == (KeyGenState { complete: true, ..pre.state })
    } else {
        post == pre
    }
}

/// Whether the proofs are due to be verified: the ceremony is not complete,
/// and a proof and a decommitment are at hand from each of the players.
pub open spec fn verification_due(env: Environment) -> bool {
    &&& !env.state.complete
    &&& env.state.proofs.count() == env.config.players
    &&& env.state.decommits.count() == env.config.players
}

/// Whether the distribution step is due: this node has not distributed yet,
/// and a commitment and a decommitment are at hand from each of the players.
pub open spec fn distribution_due(env: Environment) -> bool {
    &&& env.state.local_key is Some
    &&& !env.state.vsss.has(env.state.local_key->0.party_index)
    &&& env.state.commits.count() == env.config.players
    &&& env.state.decommits.count() == env.config.players
}

/// Whether every commitment message can be checked by the threshold scheme.
pub open spec fn commits_checkable(commits: Seq<KeyGenCommit>) -> bool {
    forall|i: int|
        0 <= i < commits.len() ==> key_proof_len(#[trigger] commits[i]) >= KEY_PROOF_ROUNDS
            && modulus_positive(commits[i])
}

/// Whether every sharing scheme carries at least one commitment.
pub open spec fn schemes_usable(schemes: Seq<VssScheme>) -> bool {
    forall|i: int| 0 <= i < schemes.len() ==> vss_commitment_count(#[trigger] schemes[i]) > 0
}

/// Whether the distribution step can be run on what has been accumulated.
pub open spec fn distribution_possible(env: Environment) -> bool {
    &&& env.config.threshold < env.config.players
    &&& commits_checkable(env.state.commits.items())
}

/// Whether the construction step can be run on what has been accumulated.
pub open spec fn construction_possible(env: Environment) -> bool {
    &&& env.state.local_key is Some
    &&& env.state.local_key->0.party_index < u16::MAX
    &&& schemes_usable(env.state.vsss.items())
}

/// A commitment and a decommitment have been filed under `index`, each unless
/// its place was taken.
pub open spec fn commitment_filed(
    pre: Environment,
    index: PeerIndex,
    commit: KeyGenCommit,
    decommit: KeyGenDecommit,
    post: Environment,
) -> bool {
    &&& post.config == pre.config
    &&& post.registry == pre.registry
    &&& post.state.wf()
    &&& post.state == (KeyGenState {
        commits: post.state.commits,
        decommits: post.state.decommits,
        ..pre.state
    })
    &&& post.state.commits@ == pre.state.commits.with_entry(index, commit)
    &&& post.state.decommits@ == pre.state.decommits.with_entry(index, decommit)
}

/// A proof has been filed under `index`, unless the place was taken.
pub open spec fn proof_filed(pre: Environment, index: PeerIndex, proof: KeyProof, post: Environment) -> bool {
    &&& post.config == pre.config
    &&& post.registry == pre.registry
    &&& post.state.wf()
    &&& post.state == (KeyGenState { proofs: post.state.proofs, ..pre.state })
    &&& post.state.proofs@ == pre.state.proofs.with_entry(index, proof)
}

/// What handling a key-generation message does.
///
/// Without first-round material of its own the node takes no such message.
/// Otherwise every message is filed under the index of its author unless
/// that place is taken. The commitment that completes the set sets off the
/// distribution step, and the proof that completes the set sets off the
/// verification of all proofs.
pub open spec fn kgm_handled(
    pre: Environment,
    pre_out: Seq<MessageWithSender>,
    kgm: KeyGenMessage,
    ok: bool,
    post: Environment,
    post_out: Seq<MessageWithSender>,
) -> bool {
    if pre.state.local_key is None {
        !ok && post == pre && post_out == pre_out
    } else {
        ok && match kgm {
            KeyGenMessage::CommitAndDecommit(index, commit, decommit) => {
                if pre.state.commits.has(index) {
                    post == pre && post_out == pre_out
                } else {
                    exists|mid: Environment| #[trigger]
                        commitment_filed(pre, index, commit, decommit, mid) && if !distribution_due(
                            mid,
                        ) {
                            post == mid && post_out == pre_out
                        } else if !distribution_possible(mid) {
                            aborted(mid, post) && post_out == pre_out
                        } else {
                            exists|outcome: Result<(VssScheme, Vec<Share>, PeerIndex), PartyError>|
                             #[trigger]
                                distribution_accepted(mid, pre_out, outcome, post, post_out) && (
                                outcome is Ok <==> commitments_open(
                                    mid.state.decommits.items(),
                                    mid.state.commits.items(),
                                )) && (outcome matches Ok(made) ==> made.1@.len()
                                    == mid.config.players && made.2
                                    == mid.state.local_key->0.party_index)
                        }
                }
            },
            KeyGenMessage::VSS(index, scheme) => {
                &&& post.config == pre.config
                &&& post.registry == pre.registry
                &&& post.state.wf()
                &&& post.state == (KeyGenState { vsss: post.state.vsss, ..pre.state })
                &&& post.state.vsss@ == pre.state.vsss.with_entry(index, scheme)
                &&& post_out == pre_out
            },
            KeyGenMessage::SecretShare(index, share) => {
                &&& post.config == pre.config
                &&& post.registry == pre.registry
                &&& post.state.wf()
                &&& post.state == (KeyGenState {
                    secret_shares: post.state.secret_shares,
                    ..pre.state
                })
                &&& post.state.secret_shares@ == pre.state.secret_shares.with_entry(index, share)
                &&& post_out == pre_out
            },
            KeyGenMessage::Proof(index, proof) => {
                &&& post_out == pre_out
                &&& exists|mid: Environment| #[trigger]
                    proof_filed(pre, index, proof, mid) && if !verification_due(mid) {
                        post == mid
                    } else {
                        exists|outcome: Result<(), PartyError>| #[trigger]
                            verification_accepted(mid, outcome, post) && (outcome is Ok
                                <==> proofs_valid(mid.state.proofs.items()))
                    }
            },
        }
    }
}

/// The message is the confirmation that this node sends to `to`.
pub open spec fn is_confirmation(m: MessageWithSender, env: Environment, to: PeerId) -> bool {
    &&& m.0 matches GossipMessage::ConfirmPeers(ConfirmPeersMessage::Confirmed(text), hash)
    &&& text@ == base58_text(env.registry.local())
    &&& hash == our_hash(env)
    &&& m.1 == Some(to)
}

/// The sender of a confirmation has been marked as generating.
pub open spec fn sender_marked(pre: Environment, sender: PeerId, post: Environment) -> bool {
    &&& pre.registry.peers().position(peer_key(sender)) is Some
    &&& post.config == pre.config
    &&& post.state == pre.state
    &&& post.registry.wf()
    &&& registry_is(
        pre.registry,
        post.registry,
        pre.registry.peers().states().update(
            pre.registry.peers().position(peer_key(sender))->0,
            PeerState::Generating,
        ),
        pre.registry.local_state_spec(),
    )
}

/// Whether all players are at hand: the participants marked as generating,
/// and this node with them, are as many as the ceremony has players.
pub open spec fn quorum_reached(env: Environment) -> bool {
    env.registry.others_generating() + 1 == env.config.players
}

/// What handling a handshake message does.
///
/// A request for confirmation is answered to its sender, provided the index
/// it names is that of a known participant. A confirmation counts if it
/// names its sender and the sender is a known participant: the sender is
/// marked as generating, and with the confirmation that completes the quorum
/// this node enters the ceremony. Once the node has entered, further
/// confirmations change nothing.
pub open spec fn cpm_handled(
    pre: Environment,
    pre_out: Seq<MessageWithSender>,
    cpm: ConfirmPeersMessage,
    sender: PeerId,
    ok: bool,
    post: Environment,
    post_out: Seq<MessageWithSender>,
) -> bool {
    match cpm {
        ConfirmPeersMessage::Confirming(from_index) => {
            &&& post == pre
            &&& ok == (recipient(pre, from_index as int) is Some)
            &&& if ok {
                &&& post_out.len() == pre_out.len() + 1
                &&& post_out.drop_last() == pre_out
                &&& is_confirmation(post_out.last(), pre, sender)
            } else {
                post_out == pre_out
            }
        },
        ConfirmPeersMessage::Confirmed(text) => {
            if text@ != base58_text(sender) {
                !ok && post == pre && post_out == pre_out
            } else if pre.state.local_key is Some {
                ok && post == pre && post_out == pre_out
            } else if pre.registry.peers().position(peer_key(sender)) is None {
                !ok && post == pre && post_out == pre_out
            } else {
                exists|mid: Environment| #[trigger]
                    sender_marked(pre, sender, mid) && if !quorum_reached(mid) {
                        ok && post == mid && post_out == pre_out
                    } else if mid.registry.local_index() > u16::MAX {
                        !ok && post == mid && post_out == pre_out
                    } else {
                        ok && exists|key: KeyMaterial, commit: KeyGenCommit, decommit: KeyGenDecommit|
                         #[trigger]
                            generation_begun(
                                mid,
                                pre_out,
                                mid.registry.local_index() as PeerIndex,
                                key,
                                commit,
                                decommit,
                                post,
                                post_out,
                            )
                    }
            }
        },
    }
}

/// What handling any message does.
///
/// A handshake message needs a sender. A key-generation message is passed
/// over once this node has completed or given up the ceremony. A message of
/// the signing protocol is passed over.
pub open spec fn incoming_handled(
    pre: Environment,
    pre_out: Seq<MessageWithSender>,
    msg: GossipMessage,
    sender: Option<PeerId>,
    ok: bool,
    post: Environment,
    post_out: Seq<MessageWithSender>,
) -> bool {
    match msg {
        GossipMessage::ConfirmPeers(cpm, _) => match sender {
            Some(who) => cpm_handled(pre, pre_out, cpm, who, ok, post, post_out),
            None => !ok && post == pre && post_out == pre_out,
        },
        GossipMessage::KeyGen(kgm, _) => {
            if pre.registry.local_state_spec() == PeerState::Complete
                || pre.registry.local_state_spec() == PeerState::Canceled {
                ok && post == pre && post_out == pre_out
            } else {
                kgm_handled(pre, pre_out, kgm, ok, post, post_out)
            }
        },
        GossipMessage::Sign(_) => ok && post == pre && post_out == pre_out,
    }
}

/// What the re-check of the construction trigger does: nothing unless the
/// construction is due; a ceremony whose accumulated artifacts cannot be
/// handed to the construction step is given up; otherwise the step is run
/// and its result dealt with.
pub open spec fn keys_generated(
    pre: Environment,
    pre_out: Seq<MessageWithSender>,
    post: Environment,
    post_out: Seq<MessageWithSender>,
) -> bool {
    if !pre.state.construction_due(pre.config.players) {
        post == pre && post_out == pre_out
    } else if !construction_possible(pre) {
        aborted(pre, post) && post_out == pre_out
    } else {
        exists|outcome: Result<(SharedKeys, KeyProof), PartyError>| #[trigger]
            construction_accepted(pre, pre_out, outcome, post, post_out) && (outcome is Ok
                <==> shares_valid(
                pre.state.decommits.items(),
                pre.state.secret_shares.items(),
                pre.state.vsss.items(),
                (pre.state.local_key->0.party_index + 1) as u16,
            )) && (outcome matches Ok(made) ==> shared_key_point(made.0) == summed_point(
                pre.state.decommits.items(),
            ))
    }
}

/// One message has been taken: it was handled, its outcome was taken into
/// account, and the construction trigger was re-checked.
pub open spec fn message_taken(
    pre: Environment,
    pre_out: Seq<MessageWithSender>,
    pre_edge: Edge,
    m: MessageWithSender,
    post: Environment,
    post_out: Seq<MessageWithSender>,
    post_edge: Edge,
) -> bool {
    exists|ok: bool, mid: Environment, mid_out: Seq<MessageWithSender>| #[trigger]
        incoming_handled(pre, pre_out, m.0, m.1, ok, mid, mid_out) && keys_generated(
            mid,
            mid_out,
            post,
            post_out,
        ) && post_edge == observe(pre_edge, ok)
}

/// The messages have been taken one after the other, in their order.
pub open spec fn messages_taken(
    pre: Environment,
    pre_out: Seq<MessageWithSender>,
    pre_edge: Edge,
    msgs: Seq<MessageWithSender>,
    post: Environment,
    post_out: Seq<MessageWithSender>,
    post_edge: Edge,
) -> bool
    decreases msgs.len(),
{
    if msgs.len() == 0 {
        post == pre && post_out == pre_out && post_edge == pre_edge
    } else {
        exists|mid: Environment, mid_out: Seq<MessageWithSender>, mid_edge: Edge|
            messages_taken(pre, pre_out, pre_edge, msgs.drop_last(), mid, mid_out, mid_edge)
                && #[trigger] message_taken(
                mid,
                mid_out,
                mid_edge,
                msgs.last(),
                post,
                post_out,
                post_edge,
            )
    }
}

/// What the driver remembers at the start of a tick: nothing has changed in
/// this tick yet.
pub open spec fn unlatched(e: Edge) -> Edge {
    Edge { latched: false, ..e }
}

/// What the end of a tick makes of the outcome of the drive: a refused item
/// counts as a message that was not handled well.
pub open spec fn concluded(e: Edge, outcome: DriveOutcome) -> Edge {
    if outcome.send_failed {
        observe(e, false)
    } else {
        e
    }
}

/// The share messages depend on the participants only.
pub proof fn lemma_share_messages_same(
    a: Environment,
    b: Environment,
    author: PeerIndex,
    shares: Seq<Share>,
    n: int,
)
    requires
        a.registry.peers().ids() == b.registry.peers().ids(),
        a.registry.peers().canon() == b.registry.peers().canon(),
    ensures
        share_messages(a, author, shares, n) == share_messages(b, author, shares, n),
    decreases n,
{
    if n > 0 {
        lemma_share_messages_same(a, b, author, shares, n - 1);
    }
}

} // verus!
