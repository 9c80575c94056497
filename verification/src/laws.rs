//! What holds of a ceremony whatever messages arrive and whatever the steps
//! of the threshold scheme return.

use crate::message::{GossipMessage, KeyGenMessage, MessageWithSender};
use crate::party::{proofs_valid, shared_key_point, KeyProof, Share, VssScheme};
use crate::peer::PeerState;
use crate::peer_map::{PeerIndex, PeerMap};
use crate::rules::{
    aborted, construction_accepted, distribution_accepted, distribution_usable, incoming_handled,
    keys_generated, kgm_handled, our_hash, proof_filed, registry_is, share_messages,
    verification_accepted, verification_due,
};
use crate::state::Environment;
use libp2p_identity::PeerId;
use multi_party_ecdsa::protocols::multi_party_ecdsa::gg_2018::party_i::{
    KeyGenBroadcastMessage1 as KeyGenCommit, KeyGenDecommitMessage1 as KeyGenDecommit, SharedKeys,
};
use multi_party_ecdsa::Error as PartyError;
use vstd::prelude::*;

verus! {

/// Filing under an index that is taken changes nothing.
pub proof fn lemma_entry_taken<T>(before: PeerMap<T>, after: PeerMap<T>, k: PeerIndex, v: T, w: T)
    requires
        before.wf(),
        after.wf(),
        after@ == before.with_entry(k, v),
    ensures
        after.has(k),
        after.with_entry(k, w) == after@,
{
    before.lemma_view();
    after.lemma_view();
    assert(after@.contains_key(k));
}

/// Two well-formed maps with the same view hold equally many entries.
pub proof fn lemma_same_count<T>(a: PeerMap<T>, b: PeerMap<T>)
    requires
        a.wf(),
        b.wf(),
        a@ == b@,
    ensures
        a.count() == b.count(),
{
    a.lemma_view();
    b.lemma_view();
}

/// Idempotent accumulation: handling the same sharing scheme, share or proof
/// a second time leaves everything as the first time left it: the maps hold
/// the same artifacts, the participants and this node are in the same
/// lifecycle states, and nothing more is queued for sending.
pub proof fn law_idempotent_accumulation(
    s0: Environment,
    o0: Seq<MessageWithSender>,
    kgm: KeyGenMessage,
    ok1: bool,
    s1: Environment,
    o1: Seq<MessageWithSender>,
    ok2: bool,
    s2: Environment,
    o2: Seq<MessageWithSender>,
)
    requires
        s0.wf(),
        kgm is VSS || kgm is SecretShare || kgm is Proof,
        kgm_handled(s0, o0, kgm, ok1, s1, o1),
        kgm_handled(s1, o1, kgm, ok2, s2, o2),
    ensures
        s2.state@ == s1.state@,
        s2.config == s1.config,
        registry_is(
            s1.registry,
            s2.registry,
            s1.registry.peers().states(),
            s1.registry.local_state_spec(),
        ),
        o2 == o1,
        ok2 == (s1.state.local_key is Some),
{
    if s0.state.local_key is Some {
        match kgm {
            KeyGenMessage::VSS(index, scheme) => {
                lemma_entry_taken(s0.state.vsss, s1.state.vsss, index, scheme, scheme);
            },
            KeyGenMessage::SecretShare(index, share) => {
                lemma_entry_taken(
                    s0.state.secret_shares,
                    s1.state.secret_shares,
                    index,
                    share,
                    share,
                );
            },
            KeyGenMessage::Proof(index, proof) => {
                let mid1 = choose|mid: Environment| #[trigger]
                    proof_filed(s0, index, proof, mid) && if !verification_due(mid) {
                        s1 == mid
                    } else {
                        exists|outcome: Result<(), PartyError>| #[trigger]
                            verification_accepted(mid, outcome, s1) && (outcome is Ok
                                <==> proofs_valid(mid.state.proofs.items()))
                    };
                lemma_entry_taken(s0.state.proofs, mid1.state.proofs, index, proof, proof);
                if s1.state.local_key is Some {
                    let mid2 = choose|mid: Environment| #[trigger]
                        proof_filed(s1, index, proof, mid) && if !verification_due(mid) {
                            s2 == mid
                        } else {
                            exists|outcome: Result<(), PartyError>| #[trigger]
                                verification_accepted(mid, outcome, s2) && (outcome is Ok
                                    <==> proofs_valid(mid.state.proofs.items()))
                        };
                    // The first delivery has not given the ceremony up, so
                    // it has left the proofs as filed.
                    assert(s1.state.proofs@ == mid1.state.proofs@);
                    assert(s1.state.proofs.wf());
                    lemma_entry_taken(mid1.state.proofs, s1.state.proofs, index, proof, proof);
                    assert(mid2.state.proofs@ == s1.state.proofs@);
                    lemma_same_count(mid2.state.proofs, s1.state.proofs);
                    lemma_same_count(mid1.state.proofs, s1.state.proofs);
                    mid2.state.proofs.lemma_view_decides(&mid1.state.proofs);
                    // Verified again, the same proofs give the same verdict.
                    if verification_due(mid2) {
                        assert(verification_due(mid1));
                        assert(proofs_valid(mid1.state.proofs.items()));
                        assert(mid1.state.shared_keys is None);
                        assert(s1 == mid1);
                        assert(s2 == mid2);
                    }
                }
            },
            KeyGenMessage::CommitAndDecommit(_, _, _) => {},
        }
    }
}

/// Idempotent delivery: a sharing scheme, a share or a proof that is
/// delivered a second time leaves everything as the first delivery left it.
pub proof fn law_idempotent_delivery(
    s0: Environment,
    o0: Seq<MessageWithSender>,
    msg: GossipMessage,
    sender: Option<PeerId>,
    ok1: bool,
    s1: Environment,
    o1: Seq<MessageWithSender>,
    ok2: bool,
    s2: Environment,
    o2: Seq<MessageWithSender>,
)
    requires
        s0.wf(),
        msg matches GossipMessage::KeyGen(kgm, _) && (kgm is VSS || kgm is SecretShare
            || kgm is Proof),
        incoming_handled(s0, o0, msg, sender, ok1, s1, o1),
        incoming_handled(s1, o1, msg, sender, ok2, s2, o2),
    ensures
        s2.state@ == s1.state@,
        s2.config == s1.config,
        registry_is(
            s1.registry,
            s2.registry,
            s1.registry.peers().states(),
            s1.registry.local_state_spec(),
        ),
        o2 == o1,
{
    let kgm = msg->KeyGen_0;
    let settled = |e: Environment|
        e.registry.local_state_spec() == PeerState::Complete || e.registry.local_state_spec()
            == PeerState::Canceled;
    if !settled(s0) && !settled(s1) {
        law_idempotent_accumulation(s0, o0, kgm, ok1, s1, o1, ok2, s2, o2);
    }
}

/// Exactly-once trigger: once the construction trigger has been re-checked,
/// the construction is not due, and a second re-check does nothing.
pub proof fn law_construction_once(
    s0: Environment,
    o0: Seq<MessageWithSender>,
    s1: Environment,
    o1: Seq<MessageWithSender>,
    s2: Environment,
    o2: Seq<MessageWithSender>,
)
    requires
        s0.wf(),
        keys_generated(s0, o0, s1, o1),
        keys_generated(s1, o1, s2, o2),
    ensures
        !s1.state.construction_due(s1.config.players),
        s2 == s1,
        o2 == o1,
{
}

/// Exactly-once trigger under further deliveries: once the key material has
/// been constructed, no key-generation message that arrives afterwards makes
/// the construction due again, so the next re-check does nothing.
pub proof fn law_no_second_construction(
    s1: Environment,
    o1: Seq<MessageWithSender>,
    kgm: KeyGenMessage,
    ok: bool,
    s2: Environment,
    o2: Seq<MessageWithSender>,
    s3: Environment,
    o3: Seq<MessageWithSender>,
)
    requires
        s1.wf(),
        s1.state.shared_keys is Some,
        kgm_handled(s1, o1, kgm, ok, s2, o2),
        keys_generated(s2, o2, s3, o3),
    ensures
        !s2.state.construction_due(s2.config.players),
        s3 == s2,
        o3 == o2,
{
    assert(s2.state.shared_keys is Some || s2.state.is_clear());
}

/// Exactly-once trigger under any delivery: once the key material has been
/// constructed, no message of any kind makes the construction due again.
pub proof fn law_no_second_construction_on_delivery(
    s1: Environment,
    o1: Seq<MessageWithSender>,
    msg: GossipMessage,
    sender: Option<PeerId>,
    ok: bool,
    s2: Environment,
    o2: Seq<MessageWithSender>,
    s3: Environment,
    o3: Seq<MessageWithSender>,
)
    requires
        s1.wf(),
        s1.state.shared_keys is Some,
        incoming_handled(s1, o1, msg, sender, ok, s2, o2),
        keys_generated(s2, o2, s3, o3),
    ensures
        !s2.state.construction_due(s2.config.players),
        s3 == s2,
        o3 == o2,
{
    assert(s2.state.shared_keys is Some || s2.state.is_clear());
}

/// Completion is final: once the ceremony of a node is complete, no message
/// that arrives changes what the node has accumulated, nor that it is marked
/// as complete; messages of the key generation are passed over altogether.
pub proof fn law_complete_is_final(
    s: Environment,
    o: Seq<MessageWithSender>,
    msg: GossipMessage,
    sender: Option<PeerId>,
    ok: bool,
    s2: Environment,
    o2: Seq<MessageWithSender>,
)
    requires
        s.wf(),
        s.state.complete,
        incoming_handled(s, o, msg, sender, ok, s2, o2),
    ensures
        s2.state == s.state,
        s2.state.complete,
        s2.registry.local_state_spec() == PeerState::Complete,
        msg is KeyGen || msg is Sign ==> s2 == s && o2 == o && ok,
{
}

/// Reset atomicity: a ceremony that has been given up has lost all five maps,
/// its completion flag, its key material and this node's first-round
/// material together; no map is left with an entry.
pub proof fn law_reset_atomicity(pre: Environment, post: Environment)
    requires
        aborted(pre, post),
    ensures
        post.state@.commits == Map::<PeerIndex, KeyGenCommit>::empty(),
        post.state@.decommits == Map::<PeerIndex, KeyGenDecommit>::empty(),
        post.state@.vsss == Map::<PeerIndex, VssScheme>::empty(),
        post.state@.secret_shares == Map::<PeerIndex, Share>::empty(),
        post.state@.proofs == Map::<PeerIndex, KeyProof>::empty(),
        post.state@.shared_keys is None,
        post.state@.local_key is None,
        !post.state@.complete,
        post.registry.local_state_spec() == PeerState::Canceled,
{
    post.state.commits.lemma_view();
    post.state.decommits.lemma_view();
    post.state.vsss.lemma_view();
    post.state.secret_shares.lemma_view();
    post.state.proofs.lemma_view();
    assert(post.state@.commits =~= Map::<PeerIndex, KeyGenCommit>::empty());
    assert(post.state@.decommits =~= Map::<PeerIndex, KeyGenDecommit>::empty());
    assert(post.state@.vsss =~= Map::<PeerIndex, VssScheme>::empty());
    assert(post.state@.secret_shares =~= Map::<PeerIndex, Share>::empty());
    assert(post.state@.proofs =~= Map::<PeerIndex, KeyProof>::empty());
}

/// A failed verification resets, with or without key material: when the
/// proof that completes the set has been filed and the proofs do not all
/// verify, the ceremony is given up, whether or not this node has
/// constructed its key material.
pub proof fn law_failed_verification_resets(
    pre: Environment,
    out: Seq<MessageWithSender>,
    index: PeerIndex,
    proof: KeyProof,
    mid: Environment,
    ok: bool,
    post: Environment,
    post_out: Seq<MessageWithSender>,
)
    requires
        pre.wf(),
        pre.state.local_key is Some,
        kgm_handled(pre, out, KeyGenMessage::Proof(index, proof), ok, post, post_out),
        proof_filed(pre, index, proof, mid),
        verification_due(mid),
        !proofs_valid(mid.state.proofs.items()),
    ensures
        ok,
        post.state.is_clear(),
        post.registry.local_state_spec() == PeerState::Canceled,
        post_out == out,
{
    let filed = choose|filed: Environment| #[trigger]
        proof_filed(pre, index, proof, filed) && if !verification_due(filed) {
            post == filed
        } else {
            exists|outcome: Result<(), PartyError>| #[trigger]
                verification_accepted(filed, outcome, post) && (outcome is Ok <==> proofs_valid(
                    filed.state.proofs.items(),
                ))
        };
    filed.state.proofs.lemma_view_decides(&mid.state.proofs);
    assert(verification_due(filed));
}

/// Every failed step gives the ceremony up: a failed verification of the
/// proofs, a failed construction and an unusable distribution all end in the
/// same cleared state.
pub proof fn law_failure_resets(
    pre: Environment,
    out: Seq<MessageWithSender>,
    post: Environment,
    post_out: Seq<MessageWithSender>,
    verified: Result<(), PartyError>,
    constructed: Result<(SharedKeys, KeyProof), PartyError>,
    distributed: Result<(VssScheme, Vec<Share>, PeerIndex), PartyError>,
)
    ensures
        verified is Err && verification_accepted(pre, verified, post) ==> aborted(pre, post),
        constructed is Err && construction_accepted(pre, out, constructed, post, post_out)
            ==> aborted(pre, post) && post_out == out,
        !distribution_usable(pre, distributed) && distribution_accepted(
            pre,
            out,
            distributed,
            post,
            post_out,
        ) ==> aborted(pre, post) && post_out == out,
{
}

/// Every share reaches its owner alone: where each of the first `n` places is
/// held by a participant, the messages for the first `n` shares are one for
/// every place but the author's, in the order of the places, each carrying
/// the share of its place and addressed to the participant at that place.
pub proof fn law_shares_reach_their_owners(
    env: Environment,
    author: PeerIndex,
    shares: Seq<Share>,
    n: int,
)
    requires
        0 <= n <= env.registry.peers().ids().len(),
    ensures
        share_messages(env, author, shares, n).len() == (if author < n {
            n - 1
        } else {
            n
        }),
        forall|k: int|
            0 <= k < share_messages(env, author, shares, n).len() ==> {
                let place = if k < author {
                    k
                } else {
                    k + 1
                };
                #[trigger] share_messages(env, author, shares, n)[k] == (
                    GossipMessage::KeyGen(
                        KeyGenMessage::SecretShare(author, shares[place]),
                        our_hash(env),
                    ),
                    Some(env.registry.peers().ids()[place]),
                )
            },
    decreases n,
{
    if n > 0 {
        law_shares_reach_their_owners(env, author, shares, n - 1);
        let rest = share_messages(env, author, shares, n - 1);
        let all = share_messages(env, author, shares, n);
        assert forall|k: int| 0 <= k < all.len() implies {
            let place = if k < author {
                k
            } else {
                k + 1
            };
            #[trigger] all[k] == (
                GossipMessage::KeyGen(
                    KeyGenMessage::SecretShare(author, shares[place]),
                    our_hash(env),
                ),
                Some(env.registry.peers().ids()[place]),
            )
        } by {
            if k < rest.len() {
                assert(all[k] == rest[k]);
            }
        }
    }
}

/// The distribution step of a ceremony: a usable result, with nothing yet
/// filed under this node's own index, files the sharing scheme and the
/// node's own share there, broadcasts the scheme, and then sends every other
/// share to its owner. Commitments, decommitments, proofs and the
/// participants stay as they are.
pub proof fn law_distribution_step(
    pre: Environment,
    out: Seq<MessageWithSender>,
    outcome: Result<(VssScheme, Vec<Share>, PeerIndex), PartyError>,
    post: Environment,
    post_out: Seq<MessageWithSender>,
)
    requires
        pre.wf(),
        distribution_usable(pre, outcome),
        distribution_accepted(pre, out, outcome, post, post_out),
        !pre.state.vsss.has(pre.state.local_key->0.party_index),
        !pre.state.secret_shares.has(pre.state.local_key->0.party_index),
    ensures
        ({
            let own = pre.state.local_key->0.party_index;
            let made = outcome->Ok_0;
            &&& post.state.vsss@ == pre.state.vsss@.insert(own, made.0)
            &&& post.state.secret_shares@ == pre.state.secret_shares@.insert(
                own,
                made.1@[own as int],
            )
            &&& post.state.vsss.count() == pre.state.vsss.count() + 1
            &&& post.state.secret_shares.count() == pre.state.secret_shares.count() + 1
            &&& post.state.commits == pre.state.commits
            &&& post.state.decommits == pre.state.decommits
            &&& post.state.proofs == pre.state.proofs
            &&& post.registry == pre.registry
            &&& post_out == out.push(
                (GossipMessage::KeyGen(KeyGenMessage::VSS(own, made.0), our_hash(pre)), None),
            ) + share_messages(pre, own, made.1@, made.1@.len() as int)
        }),
{
    pre.state.vsss.lemma_view();
    pre.state.secret_shares.lemma_view();
    post.state.vsss.lemma_view();
    post.state.secret_shares.lemma_view();
}

/// The construction step of a ceremony: a success, with no proof yet filed
/// under this node's own index, keeps the key material, files the node's
/// proof there and broadcasts it once. The ceremony is not complete by that,
/// and the other four maps stay as they are.
pub proof fn law_construction_step(
    pre: Environment,
    out: Seq<MessageWithSender>,
    outcome: Result<(SharedKeys, KeyProof), PartyError>,
    post: Environment,
    post_out: Seq<MessageWithSender>,
)
    requires
        pre.wf(),
        pre.state.local_key is Some,
        outcome is Ok,
        construction_accepted(pre, out, outcome, post, post_out),
        !pre.state.proofs.has(pre.state.local_key->0.party_index),
    ensures
        ({
            let own = pre.state.local_key->0.party_index;
            let made = outcome->Ok_0;
            &&& post.state.shared_keys == Some(made.0)
            &&& post.state.proofs@ == pre.state.proofs@.insert(own, made.1)
            &&& post.state.proofs.count() == pre.state.proofs.count() + 1
            &&& post.state.complete == pre.state.complete
            &&& post.state.commits == pre.state.commits
            &&& post.state.decommits == pre.state.decommits
            &&& post.state.vsss == pre.state.vsss
            &&& post.state.secret_shares == pre.state.secret_shares
            &&& post.registry == pre.registry
            &&& post_out == out.push(
                (GossipMessage::KeyGen(KeyGenMessage::Proof(own, made.1), our_hash(pre)), None),
            )
        }),
{
    pre.state.proofs.lemma_view();
    post.state.proofs.lemma_view();
}

/// Agreement: two nodes that construct their key material from the same
/// decommitments hold the same shared public key.
pub proof fn law_same_decommitments_same_key(
    a: Environment,
    a_out: Seq<MessageWithSender>,
    a2: Environment,
    a2_out: Seq<MessageWithSender>,
    b: Environment,
    b_out: Seq<MessageWithSender>,
    b2: Environment,
    b2_out: Seq<MessageWithSender>,
)
    requires
        a.wf(),
        b.wf(),
        a.state.shared_keys is None,
        b.state.shared_keys is None,
        keys_generated(a, a_out, a2, a2_out),
        keys_generated(b, b_out, b2, b2_out),
        a2.state.shared_keys is Some,
        b2.state.shared_keys is Some,
        a.state.decommits@ == b.state.decommits@,
    ensures
        shared_key_point(a2.state.shared_keys->0) == shared_key_point(b2.state.shared_keys->0),
{
    a.state.decommits.lemma_view_decides(&b.state.decommits);
}

} // verus!
