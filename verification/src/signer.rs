//! The protocol driver of one node.
//!
//! The driver takes the messages that arrive, files what they carry, runs the
//! steps of the threshold scheme as soon as their inputs are complete, and
//! queues what is to be sent. It watches the outcomes of the messages it
//! handles and asks to be replaced when they turn from good to bad or back.
//!
//! Each step of the threshold scheme is followed by a function that takes the
//! step's result as an argument and says exactly what becomes of it.

use crate::buffered::{sink_step, Buffered, DriveOutcome, SinkAction, SinkEvent, SinkModel, SinkPhase};
use crate::message::{ConfirmPeersMessage, GossipMessage, KeyGenMessage, MessageWithSender};
use crate::party::{
    commitment_count, create_keys, key_index, key_proof_len, modulus_is_positive, modulus_positive,
    phase1_broadcast, proof_len, verify_and_construct, verify_and_distribute, verify_proofs,
    vss_commitment_count, KeyMaterial, KeyProof, Share, VssScheme, KEY_PROOF_ROUNDS,
};
use crate::peer::to_base58;
use crate::peer_map::PeerIndex;
use crate::rules::{
    aborted, commitment_filed, commits_checkable, concluded, construction_accepted, cpm_handled,
    distribution_accepted, generation_begun, incoming_handled, keys_generated, kgm_handled,
    lemma_share_messages_same, message_taken, messages_taken, observe, our_hash, proof_filed,
    schemes_usable, sender_marked, share_messages, unlatched, verification_accepted, Edge,
};
use crate::state::{Environment, Error, LocalKey};
use libp2p_identity::PeerId;
use multi_party_ecdsa::protocols::multi_party_ecdsa::gg_2018::party_i::{
    KeyGenBroadcastMessage1 as KeyGenCommit, KeyGenDecommitMessage1 as KeyGenDecommit, SharedKeys,
};
use multi_party_ecdsa::Error as PartyError;
use std::collections::VecDeque;
use vstd::prelude::*;

verus! {

/// What the driver reports at the end of a tick.
#[derive(Debug)]
pub enum Progress {
    /// The driver waits for more messages, or for the transport.
    Pending,
    /// The driver has ended.
    Ready(Result<(), Error>),
}

/// Whether every commitment message can be checked by the threshold scheme.
pub fn all_checkable(commits: &Vec<KeyGenCommit>) -> (b: bool)
    ensures
        b == commits_checkable(commits@),
{
    let mut i: usize = 0;
    while i < commits.len()
        invariant
            i <= commits@.len(),
            forall|j: int|
                0 <= j < i ==> key_proof_len(#[trigger] commits@[j]) >= KEY_PROOF_ROUNDS
                    && modulus_positive(commits@[j]),
        decreases commits@.len() - i,
    {
        if proof_len(&commits[i]) < KEY_PROOF_ROUNDS || !modulus_is_positive(&commits[i]) {
            return false;
        }
        i += 1;
    }
    true
}

/// Whether every sharing scheme carries at least one commitment.
pub fn all_usable(schemes: &Vec<VssScheme>) -> (b: bool)
    ensures
        b == schemes_usable(schemes@),
{
    let mut i: usize = 0;
    while i < schemes.len()
        invariant
            i <= schemes@.len(),
            forall|j: int| 0 <= j < i ==> vss_commitment_count(#[trigger] schemes@[j]) > 0,
        decreases schemes@.len() - i,
    {
        if commitment_count(&schemes[i]) == 0 {
            return false;
        }
        i += 1;
    }
    true
}

/// The protocol driver of one node.
#[derive(Debug)]
pub struct Signer {
    global_out: Buffered<MessageWithSender>,
    edge: Edge,
}

impl Signer {
    /// The queue of outgoing messages with the state of its drive.
    pub closed spec fn sink(&self) -> SinkModel<MessageWithSender> {
        self.global_out@
    }

    /// The outgoing messages that wait to be sent, oldest first.
    pub open spec fn outbound(&self) -> Seq<MessageWithSender> {
        self.sink().queue
    }

    /// What the driver remembers of the outcomes so far.
    pub closed spec fn edge(&self) -> Edge {
        self.edge
    }

    /// The driver differs from `before` in its outgoing messages at most.
    pub open spec fn steady(&self, before: Signer) -> bool {
        &&& self.edge() == before.edge()
        &&& self.sink().phase == before.sink().phase
        &&& self.sink().send_failed == before.sink().send_failed
    }

    /// A fresh driver that takes the outcome before its first message to have
    /// been `last_message_ok`.
    pub fn new(last_message_ok: bool) -> (r: Self)
        ensures
            r.outbound() == Seq::<MessageWithSender>::empty(),
            r.sink().phase == SinkPhase::Idle,
            !r.sink().send_failed,
            r.edge() == (Edge { last_ok: last_message_ok, should_rebuild: false, latched: false }),
    {
        Signer {
            global_out: Buffered::new(),
            edge: Edge { last_ok: last_message_ok, should_rebuild: false, latched: false },
        }
    }

    /// Whether the driver asks to be replaced.
    pub fn should_rebuild(&self) -> (b: bool)
        ensures
            b == self.edge().should_rebuild,
    {
        self.edge.should_rebuild
    }

    /// Whether the message last taken into account was handled well.
    pub fn last_message_ok(&self) -> (b: bool)
        ensures
            b == self.edge().last_ok,
    {
        self.edge.last_ok
    }

    /// Number of outgoing messages that wait to be sent.
    pub fn pending(&self) -> (n: usize)
        ensures
            n == self.outbound().len(),
    {
        self.global_out.len()
    }

    /// Takes one outcome into account.
    pub fn note_outcome(&mut self, ok: bool)
        ensures
            final(self).edge() == observe(old(self).edge(), ok),
            final(self).sink() == old(self).sink(),
    {
        if !self.edge.latched {
            let should_rebuild = self.edge.last_ok != ok;
            let latched = self.edge.should_rebuild != should_rebuild;
            self.edge = Edge { last_ok: ok, should_rebuild, latched };
        }
    }

    /// Gives the ceremony up: forgets everything accumulated and marks this
    /// node as canceled.
    pub fn abort(env: &mut Environment)
        requires
            old(env).registry.wf(),
        ensures
            final(env).wf(),
            aborted(*old(env), *final(env)),
    {
        env.state.reset();
        env.registry.set_local_canceled();
    }

    /// Enters the ceremony with the given first-round material, which must
    /// have been made for the given index. The node must not hold such
    /// material yet: it is set once and never replaced.
    pub fn begin_generation(
        &mut self,
        env: &mut Environment,
        index: PeerIndex,
        key: KeyMaterial,
        commit: KeyGenCommit,
        decommit: KeyGenDecommit,
    )
        requires
            old(env).wf(),
            old(env).state.local_key is None,
            key_index(key) == index,
        ensures
            final(env).wf(),
            final(self).steady(*old(self)),
            generation_begun(
                *old(env),
                old(self).outbound(),
                index,
                key,
                commit,
                decommit,
                *final(env),
                final(self).outbound(),
            ),
    {
        let hash = env.registry.get_peers_hash();
        env.state.commits.insert_if_absent(index, commit.clone());
        env.state.decommits.insert_if_absent(index, decommit.clone());
        env.state.local_key = Some(LocalKey { party_index: index, material: key });
        env.registry.set_local_generating();
        self.global_out.push(
            (GossipMessage::KeyGen(KeyGenMessage::CommitAndDecommit(index, commit, decommit), hash), None),
        );
    }

    /// Queues the shares of all participants but the author, each addressed to
    /// its owner alone.
    fn queue_shares(&mut self, env: &Environment, author: PeerIndex, shares: &Vec<Share>)
        requires
            env.registry.wf(),
        ensures
            final(self).steady(*old(self)),
            final(self).outbound() == old(self).outbound() + share_messages(
                *env,
                author,
                shares@,
                shares@.len() as int,
            ),
    {
        let hash = env.registry.get_peers_hash();
        let mut i: usize = 0;
        assert(self.outbound() =~= old(self).outbound() + share_messages(*env, author, shares@, 0));
        while i < shares.len()
            invariant
                env.registry.wf(),
                i <= shares@.len(),
                hash == our_hash(*env),
                self.steady(*old(self)),
                self.outbound() == old(self).outbound() + share_messages(
                    *env,
                    author,
                    shares@,
                    i as int,
                ),
            decreases shares@.len() - i,
        {
            let to = env.registry.get_peer_id_by_index(i);
            let ghost before = self.outbound();
            if i != author as usize && to.is_some() {
                let share = shares[i].clone();
                self.global_out.push(
                    (GossipMessage::KeyGen(KeyGenMessage::SecretShare(author, share), hash), to),
                );
                assert(self.outbound() =~= old(self).outbound() + share_messages(
                    *env,
                    author,
                    shares@,
                    i + 1,
                ));
            }
            i += 1;
        }
    }

    /// Deals with the result of the distribution step.
    pub fn accept_distribution(
        &mut self,
        env: &mut Environment,
        outcome: Result<(VssScheme, Vec<Share>, PeerIndex), PartyError>,
    )
        requires
            old(env).wf(),
        ensures
            final(env).wf(),
            final(self).steady(*old(self)),
            distribution_accepted(
                *old(env),
                old(self).outbound(),
                outcome,
                *final(env),
                final(self).outbound(),
            ),
    {
        let own = match &env.state.local_key {
            Some(key) => Some(key.party_index),
            None => None,
        };
        match (own, outcome) {
            (Some(own), Ok((scheme, shares, index))) => {
                if index == own && (index as usize) < shares.len() {
                    let hash = env.registry.get_peers_hash();
                    env.state.vsss.insert_if_absent(index, scheme.clone());
                    env.state.secret_shares.insert_if_absent(index, shares[index as usize].clone());
                    self.global_out.push(
                        (GossipMessage::KeyGen(KeyGenMessage::VSS(index, scheme), hash), None),
                    );
                    self.queue_shares(env, index, &shares);
                    proof {
                        assert(share_messages(*env, index, shares@, shares@.len() as int)
                            == share_messages(*old(env), index, shares@, shares@.len() as int)) by {
                            lemma_share_messages_same(
                                *env,
                                *old(env),
                                index,
                                shares@,
                                shares@.len() as int,
                            );
                        }
                    }
                } else {
                    Self::abort(env);
                }
            },
            _ => {
                Self::abort(env);
            },
        }
    }

    /// Deals with the result of the construction step. The node must not
    /// hold key material yet: it is set once and never replaced.
    pub fn accept_construction(
        &mut self,
        env: &mut Environment,
        outcome: Result<(SharedKeys, KeyProof), PartyError>,
    )
        requires
            old(env).wf(),
            old(env).state.shared_keys is None,
        ensures
            final(env).wf(),
            final(self).steady(*old(self)),
            construction_accepted(
                *old(env),
                old(self).outbound(),
                outcome,
                *final(env),
                final(self).outbound(),
            ),
    {
        let own = match &env.state.local_key {
            Some(key) => Some(key.party_index),
            None => None,
        };
        match (own, outcome) {
            (Some(own), Ok((shared, proof))) => {
                let hash = env.registry.get_peers_hash();
                env.state.proofs.insert_if_absent(own, proof.clone());
                env.state.shared_keys = Some(shared);
                self.global_out.push(
                    (GossipMessage::KeyGen(KeyGenMessage::Proof(own, proof), hash), None),
                );
            },
            _ => {
                Self::abort(env);
            },
        }
    }

    /// Deals with the result of the verification of all proofs.
    pub fn accept_verification(env: &mut Environment, outcome: Result<(), PartyError>)
        requires
            old(env).wf(),
        ensures
            final(env).wf(),
            verification_accepted(*old(env), outcome, *final(env)),
    {
        match outcome {
            Ok(()) => {
                if env.state.shared_keys.is_some() {
                    env.state.complete = true;
                    env.registry.set_local_complete();
                }
            },
            Err(_) => {
                Self::abort(env);
            },
        }
    }

    /// Re-checks the construction trigger, and constructs the shared key where
    /// it is due. Afterwards the construction is not due: it runs at most
    /// once for what has been accumulated.
    pub fn generate_shared_keys(&mut self, env: &mut Environment)
        requires
            old(env).wf(),
        ensures
            final(env).wf(),
            final(self).steady(*old(self)),
            keys_generated(*old(env), old(self).outbound(), *final(env), final(self).outbound()),
            !final(env).state.construction_due(final(env).config.players),
    {
        if !env.state.is_construction_due(env.config.players) {
            return ;
        }
        let shape = env.config.get_params();
        let outcome = match &env.state.local_key {
            Some(key) => {
                if key.party_index < u16::MAX && all_usable(env.state.vsss.values()) {
                    Some(
                        verify_and_construct(
                            &key.material,
                            shape,
                            env.state.decommits.values(),
                            env.state.secret_shares.values(),
                            env.state.vsss.values(),
                            key.party_index + 1,
                        ),
                    )
                } else {
                    None
                }
            },
            None => None,
        };
        match outcome {
            Some(outcome) => {
                let ghost made = outcome;
                self.accept_construction(env, outcome);
                assert(construction_accepted(
                    *old(env),
                    old(self).outbound(),
                    made,
                    *env,
                    self.outbound(),
                ));
            },
            None => {
                Self::abort(env);
            },
        }
    }

    /// Handles one key-generation message. The fingerprint that came with the
    /// message is not held against this node's own.
    pub fn handle_kgm(&mut self, env: &mut Environment, kgm: KeyGenMessage, _all_peers_hash: u64) -> (ok:
        bool)
        requires
            old(env).wf(),
        ensures
            final(env).wf(),
            final(self).steady(*old(self)),
            kgm_handled(
                *old(env),
                old(self).outbound(),
                kgm,
                ok,
                *final(env),
                final(self).outbound(),
            ),
    {
        let own = match &env.state.local_key {
            Some(key) => key.party_index,
            None => {
                return false;
            },
        };
        let players = env.config.players as usize;
        match kgm {
            KeyGenMessage::CommitAndDecommit(from_index, commit, decommit) => {
                if env.state.commits.contains_key(from_index) {
                    return true;
                }
                env.state.commits.insert_if_absent(from_index, commit);
                env.state.decommits.insert_if_absent(from_index, decommit);
                let ghost mid = *env;
                assert(commitment_filed(*old(env), from_index, commit, decommit, mid));
                if env.state.vsss.contains_key(own) || env.state.commits.len() != players
                    || env.state.decommits.len() != players {
                    return true;
                }
                let shape = env.config.get_params();
                let outcome = match &env.state.local_key {
                    Some(key) => {
                        if shape.threshold < shape.share_count && all_checkable(
                            env.state.commits.values(),
                        ) {
                            Some(
                                verify_and_distribute(
                                    &key.material,
                                    shape,
                                    env.state.decommits.values(),
                                    env.state.commits.values(),
                                ),
                            )
                        } else {
                            None
                        }
                    },
                    None => None,
                };
                match outcome {
                    Some(outcome) => {
                        let ghost made = outcome;
                        self.accept_distribution(env, outcome);
                        assert(distribution_accepted(
                            mid,
                            old(self).outbound(),
                            made,
                            *env,
                            self.outbound(),
                        ));
                    },
                    None => {
                        Self::abort(env);
                    },
                }
                true
            },
            KeyGenMessage::VSS(from_index, scheme) => {
                env.state.vsss.insert_if_absent(from_index, scheme);
                true
            },
            KeyGenMessage::SecretShare(from_index, share) => {
                env.state.secret_shares.insert_if_absent(from_index, share);
                true
            },
            KeyGenMessage::Proof(from_index, proof) => {
                env.state.proofs.insert_if_absent(from_index, proof);
                let ghost mid = *env;
                assert(proof_filed(*old(env), from_index, proof, mid));
                if !env.state.complete && env.state.proofs.len() == players
                    && env.state.decommits.len() == players {
                    let outcome = verify_proofs(
                        env.config.get_params(),
                        env.state.proofs.values(),
                        env.state.decommits.values(),
                    );
                    Self::accept_verification(env, outcome);
                    assert(verification_accepted(mid, outcome, *env));
                }
                true
            },
        }
    }

    /// Handles one handshake message from `sender`. The fingerprint that came
    /// with the message is not held against this node's own; the answer
    /// carries this node's own.
    pub fn handle_cpm(
        &mut self,
        env: &mut Environment,
        cpm: ConfirmPeersMessage,
        sender: PeerId,
        _all_peers_hash: u64,
    ) -> (ok: bool)
        requires
            old(env).wf(),
        ensures
            final(env).wf(),
            final(self).steady(*old(self)),
            cpm_handled(
                *old(env),
                old(self).outbound(),
                cpm,
                sender,
                ok,
                *final(env),
                final(self).outbound(),
            ),
    {
        match cpm {
            ConfirmPeersMessage::Confirming(from_index) => {
                if env.registry.get_peer_id_by_index(from_index as usize).is_none() {
                    return false;
                }
                let reply = ConfirmPeersMessage::Confirmed(env.registry.local_string_peer_id());
                let hash = env.registry.get_peers_hash();
                self.global_out.push((GossipMessage::ConfirmPeers(reply, hash), Some(sender)));
                assert(self.outbound().drop_last() =~= old(self).outbound());
                true
            },
            ConfirmPeersMessage::Confirmed(sender_string_id) => {
                if to_base58(&sender) != sender_string_id {
                    return false;
                }
                if env.state.local_key.is_some() {
                    return true;
                }
                if !env.registry.set_peer_generating(&sender) {
                    return false;
                }
                let ghost mid = *env;
                assert(sender_marked(*old(env), sender, mid));
                let others = env.registry.generating_count();
                if others >= u16::MAX as usize || others + 1 != env.config.players as usize {
                    return true;
                }
                let local_index = env.registry.get_local_index();
                if local_index > u16::MAX as usize {
                    return false;
                }
                let index = local_index as PeerIndex;
                let key = create_keys(index);
                let (commit, decommit) = phase1_broadcast(&key);
                self.begin_generation(env, index, key, commit, decommit);
                assert(generation_begun(
                    mid,
                    old(self).outbound(),
                    mid.registry.local_index() as PeerIndex,
                    key,
                    commit,
                    decommit,
                    *env,
                    self.outbound(),
                ));
                true
            },
        }
    }

    /// Handles one message.
    pub fn handle_incoming(&mut self, env: &mut Environment, msg: GossipMessage, sender: Option<PeerId>) -> (ok:
        bool)
        requires
            old(env).wf(),
        ensures
            final(env).wf(),
            final(self).steady(*old(self)),
            incoming_handled(
                *old(env),
                old(self).outbound(),
                msg,
                sender,
                ok,
                *final(env),
                final(self).outbound(),
            ),
    {
        match msg {
            GossipMessage::ConfirmPeers(cpm, all_peers_hash) => {
                match sender {
                    Some(who) => self.handle_cpm(env, cpm, who, all_peers_hash),
                    None => false,
                }
            },
            GossipMessage::KeyGen(kgm, all_peers_hash) => {
                if env.registry.is_local_complete() || env.registry.is_local_canceled() {
                    return true;
                }
                self.handle_kgm(env, kgm, all_peers_hash)
            },
            GossipMessage::Sign(_) => true,
        }
    }

    /// The first part of a tick: takes the messages that have arrived, in
    /// their order, and re-checks the construction trigger. What is to be sent
    /// waits in the queue of outgoing messages.
    pub fn poll(&mut self, env: &mut Environment, inbound: VecDeque<MessageWithSender>)
        requires
            old(env).wf(),
        ensures
            final(env).wf(),
            final(self).sink().phase == old(self).sink().phase,
            final(self).sink().send_failed == old(self).sink().send_failed,
            !final(env).state.construction_due(final(env).config.players),
            exists|mid: Environment, mid_out: Seq<MessageWithSender>| #[trigger]
                messages_taken(
                    *old(env),
                    old(self).outbound(),
                    unlatched(old(self).edge()),
                    inbound@,
                    mid,
                    mid_out,
                    final(self).edge(),
                ) && keys_generated(mid, mid_out, *final(env), final(self).outbound()),
    {
        let mut inbound = inbound;
        let ghost all = inbound@;
        let ghost mut taken: int = 0;
        self.edge = Edge {
            last_ok: self.edge.last_ok,
            should_rebuild: self.edge.should_rebuild,
            latched: false,
        };
        while inbound.len() > 0
            invariant
                env.wf(),
                0 <= taken <= all.len(),
                inbound@ == all.subrange(taken, all.len() as int),
                self.sink().phase == old(self).sink().phase,
                self.sink().send_failed == old(self).sink().send_failed,
                messages_taken(
                    *old(env),
                    old(self).outbound(),
                    unlatched(old(self).edge()),
                    all.take(taken),
                    *env,
                    self.outbound(),
                    self.edge(),
                ),
            decreases inbound@.len(),
        {
            let ghost pre = *env;
            let ghost pre_out = self.outbound();
            let ghost pre_edge = self.edge();
            match inbound.pop_front() {
                Some((msg, sender)) => {
                    let ok = self.handle_incoming(env, msg, sender);
                    let ghost mid = *env;
                    let ghost mid_out = self.outbound();
                    self.note_outcome(ok);
                    self.generate_shared_keys(env);
                    proof {
                        let m = all[taken];
                        assert(m == (msg, sender));
                        assert(incoming_handled(pre, pre_out, m.0, m.1, ok, mid, mid_out));
                        assert(message_taken(
                            pre,
                            pre_out,
                            pre_edge,
                            m,
                            *env,
                            self.outbound(),
                            self.edge(),
                        ));
                        let next = all.take(taken + 1);
                        assert(next.drop_last() =~= all.take(taken));
                        assert(next.last() == m);
                        assert(messages_taken(
                            *old(env),
                            old(self).outbound(),
                            unlatched(old(self).edge()),
                            next.drop_last(),
                            pre,
                            pre_out,
                            pre_edge,
                        ));
                        assert(message_taken(
                            pre,
                            pre_out,
                            pre_edge,
                            next.last(),
                            *env,
                            self.outbound(),
                            self.edge(),
                        ));
                        assert(messages_taken(
                            *old(env),
                            old(self).outbound(),
                            unlatched(old(self).edge()),
                            next,
                            *env,
                            self.outbound(),
                            self.edge(),
                        ));
                        taken = taken + 1;
                    }
                },
                None => {},
            }
        }
        proof {
            assert(all.take(taken) =~= all);
        }
        let ghost mid = *env;
        let ghost mid_out = self.outbound();
        self.generate_shared_keys(env);
        assert(messages_taken(
            *old(env),
            old(self).outbound(),
            unlatched(old(self).edge()),
            all,
            mid,
            mid_out,
            self.edge(),
        ) && keys_generated(mid, mid_out, *env, self.outbound())) by {
            assert(all.take(taken) =~= all);
        }
    }

    /// The second part of a tick, one step of it: passes a report of the
    /// transport to the queue of outgoing messages and says what to ask of the
    /// transport next.
    pub fn drive(&mut self, event: SinkEvent) -> (action: SinkAction<MessageWithSender>)
        ensures
            final(self).sink() == sink_step(old(self).sink(), event).model,
            action == sink_step(old(self).sink(), event).action,
            final(self).edge() == old(self).edge(),
    {
        self.global_out.poll(event)
    }

    /// The end of a tick: takes the outcome of the drive into account and
    /// reports whether the driver asks to be replaced.
    pub fn conclude(&mut self, outcome: DriveOutcome) -> (r: Progress)
        ensures
            final(self).edge() == concluded(old(self).edge(), outcome),
            final(self).sink() == old(self).sink(),
            final(self).edge().should_rebuild ==> r matches Progress::Ready(Err(Error::Rebuild)),
            !final(self).edge().should_rebuild ==> r is Pending,
    {
        if outcome.send_failed {
            self.note_outcome(false);
        }
        if self.edge.should_rebuild {
            Progress::Ready(Err(Error::Rebuild))
        } else {
            Progress::Pending
        }
    }
}

} // verus!
