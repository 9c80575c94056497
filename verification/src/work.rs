//! The supervisor of a ceremony.
//!
//! The supervisor owns what a ceremony works on, and one protocol driver at a
//! time. When the driver asks to be replaced, the supervisor puts a fresh one
//! in its place. What has been accumulated outlives the driver; what the old
//! driver had queued for sending goes with it.

use crate::buffered::{sink_step, DriveOutcome, SinkAction, SinkEvent, SinkPhase};
use crate::message::MessageWithSender;
use crate::party::{shared_key_point, PublicPoint};
use crate::peer::{base58_text, peer_key, PeerState, Peers};
use crate::registry::Registry;
use crate::rules::{
    concluded, keys_generated, messages_taken, observe, registry_is, unlatched, Edge,
};
use crate::signer::{Progress, Signer};
use crate::state::{Environment, KeyGenState, NodeConfig};
use libp2p_identity::PeerId;
use std::collections::VecDeque;
use vstd::prelude::*;

verus! {

/// What a fresh driver remembers: the outcome before its first message.
pub open spec fn fresh_edge(last_ok: bool) -> Edge {
    Edge { last_ok, should_rebuild: false, latched: false }
}

/// What a driver remembers after a tick in which the messages had the given
/// outcomes, in their order.
pub open spec fn after_outcomes(e: Edge, outcomes: Seq<bool>) -> Edge
    decreases outcomes.len(),
{
    if outcomes.len() == 0 {
        e
    } else {
        observe(after_outcomes(e, outcomes.drop_last()), outcomes.last())
    }
}

/// How often the supervisor replaces its driver over a run of ticks, given the
/// outcomes of the messages of each tick, when the first driver takes the
/// outcome before its first message to have been `last_ok`.
pub open spec fn rebuilds(last_ok: bool, ticks: Seq<Seq<bool>>) -> nat
    decreases ticks.len(),
{
    if ticks.len() == 0 {
        0
    } else {
        let e = after_outcomes(fresh_edge(last_ok), ticks[0]);
        let rest = rebuilds(e.last_ok, ticks.subrange(1, ticks.len() as int));
        if e.should_rebuild {
            rest + 1
        } else {
            rest
        }
    }
}

/// How often an outcome differs from the one before it, `prev` being the one
/// before the first.
pub open spec fn changes(prev: bool, outcomes: Seq<bool>) -> nat
    decreases outcomes.len(),
{
    if outcomes.len() == 0 {
        0
    } else {
        let rest = changes(outcomes[0], outcomes.subrange(1, outcomes.len() as int));
        if outcomes[0] != prev {
            rest + 1
        } else {
            rest
        }
    }
}

/// The ticks in which the given outcomes arrive one at a time.
pub open spec fn one_by_one(outcomes: Seq<bool>) -> Seq<Seq<bool>> {
    Seq::new(outcomes.len(), |i: int| seq![outcomes[i]])
}

/// A driver that does not ask to be replaced at the end of a tick remembers
/// just what a fresh driver would.
pub proof fn lemma_quiet_tick(last_ok: bool, outcomes: Seq<bool>)
    ensures
        ({
            let e = after_outcomes(fresh_edge(last_ok), outcomes);
            &&& e.latched == e.should_rebuild
            &&& !e.should_rebuild ==> e == fresh_edge(e.last_ok)
        }),
    decreases outcomes.len(),
{
    if outcomes.len() > 0 {
        lemma_quiet_tick(last_ok, outcomes.drop_last());
    }
}

/// Edge triggering: when the messages arrive one per tick, the driver is
/// replaced once for every outcome that differs from the one before it, and
/// never otherwise.
pub proof fn law_rebuild_per_edge(prev: bool, outcomes: Seq<bool>)
    ensures
        rebuilds(prev, one_by_one(outcomes)) == changes(prev, outcomes),
    decreases outcomes.len(),
{
    let ticks = one_by_one(outcomes);
    if outcomes.len() > 0 {
        let rest = outcomes.subrange(1, outcomes.len() as int);
        law_rebuild_per_edge(outcomes[0], rest);
        assert(ticks.subrange(1, ticks.len() as int) =~= one_by_one(rest));
        let first = ticks[0];
        assert(first =~= seq![outcomes[0]]);
        assert(first.drop_last() =~= Seq::<bool>::empty());
        assert(after_outcomes(fresh_edge(prev), first.drop_last()) == fresh_edge(prev));
        assert(after_outcomes(fresh_edge(prev), first) == observe(fresh_edge(prev), outcomes[0]));
    }
}

/// Within one tick only the first change of outcome counts: the driver asks
/// to be replaced exactly when some message of the tick had another outcome
/// than the message before it.
pub proof fn law_first_edge_latches(last_ok: bool, outcomes: Seq<bool>)
    ensures
        after_outcomes(fresh_edge(last_ok), outcomes).should_rebuild <==> changes(last_ok, outcomes)
            > 0,
    decreases outcomes.len(),
{
    lemma_edge_scan(last_ok, outcomes);
}

/// What a fresh driver remembers after a tick, told from the outcomes alone.
proof fn lemma_edge_scan(last_ok: bool, outcomes: Seq<bool>)
    ensures
        ({
            let e = after_outcomes(fresh_edge(last_ok), outcomes);
            &&& e.should_rebuild <==> changes(last_ok, outcomes) > 0
            &&& !e.should_rebuild ==> e.last_ok == (if outcomes.len() == 0 {
                last_ok
            } else {
                outcomes.last()
            })
            &&& !e.should_rebuild ==> forall|i: int| 0 <= i < outcomes.len() ==> outcomes[i] == last_ok
        }),
    decreases outcomes.len(),
{
    if outcomes.len() > 0 {
        let init = outcomes.drop_last();
        lemma_edge_scan(last_ok, init);
        lemma_quiet_tick(last_ok, init);
        lemma_changes_push(last_ok, init, outcomes.last());
        assert(init.push(outcomes.last()) =~= outcomes);
    }
}

/// Counting the changes of a sequence with one more outcome at its end.
proof fn lemma_changes_push(prev: bool, outcomes: Seq<bool>, next: bool)
    ensures
        changes(prev, outcomes.push(next)) == changes(prev, outcomes) + (if next != (if outcomes.len()
            == 0 {
            prev
        } else {
            outcomes.last()
        }) {
            1nat
        } else {
            0nat
        }),
    decreases outcomes.len(),
{
    let all = outcomes.push(next);
    if outcomes.len() == 0 {
        assert(all.subrange(1, 1) =~= Seq::<bool>::empty());
        assert(changes(all[0], all.subrange(1, 1)) == 0);
    } else {
        let rest = outcomes.subrange(1, outcomes.len() as int);
        lemma_changes_push(outcomes[0], rest, next);
        assert(all.subrange(1, all.len() as int) =~= rest.push(next));
        if rest.len() > 0 {
            assert(rest.last() == outcomes.last());
        }
    }
}

/// A participant has been filed at `index` of the canonical order, in the
/// initial lifecycle state; the others stand as before, those behind it one
/// place further on.
pub open spec fn joined(pre: Peers, who: PeerId, index: int, post: Peers) -> bool {
    &&& 0 <= index <= pre.canon().len()
    &&& post.canon() == pre.canon().insert(index, peer_key(who))
    &&& post.texts() == pre.texts().insert(index, base58_text(who))
    &&& post.ids() == pre.ids().insert(index, who)
    &&& post.states() == pre.states().insert(index, PeerState::AwaitingPeers)
}

/// The supervisor of a ceremony.
#[derive(Debug)]
pub struct KeyGenWork {
    key_gen: Signer,
    env: Environment,
}

/// What the end of a tick comes to.
#[derive(Debug)]
pub struct WorkStep {
    /// Whether the ceremony goes on or the supervisor has ended.
    pub progress: Progress,
    /// Whether the driver has been replaced; the supervisor then wants to be
    /// polled again at once.
    pub rebuilt: bool,
}

/// A summary of where a ceremony stands.
#[derive(Debug, PartialEq, Eq, Structural, Copy, Clone)]
pub struct Status {
    pub local_index: usize,
    pub peers: usize,
    pub peers_hash: u64,
    pub commits: usize,
    pub decommits: usize,
    pub vsss: usize,
    pub secret_shares: usize,
    pub proofs: usize,
    pub has_key: bool,
    pub complete: bool,
    pub local_state: PeerState,
}

impl KeyGenWork {
    /// What the ceremony works on.
    pub closed spec fn env(&self) -> Environment {
        self.env
    }

    /// The driver in place.
    pub closed spec fn driver(&self) -> Signer {
        self.key_gen
    }

    /// Well-formedness of what the ceremony works on.
    pub open spec fn wf(&self) -> bool {
        self.env().wf()
    }

    /// A supervisor for a node that knows only itself and has accumulated
    /// nothing. Its first driver takes the outcome before its first message
    /// to have been good.
    pub fn new(config: NodeConfig, local_peer_id: PeerId) -> (r: Self)
        ensures
            r.wf(),
            r.env().config == config,
            r.env().state.is_clear(),
            r.env().registry.local() == local_peer_id,
            r.env().registry.local_state_spec() == PeerState::AwaitingPeers,
            r.env().registry.peers().canon() == seq![peer_key(local_peer_id)],
            r.env().registry.peers().texts() == seq![base58_text(local_peer_id)],
            r.env().registry.peers().ids() == seq![local_peer_id],
            r.env().registry.peers().states() == seq![PeerState::AwaitingPeers],
            r.driver().edge() == fresh_edge(true),
            r.driver().outbound() == Seq::<MessageWithSender>::empty(),
            r.driver().sink().phase == SinkPhase::Idle,
            !r.driver().sink().send_failed,
    {
        let env = Environment {
            config,
            registry: Registry::new(local_peer_id),
            state: KeyGenState::new(),
        };
        let mut work = KeyGenWork { key_gen: Signer::new(true), env };
        work.rebuild(true);
        work
    }

    /// Puts a fresh driver in place. What has been accumulated stays; what the
    /// old driver had queued for sending is dropped.
    pub fn rebuild(&mut self, last_message_ok: bool)
        ensures
            final(self).env() == old(self).env(),
            final(self).driver().edge() == fresh_edge(last_message_ok),
            final(self).driver().outbound() == Seq::<MessageWithSender>::empty(),
            final(self).driver().sink().phase == SinkPhase::Idle,
            !final(self).driver().sink().send_failed,
    {
        self.key_gen = Signer::new(last_message_ok);
    }

    /// Takes note of a participant and returns its index. A participant that
    /// is already known keeps what is recorded about it; a new one is filed
    /// at its place in the canonical order, in the initial lifecycle state.
    pub fn peer_connected(&mut self, who: PeerId) -> (index: usize)
        requires
            old(self).wf(),
        ensures
            final(self).wf(),
            final(self).driver() == old(self).driver(),
            final(self).env().config == old(self).env().config,
            final(self).env().state == old(self).env().state,
            final(self).env().registry.local() == old(self).env().registry.local(),
            final(self).env().registry.local_state_spec()
                == old(self).env().registry.local_state_spec(),
            final(self).env().registry.peers().position(peer_key(who)) == Some(index as int),
            match old(self).env().registry.peers().position(peer_key(who)) {
                Some(p) => final(self).env().registry.peers() == old(self).env().registry.peers(),
                None => joined(
                    old(self).env().registry.peers(),
                    who,
                    index as int,
                    final(self).env().registry.peers(),
                ),
            },
    {
        self.env.registry.add_peer(who)
    }

    /// Takes note that a participant has left: it keeps its index and is
    /// marked as canceled. Nothing changes for an unknown participant.
    pub fn peer_disconnected(&mut self, who: &PeerId)
        requires
            old(self).wf(),
        ensures
            final(self).wf(),
            final(self).driver() == old(self).driver(),
            final(self).env().config == old(self).env().config,
            final(self).env().state == old(self).env().state,
            registry_is(
                old(self).env().registry,
                final(self).env().registry,
                match old(self).env().registry.peers().position(peer_key(*who)) {
                    Some(p) => old(self).env().registry.peers().states().update(
                        p,
                        PeerState::Canceled,
                    ),
                    None => old(self).env().registry.peers().states(),
                },
                old(self).env().registry.local_state_spec(),
            ),
    {
        self.env.registry.peer_disconnected(who);
    }

    /// The shared public key, once the ceremony is complete.
    pub fn completed_key(&self) -> (r: Option<PublicPoint>)
        ensures
            r == match self.env().state.shared_keys {
                Some(keys) if self.env().state.complete => Some(shared_key_point(keys)),
                _ => None,
            },
    {
        if self.env.state.complete {
            self.env.state.shared_public_key()
        } else {
            None
        }
    }

    /// The first part of a tick: the driver takes the messages that have
    /// arrived.
    pub fn poll(&mut self, inbound: VecDeque<MessageWithSender>)
        requires
            old(self).wf(),
        ensures
            final(self).wf(),
            final(self).driver().sink().phase == old(self).driver().sink().phase,
            final(self).driver().sink().send_failed == old(self).driver().sink().send_failed,
            !final(self).env().state.construction_due(final(self).env().config.players),
            exists|mid: Environment, mid_out: Seq<MessageWithSender>| #[trigger]
                messages_taken(
                    old(self).env(),
                    old(self).driver().outbound(),
                    unlatched(old(self).driver().edge()),
                    inbound@,
                    mid,
                    mid_out,
                    final(self).driver().edge(),
                ) && keys_generated(
                    mid,
                    mid_out,
                    final(self).env(),
                    final(self).driver().outbound(),
                ),
    {
        self.key_gen.poll(&mut self.env, inbound);
    }

    /// The second part of a tick, one step of it: passes a report of the
    /// transport to the driver's queue and says what to ask of the transport
    /// next.
    pub fn drive(&mut self, event: SinkEvent) -> (action: SinkAction<MessageWithSender>)
        ensures
            final(self).env() == old(self).env(),
            final(self).driver().sink() == sink_step(old(self).driver().sink(), event).model,
            action == sink_step(old(self).driver().sink(), event).action,
            final(self).driver().edge() == old(self).driver().edge(),
    {
        self.key_gen.drive(event)
    }

    /// The end of a tick. A driver that asks to be replaced is replaced by a
    /// fresh one, which takes over the outcome that the old one saw last; the
    /// ceremony goes on either way.
    pub fn conclude(&mut self, outcome: DriveOutcome) -> (step: WorkStep)
        ensures
            final(self).env() == old(self).env(),
            step.progress is Pending,
            step.rebuilt == concluded(old(self).driver().edge(), outcome).should_rebuild,
            step.rebuilt ==> {
                &&& final(self).driver().edge() == fresh_edge(
                    concluded(old(self).driver().edge(), outcome).last_ok,
                )
                &&& final(self).driver().outbound() == Seq::<MessageWithSender>::empty()
                &&& final(self).driver().sink().phase == SinkPhase::Idle
                &&& !final(self).driver().sink().send_failed
            },
            !step.rebuilt ==> {
                &&& final(self).driver().edge() == concluded(old(self).driver().edge(), outcome)
                &&& final(self).driver().sink() == old(self).driver().sink()
            },
    {
        match self.key_gen.conclude(outcome) {
            Progress::Pending => WorkStep { progress: Progress::Pending, rebuilt: false },
            Progress::Ready(_) => {
                let last = self.key_gen.last_message_ok();
                self.rebuild(last);
                WorkStep { progress: Progress::Pending, rebuilt: true }
            },
        }
    }

    /// What the ceremony works on.
    pub fn environment(&self) -> (r: &Environment)
        ensures
            *r == self.env(),
    {
        &self.env
    }

    /// Number of outgoing messages that wait to be sent.
    pub fn pending(&self) -> (n: usize)
        ensures
            n == self.driver().outbound().len(),
    {
        self.key_gen.pending()
    }

    /// Where the ceremony stands.
    pub fn status(&self) -> (r: Status)
        requires
            self.wf(),
        ensures
            r.local_index == self.env().registry.local_index(),
            r.peers == self.env().registry.peers().canon().len(),
            r.peers_hash == crate::peer::fingerprint(self.env().registry.peers().canon()),
            r.commits == self.env().state.commits.count(),
            r.decommits == self.env().state.decommits.count(),
            r.vsss == self.env().state.vsss.count(),
            r.secret_shares == self.env().state.secret_shares.count(),
            r.proofs == self.env().state.proofs.count(),
            r.has_key == self.env().state.local_key is Some,
            r.complete == self.env().state.complete,
            r.local_state == self.env().registry.local_state_spec(),
    {
        Status {
            local_index: self.env.registry.get_local_index(),
            peers: self.env.registry.get_peers_len(),
            peers_hash: self.env.registry.get_peers_hash(),
            commits: self.env.state.commits.len(),
            decommits: self.env.state.decommits.len(),
            vsss: self.env.state.vsss.len(),
            secret_shares: self.env.state.secret_shares.len(),
            proofs: self.env.state.proofs.len(),
            has_key: self.env.state.local_key.is_some(),
            complete: self.env.state.complete,
            local_state: self.env.registry.local_state(),
        }
    }
}

} // verus!
