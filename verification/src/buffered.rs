//! A queue of outgoing items in front of a transport that may not be ready.
//!
//! The queue never blocks and never reorders. It does not talk to the
//! transport itself: it tells its owner what to ask of the transport next, and
//! the owner reports back what the transport answered. One round of such
//! questions and answers, from `Begin` to `Done`, is a drive.

use std::collections::VecDeque;
use vstd::prelude::*;

verus! {

/// What a transport answers when asked whether it can take an item, or
/// whether it has flushed.
#[derive(Debug, PartialEq, Eq, Structural, Copy, Clone)]
pub enum Readiness {
    Ready,
    Pending,
    Failed,
}

/// What the owner of the queue reports to it.
#[derive(Debug, PartialEq, Eq, Structural, Copy, Clone)]
pub enum SinkEvent {
    /// A new drive starts.
    Begin,
    /// The transport was asked whether it can take an item.
    ReadyPolled(Readiness),
    /// The transport was handed an item; `true` where it took it.
    SendStarted(bool),
    /// The transport was asked to flush.
    FlushPolled(Readiness),
}

/// How a drive ended.
#[derive(Debug, PartialEq, Eq, Structural, Copy, Clone)]
pub struct DriveOutcome {
    /// The transport was ready to the end, the queue is empty as the drive
    /// ends, and the transport has flushed.
    pub ready: bool,
    /// The transport refused an item during this drive; the item is lost.
    pub send_failed: bool,
}

/// What the owner of the queue is to do next.
#[derive(Debug)]
pub enum SinkAction<A> {
    /// Ask the transport whether it can take an item.
    PollReady,
    /// Hand this item to the transport.
    StartSend(A),
    /// Ask the transport to flush.
    PollFlush,
    /// The drive is over.
    Done(DriveOutcome),
}

/// Where a drive stands.
#[derive(Debug, PartialEq, Eq, Structural, Copy, Clone)]
pub enum SinkPhase {
    /// No drive is under way.
    Idle,
    /// The transport has been asked whether it can take an item.
    AwaitingReady,
    /// The transport has been handed an item.
    AwaitingSend,
    /// The transport has been asked to flush; `true` where the transport was
    /// ready to the end and found the queue empty.
    AwaitingFlush(bool),
}

/// The queue as the contracts see it.
pub struct SinkModel<A> {
    pub phase: SinkPhase,
    pub send_failed: bool,
    pub queue: Seq<A>,
}

/// One step of a drive: the queue afterwards and what to do next.
pub struct SinkStep<A> {
    pub model: SinkModel<A>,
    pub action: SinkAction<A>,
}

/// The queue ends the drive without having emptied itself.
pub open spec fn give_up<A>(m: SinkModel<A>) -> SinkStep<A> {
    SinkStep {
        model: SinkModel { phase: SinkPhase::AwaitingFlush(false), ..m },
        action: SinkAction::PollFlush,
    }
}

/// The rule of the queue: what it does on each report, in each phase.
///
/// A drive asks the transport whether it is ready, hands it the item at the
/// head while it says so, and asks it to flush at the end. It stops handing
/// items out only where the transport is not ready. An item that the
/// transport refuses is lost and marks the drive; the items behind it are
/// handed over all the same. Whether the drive ends ready is told from the
/// queue as it stands when the transport has flushed. A report that does not
/// answer the question last asked ends the drive.
pub open spec fn sink_step<A>(m: SinkModel<A>, event: SinkEvent) -> SinkStep<A> {
    match (m.phase, event) {
        (SinkPhase::Idle, SinkEvent::Begin) => SinkStep {
            model: SinkModel { phase: SinkPhase::AwaitingReady, send_failed: false, queue: m.queue },
            action: SinkAction::PollReady,
        },
        (SinkPhase::AwaitingReady, SinkEvent::ReadyPolled(Readiness::Ready)) => {
            if m.queue.len() > 0 {
                SinkStep {
                    model: SinkModel {
                        phase: SinkPhase::AwaitingSend,
                        send_failed: m.send_failed,
                        queue: m.queue.subrange(1, m.queue.len() as int),
                    },
                    action: SinkAction::StartSend(m.queue[0]),
                }
            } else {
                SinkStep {
                    model: SinkModel { phase: SinkPhase::AwaitingFlush(true), ..m },
                    action: SinkAction::PollFlush,
                }
            }
        },
        (SinkPhase::AwaitingReady, SinkEvent::ReadyPolled(_)) => give_up(m),
        (SinkPhase::AwaitingSend, SinkEvent::SendStarted(true)) => SinkStep {
            model: SinkModel { phase: SinkPhase::AwaitingReady, ..m },
            action: SinkAction::PollReady,
        },
        (SinkPhase::AwaitingSend, SinkEvent::SendStarted(false)) => SinkStep {
            model: SinkModel {
                phase: SinkPhase::AwaitingReady,
                send_failed: true,
                queue: m.queue,
            },
            action: SinkAction::PollReady,
        },
        (SinkPhase::AwaitingFlush(drained), SinkEvent::FlushPolled(r)) => SinkStep {
            model: SinkModel { phase: SinkPhase::Idle, ..m },
            action: SinkAction::Done(
                DriveOutcome {
                    ready: drained && m.queue.len() == 0 && r == Readiness::Ready,
                    send_failed: m.send_failed,
                },
            ),
        },
        _ => SinkStep {
            model: SinkModel { phase: SinkPhase::Idle, ..m },
            action: SinkAction::Done(DriveOutcome { ready: false, send_failed: m.send_failed }),
        },
    }
}

/// The items that an action hands to the transport: one, or none.
pub open spec fn handed<A>(action: SinkAction<A>) -> Seq<A> {
    match action {
        SinkAction::StartSend(item) => seq![item],
        _ => Seq::empty(),
    }
}

/// The items handed to the transport, in order, while the queue is taken
/// through a sequence of reports.
pub open spec fn handed_over<A>(m: SinkModel<A>, events: Seq<SinkEvent>) -> Seq<A>
    decreases events.len(),
{
    if events.len() == 0 {
        Seq::empty()
    } else {
        let step = sink_step(m, events[0]);
        handed(step.action) + handed_over(step.model, events.subrange(1, events.len() as int))
    }
}

/// The queue after a sequence of reports.
pub open spec fn after_events<A>(m: SinkModel<A>, events: Seq<SinkEvent>) -> SinkModel<A>
    decreases events.len(),
{
    if events.len() == 0 {
        m
    } else {
        after_events(sink_step(m, events[0]).model, events.subrange(1, events.len() as int))
    }
}

/// First in, first out, nothing lost: whatever the transport answers, the
/// items handed to it so far, followed by the items still queued, are the
/// items that were queued at the start, in their order.
pub proof fn law_fifo<A>(m: SinkModel<A>, events: Seq<SinkEvent>)
    ensures
        handed_over(m, events) + after_events(m, events).queue == m.queue,
    decreases events.len(),
{
    if events.len() == 0 {
        assert(handed_over(m, events) + after_events(m, events).queue =~= m.queue);
    } else {
        let step = sink_step(m, events[0]);
        let rest = events.subrange(1, events.len() as int);
        law_fifo(step.model, rest);
        assert(handed(step.action) + step.model.queue =~= m.queue);
        assert(handed_over(m, events) + after_events(m, events).queue =~= handed(step.action) + (
        handed_over(step.model, rest) + after_events(step.model, rest).queue));
    }
}

/// Back-pressure: a drive hands nothing to a transport that is not ready when
/// first asked, and leaves the queue as it was.
pub proof fn law_backpressure<A>(m: SinkModel<A>, answer: Readiness, flush: Readiness)
    requires
        m.phase == SinkPhase::Idle,
        answer != Readiness::Ready,
    ensures
        ({
            let events = seq![
                SinkEvent::Begin,
                SinkEvent::ReadyPolled(answer),
                SinkEvent::FlushPolled(flush),
            ];
            &&& handed_over(m, events) == Seq::<A>::empty()
            &&& after_events(m, events).queue == m.queue
            &&& after_events(m, events).phase == SinkPhase::Idle
        }),
{
    let events = seq![SinkEvent::Begin, SinkEvent::ReadyPolled(answer), SinkEvent::FlushPolled(flush)];
    let e1 = events.subrange(1, 3);
    let e2 = e1.subrange(1, 2);
    let e3 = e2.subrange(1, 1);
    let s0 = sink_step(m, events[0]);
    let s1 = sink_step(s0.model, e1[0]);
    let s2 = sink_step(s1.model, e2[0]);
    assert(e3.len() == 0);
    assert(handed_over(s2.model, e3) =~= Seq::<A>::empty());
    assert(after_events(s2.model, e3) == s2.model);
    assert(handed_over(s1.model, e2) =~= Seq::<A>::empty());
    assert(handed_over(s0.model, e1) =~= Seq::<A>::empty());
    assert(handed_over(m, events) =~= Seq::<A>::empty());
    assert(after_events(s1.model, e2) == s2.model);
    assert(after_events(s0.model, e1) == s2.model);
    assert(after_events(m, events) == s2.model);
}

/// What a transport that is always ready, takes every item and flushes at
/// once answers in the course of a drive, from the first question whether it
/// is ready, while `n` items are queued.
pub open spec fn willing_answers(n: nat) -> Seq<SinkEvent>
    decreases n,
{
    if n == 0 {
        seq![SinkEvent::ReadyPolled(Readiness::Ready), SinkEvent::FlushPolled(Readiness::Ready)]
    } else {
        seq![SinkEvent::ReadyPolled(Readiness::Ready), SinkEvent::SendStarted(true)]
            + willing_answers((n - 1) as nat)
    }
}

/// Once the transport has been asked whether it is ready, a willing
/// transport is handed the whole queue in order, and the queue is left empty
/// and idle.
proof fn lemma_willing_transport<A>(m: SinkModel<A>)
    requires
        m.phase == SinkPhase::AwaitingReady,
    ensures
        handed_over(m, willing_answers(m.queue.len())) == m.queue,
        after_events(m, willing_answers(m.queue.len())).queue == Seq::<A>::empty(),
        after_events(m, willing_answers(m.queue.len())).phase == SinkPhase::Idle,
        after_events(m, willing_answers(m.queue.len())).send_failed == m.send_failed,
    decreases m.queue.len(),
{
    let events = willing_answers(m.queue.len());
    let s0 = sink_step(m, events[0]);
    let e1 = events.subrange(1, events.len() as int);
    let s1 = sink_step(s0.model, e1[0]);
    let e2 = e1.subrange(1, e1.len() as int);
    if m.queue.len() == 0 {
        assert(e2.len() == 0);
        assert(handed_over(s1.model, e2) =~= Seq::<A>::empty());
        assert(after_events(s1.model, e2) == s1.model);
        assert(handed_over(s0.model, e1) =~= Seq::<A>::empty());
        assert(handed_over(m, events) =~= m.queue);
        assert(after_events(s0.model, e1) == s1.model);
        assert(m.queue =~= Seq::<A>::empty());
    } else {
        assert(e2 =~= willing_answers((m.queue.len() - 1) as nat));
        assert(s1.model.queue.len() == m.queue.len() - 1);
        lemma_willing_transport(s1.model);
        assert(handed_over(s0.model, e1) == handed(s1.action) + handed_over(s1.model, e2));
        assert(handed_over(m, events) =~= m.queue);
        assert(after_events(s0.model, e1) == after_events(s1.model, e2));
    }
}

/// A drive against a willing transport hands over everything that is queued,
/// in order and each item once, and leaves the queue empty.
pub proof fn law_willing_transport_drains<A>(m: SinkModel<A>)
    requires
        m.phase == SinkPhase::Idle,
    ensures
        ({
            let events = seq![SinkEvent::Begin] + willing_answers(m.queue.len());
            &&& handed_over(m, events) == m.queue
            &&& after_events(m, events).queue == Seq::<A>::empty()
            &&& after_events(m, events).phase == SinkPhase::Idle
            &&& !after_events(m, events).send_failed
        }),
{
    let events = seq![SinkEvent::Begin] + willing_answers(m.queue.len());
    let s0 = sink_step(m, events[0]);
    assert(events.subrange(1, events.len() as int) =~= willing_answers(m.queue.len()));
    lemma_willing_transport(s0.model);
    assert(handed_over(m, events) =~= m.queue);
}

/// A refused item does not block the items behind it: the drive goes on to
/// ask the transport whether it is ready, and a ready transport is handed the
/// next item. The refused item is not handed over again, and the drive is
/// marked.
pub proof fn law_refusal_does_not_block<A>(m: SinkModel<A>)
    requires
        m.phase == SinkPhase::AwaitingSend,
        m.queue.len() > 0,
    ensures
        ({
            let events = seq![
                SinkEvent::SendStarted(false),
                SinkEvent::ReadyPolled(Readiness::Ready),
            ];
            &&& handed_over(m, events) == seq![m.queue[0]]
            &&& after_events(m, events).queue == m.queue.subrange(1, m.queue.len() as int)
            &&& after_events(m, events).phase == SinkPhase::AwaitingSend
            &&& after_events(m, events).send_failed
        }),
{
    let events = seq![SinkEvent::SendStarted(false), SinkEvent::ReadyPolled(Readiness::Ready)];
    let e1 = events.subrange(1, 2);
    let e2 = e1.subrange(1, 1);
    let s0 = sink_step(m, events[0]);
    let s1 = sink_step(s0.model, e1[0]);
    assert(e2.len() == 0);
    assert(handed_over(s1.model, e2) =~= Seq::<A>::empty());
    assert(after_events(s1.model, e2) == s1.model);
    assert(handed_over(s0.model, e1) =~= seq![m.queue[0]]);
    assert(handed_over(m, events) =~= seq![m.queue[0]]);
    assert(after_events(s0.model, e1) == s1.model);
    assert(after_events(m, events) == s1.model);
}

/// A drive that ends ready leaves nothing queued, whatever was pushed while
/// the transport flushed.
pub proof fn law_ready_means_empty<A>(m: SinkModel<A>, event: SinkEvent)
    requires
        sink_step(m, event).action matches SinkAction::Done(outcome) && outcome.ready,
    ensures
        sink_step(m, event).model.queue == Seq::<A>::empty(),
        sink_step(m, event).model.phase == SinkPhase::Idle,
{
    assert(m.queue =~= Seq::<A>::empty());
}

/// A queue of outgoing items in front of a transport.
#[derive(Debug)]
pub struct Buffered<A> {
    buffer: VecDeque<A>,
    phase: SinkPhase,
    send_failed: bool,
}

impl<A> View for Buffered<A> {
    type V = SinkModel<A>;

    closed spec fn view(&self) -> SinkModel<A> {
        SinkModel { phase: self.phase, send_failed: self.send_failed, queue: self.buffer@ }
    }
}

impl<A> Buffered<A> {
    /// An empty queue with no drive under way.
    pub fn new() -> (r: Self)
        ensures
            r@.queue == Seq::<A>::empty(),
            r@.phase == SinkPhase::Idle,
            !r@.send_failed,
    {
        Buffered { buffer: VecDeque::new(), phase: SinkPhase::Idle, send_failed: false }
    }

    /// Whether nothing is queued.
    pub fn is_empty(&self) -> (b: bool)
        ensures
            b == (self@.queue.len() == 0),
    {
        self.buffer.len() == 0
    }

    /// Number of queued items.
    pub fn len(&self) -> (n: usize)
        ensures
            n == self@.queue.len(),
    {
        self.buffer.len()
    }

    /// Queues an item behind all that are queued.
    pub fn push(&mut self, item: A)
        ensures
            final(self)@.queue == old(self)@.queue.push(item),
            final(self)@.phase == old(self)@.phase,
            final(self)@.send_failed == old(self)@.send_failed,
    {
        self.buffer.push_back(item);
    }

    /// Takes one report and says what to do next, by the rule of the queue.
    pub fn poll(&mut self, event: SinkEvent) -> (action: SinkAction<A>)
        ensures
            final(self)@ == sink_step(old(self)@, event).model,
            action == sink_step(old(self)@, event).action,
    {
        match (self.phase, event) {
            (SinkPhase::Idle, SinkEvent::Begin) => {
                self.phase = SinkPhase::AwaitingReady;
                self.send_failed = false;
                SinkAction::PollReady
            },
            (SinkPhase::AwaitingReady, SinkEvent::ReadyPolled(Readiness::Ready)) => {
                match self.buffer.pop_front() {
                    Some(item) => {
                        self.phase = SinkPhase::AwaitingSend;
                        SinkAction::StartSend(item)
                    },
                    None => {
                        self.phase = SinkPhase::AwaitingFlush(true);
                        SinkAction::PollFlush
                    },
                }
            },
            (SinkPhase::AwaitingReady, SinkEvent::ReadyPolled(_)) => {
                self.phase = SinkPhase::AwaitingFlush(false);
                SinkAction::PollFlush
            },
            (SinkPhase::AwaitingSend, SinkEvent::SendStarted(true)) => {
                self.phase = SinkPhase::AwaitingReady;
                SinkAction::PollReady
            },
            (SinkPhase::AwaitingSend, SinkEvent::SendStarted(false)) => {
                self.phase = SinkPhase::AwaitingReady;
                self.send_failed = true;
                SinkAction::PollReady
            },
            (SinkPhase::AwaitingFlush(drained), SinkEvent::FlushPolled(r)) => {
                self.phase = SinkPhase::Idle;
                SinkAction::Done(
                    DriveOutcome {
                        ready: drained && self.buffer.len() == 0 && r == Readiness::Ready,
                        send_failed: self.send_failed,
                    },
                )
            },
            _ => {
                self.phase = SinkPhase::Idle;
                SinkAction::Done(DriveOutcome { ready: false, send_failed: self.send_failed })
            },
        }
    }
}

} // verus!
