//! A batch from the moment it is taken out of the buffer until each of its events
//! has its disposition: rendered, put together, sent and settled.
//!
//! Two kinds of run differ in how they send. A run in the steady state has a budget
//! of attempts; the last run, at shutdown, has one attempt.
use crate::batched::{
    byte_views, delivered_of, failures_of, finish_shutdown_flush, law_rendering_parts_the_batch,
    payloads_of, prepare_failed, reason_views, refused_reason, refused_text, render_batch,
    resolve_send_success, shippable_of, shutdown_flush_action, BatchFlush, FlushAction,
    FlushActionView, FlushEvent, FlushEventView, RenderedEvent, ShutdownSend, ShutdownSendView,
};
use crate::metrics::OutputMetrics;
use crate::otlp::buffer::{sent_counted, SendOutcome};
use crate::retry::RetryConfig;
use vstd::multiset::Multiset;
use vstd::prelude::*;

verus! {

/// What became of the events that were to be sent.
#[derive(Debug)]
pub struct Settled<E> {
    pub delivered: Vec<E>,
    /// The dead-lettered events, each with its reason.
    pub dead: Vec<(E, String)>,
}

/// What a [`Settled`] says.
pub ghost struct SettledView<E> {
    pub delivered: Seq<E>,
    pub dead: Seq<(E, Seq<char>)>,
}

impl<E> View for Settled<E> {
    type V = SettledView<E>;

    open spec fn view(&self) -> SettledView<E> {
        SettledView { delivered: self.delivered@, dead: reason_views(self.dead@) }
    }
}

/// Events that share a reason.
pub open spec fn all_dead<E>(events: Seq<E>, reason: Seq<char>) -> Seq<(E, Seq<char>)> {
    events.map_values(|e: E| (e, reason))
}

/// What the last action of a flush makes of the events that were to be sent.
pub open spec fn settled_by<E>(events: Seq<E>, action: FlushActionView) -> SettledView<E> {
    match action {
        FlushActionView::Resolve { outcome } => {
            let k = delivered_of(events.len(), outcome.rejected) as int;
            SettledView {
                delivered: events.take(k),
                dead: all_dead(events.skip(k), refused_text()),
            }
        },
        FlushActionView::DeadLetter { reason } => SettledView {
            delivered: Seq::empty(),
            dead: all_dead(events, reason),
        },
        _ => SettledView { delivered: Seq::empty(), dead: Seq::empty() },
    }
}

/// Whether an action ends a flush.
pub open spec fn ends(action: FlushActionView) -> bool {
    action is Resolve || action is DeadLetter
}

fn with_reason<E>(events: Vec<E>, reason: &str) -> (dead: Vec<(E, String)>)
    ensures
        reason_views(dead@) == all_dead(events@, reason@),
{
    let ghost all = events@;
    let mut dead: Vec<(E, String)> = Vec::new();
    assert(reason_views(dead@) =~= all_dead(all.take(0), reason@));
    for event in it: events
        invariant
            all == it.seq(),
            reason_views(dead@) == all_dead(all.take(it.index() as int), reason@),
    {
        let ghost before = dead@;
        let ghost k = it.index() as int;
        dead.push((event, reason.to_owned()));
        assert(reason_views(dead@) =~= reason_views(before).push((event, reason@)));
        assert(all_dead(all.take(k + 1), reason@) =~= all_dead(all.take(k), reason@).push(
            (event, reason@),
        ));
    }
    assert(all.take(all.len() as int) =~= all);
    dead
}

/// Settles the events that were to be sent by the action that ended their flush.
pub fn settle_batch<E>(events: Vec<E>, action: FlushAction, metrics: &mut OutputMetrics) -> (s:
    Settled<E>)
    requires
        ends(action@),
    ensures
        s@ == settled_by(events@, action@),
        *final(metrics) == match action@ {
            FlushActionView::Resolve { outcome } => sent_counted(
                *old(metrics),
                events@.len() as u64,
                outcome.rejected,
            ),
            _ => *old(metrics),
        },
{
    match action {
        FlushAction::Resolve { outcome } => {
            let (delivered, refused) = resolve_send_success(events, outcome, metrics);
            Settled { delivered, dead: with_reason(refused, refused_reason()) }
        },
        FlushAction::DeadLetter { reason } => Settled {
            delivered: Vec::new(),
            dead: with_reason(events, reason.as_str()),
        },
        _ => Settled { delivered: Vec::new(), dead: Vec::new() },
    }
}

/// Where a run stands.
#[derive(Debug, Clone, Copy, PartialEq, Eq, Structural)]
pub enum RunPhase {
    Preparing,
    Running,
    Finished,
}

/// What came of the last step of a run.
#[derive(Debug)]
pub enum RunEvent {
    /// The payloads were put together.
    Prepared,
    PrepareFailed { error: String },
    /// The collector took the batch.
    Sent { outcome: SendOutcome },
    /// The attempt failed; `stopping` says whether a shutdown had begun by then.
    SendFailed { error: String, stopping: bool },
    /// A shutdown cut the attempt short.
    SendCancelled,
    /// The one attempt of the last run took longer than `limit`.
    TimedOut { limit: String },
    /// The wait is over, or a shutdown cut it short.
    WaitOver,
}

pub ghost enum RunEventView {
    Prepared,
    PrepareFailed { error: Seq<char> },
    Sent { outcome: SendOutcome },
    SendFailed { error: Seq<char>, stopping: bool },
    SendCancelled,
    TimedOut { limit: Seq<char> },
    WaitOver,
}

impl View for RunEvent {
    type V = RunEventView;

    open spec fn view(&self) -> RunEventView {
        match self {
            RunEvent::Prepared => RunEventView::Prepared,
            RunEvent::PrepareFailed { error } => RunEventView::PrepareFailed { error: error@ },
            RunEvent::Sent { outcome } => RunEventView::Sent { outcome: *outcome },
            RunEvent::SendFailed { error, stopping } => RunEventView::SendFailed {
                error: error@,
                stopping: *stopping,
            },
            RunEvent::SendCancelled => RunEventView::SendCancelled,
            RunEvent::TimedOut { limit } => RunEventView::TimedOut { limit: limit@ },
            RunEvent::WaitOver => RunEventView::WaitOver,
        }
    }
}

/// What is to be done next in a run.
#[derive(Debug)]
pub enum RunStep<E> {
    /// Put the payloads together.
    Prepare { payloads: Vec<Vec<u8>> },
    Send,
    Wait { nanos: u64 },
    /// The run is over: this is what became of the events that were to be sent.
    Done { settled: Settled<E> },
}

pub ghost enum RunStepView<E> {
    Prepare { payloads: Seq<Seq<u8>> },
    Send,
    Wait { nanos: u64 },
    Done { settled: SettledView<E> },
}

impl<E> View for RunStep<E> {
    type V = RunStepView<E>;

    open spec fn view(&self) -> RunStepView<E> {
        match self {
            RunStep::Prepare { payloads } => RunStepView::Prepare { payloads: byte_views(payloads@) },
            RunStep::Send => RunStepView::Send,
            RunStep::Wait { nanos } => RunStepView::Wait { nanos: *nanos },
            RunStep::Done { settled } => RunStepView::Done { settled: settled@ },
        }
    }
}

/// A run: the events that are to be sent, and how far it has got.
#[derive(Debug)]
pub struct FlushRun<E> {
    shippable: Vec<E>,
    last: bool,
    phase: RunPhase,
    flush: BatchFlush,
}

/// What a [`FlushRun`] says.
pub ghost struct RunView<E> {
    pub shippable: Seq<E>,
    pub last: bool,
    pub phase: RunPhase,
    pub flush: BatchFlush,
}

impl<E> View for FlushRun<E> {
    type V = RunView<E>;

    closed spec fn view(&self) -> RunView<E> {
        RunView {
            shippable: self.shippable@,
            last: self.last,
            phase: self.phase,
            flush: self.flush,
        }
    }
}

/// What an event is to the budget of attempts.
pub open spec fn flush_event(e: RunEventView) -> FlushEventView {
    match e {
        RunEventView::Sent { outcome } => FlushEventView::Sent { outcome },
        RunEventView::SendFailed { error, stopping } => FlushEventView::SendFailed {
            error,
            stopping,
        },
        RunEventView::SendCancelled => FlushEventView::SendCancelled,
        _ => FlushEventView::WaitOver,
    }
}

/// What an event is to the one attempt at shutdown.
pub open spec fn last_event(e: RunEventView) -> ShutdownSendView {
    match e {
        RunEventView::Sent { outcome } => ShutdownSendView::Sent { outcome },
        RunEventView::SendFailed { error, .. } => ShutdownSendView::Failed { error },
        RunEventView::TimedOut { limit } => ShutdownSendView::TimedOut { limit },
        RunEventView::PrepareFailed { error } => ShutdownSendView::PrepareFailed { error },
        _ => ShutdownSendView::Failed { error: Seq::empty() },
    }
}

impl<E> RunView<E> {
    /// The state of a run whose batch has been rendered. Where nothing is left to be
    /// sent, it is over.
    pub open spec fn start(shippable: Seq<E>, last: bool, retry: RetryConfig) -> RunView<E> {
        RunView {
            shippable,
            last,
            phase: if shippable.len() == 0 {
                RunPhase::Finished
            } else {
                RunPhase::Preparing
            },
            flush: BatchFlush::start(retry, shippable.len() as u64),
        }
    }

    /// What is to be done first.
    pub open spec fn first_step(shippable: Seq<E>, payloads: Seq<Seq<u8>>) -> RunStepView<E> {
        if shippable.len() == 0 {
            RunStepView::Done {
                settled: SettledView { delivered: Seq::empty(), dead: Seq::empty() },
            }
        } else {
            RunStepView::Prepare { payloads }
        }
    }

    pub open spec fn wf(self) -> bool {
        &&& self.flush.wf()
        &&& !(self.phase is Finished) ==> {
            &&& self.flush.count == self.shippable.len()
            &&& !(self.flush.phase is Finished)
            &&& self.last || self.phase is Preparing ==> self.flush.phase is Sending
        }
    }

    /// Whether this can come next.
    pub open spec fn accepts(self, e: RunEventView) -> bool {
        match e {
            RunEventView::Prepared => self.phase is Preparing,
            RunEventView::PrepareFailed { .. } => self.phase is Preparing,
            RunEventView::TimedOut { .. } => self.phase is Running && self.last,
            RunEventView::Sent { .. } => self.phase is Running && self.flush.phase is Sending,
            RunEventView::SendFailed { .. } => self.phase is Running && self.flush.phase
                is Sending,
            RunEventView::SendCancelled => self.phase is Running && !self.last
                && self.flush.phase is Sending,
            RunEventView::WaitOver => self.phase is Running && self.flush.phase is Waiting,
        }
    }

    /// What an event means for the batch.
    pub open spec fn action(self, e: RunEventView) -> FlushActionView {
        if e is Prepared {
            FlushActionView::Send
        } else if self.last {
            shutdown_flush_action(last_event(e))
        } else {
            match e {
                RunEventView::PrepareFailed { error } => FlushActionView::DeadLetter {
                    reason: "flush failed: "@ + error,
                },
                _ => self.flush.action(flush_event(e)),
            }
        }
    }

    /// The state after an event. A run that is over holds no event any more.
    pub open spec fn after(self, e: RunEventView) -> RunView<E> {
        RunView {
            shippable: if ends(self.action(e)) {
                Seq::empty()
            } else {
                self.shippable
            },
            last: self.last,
            phase: if ends(self.action(e)) {
                RunPhase::Finished
            } else {
                RunPhase::Running
            },
            flush: if self.last || e is Prepared || e is PrepareFailed {
                self.flush
            } else {
                self.flush.after(flush_event(e))
            },
        }
    }

    /// What is to be done after an event.
    pub open spec fn step(self, e: RunEventView) -> RunStepView<E> {
        match self.action(e) {
            FlushActionView::Send => RunStepView::Send,
            FlushActionView::Wait { nanos } => RunStepView::Wait { nanos },
            action => RunStepView::Done { settled: settled_by(self.shippable, action) },
        }
    }

    /// The counters after an event.
    pub open spec fn counted(self, e: RunEventView, m: OutputMetrics) -> OutputMetrics {
        let count = self.shippable.len() as u64;
        match e {
            RunEventView::Prepared => m,
            RunEventView::WaitOver => m,
            RunEventView::Sent { outcome } => sent_counted(m, count, outcome.rejected),
            RunEventView::SendFailed { .. } => if self.last {
                m.failed(count)
            } else {
                self.flush.counted(flush_event(e), m)
            },
            _ => m.failed(count),
        }
    }
}

impl<E> FlushRun<E> {
    /// Starts a run over a batch whose events have been rendered. The second part of
    /// the result holds the events that could not be; they are dead-lettered at once.
    pub fn new(
        batch: Vec<RenderedEvent<E>>,
        site: &str,
        last: bool,
        retry: RetryConfig,
        metrics: &mut OutputMetrics,
    ) -> (r: (FlushRun<E>, Vec<(E, String)>, RunStep<E>))
        ensures
            r.0@ == RunView::start(shippable_of(batch@), last, retry),
            r.0@.wf(),
            reason_views(r.1@) == failures_of(batch@, site@),
            r.2@ == RunView::first_step(shippable_of(batch@), payloads_of(batch@)),
            *final(metrics) == old(metrics).failed(failures_of(batch@, site@).len() as u64),
    {
        let parts = render_batch(batch, site, metrics);
        let flush = BatchFlush::new(retry, parts.shippable.len() as u64);
        if parts.shippable.len() == 0 {
            let settled = Settled { delivered: Vec::new(), dead: Vec::new() };
            assert(settled@.dead =~= Seq::empty());
            let run = FlushRun {
                shippable: parts.shippable,
                last,
                phase: RunPhase::Finished,
                flush,
            };
            (run, parts.failures, RunStep::Done { settled })
        } else {
            let run = FlushRun {
                shippable: parts.shippable,
                last,
                phase: RunPhase::Preparing,
                flush,
            };
            (run, parts.failures, RunStep::Prepare { payloads: parts.payloads })
        }
    }

    /// Takes in what came of the last step and says what is to be done next.
    pub fn step(&mut self, event: RunEvent, metrics: &mut OutputMetrics) -> (step: RunStep<E>)
        requires
            old(self)@.wf(),
            old(self)@.accepts(event@),
        ensures
            final(self)@ == old(self)@.after(event@),
            final(self)@.wf(),
            step@ == old(self)@.step(event@),
            *final(metrics) == old(self)@.counted(event@, *old(metrics)),
    {
        let count: u64 = self.shippable.len() as u64;
        let action = if self.last {
            match event {
                RunEvent::Prepared => FlushAction::Send,
                RunEvent::PrepareFailed { error } => finish_shutdown_flush(
                    count,
                    ShutdownSend::PrepareFailed { error },
                    metrics,
                ),
                RunEvent::Sent { outcome } => finish_shutdown_flush(
                    count,
                    ShutdownSend::Sent { outcome },
                    metrics,
                ),
                RunEvent::TimedOut { limit } => finish_shutdown_flush(
                    count,
                    ShutdownSend::TimedOut { limit },
                    metrics,
                ),
                RunEvent::SendFailed { error, stopping: _ } => finish_shutdown_flush(
                    count,
                    ShutdownSend::Failed { error },
                    metrics,
                ),
                _ => FlushAction::Send,
            }
        } else {
            match event {
                RunEvent::Prepared => FlushAction::Send,
                RunEvent::PrepareFailed { error } => prepare_failed(count, error.as_str(), metrics),
                RunEvent::Sent { outcome } => self.flush.step(FlushEvent::Sent { outcome }, metrics),
                RunEvent::SendFailed { error, stopping } => self.flush.step(
                    FlushEvent::SendFailed { error, stopping },
                    metrics,
                ),
                RunEvent::SendCancelled => self.flush.step(FlushEvent::SendCancelled, metrics),
                _ => self.flush.step(FlushEvent::WaitOver, metrics),
            }
        };
        match action {
            FlushAction::Send => {
                self.phase = RunPhase::Running;
                RunStep::Send
            },
            FlushAction::Wait { nanos } => {
                self.phase = RunPhase::Running;
                RunStep::Wait { nanos }
            },
            end => {
                self.phase = RunPhase::Finished;
                let mut events: Vec<E> = Vec::new();
                events.append(&mut self.shippable);
                assert(events@ =~= old(self)@.shippable);
                RunStep::Done { settled: settle_batch(events, end, metrics) }
            },
        }
    }
}

/// The state after a sequence of events.
pub open spec fn run<E>(s: RunView<E>, es: Seq<RunEventView>) -> RunView<E>
    decreases es.len(),
{
    if es.len() == 0 {
        s
    } else {
        run(s, es.drop_last()).after(es.last())
    }
}

/// Whether each event of a sequence can come where it stands.
pub open spec fn accepted<E>(s: RunView<E>, es: Seq<RunEventView>) -> bool
    decreases es.len(),
{
    es.len() == 0 || (accepted(s, es.drop_last()) && run(s, es.drop_last()).accepts(es.last()))
}

/// The counters after a sequence of events.
pub open spec fn tally<E>(s: RunView<E>, es: Seq<RunEventView>, m: OutputMetrics) -> OutputMetrics
    decreases es.len(),
{
    if es.len() == 0 {
        m
    } else {
        run(s, es.drop_last()).counted(es.last(), tally(s, es.drop_last(), m))
    }
}

/// Dead-lettered events without their reasons.
pub open spec fn events_of<E>(dead: Seq<(E, Seq<char>)>) -> Seq<E> {
    dead.map_values(|f: (E, Seq<char>)| f.0)
}

/// The events of a batch, without their order.
pub open spec fn batch_events<E>(batch: Seq<RenderedEvent<E>>) -> Multiset<E> {
    batch.map_values(|b: RenderedEvent<E>| b.event).to_multiset()
}

proof fn lemma_running<E>(s: RunView<E>, es: Seq<RunEventView>, m: OutputMetrics)
    requires
        s.wf(),
        accepted(s, es),
        !(run(s, es).phase is Finished),
    ensures
        run(s, es).wf(),
        run(s, es).shippable == s.shippable,
        run(s, es).last == s.last,
        tally(s, es, m).events_written == m.events_written,
        tally(s, es, m).events_failed == m.events_failed,
    decreases es.len(),
{
    if es.len() > 0 {
        let shorter = es.drop_last();
        assert(!(run(s, shorter).phase is Finished));
        lemma_running(s, shorter, m);
    }
}

proof fn lemma_settling<E>(events: Seq<E>, action: FlushActionView)
    requires
        ends(action),
        events.len() <= u64::MAX,
    ensures
        settled_by(events, action).delivered.to_multiset().add(
            events_of(settled_by(events, action).dead).to_multiset(),
        ) == events.to_multiset(),
        settled_by(events, action).delivered.len() + settled_by(events, action).dead.len()
            == events.len(),
{
    let s = settled_by(events, action);
    match action {
        FlushActionView::Resolve { outcome } => {
            let k = delivered_of(events.len(), outcome.rejected) as int;
            assert(events_of(s.dead) =~= events.skip(k));
            assert(events.take(k) + events.skip(k) =~= events);
            vstd::seq_lib::lemma_multiset_commutative(events.take(k), events.skip(k));
        },
        _ => {
            assert(events_of(s.dead) =~= events);
            assert(Seq::<E>::empty() + events =~= events);
            vstd::seq_lib::lemma_multiset_commutative(Seq::<E>::empty(), events);
        },
    }
}

/// Every event of a batch gets one disposition. However a run goes, in the steady
/// state or at shutdown, once it is over the events that could not be rendered, those
/// that were delivered and those that were dead-lettered make up the batch; as many
/// are counted as written and as failed; and nothing can follow.
pub proof fn law_every_event_gets_one_disposition<E>(
    batch: Seq<RenderedEvent<E>>,
    site: Seq<char>,
    last: bool,
    retry: RetryConfig,
    es: Seq<RunEventView>,
    e: RunEventView,
    m: OutputMetrics,
)
    requires
        accepted(RunView::start(shippable_of(batch), last, retry), es.push(e)),
        run(RunView::start(shippable_of(batch), last, retry), es).step(e) is Done,
        batch.len() <= u64::MAX,
        m.events_written + batch.len() <= u64::MAX,
        m.events_failed + batch.len() <= u64::MAX,
    ensures
        ({
            let start = RunView::start(shippable_of(batch), last, retry);
            let settled = run(start, es).step(e)->settled;
            let unrendered = failures_of(batch, site);
            let rendered = m.failed(unrendered.len() as u64);
            let after = tally(start, es.push(e), rendered);
            &&& batch_events(batch) == events_of(unrendered).to_multiset().add(
                settled.delivered.to_multiset(),
            ).add(events_of(settled.dead).to_multiset())
            &&& unrendered.len() + settled.delivered.len() + settled.dead.len() == batch.len()
            &&& after.events_written == m.events_written + settled.delivered.len()
            &&& after.events_failed == m.events_failed + unrendered.len() + settled.dead.len()
            &&& forall|next: RunEventView| !(#[trigger] run(start, es.push(e)).accepts(next))
        }),
{
    let start = RunView::start(shippable_of(batch), last, retry);
    let unrendered = failures_of(batch, site);
    let rendered = m.failed(unrendered.len() as u64);
    law_rendering_parts_the_batch(batch, site);
    assert(es.push(e).drop_last() =~= es);
    lemma_running(start, es, rendered);
    let before = run(start, es);
    let settled = before.step(e)->settled;
    lemma_settling(before.shippable, before.action(e));
    assert(events_of(unrendered) == unrendered.map_values(|f: (E, Seq<char>)| f.0));
    assert(batch_events(batch) =~= events_of(unrendered).to_multiset().add(
        settled.delivered.to_multiset(),
    ).add(events_of(settled.dead).to_multiset()));
}

/// A batch of which nothing could be rendered is over at once: all its events are
/// dead-lettered by themselves.
pub proof fn law_nothing_to_send_is_the_end<E>(
    batch: Seq<RenderedEvent<E>>,
    site: Seq<char>,
    last: bool,
    retry: RetryConfig,
    e: RunEventView,
)
    requires
        shippable_of(batch).len() == 0,
    ensures
        !RunView::start(shippable_of(batch), last, retry).accepts(e),
        events_of(failures_of(batch, site)).to_multiset() == batch_events(batch),
{
    law_rendering_parts_the_batch(batch, site);
    assert(shippable_of(batch) =~= Seq::empty());
    broadcast use vstd::seq_lib::group_to_multiset_ensures;

    assert(events_of(failures_of(batch, site)).to_multiset() =~= batch_events(batch));
}

} // verus!
