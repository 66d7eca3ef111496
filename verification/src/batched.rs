//! What the outputs share that send events in batches: the buffer, and what
//! becomes of a batch that is taken out of it.
//!
//! `E` stands for an event together with the handle that its disposition is
//! reported to. The caller performs what a step asks for and reports what came of
//! it.
use crate::error::{cat2, cat3};
use crate::metrics::OutputMetrics;
use crate::otlp::buffer::{failed_of, SendOutcome};
use crate::retry::RetryConfig;
use crate::text::{decimal, decimal_text};
use vstd::prelude::*;

verus! {

/// Events waiting to be sent together.
#[derive(Debug)]
pub struct BatchedSink<E> {
    waiting: Vec<E>,
    batch_size: usize,
    stopping: bool,
}

impl<E> BatchedSink<E> {
    /// The waiting events, oldest first.
    pub closed spec fn waiting(&self) -> Seq<E> {
        self.waiting@
    }

    /// The number of events that wakes the flusher.
    pub closed spec fn batch_size(&self) -> usize {
        self.batch_size
    }

    /// Whether a shutdown has begun.
    pub closed spec fn stopping(&self) -> bool {
        self.stopping
    }

    /// An empty buffer.
    pub fn new(batch_size: usize) -> (s: BatchedSink<E>)
        ensures
            s.waiting() == Seq::<E>::empty(),
            s.batch_size() == batch_size,
            !s.stopping(),
    {
        BatchedSink { waiting: Vec::new(), batch_size, stopping: false }
    }

    /// The number of waiting events.
    pub fn len(&self) -> (n: usize)
        ensures
            n == self.waiting().len(),
    {
        self.waiting.len()
    }

    /// Takes in an event and says whether the flusher is to be woken.
    pub fn consume(&mut self, event: E) -> (wake: bool)
        ensures
            final(self).waiting() == old(self).waiting().push(event),
            final(self).batch_size() == old(self).batch_size(),
            final(self).stopping() == old(self).stopping(),
            wake == (final(self).waiting().len() >= old(self).batch_size()),
    {
        self.waiting.push(event);
        self.waiting.len() >= self.batch_size
    }

    /// Takes in an event during a shutdown. The flusher is not woken: the shutdown
    /// itself drains the buffer.
    pub fn consume_shutdown(&mut self, event: E)
        ensures
            final(self).waiting() == old(self).waiting().push(event),
            final(self).batch_size() == old(self).batch_size(),
            final(self).stopping() == old(self).stopping(),
    {
        self.waiting.push(event);
    }

    /// Begins a shutdown.
    pub fn begin_shutdown(&mut self)
        ensures
            final(self).stopping(),
            final(self).waiting() == old(self).waiting(),
            final(self).batch_size() == old(self).batch_size(),
    {
        self.stopping = true;
    }

    /// Takes every waiting event out.
    pub fn take(&mut self) -> (batch: Vec<E>)
        ensures
            batch@ == old(self).waiting(),
            final(self).waiting() == Seq::<E>::empty(),
            final(self).batch_size() == old(self).batch_size(),
            final(self).stopping() == old(self).stopping(),
    {
        let mut batch: Vec<E> = Vec::new();
        batch.append(&mut self.waiting);
        assert(batch@ =~= old(self).waiting());
        batch
    }

    /// What the flusher does after it woke, by a full batch, by the timer or by a
    /// shutdown: it ends on a shutdown and leaves the buffer to it; otherwise it
    /// flushes what is there.
    pub fn flusher_woke(&mut self) -> (step: FlusherStep<E>)
        ensures
            final(self).batch_size() == old(self).batch_size(),
            final(self).stopping() == old(self).stopping(),
            old(self).stopping() ==> step is End && final(self).waiting() == old(self).waiting(),
            !old(self).stopping() ==> final(self).waiting() == Seq::<E>::empty(),
            !old(self).stopping() && old(self).waiting().len() == 0 ==> step is Sleep,
            !old(self).stopping() && old(self).waiting().len() > 0 ==> (step matches FlusherStep::Flush(
                batch,
            ) && batch@ == old(self).waiting()),
    {
        if self.stopping {
            return FlusherStep::End;
        }
        let batch = self.take();
        if batch.len() == 0 {
            FlusherStep::Sleep
        } else {
            FlusherStep::Flush(batch)
        }
    }
}

/// What the flusher does next.
#[derive(Debug)]
pub enum FlusherStep<E> {
    Sleep,
    Flush(Vec<E>),
    End,
}

/// An event with what its rendering gave: a payload or an error.
#[derive(Debug)]
pub struct RenderedEvent<E> {
    pub event: E,
    pub rendered: Result<Vec<u8>, String>,
}

/// A batch whose events have been rendered.
#[derive(Debug)]
pub struct RenderedBatch<E> {
    /// The payloads, in the order of the events.
    pub payloads: Vec<Vec<u8>>,
    /// The events that the payloads belong to.
    pub shippable: Vec<E>,
    /// The events that could not be rendered, each with its reason.
    pub failures: Vec<(E, String)>,
}

/// The events of a batch that were rendered, in order.
pub open spec fn shippable_of<E>(batch: Seq<RenderedEvent<E>>) -> Seq<E>
    decreases batch.len(),
{
    if batch.len() == 0 {
        Seq::empty()
    } else {
        let before = shippable_of(batch.drop_last());
        if batch.last().rendered is Ok {
            before.push(batch.last().event)
        } else {
            before
        }
    }
}

/// The payloads of a batch, in order.
pub open spec fn payloads_of<E>(batch: Seq<RenderedEvent<E>>) -> Seq<Seq<u8>>
    decreases batch.len(),
{
    if batch.len() == 0 {
        Seq::empty()
    } else {
        let before = payloads_of(batch.drop_last());
        match batch.last().rendered {
            Ok(payload) => before.push(payload@),
            Err(_) => before,
        }
    }
}

/// The reason given for an event that could not be rendered.
pub open spec fn render_failed_text(site: Seq<char>, error: Seq<char>) -> Seq<char> {
    "render failed during "@ + site + ": "@ + error
}

/// The events of a batch that could not be rendered, with their reasons, in order.
pub open spec fn failures_of<E>(batch: Seq<RenderedEvent<E>>, site: Seq<char>) -> Seq<
    (E, Seq<char>),
>
    decreases batch.len(),
{
    if batch.len() == 0 {
        Seq::empty()
    } else {
        let before = failures_of(batch.drop_last(), site);
        match batch.last().rendered {
            Ok(_) => before,
            Err(e) => before.push((batch.last().event, render_failed_text(site, e@))),
        }
    }
}

/// Payloads by their views.
pub open spec fn byte_views(payloads: Seq<Vec<u8>>) -> Seq<Seq<u8>> {
    payloads.map_values(|p: Vec<u8>| p@)
}

/// Events with their reasons by their views.
pub open spec fn reason_views<E>(failures: Seq<(E, String)>) -> Seq<(E, Seq<char>)> {
    failures.map_values(|f: (E, String)| (f.0, f.1@))
}

/// Parts a batch into the events that were rendered and those that were not. Each
/// of the latter is dead-lettered by itself, and counted.
pub fn render_batch<E>(batch: Vec<RenderedEvent<E>>, site: &str, metrics: &mut OutputMetrics) -> (r:
    RenderedBatch<E>)
    ensures
        r.shippable@ == shippable_of(batch@),
        byte_views(r.payloads@) == payloads_of(batch@),
        reason_views(r.failures@) == failures_of(batch@, site@),
        *final(metrics) == old(metrics).failed(failures_of(batch@, site@).len() as u64),
{
    let ghost all = batch@;
    let mut payloads: Vec<Vec<u8>> = Vec::new();
    let mut shippable: Vec<E> = Vec::new();
    let mut failures: Vec<(E, String)> = Vec::new();
    assert(byte_views(payloads@) =~= payloads_of(all.take(0)));
    assert(reason_views(failures@) =~= failures_of(all.take(0), site@));
    for item in it: batch
        invariant
            all == it.seq(),
            shippable@ == shippable_of(all.take(it.index() as int)),
            byte_views(payloads@) == payloads_of(all.take(it.index() as int)),
            reason_views(failures@) == failures_of(all.take(it.index() as int), site@),
    {
        proof {
            let k = it.index() as int;
            assert(all.take(k + 1).drop_last() =~= all.take(k));
            assert(all.take(k + 1).last() == item);
        }
        let ghost earlier_payloads = payloads@;
        let ghost earlier_failures = failures@;
        let RenderedEvent { event, rendered } = item;
        match rendered {
            Ok(payload) => {
                payloads.push(payload);
                shippable.push(event);
                assert(byte_views(payloads@) =~= byte_views(earlier_payloads).push(payload@));
            },
            Err(e) => {
                let mut reason = cat3("render failed during ", site, ": ");
                reason.append(e.as_str());
                failures.push((event, reason));
                assert(reason_views(failures@) =~= reason_views(earlier_failures).push(
                    (event, render_failed_text(site@, e@)),
                ));
            },
        }
    }
    assert(all.take(all.len() as int) =~= all);
    assert(failures@.len() == failures_of(all, site@).len()) by {
        assert(reason_views(failures@).len() == failures@.len());
    }
    metrics.add_failed(failures.len() as u64);
    RenderedBatch { payloads, shippable, failures }
}

/// The reason given for an event that the collector refused.
pub open spec fn refused_text() -> Seq<char> {
    "collector reported partial_success rejection"@
}

/// The reason given for an event that the collector refused.
pub fn refused_reason() -> (s: &'static str)
    ensures
        s@ == refused_text(),
{
    "collector reported partial_success rejection"
}

/// How many events of a batch are delivered where the collector refused some.
pub open spec fn delivered_of(count: nat, rejected: u64) -> nat {
    (count - failed_of(count as u64, rejected)) as nat
}

/// Settles a batch that was sent. The collector does not say which events it
/// refused: the last ones are taken for them. The first part of the result is
/// delivered, the second dead-lettered.
pub fn resolve_send_success<E>(
    shippable: Vec<E>,
    outcome: SendOutcome,
    metrics: &mut OutputMetrics,
) -> (r: (Vec<E>, Vec<E>))
    ensures
        r.0@ == shippable@.take(delivered_of(shippable@.len(), outcome.rejected) as int),
        r.1@ == shippable@.skip(delivered_of(shippable@.len(), outcome.rejected) as int),
        *final(metrics) == crate::otlp::buffer::sent_counted(
            *old(metrics),
            shippable@.len() as u64,
            outcome.rejected,
        ),
{
    let count: u64 = shippable.len() as u64;
    crate::otlp::buffer::count_sent(metrics, count, outcome);
    let kept: usize = if outcome.rejected <= count {
        (count - outcome.rejected) as usize
    } else {
        0
    };
    let mut delivered = shippable;
    let refused = delivered.split_off(kept);
    assert(delivered@ =~= shippable@.take(kept as int));
    assert(refused@ =~= shippable@.skip(kept as int));
    (delivered, refused)
}

/// Where a flush stands.
#[derive(Debug, Clone, Copy, PartialEq, Eq, Structural)]
pub enum FlushPhase {
    Sending,
    Waiting,
    Finished,
}

/// What came of the last step of a flush.
#[derive(Debug)]
pub enum FlushEvent {
    /// The collector took the batch.
    Sent { outcome: SendOutcome },
    /// The attempt failed; `stopping` says whether a shutdown had begun by then.
    SendFailed { error: String, stopping: bool },
    /// A shutdown cut the attempt short.
    SendCancelled,
    /// The wait is over, or a shutdown cut it short.
    WaitOver,
}

/// What is to be done next with a batch.
#[derive(Debug)]
pub enum FlushAction {
    Send,
    Wait { nanos: u64 },
    /// The batch is settled by what the collector answered.
    Resolve { outcome: SendOutcome },
    /// Every event of the batch is dead-lettered.
    DeadLetter { reason: String },
}

pub ghost enum FlushEventView {
    Sent { outcome: SendOutcome },
    SendFailed { error: Seq<char>, stopping: bool },
    SendCancelled,
    WaitOver,
}

pub ghost enum FlushActionView {
    Send,
    Wait { nanos: u64 },
    Resolve { outcome: SendOutcome },
    DeadLetter { reason: Seq<char> },
}

impl View for FlushEvent {
    type V = FlushEventView;

    open spec fn view(&self) -> FlushEventView {
        match self {
            FlushEvent::Sent { outcome } => FlushEventView::Sent { outcome: *outcome },
            FlushEvent::SendFailed { error, stopping } => FlushEventView::SendFailed {
                error: error@,
                stopping: *stopping,
            },
            FlushEvent::SendCancelled => FlushEventView::SendCancelled,
            FlushEvent::WaitOver => FlushEventView::WaitOver,
        }
    }
}

impl View for FlushAction {
    type V = FlushActionView;

    open spec fn view(&self) -> FlushActionView {
        match self {
            FlushAction::Send => FlushActionView::Send,
            FlushAction::Wait { nanos } => FlushActionView::Wait { nanos: *nanos },
            FlushAction::Resolve { outcome } => FlushActionView::Resolve { outcome: *outcome },
            FlushAction::DeadLetter { reason } => FlushActionView::DeadLetter { reason: reason@ },
        }
    }
}

/// The reason given for a batch whose flush failed.
pub open spec fn flush_failed_text(attempts: nat, error: Seq<char>) -> Seq<char> {
    "flush failed after "@ + decimal(attempts) + " attempts: "@ + error
}

/// The error of an attempt that a shutdown cut short.
pub open spec fn cancelled_text() -> Seq<char> {
    "shutdown cancelled in-flight send (collapsed retry budget)"@
}

/// A flush in progress, over a batch of `count` events.
#[derive(Debug, Clone, Copy, PartialEq, Eq, Structural)]
pub struct BatchFlush {
    pub retry: RetryConfig,
    pub count: u64,
    pub attempt: u32,
    pub wait: u64,
    pub phase: FlushPhase,
}

impl BatchFlush {
    /// The state before the first attempt.
    pub open spec fn start(retry: RetryConfig, count: u64) -> BatchFlush {
        BatchFlush {
            retry,
            count,
            attempt: 0,
            wait: retry.initial_wait,
            phase: FlushPhase::Sending,
        }
    }

    pub open spec fn wf(self) -> bool {
        &&& self.phase is Sending ==> self.attempt == 0 || self.attempt < self.retry.max_attempts
        &&& self.phase is Waiting ==> 0 < self.attempt < self.retry.max_attempts
    }

    /// Whether this can come next.
    pub open spec fn accepts(self, e: FlushEventView) -> bool {
        match e {
            FlushEventView::WaitOver => self.phase is Waiting,
            _ => self.phase is Sending,
        }
    }

    /// Whether a failed attempt is the last one.
    pub open spec fn gives_up(self, stopping: bool) -> bool {
        self.attempt + 1 >= self.retry.max_attempts || stopping
    }

    /// The state after an event.
    pub open spec fn after(self, e: FlushEventView) -> BatchFlush {
        match e {
            FlushEventView::Sent { .. } => BatchFlush { phase: FlushPhase::Finished, ..self },
            FlushEventView::SendCancelled => BatchFlush { phase: FlushPhase::Finished, ..self },
            FlushEventView::SendFailed { stopping, .. } => BatchFlush {
                attempt: (self.attempt + 1) as u32,
                phase: if self.gives_up(stopping) {
                    FlushPhase::Finished
                } else {
                    FlushPhase::Waiting
                },
                ..self
            },
            FlushEventView::WaitOver => BatchFlush {
                wait: self.retry.wait_after(self.wait),
                phase: FlushPhase::Sending,
                ..self
            },
        }
    }

    /// What is to be done after an event.
    pub open spec fn action(self, e: FlushEventView) -> FlushActionView {
        match e {
            FlushEventView::Sent { outcome } => FlushActionView::Resolve { outcome },
            FlushEventView::SendCancelled => FlushActionView::DeadLetter {
                reason: flush_failed_text(self.attempt as nat, cancelled_text()),
            },
            FlushEventView::SendFailed { error, stopping } => if self.gives_up(stopping) {
                FlushActionView::DeadLetter {
                    reason: flush_failed_text((self.attempt + 1) as nat, error),
                }
            } else {
                FlushActionView::Wait { nanos: self.wait }
            },
            FlushEventView::WaitOver => FlushActionView::Send,
        }
    }

    /// The counters after an event. A batch that was sent is counted when it is
    /// settled.
    pub open spec fn counted(self, e: FlushEventView, m: OutputMetrics) -> OutputMetrics {
        match e {
            FlushEventView::Sent { .. } => m,
            FlushEventView::WaitOver => m,
            FlushEventView::SendCancelled => m.failed(self.count),
            FlushEventView::SendFailed { stopping, .. } => if self.gives_up(stopping) {
                m.retried().failed(self.count)
            } else {
                m.retried()
            },
        }
    }

    /// Starts to flush a batch of `count` events.
    pub fn new(retry: RetryConfig, count: u64) -> (f: BatchFlush)
        ensures
            f == BatchFlush::start(retry, count),
            f.wf(),
    {
        BatchFlush {
            retry,
            count,
            attempt: 0,
            wait: retry.initial_wait,
            phase: FlushPhase::Sending,
        }
    }

    /// Takes in what came of the last step and says what is to be done next.
    pub fn step(&mut self, event: FlushEvent, metrics: &mut OutputMetrics) -> (action: FlushAction)
        requires
            old(self).wf(),
            old(self).accepts(event@),
        ensures
            *final(self) == old(self).after(event@),
            final(self).wf(),
            action@ == old(self).action(event@),
            *final(metrics) == old(self).counted(event@, *old(metrics)),
    {
        match event {
            FlushEvent::Sent { outcome } => {
                self.phase = FlushPhase::Finished;
                FlushAction::Resolve { outcome }
            },
            FlushEvent::SendCancelled => {
                self.phase = FlushPhase::Finished;
                metrics.add_failed(self.count);
                let reason = flush_failed(
                    self.attempt,
                    "shutdown cancelled in-flight send (collapsed retry budget)",
                );
                FlushAction::DeadLetter { reason }
            },
            FlushEvent::SendFailed { error, stopping } => {
                self.attempt = self.attempt + 1;
                metrics.add_retry();
                if self.attempt >= self.retry.max_attempts || stopping {
                    self.phase = FlushPhase::Finished;
                    metrics.add_failed(self.count);
                    FlushAction::DeadLetter { reason: flush_failed(self.attempt, error.as_str()) }
                } else {
                    self.phase = FlushPhase::Waiting;
                    FlushAction::Wait { nanos: self.wait }
                }
            },
            FlushEvent::WaitOver => {
                self.wait = self.retry.next_wait(self.wait);
                self.phase = FlushPhase::Sending;
                FlushAction::Send
            },
        }
    }
}

fn flush_failed(attempts: u32, error: &str) -> (s: String)
    ensures
        s@ == flush_failed_text(attempts as nat, error@),
{
    let count = decimal_text(attempts as u64);
    let mut s = cat3("flush failed after ", count.as_str(), " attempts: ");
    s.append(error);
    s
}

/// Settles a batch that could not even be put together: trying again cannot help,
/// so the budget is left alone.
pub fn prepare_failed(count: u64, error: &str, metrics: &mut OutputMetrics) -> (action: FlushAction)
    ensures
        action@ == (FlushActionView::DeadLetter { reason: "flush failed: "@ + error@ }),
        *final(metrics) == old(metrics).failed(count),
{
    metrics.add_failed(count);
    FlushAction::DeadLetter { reason: cat2("flush failed: ", error) }
}

/// How the one attempt ended that a batch gets at shutdown. `limit` shows the time
/// that it was given.
#[derive(Debug)]
pub enum ShutdownSend {
    PrepareFailed { error: String },
    Sent { outcome: SendOutcome },
    Failed { error: String },
    TimedOut { limit: String },
}

pub ghost enum ShutdownSendView {
    PrepareFailed { error: Seq<char> },
    Sent { outcome: SendOutcome },
    Failed { error: Seq<char> },
    TimedOut { limit: Seq<char> },
}

impl View for ShutdownSend {
    type V = ShutdownSendView;

    open spec fn view(&self) -> ShutdownSendView {
        match self {
            ShutdownSend::PrepareFailed { error } => ShutdownSendView::PrepareFailed {
                error: error@,
            },
            ShutdownSend::Sent { outcome } => ShutdownSendView::Sent { outcome: *outcome },
            ShutdownSend::Failed { error } => ShutdownSendView::Failed { error: error@ },
            ShutdownSend::TimedOut { limit } => ShutdownSendView::TimedOut { limit: limit@ },
        }
    }
}

/// What becomes of a batch that was tried once at shutdown.
pub open spec fn shutdown_flush_action(result: ShutdownSendView) -> FlushActionView {
    match result {
        ShutdownSendView::Sent { outcome } => FlushActionView::Resolve { outcome },
        ShutdownSendView::PrepareFailed { error } => FlushActionView::DeadLetter {
            reason: "transport error: "@ + error,
        },
        ShutdownSendView::Failed { error } => FlushActionView::DeadLetter {
            reason: "transport error: "@ + error,
        },
        ShutdownSendView::TimedOut { limit } => FlushActionView::DeadLetter {
            reason: "deadline exceeded after "@ + limit + " during shutdown flush"@,
        },
    }
}

/// Settles a batch of `count` events that was tried once at shutdown.
pub fn finish_shutdown_flush(count: u64, result: ShutdownSend, metrics: &mut OutputMetrics) -> (
action: FlushAction)
    ensures
        action@ == shutdown_flush_action(result@),
        *final(metrics) == if result@ is Sent {
            *old(metrics)
        } else {
            old(metrics).failed(count)
        },
{
    match result {
        ShutdownSend::Sent { outcome } => FlushAction::Resolve { outcome },
        ShutdownSend::PrepareFailed { error } => {
            metrics.add_failed(count);
            FlushAction::DeadLetter { reason: cat2("transport error: ", error.as_str()) }
        },
        ShutdownSend::Failed { error } => {
            metrics.add_failed(count);
            FlushAction::DeadLetter { reason: cat2("transport error: ", error.as_str()) }
        },
        ShutdownSend::TimedOut { limit } => {
            metrics.add_failed(count);
            FlushAction::DeadLetter {
                reason: cat3("deadline exceeded after ", limit.as_str(), " during shutdown flush"),
            }
        },
    }
}

/// Rendering loses no event: those that were rendered and those that were not make
/// up the batch, and there is one payload for each that was.
pub proof fn law_rendering_parts_the_batch<E>(batch: Seq<RenderedEvent<E>>, site: Seq<char>)
    ensures
        shippable_of(batch).len() + failures_of(batch, site).len() == batch.len(),
        payloads_of(batch).len() == shippable_of(batch).len(),
        shippable_of(batch).to_multiset().add(
            failures_of(batch, site).map_values(|f: (E, Seq<char>)| f.0).to_multiset(),
        ) =~= batch.map_values(|b: RenderedEvent<E>| b.event).to_multiset(),
    decreases batch.len(),
{
    broadcast use vstd::seq_lib::group_to_multiset_ensures;

    let events = |b: RenderedEvent<E>| b.event;
    let failed = |f: (E, Seq<char>)| f.0;
    if batch.len() > 0 {
        let shorter = batch.drop_last();
        law_rendering_parts_the_batch(shorter, site);
        assert(batch.map_values(events) =~= shorter.map_values(events).push(batch.last().event));
        if batch.last().rendered is Ok {
            assert(shippable_of(batch) =~= shippable_of(shorter).push(batch.last().event));
            assert(failures_of(batch, site) == failures_of(shorter, site));
        } else {
            assert(failures_of(batch, site).map_values(failed) =~= failures_of(
                shorter,
                site,
            ).map_values(failed).push(batch.last().event));
        }
    } else {
        assert(failures_of(batch, site).map_values(failed) =~= Seq::<E>::empty());
        assert(batch.map_values(events) =~= Seq::<E>::empty());
        assert(shippable_of(batch).to_multiset().len() == 0);
    }
}

/// A batch that was sent is settled as a whole: what is delivered and what is
/// refused make it up again, and as many are refused as the collector says, but no
/// more than there are.
pub proof fn law_settling_parts_the_batch<E>(shippable: Seq<E>, rejected: u64)
    requires
        shippable.len() <= u64::MAX,
    ensures
        ({
            let k = delivered_of(shippable.len(), rejected) as int;
            &&& 0 <= k <= shippable.len()
            &&& shippable.take(k) + shippable.skip(k) == shippable
            &&& shippable.skip(k).len() == failed_of(shippable.len() as u64, rejected)
        }),
{
    let k = delivered_of(shippable.len(), rejected) as int;
    assert(shippable.take(k) + shippable.skip(k) =~= shippable);
}

/// The state after a sequence of events.
pub open spec fn run(s: BatchFlush, es: Seq<FlushEventView>) -> BatchFlush
    decreases es.len(),
{
    if es.len() == 0 {
        s
    } else {
        run(s, es.drop_last()).after(es.last())
    }
}

/// Whether each event of a sequence can come where it stands.
pub open spec fn accepted(s: BatchFlush, es: Seq<FlushEventView>) -> bool
    decreases es.len(),
{
    es.len() == 0 || (accepted(s, es.drop_last()) && run(s, es.drop_last()).accepts(es.last()))
}

/// The number of failed attempts in a sequence of events.
pub open spec fn failures(es: Seq<FlushEventView>) -> nat
    decreases es.len(),
{
    if es.len() == 0 {
        0
    } else {
        failures(es.drop_last()) + if es.last() is SendFailed {
            1nat
        } else {
            0
        }
    }
}

/// However a flush goes, it fails at most as often as the budget allows; it is over
/// once the budget is spent, and an attempt that fails after a shutdown has begun is
/// the last one. Waits follow the configured backoff whatever else arrives.
pub proof fn law_flush_stays_within_the_budget(
    retry: RetryConfig,
    count: u64,
    es: Seq<FlushEventView>,
)
    requires
        accepted(BatchFlush::start(retry, count), es),
    ensures
        ({
            let s = run(BatchFlush::start(retry, count), es);
            &&& s.wf()
            &&& s.retry == retry
            &&& s.count == count
            &&& s.attempt == failures(es)
            &&& failures(es) <= if retry.max_attempts == 0 {
                1
            } else {
                retry.max_attempts as nat
            }
            &&& failures(es) > 0 && failures(es) >= retry.max_attempts ==> s.phase is Finished
            &&& es.len() > 0 && (es.last() matches FlushEventView::SendFailed {
                stopping,
                ..
            } && stopping) ==> s.phase is Finished
            &&& s.phase is Sending ==> s.wait == retry.nth_wait(s.attempt as nat)
            &&& s.phase is Waiting ==> s.wait == retry.nth_wait((s.attempt - 1) as nat)
        }),
    decreases es.len(),
{
    if es.len() > 0 {
        law_flush_stays_within_the_budget(retry, count, es.drop_last());
    }
}

} // verus!
