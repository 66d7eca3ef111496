//! What becomes of one event: attempts, waits between them, and its one
//! disposition.
//!
//! The caller performs what a step asks for (an attempt, a wait, the disposition)
//! and reports what came of it. The rules are those of every output that handles
//! one event at a time; [`DeliveryKind`] picks the wording and the few points in
//! which the outputs differ.
use crate::error::{cat2, output_message, output_text};
use crate::metrics::OutputMetrics;
use crate::retry::RetryConfig;
use crate::text::{decimal, decimal_text};
use vstd::prelude::*;

verus! {

/// The outputs that deliver event by event.
#[derive(Debug, Clone, Copy, PartialEq, Eq, Structural)]
pub enum DeliveryKind {
    SyslogUdp,
    Kafka,
    File,
    Stdout,
    Ltp,
}

/// Where a delivery stands.
#[derive(Debug, Clone, Copy, PartialEq, Eq, Structural)]
pub enum DeliveryPhase {
    /// An attempt is under way.
    Attempting,
    /// The wait before the next attempt is under way.
    Waiting,
    /// The event has its disposition.
    Finished,
}

/// What came of the last step.
#[derive(Debug)]
pub enum DeliveryEvent {
    /// The attempt delivered the event.
    Delivered,
    /// The attempt was given up on shutdown before anything left the process.
    PreSendShutdown,
    /// The attempt failed. `written` counts the bytes that did get out;
    /// `stopping` says whether a shutdown was under way.
    Failed { error: String, written: usize, stopping: bool },
    /// The wait is over.
    WaitElapsed,
    /// A shutdown cut the wait short.
    ShutdownInWait,
}

/// What is to be done next.
#[derive(Debug)]
pub enum DeliveryAction {
    Attempt,
    Wait { nanos: u64 },
    Deliver,
    DeadLetter { reason: String },
}

/// A [`DeliveryEvent`], its text as a sequence of characters.
pub ghost enum EventView {
    Delivered,
    PreSendShutdown,
    Failed { error: Seq<char>, written: nat, stopping: bool },
    WaitElapsed,
    ShutdownInWait,
}

/// A [`DeliveryAction`], its text as a sequence of characters.
pub ghost enum ActionView {
    Attempt,
    Wait { nanos: u64 },
    Deliver,
    DeadLetter { reason: Seq<char> },
}

impl View for DeliveryEvent {
    type V = EventView;

    open spec fn view(&self) -> EventView {
        match self {
            DeliveryEvent::Delivered => EventView::Delivered,
            DeliveryEvent::PreSendShutdown => EventView::PreSendShutdown,
            DeliveryEvent::Failed { error, written, stopping } => EventView::Failed {
                error: error@,
                written: *written as nat,
                stopping: *stopping,
            },
            DeliveryEvent::WaitElapsed => EventView::WaitElapsed,
            DeliveryEvent::ShutdownInWait => EventView::ShutdownInWait,
        }
    }
}

impl View for DeliveryAction {
    type V = ActionView;

    open spec fn view(&self) -> ActionView {
        match self {
            DeliveryAction::Attempt => ActionView::Attempt,
            DeliveryAction::Wait { nanos } => ActionView::Wait { nanos: *nanos },
            DeliveryAction::Deliver => ActionView::Deliver,
            DeliveryAction::DeadLetter { reason } => ActionView::DeadLetter { reason: reason@ },
        }
    }
}

/// The state of one delivery.
pub ghost struct DeliveryView {
    pub kind: DeliveryKind,
    pub name: Seq<char>,
    pub retry: RetryConfig,
    pub attempt: u32,
    pub wait: u64,
    pub phase: DeliveryPhase,
    pub error: Seq<char>,
}

impl DeliveryKind {
    /// Whether the output shows in a gauge that it is between two attempts.
    pub open spec fn has_gauge(self) -> bool {
        !(self is File) && !(self is Kafka)
    }

    /// Whether an attempt can be given up on shutdown before anything is sent.
    pub open spec fn has_pre_send(self) -> bool {
        self is SyslogUdp || self is Kafka || self is Ltp
    }
}

/// The reason given for an attempt that a shutdown forestalled.
pub open spec fn abandoned_text(kind: DeliveryKind, name: Seq<char>) -> Seq<char> {
    if kind is Ltp {
        "LTP write abandoned on shutdown before event bytes"@
    } else {
        output_text(name, "write attempt abandoned on shutdown (pre-send)"@)
    }
}

/// The reason given for a spent budget.
pub open spec fn exhausted_text(kind: DeliveryKind, attempts: nat, error: Seq<char>) -> Seq<char> {
    if kind is Ltp {
        "LTP write failed after "@ + decimal(attempts) + " attempts: "@ + error
    } else {
        "output write failed after "@ + decimal(attempts) + " attempts: "@ + error
    }
}

/// The reason given for an attempt that must not be repeated.
pub open spec fn stopped_text(attempts: nat, error: Seq<char>) -> Seq<char> {
    "output write stopped after "@ + decimal(attempts) + " attempt(s): "@ + error
}

/// The reason given for a shutdown during a wait.
pub open spec fn interrupted_text(kind: DeliveryKind, attempts: nat, error: Seq<char>) -> Seq<
    char,
> {
    if kind is Ltp {
        "LTP write failed and shutdown interrupted retry: "@ + error
    } else {
        "output write failed and shutdown observed mid-retry after "@ + decimal(attempts)
            + " attempts: "@ + error
    }
}

impl DeliveryView {
    /// The state before the first attempt.
    pub open spec fn start(kind: DeliveryKind, name: Seq<char>, retry: RetryConfig) -> DeliveryView {
        DeliveryView {
            kind,
            name,
            retry,
            attempt: 0,
            wait: retry.initial_wait,
            phase: DeliveryPhase::Attempting,
            error: Seq::empty(),
        }
    }

    /// A delivery goes on only while the budget lasts, and waits only after a
    /// failure.
    pub open spec fn wf(self) -> bool {
        &&& self.phase is Attempting ==> self.attempt == 0 || self.attempt
            < self.retry.max_attempts
        &&& self.phase is Waiting ==> 0 < self.attempt < self.retry.max_attempts
    }

    /// Whether this can come next.
    pub open spec fn accepts(self, e: EventView) -> bool {
        match e {
            EventView::Delivered => self.phase is Attempting,
            EventView::PreSendShutdown => self.phase is Attempting && self.kind.has_pre_send(),
            EventView::Failed { .. } => self.phase is Attempting,
            EventView::WaitElapsed => self.phase is Waiting,
            EventView::ShutdownInWait => self.phase is Waiting && !(self.kind is File),
        }
    }

    /// Whether a failed attempt must not be repeated: part of the frame is already
    /// out, or a shutdown is under way.
    pub open spec fn must_stop(self, e: EventView) -> bool {
        match e {
            EventView::Failed { written, stopping, .. } => self.kind is Stdout && (written != 0
                || stopping),
            _ => false,
        }
    }

    /// The state after an event.
    pub open spec fn after(self, e: EventView) -> DeliveryView {
        match e {
            EventView::Delivered => DeliveryView { phase: DeliveryPhase::Finished, ..self },
            EventView::PreSendShutdown => DeliveryView { phase: DeliveryPhase::Finished, ..self },
            EventView::ShutdownInWait => DeliveryView { phase: DeliveryPhase::Finished, ..self },
            EventView::WaitElapsed => DeliveryView {
                phase: DeliveryPhase::Attempting,
                wait: self.retry.wait_after(self.wait),
                ..self
            },
            EventView::Failed { error, .. } => {
                let attempt = (self.attempt + 1) as u32;
                if self.must_stop(e) || attempt >= self.retry.max_attempts {
                    DeliveryView { phase: DeliveryPhase::Finished, attempt, error, ..self }
                } else {
                    DeliveryView { phase: DeliveryPhase::Waiting, attempt, error, ..self }
                }
            },
        }
    }

    /// What is to be done after an event.
    pub open spec fn action(self, e: EventView) -> ActionView {
        match e {
            EventView::Delivered => ActionView::Deliver,
            EventView::PreSendShutdown => ActionView::DeadLetter {
                reason: abandoned_text(self.kind, self.name),
            },
            EventView::ShutdownInWait => ActionView::DeadLetter {
                reason: interrupted_text(self.kind, self.attempt as nat, self.error),
            },
            EventView::WaitElapsed => ActionView::Attempt,
            EventView::Failed { error, .. } => {
                let attempts = (self.attempt + 1) as nat;
                if self.must_stop(e) {
                    ActionView::DeadLetter { reason: stopped_text(attempts, error) }
                } else if attempts >= self.retry.max_attempts {
                    ActionView::DeadLetter { reason: exhausted_text(self.kind, attempts, error) }
                } else {
                    ActionView::Wait { nanos: self.wait }
                }
            },
        }
    }

    /// The gauge after an event, where the output has one.
    pub open spec fn gauged(self, on: bool, m: OutputMetrics) -> OutputMetrics {
        if self.kind.has_gauge() {
            m.waiting(on)
        } else {
            m
        }
    }

    /// The counters after an event.
    pub open spec fn counted(self, e: EventView, m: OutputMetrics) -> OutputMetrics {
        match e {
            EventView::Delivered => self.gauged(false, m).written(1),
            EventView::PreSendShutdown => self.gauged(false, m).failed(1),
            EventView::ShutdownInWait => self.gauged(false, m).failed(1),
            EventView::WaitElapsed => m,
            EventView::Failed { .. } => if self.after(e).phase is Finished {
                self.gauged(false, m.retried()).failed(1)
            } else {
                self.gauged(true, m.retried())
            },
        }
    }
}

/// One delivery in progress.
#[derive(Debug)]
pub struct Delivery {
    kind: DeliveryKind,
    name: String,
    retry: RetryConfig,
    attempt: u32,
    wait: u64,
    phase: DeliveryPhase,
    error: String,
}

impl View for Delivery {
    type V = DeliveryView;

    closed spec fn view(&self) -> DeliveryView {
        DeliveryView {
            kind: self.kind,
            name: self.name@,
            retry: self.retry,
            attempt: self.attempt,
            wait: self.wait,
            phase: self.phase,
            error: self.error@,
        }
    }
}

fn attempts_message(before: &str, attempts: u32, middle: &str, error: &str) -> (s: String)
    ensures
        s@ == before@ + decimal(attempts as nat) + middle@ + error@,
{
    let count = decimal_text(attempts as u64);
    let mut s = before.to_owned();
    s.append(count.as_str());
    s.append(middle);
    s.append(error);
    s
}

impl Delivery {
    /// A delivery before its first attempt.
    pub fn new(kind: DeliveryKind, name: &str, retry: RetryConfig) -> (d: Delivery)
        ensures
            d@ == DeliveryView::start(kind, name@, retry),
            d@.wf(),
    {
        Delivery {
            kind,
            name: name.to_owned(),
            retry,
            attempt: 0,
            wait: retry.initial_wait,
            phase: DeliveryPhase::Attempting,
            error: String::new(),
        }
    }

    /// Where the delivery stands.
    pub fn phase(&self) -> (p: DeliveryPhase)
        ensures
            p == self@.phase,
    {
        self.phase
    }

    fn set_gauge(&self, metrics: &mut OutputMetrics, on: bool)
        ensures
            *final(metrics) == self@.gauged(on, *old(metrics)),
    {
        match self.kind {
            DeliveryKind::File => {},
            DeliveryKind::Kafka => {},
            _ => {
                metrics.set_in_retry(on);
            },
        }
    }

    /// Takes in what came of the last step, counts it, and says what is to be done
    /// next.
    pub fn step(&mut self, event: DeliveryEvent, metrics: &mut OutputMetrics) -> (action:
        DeliveryAction)
        requires
            old(self)@.wf(),
            old(self)@.accepts(event@),
        ensures
            final(self)@ == old(self)@.after(event@),
            final(self)@.wf(),
            action@ == old(self)@.action(event@),
            *final(metrics) == old(self)@.counted(event@, *old(metrics)),
    {
        match event {
            DeliveryEvent::Delivered => {
                self.set_gauge(metrics, false);
                metrics.add_written(1);
                self.phase = DeliveryPhase::Finished;
                DeliveryAction::Deliver
            },
            DeliveryEvent::PreSendShutdown => {
                self.set_gauge(metrics, false);
                metrics.add_failed(1);
                self.phase = DeliveryPhase::Finished;
                let reason = match self.kind {
                    DeliveryKind::Ltp => "LTP write abandoned on shutdown before event bytes".to_owned(),
                    _ => output_message(
                        self.name.as_str(),
                        "write attempt abandoned on shutdown (pre-send)",
                    ),
                };
                DeliveryAction::DeadLetter { reason }
            },
            DeliveryEvent::Failed { error, written, stopping } => {
                self.attempt = self.attempt + 1;
                metrics.add_retry();
                let stop = matches!(self.kind, DeliveryKind::Stdout) && (written != 0 || stopping);
                if stop {
                    self.set_gauge(metrics, false);
                    metrics.add_failed(1);
                    self.phase = DeliveryPhase::Finished;
                    let reason = attempts_message(
                        "output write stopped after ",
                        self.attempt,
                        " attempt(s): ",
                        error.as_str(),
                    );
                    self.error = error;
                    DeliveryAction::DeadLetter { reason }
                } else if self.attempt >= self.retry.max_attempts {
                    self.set_gauge(metrics, false);
                    metrics.add_failed(1);
                    self.phase = DeliveryPhase::Finished;
                    let before = match self.kind {
                        DeliveryKind::Ltp => "LTP write failed after ",
                        _ => "output write failed after ",
                    };
                    let reason = attempts_message(
                        before,
                        self.attempt,
                        " attempts: ",
                        error.as_str(),
                    );
                    self.error = error;
                    DeliveryAction::DeadLetter { reason }
                } else {
                    self.set_gauge(metrics, true);
                    self.phase = DeliveryPhase::Waiting;
                    self.error = error;
                    DeliveryAction::Wait { nanos: self.wait }
                }
            },
            DeliveryEvent::WaitElapsed => {
                self.wait = self.retry.next_wait(self.wait);
                self.phase = DeliveryPhase::Attempting;
                DeliveryAction::Attempt
            },
            DeliveryEvent::ShutdownInWait => {
                self.set_gauge(metrics, false);
                metrics.add_failed(1);
                self.phase = DeliveryPhase::Finished;
                let reason = match self.kind {
                    DeliveryKind::Ltp => {
                        let mut s = "LTP write failed and shutdown interrupted retry: ".to_owned();
                        s.append(self.error.as_str());
                        s
                    },
                    _ => attempts_message(
                        "output write failed and shutdown observed mid-retry after ",
                        self.attempt,
                        " attempts: ",
                        self.error.as_str(),
                    ),
                };
                DeliveryAction::DeadLetter { reason }
            },
        }
    }
}

/// How the one attempt ended that an event gets during a shutdown. `limit` shows
/// the time that it was given; `written` says whether the event was out by then, as
/// where only the metadata of its file were left to set.
#[derive(Debug)]
pub enum ShutdownWrite {
    Delivered,
    Failed { error: String },
    TimedOut { limit: String, written: bool },
}

/// A [`ShutdownWrite`], its text as a sequence of characters.
pub ghost enum ShutdownView {
    Delivered,
    Failed { error: Seq<char> },
    TimedOut { limit: Seq<char>, written: bool },
}

impl View for ShutdownWrite {
    type V = ShutdownView;

    open spec fn view(&self) -> ShutdownView {
        match self {
            ShutdownWrite::Delivered => ShutdownView::Delivered,
            ShutdownWrite::Failed { error } => ShutdownView::Failed { error: error@ },
            ShutdownWrite::TimedOut { limit, written } => ShutdownView::TimedOut {
                limit: limit@,
                written: *written,
            },
        }
    }
}

/// What becomes of an event that was tried once during a shutdown. The outputs
/// that hand a failure on unchanged give the error itself as the reason.
pub open spec fn shutdown_action(kind: DeliveryKind, result: ShutdownView) -> ActionView {
    match result {
        ShutdownView::Delivered => ActionView::Deliver,
        ShutdownView::Failed { error } => ActionView::DeadLetter {
            reason: match kind {
                DeliveryKind::File => "shutdown write failed: "@ + error,
                DeliveryKind::Stdout => "output shutdown write failed: "@ + error,
                _ => error,
            },
        },
        ShutdownView::TimedOut { limit, .. } => ActionView::DeadLetter {
            reason: match kind {
                DeliveryKind::File => "shutdown write timed out after "@ + limit,
                DeliveryKind::Ltp => "LTP shutdown write timed out"@,
                _ => "timed out after "@ + limit,
            },
        },
    }
}

/// The counters after that. An event that was out when its time was up counts as
/// written and, since it is given up, as failed.
pub open spec fn shutdown_counted(result: ShutdownView, m: OutputMetrics) -> OutputMetrics {
    match result {
        ShutdownView::Delivered => m.written(1),
        ShutdownView::Failed { .. } => m.failed(1),
        ShutdownView::TimedOut { written, .. } => if written {
            m.written(1).failed(1)
        } else {
            m.failed(1)
        },
    }
}

/// Settles an event that was tried once during a shutdown, and counts it.
pub fn finish_shutdown(kind: DeliveryKind, result: ShutdownWrite, metrics: &mut OutputMetrics) -> (
action: DeliveryAction)
    ensures
        action@ == shutdown_action(kind, result@),
        *final(metrics) == shutdown_counted(result@, *old(metrics)),
{
    match result {
        ShutdownWrite::Delivered => {
            metrics.add_written(1);
            DeliveryAction::Deliver
        },
        ShutdownWrite::Failed { error } => {
            metrics.add_failed(1);
            let reason = match kind {
                DeliveryKind::File => cat2("shutdown write failed: ", error.as_str()),
                DeliveryKind::Stdout => cat2("output shutdown write failed: ", error.as_str()),
                _ => error,
            };
            DeliveryAction::DeadLetter { reason }
        },
        ShutdownWrite::TimedOut { limit, written } => {
            if written {
                metrics.add_written(1);
            }
            metrics.add_failed(1);
            let reason = match kind {
                DeliveryKind::File => cat2("shutdown write timed out after ", limit.as_str()),
                DeliveryKind::Ltp => "LTP shutdown write timed out".to_owned(),
                _ => cat2("timed out after ", limit.as_str()),
            };
            DeliveryAction::DeadLetter { reason }
        },
    }
}

/// Settles an event that cannot be tried at all, and counts it.
pub fn dead_letter(reason: String, metrics: &mut OutputMetrics) -> (action: DeliveryAction)
    ensures
        action@ == (ActionView::DeadLetter { reason: reason@ }),
        *final(metrics) == old(metrics).failed(1),
{
    metrics.add_failed(1);
    DeliveryAction::DeadLetter { reason }
}

/// The state after a sequence of events.
pub open spec fn run(s: DeliveryView, es: Seq<EventView>) -> DeliveryView
    decreases es.len(),
{
    if es.len() == 0 {
        s
    } else {
        run(s, es.drop_last()).after(es.last())
    }
}

/// Whether each event of a sequence can come where it stands.
pub open spec fn accepted(s: DeliveryView, es: Seq<EventView>) -> bool
    decreases es.len(),
{
    es.len() == 0 || (accepted(s, es.drop_last()) && run(s, es.drop_last()).accepts(es.last()))
}

/// The counters after a sequence of events.
pub open spec fn tally(s: DeliveryView, es: Seq<EventView>, m: OutputMetrics) -> OutputMetrics
    decreases es.len(),
{
    if es.len() == 0 {
        m
    } else {
        run(s, es.drop_last()).counted(es.last(), tally(s, es.drop_last(), m))
    }
}

/// The number of failed attempts in a sequence of events.
pub open spec fn failures(es: Seq<EventView>) -> nat
    decreases es.len(),
{
    if es.len() == 0 {
        0
    } else {
        failures(es.drop_last()) + if es.last() is Failed {
            1nat
        } else {
            0
        }
    }
}

/// The number of waits that ran their course.
pub open spec fn waits(es: Seq<EventView>) -> nat
    decreases es.len(),
{
    if es.len() == 0 {
        0
    } else {
        waits(es.drop_last()) + if es.last() is WaitElapsed {
            1nat
        } else {
            0
        }
    }
}

/// `a + b` on a counter that wraps round.
pub open spec fn wrapped(a: u64, b: nat) -> int {
    (a + b) as int % 0x1_0000_0000_0000_0000
}

proof fn lemma_run(
    kind: DeliveryKind,
    name: Seq<char>,
    retry: RetryConfig,
    m: OutputMetrics,
    es: Seq<EventView>,
)
    requires
        accepted(DeliveryView::start(kind, name, retry), es),
    ensures
        ({
            let s = run(DeliveryView::start(kind, name, retry), es);
            let t = tally(DeliveryView::start(kind, name, retry), es, m);
            &&& s.wf()
            &&& s.kind == kind
            &&& s.name == name
            &&& s.retry == retry
            &&& s.attempt == failures(es)
            &&& s.phase is Attempting ==> waits(es) == s.attempt
            &&& s.phase is Waiting ==> waits(es) + 1 == s.attempt
            &&& s.wait == retry.nth_wait(waits(es))
            &&& t.retries == wrapped(m.retries, failures(es))
            &&& t.bytes_written == m.bytes_written
            &&& t.in_retry == if !kind.has_gauge() {
                m.in_retry
            } else if s.phase is Finished {
                0
            } else if s.attempt > 0 {
                1
            } else {
                m.in_retry
            }
            &&& !(s.phase is Finished) ==> t.events_written == m.events_written && t.events_failed
                == m.events_failed
            &&& s.phase is Finished ==> es.len() > 0 && if es.last() is Delivered {
                &&& t.events_written == wrapped(m.events_written, 1)
                &&& t.events_failed == m.events_failed
            } else {
                &&& t.events_written == m.events_written
                &&& t.events_failed == wrapped(m.events_failed, 1)
            }
        }),
    decreases es.len(),
{
    if es.len() > 0 {
        lemma_run(kind, name, retry, m, es.drop_last());
    } else {
        assert(m.retries as int % 0x1_0000_0000_0000_0000 == m.retries);
    }
}

/// However a delivery goes, at most `max_attempts` attempts are made, and always
/// at least one is allowed.
pub proof fn law_attempts_stay_within_the_budget(
    kind: DeliveryKind,
    name: Seq<char>,
    retry: RetryConfig,
    es: Seq<EventView>,
)
    requires
        accepted(DeliveryView::start(kind, name, retry), es),
    ensures
        failures(es) <= if retry.max_attempts == 0 {
            1
        } else {
            retry.max_attempts as nat
        },
        failures(es) >= retry.max_attempts && failures(es) > 0 ==> run(
            DeliveryView::start(kind, name, retry),
            es,
        ).phase is Finished,
    decreases es.len(),
{
    let m = OutputMetrics::zero();
    lemma_run(kind, name, retry, m, es);
    if es.len() > 0 {
        law_attempts_stay_within_the_budget(kind, name, retry, es.drop_last());
        lemma_run(kind, name, retry, m, es.drop_last());
    }
}

/// An event gets exactly one disposition, and the counters show it once: a
/// finished delivery has added one to the events written or one to the events
/// failed, and an unfinished one has added nothing. Nothing is accepted after the
/// disposition. Every failed attempt counts as one retry.
pub proof fn law_one_disposition_per_event(
    kind: DeliveryKind,
    name: Seq<char>,
    retry: RetryConfig,
    m: OutputMetrics,
    es: Seq<EventView>,
    next: EventView,
)
    requires
        accepted(DeliveryView::start(kind, name, retry), es),
    ensures
        ({
            let s = run(DeliveryView::start(kind, name, retry), es);
            let t = tally(DeliveryView::start(kind, name, retry), es, m);
            &&& s.phase is Finished ==> !s.accepts(next)
            &&& s.phase is Finished && es.last() is Delivered ==> t.events_written == wrapped(
                m.events_written,
                1,
            ) && t.events_failed == m.events_failed
            &&& s.phase is Finished && !(es.last() is Delivered) ==> t.events_failed == wrapped(
                m.events_failed,
                1,
            ) && t.events_written == m.events_written
            &&& !(s.phase is Finished) ==> t.events_written == m.events_written && t.events_failed
                == m.events_failed
            &&& t.retries == wrapped(m.retries, failures(es))
        }),
{
    lemma_run(kind, name, retry, m, es);
}

/// The gauge shows a delivery in retry from its first failed attempt to its
/// disposition, and is cleared by it.
pub proof fn law_gauge_is_up_only_during_retry(
    kind: DeliveryKind,
    name: Seq<char>,
    retry: RetryConfig,
    m: OutputMetrics,
    es: Seq<EventView>,
)
    requires
        kind.has_gauge(),
        m.in_retry == 0,
        accepted(DeliveryView::start(kind, name, retry), es),
    ensures
        ({
            let s = run(DeliveryView::start(kind, name, retry), es);
            tally(DeliveryView::start(kind, name, retry), es, m).in_retry == if failures(es) > 0
                && !(s.phase is Finished) {
                1int
            } else {
                0int
            }
        }),
{
    lemma_run(kind, name, retry, m, es);
}

/// The wait asked for after the k-th failure is the k-th of the configured waits.
pub proof fn law_waits_follow_the_backoff(
    kind: DeliveryKind,
    name: Seq<char>,
    retry: RetryConfig,
    es: Seq<EventView>,
    e: EventView,
)
    requires
        accepted(DeliveryView::start(kind, name, retry), es.push(e)),
        run(DeliveryView::start(kind, name, retry), es.push(e)).phase is Waiting,
    ensures
        e is Failed,
        run(DeliveryView::start(kind, name, retry), es).action(e) == (ActionView::Wait {
            nanos: retry.nth_wait(failures(es)),
        }),
{
    let m = OutputMetrics::zero();
    assert(es.push(e).drop_last() =~= es);
    lemma_run(kind, name, retry, m, es);
}

/// A write to the standard output that got part of a frame out is never repeated.
pub proof fn law_partial_frame_is_never_repeated(s: DeliveryView, e: EventView)
    requires
        s.kind is Stdout,
        s.accepts(e),
        e matches EventView::Failed { written, .. } && written != 0,
    ensures
        s.after(e).phase is Finished,
        s.action(e) is DeadLetter,
{
}

} // verus!
