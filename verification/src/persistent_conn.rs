//! One write through a cached connection, with a single reconnect where the
//! cached one turns out to be broken.
//!
//! The caller performs what a step asks for and reports what came of it.
use crate::error::option_view;
use crate::metrics::OutputMetrics;
use vstd::prelude::*;

verus! {

/// Where a write stands.
#[derive(Debug, Clone, Copy, PartialEq, Eq, Structural)]
pub enum ReconnectPhase {
    /// The frame is being written to the cached connection.
    WritingCached,
    /// A connection is being made.
    Connecting,
    /// The frame is being written to the new connection.
    WritingFresh,
    Finished,
}

/// What came of the last step.
#[derive(Debug)]
pub enum ReconnectEvent {
    Written,
    WriteFailed { error: String },
    /// A connection is made; `stopping` says whether a shutdown was signalled
    /// meanwhile.
    Connected { stopping: bool },
    ConnectFailed { error: String },
    /// A shutdown was signalled while the connection was being made.
    ConnectShutdown,
}

/// How a write ended.
#[derive(Debug)]
pub enum WriteReconnectOutcome {
    /// The frame was written.
    Delivered,
    /// A shutdown forestalled the write: nothing was written.
    PreSendShutdown,
    /// The write or the connect failed, or a shutdown came between a failed write
    /// and the next.
    Failed { error: String },
}

/// What is to be done next.
#[derive(Debug)]
pub enum ReconnectAction {
    WriteCached,
    Connect,
    WriteFresh,
    Done { outcome: WriteReconnectOutcome },
}

pub ghost enum ReconnectEventView {
    Written,
    WriteFailed { error: Seq<char> },
    Connected { stopping: bool },
    ConnectFailed { error: Seq<char> },
    ConnectShutdown,
}

pub ghost enum ReconnectActionView {
    WriteCached,
    Connect,
    WriteFresh,
    Delivered,
    PreSendShutdown,
    Failed { error: Seq<char> },
}

impl View for ReconnectEvent {
    type V = ReconnectEventView;

    open spec fn view(&self) -> ReconnectEventView {
        match self {
            ReconnectEvent::Written => ReconnectEventView::Written,
            ReconnectEvent::WriteFailed { error } => ReconnectEventView::WriteFailed {
                error: error@,
            },
            ReconnectEvent::Connected { stopping } => ReconnectEventView::Connected {
                stopping: *stopping,
            },
            ReconnectEvent::ConnectFailed { error } => ReconnectEventView::ConnectFailed {
                error: error@,
            },
            ReconnectEvent::ConnectShutdown => ReconnectEventView::ConnectShutdown,
        }
    }
}

impl View for ReconnectAction {
    type V = ReconnectActionView;

    open spec fn view(&self) -> ReconnectActionView {
        match self {
            ReconnectAction::WriteCached => ReconnectActionView::WriteCached,
            ReconnectAction::Connect => ReconnectActionView::Connect,
            ReconnectAction::WriteFresh => ReconnectActionView::WriteFresh,
            ReconnectAction::Done { outcome } => match outcome {
                WriteReconnectOutcome::Delivered => ReconnectActionView::Delivered,
                WriteReconnectOutcome::PreSendShutdown => ReconnectActionView::PreSendShutdown,
                WriteReconnectOutcome::Failed { error } => ReconnectActionView::Failed { error: error@ },
            },
        }
    }
}

/// The state of a write. `cached` says whether the slot holds a connection; `aware`
/// whether a shutdown ends the write while nothing is being written; `broken` is the
/// error of the write that failed on the cached connection.
pub ghost struct ReconnectView {
    pub aware: bool,
    pub cached: bool,
    pub broken: Option<Seq<char>>,
    pub phase: ReconnectPhase,
}

impl ReconnectView {
    /// The state before the first step.
    pub open spec fn start(cached: bool, aware: bool, stopping: bool) -> ReconnectView {
        ReconnectView {
            aware,
            cached,
            broken: None,
            phase: if !cached {
                ReconnectPhase::Connecting
            } else if aware && stopping {
                ReconnectPhase::Finished
            } else {
                ReconnectPhase::WritingCached
            },
        }
    }

    pub open spec fn first_action(cached: bool, aware: bool, stopping: bool) -> ReconnectActionView {
        if !cached {
            ReconnectActionView::Connect
        } else if aware && stopping {
            ReconnectActionView::PreSendShutdown
        } else {
            ReconnectActionView::WriteCached
        }
    }

    /// Whether this can come next.
    pub open spec fn accepts(self, e: ReconnectEventView) -> bool {
        match e {
            ReconnectEventView::Written => self.phase is WritingCached
                || self.phase is WritingFresh,
            ReconnectEventView::WriteFailed { .. } => self.phase is WritingCached
                || self.phase is WritingFresh,
            ReconnectEventView::Connected { .. } => self.phase is Connecting,
            ReconnectEventView::ConnectFailed { .. } => self.phase is Connecting,
            ReconnectEventView::ConnectShutdown => self.phase is Connecting && self.aware,
        }
    }

    /// The state after an event. A write that fails on the cached connection drops
    /// it and leads to one reconnect; one that fails on the new connection ends the
    /// write, and drops the connection where the write is aware of shutdowns.
    pub open spec fn after(self, e: ReconnectEventView) -> ReconnectView {
        match e {
            ReconnectEventView::Written => ReconnectView {
                phase: ReconnectPhase::Finished,
                ..self
            },
            ReconnectEventView::WriteFailed { error } => if self.phase is WritingCached {
                ReconnectView {
                    cached: false,
                    broken: Some(error),
                    phase: ReconnectPhase::Connecting,
                    ..self
                }
            } else {
                ReconnectView { cached: !self.aware, phase: ReconnectPhase::Finished, ..self }
            },
            ReconnectEventView::Connected { stopping } => ReconnectView {
                cached: true,
                phase: if self.aware && stopping {
                    ReconnectPhase::Finished
                } else {
                    ReconnectPhase::WritingFresh
                },
                ..self
            },
            ReconnectEventView::ConnectFailed { .. } => ReconnectView {
                cached: false,
                phase: ReconnectPhase::Finished,
                ..self
            },
            ReconnectEventView::ConnectShutdown => ReconnectView {
                cached: false,
                phase: ReconnectPhase::Finished,
                ..self
            },
        }
    }

    /// How a shutdown ends the write: bytes of a frame that failed on the cached
    /// connection may be out, so that such a write has failed.
    pub open spec fn shut_down(self) -> ReconnectActionView {
        match self.broken {
            Some(error) => ReconnectActionView::Failed { error },
            None => ReconnectActionView::PreSendShutdown,
        }
    }

    /// What is to be done after an event.
    pub open spec fn action(self, e: ReconnectEventView) -> ReconnectActionView {
        match e {
            ReconnectEventView::Written => ReconnectActionView::Delivered,
            ReconnectEventView::WriteFailed { error } => if self.phase is WritingCached {
                ReconnectActionView::Connect
            } else {
                ReconnectActionView::Failed { error }
            },
            ReconnectEventView::Connected { stopping } => if self.aware && stopping {
                self.shut_down()
            } else {
                ReconnectActionView::WriteFresh
            },
            ReconnectEventView::ConnectFailed { error } => ReconnectActionView::Failed { error },
            ReconnectEventView::ConnectShutdown => self.shut_down(),
        }
    }

    /// The counters after an event.
    pub open spec fn counted(self, e: ReconnectEventView, m: OutputMetrics) -> OutputMetrics {
        if e is Written {
            m.written(1)
        } else {
            m
        }
    }
}

/// A write in progress.
#[derive(Debug)]
pub struct ReconnectWrite {
    aware: bool,
    cached: bool,
    broken: Option<String>,
    phase: ReconnectPhase,
}

impl View for ReconnectWrite {
    type V = ReconnectView;

    closed spec fn view(&self) -> ReconnectView {
        ReconnectView {
            aware: self.aware,
            cached: self.cached,
            broken: option_view(self.broken),
            phase: self.phase,
        }
    }
}

impl ReconnectWrite {
    /// Starts a write. `stopping` says whether a shutdown has been signalled.
    pub fn new(cached: bool, aware: bool, stopping: bool) -> (r: (ReconnectWrite, ReconnectAction))
        ensures
            r.0@ == ReconnectView::start(cached, aware, stopping),
            r.1@ == ReconnectView::first_action(cached, aware, stopping),
    {
        let (phase, action) = if !cached {
            (ReconnectPhase::Connecting, ReconnectAction::Connect)
        } else if aware && stopping {
            let outcome = WriteReconnectOutcome::PreSendShutdown;
            (ReconnectPhase::Finished, ReconnectAction::Done { outcome })
        } else {
            (ReconnectPhase::WritingCached, ReconnectAction::WriteCached)
        };
        (ReconnectWrite { aware, cached, broken: None, phase }, action)
    }

    /// Whether the slot holds a connection.
    pub fn cached(&self) -> (r: bool)
        ensures
            r == self@.cached,
    {
        self.cached
    }

    fn end_on_shutdown(&mut self) -> (action: ReconnectAction)
        ensures
            action@ == old(self)@.shut_down(),
            final(self)@ == (ReconnectView { phase: ReconnectPhase::Finished, ..old(self)@ }),
    {
        self.phase = ReconnectPhase::Finished;
        let outcome = match &self.broken {
            Some(error) => WriteReconnectOutcome::Failed { error: error.clone() },
            None => WriteReconnectOutcome::PreSendShutdown,
        };
        ReconnectAction::Done { outcome }
    }

    /// Takes in what came of the last step and says what is to be done next.
    pub fn step(&mut self, event: ReconnectEvent, metrics: &mut OutputMetrics) -> (action:
        ReconnectAction)
        requires
            old(self)@.accepts(event@),
        ensures
            final(self)@ == old(self)@.after(event@),
            action@ == old(self)@.action(event@),
            *final(metrics) == old(self)@.counted(event@, *old(metrics)),
    {
        match event {
            ReconnectEvent::Written => {
                metrics.add_written(1);
                self.phase = ReconnectPhase::Finished;
                ReconnectAction::Done { outcome: WriteReconnectOutcome::Delivered }
            },
            ReconnectEvent::WriteFailed { error } => {
                if matches!(self.phase, ReconnectPhase::WritingCached) {
                    self.cached = false;
                    self.broken = Some(error);
                    self.phase = ReconnectPhase::Connecting;
                    ReconnectAction::Connect
                } else {
                    self.cached = !self.aware;
                    self.phase = ReconnectPhase::Finished;
                    ReconnectAction::Done { outcome: WriteReconnectOutcome::Failed { error } }
                }
            },
            ReconnectEvent::Connected { stopping } => {
                self.cached = true;
                if self.aware && stopping {
                    self.end_on_shutdown()
                } else {
                    self.phase = ReconnectPhase::WritingFresh;
                    ReconnectAction::WriteFresh
                }
            },
            ReconnectEvent::ConnectFailed { error } => {
                self.cached = false;
                self.phase = ReconnectPhase::Finished;
                ReconnectAction::Done { outcome: WriteReconnectOutcome::Failed { error } }
            },
            ReconnectEvent::ConnectShutdown => {
                self.cached = false;
                self.end_on_shutdown()
            },
        }
    }
}

/// The state after a sequence of events.
pub open spec fn run(s: ReconnectView, es: Seq<ReconnectEventView>) -> ReconnectView
    decreases es.len(),
{
    if es.len() == 0 {
        s
    } else {
        run(s, es.drop_last()).after(es.last())
    }
}

/// Whether each event of a sequence can come where it stands.
pub open spec fn accepted(s: ReconnectView, es: Seq<ReconnectEventView>) -> bool
    decreases es.len(),
{
    es.len() == 0 || (accepted(s, es.drop_last()) && run(s, es.drop_last()).accepts(es.last()))
}

/// One write makes at most one connection and at most two attempts to write the
/// frame, and is over after three events.
pub proof fn law_one_reconnect_per_write(
    cached: bool,
    aware: bool,
    stopping: bool,
    es: Seq<ReconnectEventView>,
)
    requires
        accepted(ReconnectView::start(cached, aware, stopping), es),
    ensures
        es.len() <= 3,
        ({
            let s = run(ReconnectView::start(cached, aware, stopping), es);
            &&& s.phase is WritingCached ==> es.len() == 0
            &&& s.phase is Connecting ==> es.len() == (if cached {
                1nat
            } else {
                0nat
            })
            &&& s.phase is WritingFresh ==> es.len() == (if cached {
                2nat
            } else {
                1nat
            })
        }),
    decreases es.len(),
{
    if es.len() > 0 {
        law_one_reconnect_per_write(cached, aware, stopping, es.drop_last());
    }
}

/// A write that ends on a shutdown as forestalled has not begun to write the frame,
/// and counts nothing: it was asked to connect at most, and no write failed before.
pub proof fn law_shutdown_before_any_byte(
    cached: bool,
    aware: bool,
    stopping: bool,
    es: Seq<ReconnectEventView>,
    e: ReconnectEventView,
    m: OutputMetrics,
)
    requires
        accepted(ReconnectView::start(cached, aware, stopping), es.push(e)),
        run(ReconnectView::start(cached, aware, stopping), es).action(e) is PreSendShutdown,
    ensures
        aware,
        es.len() == 0,
        ReconnectView::first_action(cached, aware, stopping) is Connect,
        !(e is Written) && !(e is WriteFailed),
        run(ReconnectView::start(cached, aware, stopping), es).counted(e, m) == m,
{
    assert(es.push(e).drop_last() =~= es);
    law_one_reconnect_per_write(cached, aware, stopping, es);
    lemma_aware_is_kept(ReconnectView::start(cached, aware, stopping), es);
    lemma_broken(cached, aware, stopping, es);
}

/// A shutdown after a write on the cached connection failed ends the write as
/// failed, with the error of that write.
pub proof fn law_broken_write_is_reported(
    aware: bool,
    stopping: bool,
    error: Seq<char>,
    e: ReconnectEventView,
)
    requires
        e is ConnectShutdown || e == (ReconnectEventView::Connected { stopping: true }),
        accepted(
            ReconnectView::start(true, aware, stopping),
            seq![ReconnectEventView::WriteFailed { error }, e],
        ),
        aware,
    ensures
        run(
            ReconnectView::start(true, aware, stopping),
            seq![ReconnectEventView::WriteFailed { error }],
        ).action(e) == (ReconnectActionView::Failed { error }),
{
    let first = ReconnectEventView::WriteFailed { error };
    assert(seq![first, e].drop_last() =~= seq![first]);
    assert(seq![first].drop_last() =~= Seq::<ReconnectEventView>::empty());
    lemma_run_of_one(ReconnectView::start(true, aware, stopping), first);
}

proof fn lemma_run_of_one(s: ReconnectView, e: ReconnectEventView)
    ensures
        run(s, seq![e]) == s.after(e),
        accepted(s, seq![e]) <==> s.accepts(e),
{
    let es = seq![e];
    assert(es.drop_last() =~= Seq::<ReconnectEventView>::empty());
    assert(run(s, es.drop_last()) == s);
    assert(accepted(s, es.drop_last()));
}

proof fn lemma_broken(cached: bool, aware: bool, stopping: bool, es: Seq<ReconnectEventView>)
    requires
        accepted(ReconnectView::start(cached, aware, stopping), es),
    ensures
        run(ReconnectView::start(cached, aware, stopping), es).phase is Connecting && cached
            ==> run(ReconnectView::start(cached, aware, stopping), es).broken is Some,
    decreases es.len(),
{
    if es.len() > 0 {
        lemma_broken(cached, aware, stopping, es.drop_last());
    }
}

proof fn lemma_aware_is_kept(s: ReconnectView, es: Seq<ReconnectEventView>)
    ensures
        run(s, es).aware == s.aware,
    decreases es.len(),
{
    if es.len() > 0 {
        lemma_aware_is_kept(s, es.drop_last());
    }
}

} // verus!
