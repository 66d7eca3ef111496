//! One attempt of the `ltp` output to write an event: over the kept connection, or
//! over a new one that is greeted first.
//!
//! The caller performs what a step asks for and reports what came of it.
use crate::metrics::OutputMetrics;
use vstd::prelude::*;

verus! {

/// Where an attempt stands.
#[derive(Debug, Clone, Copy, PartialEq, Eq, Structural)]
pub enum LtpPhase {
    Connecting,
    /// The greeting is being written and flushed.
    WritingHello,
    /// The event's frame is being written and flushed.
    WritingEvent,
    Finished,
}

/// What came of the last step.
#[derive(Debug)]
pub enum LtpEvent {
    /// A connection is made; `stopping` says whether a shutdown was signalled
    /// meanwhile.
    Connected { stopping: bool },
    ConnectFailed { error: String },
    /// A shutdown was signalled while the connection was being made.
    ConnectShutdown,
    HelloWritten,
    HelloFailed { error: String },
    /// The frame is written and flushed: its length, and the time that the event
    /// spent in this node.
    EventWritten { frame_len: usize, latency: u64 },
    EventFailed { error: String },
    /// The time for the whole attempt ran out.
    TimedOut,
}

/// What is to be done next.
#[derive(Debug)]
pub enum LtpAction {
    Connect,
    WriteHello,
    WriteEvent,
    Delivered,
    PreSendShutdown,
    Failed { error: String },
}

pub ghost enum LtpEventView {
    Connected { stopping: bool },
    ConnectFailed { error: Seq<char> },
    ConnectShutdown,
    HelloWritten,
    HelloFailed { error: Seq<char> },
    EventWritten { frame_len: usize, latency: u64 },
    EventFailed { error: Seq<char> },
    TimedOut,
}

pub ghost enum LtpActionView {
    Connect,
    WriteHello,
    WriteEvent,
    Delivered,
    PreSendShutdown,
    Failed { error: Seq<char> },
}

impl View for LtpEvent {
    type V = LtpEventView;

    open spec fn view(&self) -> LtpEventView {
        match self {
            LtpEvent::Connected { stopping } => LtpEventView::Connected { stopping: *stopping },
            LtpEvent::ConnectFailed { error } => LtpEventView::ConnectFailed { error: error@ },
            LtpEvent::ConnectShutdown => LtpEventView::ConnectShutdown,
            LtpEvent::HelloWritten => LtpEventView::HelloWritten,
            LtpEvent::HelloFailed { error } => LtpEventView::HelloFailed { error: error@ },
            LtpEvent::EventWritten { frame_len, latency } => LtpEventView::EventWritten {
                frame_len: *frame_len,
                latency: *latency,
            },
            LtpEvent::EventFailed { error } => LtpEventView::EventFailed { error: error@ },
            LtpEvent::TimedOut => LtpEventView::TimedOut,
        }
    }
}

impl View for LtpAction {
    type V = LtpActionView;

    open spec fn view(&self) -> LtpActionView {
        match self {
            LtpAction::Connect => LtpActionView::Connect,
            LtpAction::WriteHello => LtpActionView::WriteHello,
            LtpAction::WriteEvent => LtpActionView::WriteEvent,
            LtpAction::Delivered => LtpActionView::Delivered,
            LtpAction::PreSendShutdown => LtpActionView::PreSendShutdown,
            LtpAction::Failed { error } => LtpActionView::Failed { error: error@ },
        }
    }
}

/// Times that events spent in this node: how many were observed, and their sum.
#[derive(Debug, Clone, Copy, PartialEq, Eq, Structural)]
pub struct LatencyTotals {
    pub count: u64,
    pub sum: u64,
}

impl LatencyTotals {
    /// With one more observation; the totals wrap round.
    pub open spec fn observed(self, latency: u64) -> LatencyTotals {
        LatencyTotals { count: self.count.wrapping_add(1), sum: self.sum.wrapping_add(latency) }
    }
}

/// An attempt in progress. `kept` says whether the slot holds a connection once
/// the attempt is over; `drain` whether it is made during a shutdown, when a
/// shutdown no longer stops it but its time is limited.
#[derive(Debug, Clone, Copy, PartialEq, Eq, Structural)]
pub struct LtpWrite {
    pub drain: bool,
    pub kept: bool,
    pub phase: LtpPhase,
}

impl LtpWrite {
    /// The state before the first step.
    pub open spec fn start(cached: bool, drain: bool, stopping: bool) -> LtpWrite {
        LtpWrite {
            drain,
            kept: cached,
            phase: if !drain && stopping {
                LtpPhase::Finished
            } else if cached {
                LtpPhase::WritingEvent
            } else {
                LtpPhase::Connecting
            },
        }
    }

    pub open spec fn first_action(cached: bool, drain: bool, stopping: bool) -> LtpActionView {
        if !drain && stopping {
            LtpActionView::PreSendShutdown
        } else if cached {
            LtpActionView::WriteEvent
        } else {
            LtpActionView::Connect
        }
    }

    /// Whether this can come next.
    pub open spec fn accepts(self, e: LtpEventView) -> bool {
        match e {
            LtpEventView::Connected { .. } => self.phase is Connecting,
            LtpEventView::ConnectFailed { .. } => self.phase is Connecting,
            LtpEventView::ConnectShutdown => self.phase is Connecting && !self.drain,
            LtpEventView::HelloWritten => self.phase is WritingHello,
            LtpEventView::HelloFailed { .. } => self.phase is WritingHello,
            LtpEventView::EventWritten { .. } => self.phase is WritingEvent,
            LtpEventView::EventFailed { .. } => self.phase is WritingEvent,
            LtpEventView::TimedOut => self.drain && !(self.phase is Finished),
        }
    }

    /// What is to be done after an event.
    pub open spec fn action(self, e: LtpEventView) -> LtpActionView {
        match e {
            LtpEventView::Connected { stopping } => if !self.drain && stopping {
                LtpActionView::PreSendShutdown
            } else {
                LtpActionView::WriteHello
            },
            LtpEventView::ConnectFailed { error } => LtpActionView::Failed { error },
            LtpEventView::ConnectShutdown => LtpActionView::PreSendShutdown,
            LtpEventView::HelloWritten => LtpActionView::WriteEvent,
            LtpEventView::HelloFailed { error } => LtpActionView::Failed { error },
            LtpEventView::EventWritten { .. } => LtpActionView::Delivered,
            LtpEventView::EventFailed { error } => LtpActionView::Failed { error },
            LtpEventView::TimedOut => LtpActionView::Failed {
                error: "LTP shutdown write timed out"@,
            },
        }
    }

    /// The state after an event. A connection is kept only where the event went out
    /// over it.
    pub open spec fn after(self, e: LtpEventView) -> LtpWrite {
        LtpWrite {
            drain: self.drain,
            kept: e is EventWritten,
            phase: match self.action(e) {
                LtpActionView::Connect => LtpPhase::Connecting,
                LtpActionView::WriteHello => LtpPhase::WritingHello,
                LtpActionView::WriteEvent => LtpPhase::WritingEvent,
                _ => LtpPhase::Finished,
            },
        }
    }

    /// The counters after an event: only the bytes of an event's frame that was
    /// flushed count.
    pub open spec fn counted(self, e: LtpEventView, m: OutputMetrics) -> OutputMetrics {
        match e {
            LtpEventView::EventWritten { frame_len, .. } => m.wrote_bytes(frame_len as u64),
            _ => m,
        }
    }

    /// The latencies after an event.
    pub open spec fn timed(self, e: LtpEventView, t: LatencyTotals) -> LatencyTotals {
        match e {
            LtpEventView::EventWritten { latency, .. } => t.observed(latency),
            _ => t,
        }
    }

    /// Starts an attempt. `cached` says whether there is a kept connection,
    /// `stopping` whether a shutdown has been signalled.
    pub fn new(cached: bool, drain: bool, stopping: bool) -> (r: (LtpWrite, LtpAction))
        ensures
            r.0 == LtpWrite::start(cached, drain, stopping),
            r.1@ == LtpWrite::first_action(cached, drain, stopping),
    {
        if !drain && stopping {
            (
                LtpWrite { drain, kept: cached, phase: LtpPhase::Finished },
                LtpAction::PreSendShutdown,
            )
        } else if cached {
            (
                LtpWrite { drain, kept: cached, phase: LtpPhase::WritingEvent },
                LtpAction::WriteEvent,
            )
        } else {
            (LtpWrite { drain, kept: cached, phase: LtpPhase::Connecting }, LtpAction::Connect)
        }
    }

    /// Takes in what came of the last step and says what is to be done next.
    pub fn step(
        &mut self,
        event: LtpEvent,
        metrics: &mut OutputMetrics,
        latencies: &mut LatencyTotals,
    ) -> (action: LtpAction)
        requires
            old(self).accepts(event@),
        ensures
            *final(self) == old(self).after(event@),
            action@ == old(self).action(event@),
            *final(metrics) == old(self).counted(event@, *old(metrics)),
            *final(latencies) == old(self).timed(event@, *old(latencies)),
    {
        self.kept = false;
        match event {
            LtpEvent::Connected { stopping } => {
                if !self.drain && stopping {
                    self.phase = LtpPhase::Finished;
                    LtpAction::PreSendShutdown
                } else {
                    self.phase = LtpPhase::WritingHello;
                    LtpAction::WriteHello
                }
            },
            LtpEvent::ConnectFailed { error } => {
                self.phase = LtpPhase::Finished;
                LtpAction::Failed { error }
            },
            LtpEvent::ConnectShutdown => {
                self.phase = LtpPhase::Finished;
                LtpAction::PreSendShutdown
            },
            LtpEvent::HelloWritten => {
                self.phase = LtpPhase::WritingEvent;
                LtpAction::WriteEvent
            },
            LtpEvent::HelloFailed { error } => {
                self.phase = LtpPhase::Finished;
                LtpAction::Failed { error }
            },
            LtpEvent::EventWritten { frame_len, latency } => {
                metrics.add_bytes(frame_len as u64);
                latencies.count = latencies.count.wrapping_add(1);
                latencies.sum = latencies.sum.wrapping_add(latency);
                self.kept = true;
                self.phase = LtpPhase::Finished;
                LtpAction::Delivered
            },
            LtpEvent::EventFailed { error } => {
                self.phase = LtpPhase::Finished;
                LtpAction::Failed { error }
            },
            LtpEvent::TimedOut => {
                self.phase = LtpPhase::Finished;
                LtpAction::Failed { error: "LTP shutdown write timed out".to_owned() }
            },
        }
    }
}

/// The state after a sequence of events.
pub open spec fn run(s: LtpWrite, es: Seq<LtpEventView>) -> LtpWrite
    decreases es.len(),
{
    if es.len() == 0 {
        s
    } else {
        run(s, es.drop_last()).after(es.last())
    }
}

/// Whether each event of a sequence can come where it stands.
pub open spec fn accepted(s: LtpWrite, es: Seq<LtpEventView>) -> bool
    decreases es.len(),
{
    es.len() == 0 || (accepted(s, es.drop_last()) && run(s, es.drop_last()).accepts(es.last()))
}

proof fn lemma_new_connection(drain: bool, stopping: bool, es: Seq<LtpEventView>)
    requires
        accepted(LtpWrite::start(false, drain, stopping), es),
    ensures
        ({
            let s = run(LtpWrite::start(false, drain, stopping), es);
            &&& s.drain == drain
            &&& s.phase is Connecting ==> es.len() == 0
            &&& s.phase is WritingHello ==> es.len() == 1 && es[0] is Connected
            &&& s.phase is WritingEvent ==> es.len() == 2 && es[0] is Connected
                && es[1] is HelloWritten
            &&& s.kept ==> es.len() == 3 && es[1] is HelloWritten && es[2] is EventWritten
        }),
    decreases es.len(),
{
    if es.len() > 0 {
        lemma_new_connection(drain, stopping, es.drop_last());
    }
}

/// On every new connection the greeting goes out, flushed, before the event: the
/// event is written only after it, and a connection that is kept has been greeted.
pub proof fn law_hello_precedes_the_event(drain: bool, stopping: bool, es: Seq<LtpEventView>)
    requires
        accepted(LtpWrite::start(false, drain, stopping), es),
    ensures
        ({
            let s = run(LtpWrite::start(false, drain, stopping), es);
            &&& s.phase is WritingEvent ==> es.len() == 2 && es[0] is Connected
                && es[1] is HelloWritten
            &&& s.kept ==> es.len() == 3 && es[1] is HelloWritten && es[2] is EventWritten
        }),
{
    lemma_new_connection(drain, stopping, es);
}

/// An attempt that failed, or whose time ran out, leaves no connection behind: the
/// next one makes and greets a new one.
pub proof fn law_failed_attempt_drops_the_connection(s: LtpWrite, e: LtpEventView)
    requires
        s.accepts(e),
        s.action(e) is Failed,
    ensures
        !s.after(e).kept,
        s.after(e).phase is Finished,
        LtpWrite::first_action(s.after(e).kept, s.drain, false) is Connect,
{
}

/// A shutdown stops an attempt only while no byte of the event is out, and never
/// one that is made during the shutdown.
pub proof fn law_shutdown_stops_before_the_event(s: LtpWrite, e: LtpEventView)
    requires
        s.accepts(e),
        s.action(e) is PreSendShutdown,
    ensures
        s.phase is Connecting,
        !s.drain,
{
}

} // verus!
