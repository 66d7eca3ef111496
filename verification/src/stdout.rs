//! The `stdout` output: frames to the standard output, whole or with the number of
//! bytes that did get out.
//!
//! The caller performs what a step asks for and reports what came of it.
use crate::error::{cat2, cat3, OutputError};
use crate::framing::{frame_with_newline, LINE_FEED};
use crate::metrics::OutputMetrics;
use crate::props::Property;
use crate::retry::{retry_result, RetryConfig};
use crate::text::{decimal, decimal_text};
use vstd::prelude::*;

verus! {

/// A configured output.
#[derive(Debug)]
pub struct StdoutOutput {
    pub name: String,
    pub retry: RetryConfig,
    pub metrics: OutputMetrics,
}

impl StdoutOutput {
    /// Reads the configuration of the output.
    pub fn from_properties(
        name: &str,
        properties: &[Property],
        retry_defaults: RetryConfig,
    ) -> (r: Result<StdoutOutput, OutputError>)
        ensures
            match r {
                Ok(output) => {
                    &&& output.name@ == name@
                    &&& retry_result(properties@, retry_defaults) == Ok::<RetryConfig, Seq<char>>(
                        output.retry,
                    )
                    &&& output.metrics == OutputMetrics::zero()
                },
                Err(e) => retry_result(properties@, retry_defaults) == Err::<
                    RetryConfig,
                    Seq<char>,
                >(e@),
            },
    {
        match RetryConfig::from_output_properties(properties, retry_defaults) {
            Ok(retry) => Ok(
                StdoutOutput { name: name.to_owned(), retry, metrics: OutputMetrics::new() },
            ),
            Err(e) => Err(e),
        }
    }

    /// The frame of an event.
    pub fn event_frame(&self, egress: &[u8]) -> (frame: Vec<u8>)
        ensures
            frame@ == egress@.push(LINE_FEED),
    {
        frame_with_newline(egress)
    }
}

/// Counts a frame whose bytes are all out.
pub fn count_frame(frame: &[u8], metrics: &mut OutputMetrics)
    ensures
        *final(metrics) == old(metrics).wrote_bytes(frame@.len() as u64),
{
    metrics.add_bytes(frame.len() as u64);
}

/// Why a write stopped.
#[derive(Debug)]
pub enum WriteFault {
    /// A shutdown was requested.
    ShutdownRequested,
    /// The shutdown signal changed without requesting one.
    SignalChanged,
    /// The standard output took no byte.
    WroteNothing,
    /// The operating system reported an error.
    System { error: String },
}

pub ghost enum FaultView {
    ShutdownRequested,
    SignalChanged,
    WroteNothing,
    System { error: Seq<char> },
}

impl View for WriteFault {
    type V = FaultView;

    open spec fn view(&self) -> FaultView {
        match self {
            WriteFault::ShutdownRequested => FaultView::ShutdownRequested,
            WriteFault::SignalChanged => FaultView::SignalChanged,
            WriteFault::WroteNothing => FaultView::WroteNothing,
            WriteFault::System { error } => FaultView::System { error: error@ },
        }
    }
}

impl FaultView {
    /// The fault in words.
    pub open spec fn text(self) -> Seq<char> {
        match self {
            FaultView::ShutdownRequested => "stdout shutdown requested"@,
            FaultView::SignalChanged => "stdout shutdown signal changed"@,
            FaultView::WroteNothing => "stdout write returned zero"@,
            FaultView::System { error } => error,
        }
    }
}

impl WriteFault {
    /// The fault in words.
    pub fn message(&self) -> (s: String)
        ensures
            s@ == self@.text(),
    {
        match self {
            WriteFault::ShutdownRequested => "stdout shutdown requested".to_owned(),
            WriteFault::SignalChanged => "stdout shutdown signal changed".to_owned(),
            WriteFault::WroteNothing => "stdout write returned zero".to_owned(),
            WriteFault::System { error } => error.clone(),
        }
    }
}

/// A write that did not get a whole frame out.
#[derive(Debug)]
pub struct StdoutWriteError {
    pub source: WriteFault,
    /// The bytes that are confirmed to be out.
    pub written: usize,
}

/// How a [`StdoutWriteError`] is told to an operator.
pub open spec fn write_error_text(source: FaultView, written: nat) -> Seq<char> {
    if written == 0 {
        "stdout write failed: "@ + source.text()
    } else {
        "stdout write failed after "@ + decimal(written) + " confirmed byte(s): "@ + source.text()
    }
}

impl StdoutWriteError {
    /// The error in words.
    pub fn message(&self) -> (s: String)
        ensures
            s@ == write_error_text(self.source@, self.written as nat),
    {
        let fault = self.source.message();
        if self.written == 0 {
            cat2("stdout write failed: ", fault.as_str())
        } else {
            let count = decimal_text(self.written as u64);
            let mut s = cat3("stdout write failed after ", count.as_str(), " confirmed byte(s): ");
            s.append(fault.as_str());
            s
        }
    }
}

/// Where the write of a frame stands.
#[derive(Debug, Clone, Copy, PartialEq, Eq, Structural)]
pub enum FramePhase {
    /// Waiting for the frame before to be done.
    Queued,
    /// Waiting until the standard output takes bytes.
    AwaitingReadiness,
    /// A write of what is left is under way.
    Writing,
    /// A blocking write to a regular file is under way.
    WritingFile,
    Finished,
}

/// What came of the last step. `stopping` says whether a shutdown is requested by
/// the time that the step is over.
#[derive(Debug)]
pub enum FrameEvent {
    /// It is this frame's turn; `regular` says whether the standard output is a
    /// regular file.
    Turn { regular: bool, stopping: bool },
    /// The shutdown signal changed during a wait; `terminal` says whether it
    /// requests a shutdown, or nobody is left to send one.
    SignalChanged { terminal: bool },
    Ready,
    ReadinessFailed { error: String },
    /// This many bytes are out.
    Wrote { count: usize, stopping: bool },
    /// The standard output was not ready after all.
    WouldBlock { stopping: bool },
    WriteFailed { error: String },
}

/// What is to be done next.
#[derive(Debug)]
pub enum FrameAction {
    AwaitTurn,
    AwaitReadiness,
    /// Write what begins at this place of the frame.
    Write { from: usize },
    Done,
    Fail { error: StdoutWriteError },
}

pub ghost enum FrameEventView {
    Turn { regular: bool, stopping: bool },
    SignalChanged { terminal: bool },
    Ready,
    ReadinessFailed { error: Seq<char> },
    Wrote { count: nat, stopping: bool },
    WouldBlock { stopping: bool },
    WriteFailed { error: Seq<char> },
}

pub ghost enum FrameActionView {
    AwaitTurn,
    AwaitReadiness,
    Write { from: nat },
    Done,
    Fail { source: FaultView, written: nat },
}

impl View for FrameEvent {
    type V = FrameEventView;

    open spec fn view(&self) -> FrameEventView {
        match self {
            FrameEvent::Turn { regular, stopping } => FrameEventView::Turn {
                regular: *regular,
                stopping: *stopping,
            },
            FrameEvent::SignalChanged { terminal } => FrameEventView::SignalChanged {
                terminal: *terminal,
            },
            FrameEvent::Ready => FrameEventView::Ready,
            FrameEvent::ReadinessFailed { error } => FrameEventView::ReadinessFailed {
                error: error@,
            },
            FrameEvent::Wrote { count, stopping } => FrameEventView::Wrote {
                count: *count as nat,
                stopping: *stopping,
            },
            FrameEvent::WouldBlock { stopping } => FrameEventView::WouldBlock {
                stopping: *stopping,
            },
            FrameEvent::WriteFailed { error } => FrameEventView::WriteFailed { error: error@ },
        }
    }
}

impl View for FrameAction {
    type V = FrameActionView;

    open spec fn view(&self) -> FrameActionView {
        match self {
            FrameAction::AwaitTurn => FrameActionView::AwaitTurn,
            FrameAction::AwaitReadiness => FrameActionView::AwaitReadiness,
            FrameAction::Write { from } => FrameActionView::Write { from: *from as nat },
            FrameAction::Done => FrameActionView::Done,
            FrameAction::Fail { error } => FrameActionView::Fail {
                source: error.source@,
                written: error.written as nat,
            },
        }
    }
}

/// The write of a frame of `len` bytes, `offset` of which are out. A write that
/// drains is not stopped by a shutdown.
#[derive(Debug, Clone, Copy, PartialEq, Eq, Structural)]
pub struct FrameWrite {
    pub len: usize,
    pub drain: bool,
    pub offset: usize,
    pub phase: FramePhase,
}

impl FrameWrite {
    pub open spec fn wf(self) -> bool {
        &&& self.offset <= self.len
        &&& self.phase is Queued ==> self.offset == 0
        &&& self.phase is AwaitingReadiness || self.phase is Writing || self.phase is WritingFile
            ==> self.offset < self.len
    }

    /// What the loop over the rest of the frame does next.
    pub open spec fn next_round(self, offset: nat, stopping: bool) -> FrameActionView {
        if offset >= self.len {
            FrameActionView::Done
        } else if !self.drain && stopping {
            FrameActionView::Fail { source: FaultView::ShutdownRequested, written: offset }
        } else {
            FrameActionView::AwaitReadiness
        }
    }

    pub open spec fn first_action(drain: bool, stopping: bool) -> FrameActionView {
        if !drain && stopping {
            FrameActionView::Fail { source: FaultView::ShutdownRequested, written: 0 }
        } else {
            FrameActionView::AwaitTurn
        }
    }

    /// Whether this can come next.
    pub open spec fn accepts(self, e: FrameEventView) -> bool {
        match e {
            FrameEventView::Turn { .. } => self.phase is Queued,
            FrameEventView::SignalChanged { .. } => !self.drain && (self.phase is Queued
                || self.phase is AwaitingReadiness),
            FrameEventView::Ready => self.phase is AwaitingReadiness,
            FrameEventView::ReadinessFailed { .. } => self.phase is AwaitingReadiness,
            FrameEventView::Wrote { count, .. } => (self.phase is Writing
                || self.phase is WritingFile) && count <= self.len - self.offset,
            FrameEventView::WouldBlock { .. } => self.phase is Writing,
            FrameEventView::WriteFailed { .. } => self.phase is Writing || self.phase is WritingFile,
        }
    }

    /// What is to be done after an event.
    pub open spec fn action(self, e: FrameEventView) -> FrameActionView {
        let offset = self.offset as nat;
        match e {
            FrameEventView::Turn { regular, stopping } => if !regular {
                self.next_round(0, stopping)
            } else if self.len == 0 {
                FrameActionView::Done
            } else {
                FrameActionView::Write { from: 0 }
            },
            FrameEventView::SignalChanged { terminal } => FrameActionView::Fail {
                source: if terminal {
                    FaultView::ShutdownRequested
                } else {
                    FaultView::SignalChanged
                },
                written: offset,
            },
            FrameEventView::Ready => FrameActionView::Write { from: offset },
            FrameEventView::ReadinessFailed { error } => FrameActionView::Fail {
                source: FaultView::System { error },
                written: offset,
            },
            FrameEventView::Wrote { count, stopping } => if count == 0 {
                FrameActionView::Fail { source: FaultView::WroteNothing, written: offset }
            } else if self.phase is Writing {
                self.next_round(offset + count, stopping)
            } else if offset + count >= self.len {
                FrameActionView::Done
            } else {
                FrameActionView::Write { from: offset + count }
            },
            FrameEventView::WouldBlock { stopping } => self.next_round(offset, stopping),
            FrameEventView::WriteFailed { error } => FrameActionView::Fail {
                source: FaultView::System { error },
                written: offset,
            },
        }
    }

    /// The state after an event.
    pub open spec fn after(self, e: FrameEventView) -> FrameWrite {
        let to_file = match e {
            FrameEventView::Turn { regular, .. } => regular,
            _ => self.phase is WritingFile,
        };
        FrameWrite {
            offset: match e {
                FrameEventView::Wrote { count, .. } => (self.offset + count) as usize,
                _ => self.offset,
            },
            phase: match self.action(e) {
                FrameActionView::AwaitTurn => FramePhase::Queued,
                FrameActionView::AwaitReadiness => FramePhase::AwaitingReadiness,
                FrameActionView::Write { .. } => if to_file {
                    FramePhase::WritingFile
                } else {
                    FramePhase::Writing
                },
                FrameActionView::Done => FramePhase::Finished,
                FrameActionView::Fail { .. } => FramePhase::Finished,
            },
            ..self
        }
    }

    /// Starts to write a frame of `len` bytes.
    pub fn new(len: usize, drain: bool, stopping: bool) -> (r: (FrameWrite, FrameAction))
        ensures
            r.0 == (FrameWrite {
                len,
                drain,
                offset: 0,
                phase: if !drain && stopping {
                    FramePhase::Finished
                } else {
                    FramePhase::Queued
                },
            }),
            r.0.wf(),
            r.1@ == FrameWrite::first_action(drain, stopping),
    {
        if !drain && stopping {
            (
                FrameWrite { len, drain, offset: 0, phase: FramePhase::Finished },
                fail(WriteFault::ShutdownRequested, 0),
            )
        } else {
            (FrameWrite { len, drain, offset: 0, phase: FramePhase::Queued }, FrameAction::AwaitTurn)
        }
    }

    fn round(&mut self, stopping: bool) -> (action: FrameAction)
        requires
            old(self).offset <= old(self).len,
        ensures
            action@ == old(self).next_round(old(self).offset as nat, stopping),
            *final(self) == (FrameWrite {
                phase: if action@ is AwaitReadiness {
                    FramePhase::AwaitingReadiness
                } else {
                    FramePhase::Finished
                },
                ..*old(self)
            }),
            final(self).wf(),
    {
        if self.offset >= self.len {
            self.phase = FramePhase::Finished;
            FrameAction::Done
        } else if !self.drain && stopping {
            self.phase = FramePhase::Finished;
            fail(WriteFault::ShutdownRequested, self.offset)
        } else {
            self.phase = FramePhase::AwaitingReadiness;
            FrameAction::AwaitReadiness
        }
    }

    /// Takes in what came of the last step and says what is to be done next.
    pub fn step(&mut self, event: FrameEvent) -> (action: FrameAction)
        requires
            old(self).wf(),
            old(self).accepts(event@),
        ensures
            *final(self) == old(self).after(event@),
            final(self).wf(),
            action@ == old(self).action(event@),
    {
        match event {
            FrameEvent::Turn { regular, stopping } => {
                if !regular {
                    self.round(stopping)
                } else if self.len == 0 {
                    self.phase = FramePhase::Finished;
                    FrameAction::Done
                } else {
                    self.phase = FramePhase::WritingFile;
                    FrameAction::Write { from: 0 }
                }
            },
            FrameEvent::SignalChanged { terminal } => {
                self.phase = FramePhase::Finished;
                if terminal {
                    fail(WriteFault::ShutdownRequested, self.offset)
                } else {
                    fail(WriteFault::SignalChanged, self.offset)
                }
            },
            FrameEvent::Ready => {
                self.phase = FramePhase::Writing;
                FrameAction::Write { from: self.offset }
            },
            FrameEvent::ReadinessFailed { error } => {
                self.phase = FramePhase::Finished;
                fail(WriteFault::System { error }, self.offset)
            },
            FrameEvent::Wrote { count, stopping } => {
                if count == 0 {
                    self.phase = FramePhase::Finished;
                    return fail(WriteFault::WroteNothing, self.offset);
                }
                self.offset = self.offset + count;
                if matches!(self.phase, FramePhase::Writing) {
                    self.round(stopping)
                } else if self.offset >= self.len {
                    self.phase = FramePhase::Finished;
                    FrameAction::Done
                } else {
                    FrameAction::Write { from: self.offset }
                }
            },
            FrameEvent::WouldBlock { stopping } => self.round(stopping),
            FrameEvent::WriteFailed { error } => {
                self.phase = FramePhase::Finished;
                fail(WriteFault::System { error }, self.offset)
            },
        }
    }
}

fn fail(source: WriteFault, written: usize) -> (action: FrameAction)
    ensures
        action@ == (FrameActionView::Fail { source: source@, written: written as nat }),
{
    FrameAction::Fail { error: StdoutWriteError { source, written } }
}

/// How the status flags of the standard output are changed so that writes to it do
/// not block, and changed back should it not be usable after all; `nonblocking` is
/// the flag in question.
#[derive(Debug, Clone, Copy, PartialEq, Eq, Structural)]
pub struct FlagPlan {
    pub set: Option<i32>,
    pub restore: Option<i32>,
}

/// Plans the change of the status flags: none where writes do not block already.
pub fn plan_flags(flags: i32, nonblocking: i32) -> (plan: FlagPlan)
    ensures
        plan == if flags & nonblocking == 0 {
            FlagPlan { set: Some(flags | nonblocking), restore: Some(flags) }
        } else {
            FlagPlan { set: None, restore: None }
        },
{
    if flags & nonblocking == 0 {
        FlagPlan { set: Some(flags | nonblocking), restore: Some(flags) }
    } else {
        FlagPlan { set: None, restore: None }
    }
}

/// The state after a sequence of events.
pub open spec fn run(s: FrameWrite, es: Seq<FrameEventView>) -> FrameWrite
    decreases es.len(),
{
    if es.len() == 0 {
        s
    } else {
        run(s, es.drop_last()).after(es.last())
    }
}

/// Whether each event of a sequence can come where it stands.
pub open spec fn accepted(s: FrameWrite, es: Seq<FrameEventView>) -> bool
    decreases es.len(),
{
    es.len() == 0 || (accepted(s, es.drop_last()) && run(s, es.drop_last()).accepts(es.last()))
}

/// The bytes that got out in a sequence of events.
pub open spec fn bytes_out(es: Seq<FrameEventView>) -> nat
    decreases es.len(),
{
    if es.len() == 0 {
        0
    } else {
        bytes_out(es.drop_last()) + match es.last() {
            FrameEventView::Wrote { count, .. } => count,
            _ => 0,
        }
    }
}

/// The bytes of a frame go out in order, each once: what is written next begins
/// where the bytes that are out end. A write that is done has them all out, and one
/// that failed reports exactly those that are.
pub proof fn law_confirmed_bytes_are_exact(
    len: usize,
    drain: bool,
    es: Seq<FrameEventView>,
    e: FrameEventView,
)
    requires
        accepted((FrameWrite { len, drain, offset: 0, phase: FramePhase::Queued }), es.push(e)),
    ensures
        ({
            let s = run((FrameWrite { len, drain, offset: 0, phase: FramePhase::Queued }), es);
            match s.action(e) {
                FrameActionView::Write { from } => from == bytes_out(es.push(e)) && from < len,
                FrameActionView::Done => bytes_out(es.push(e)) == len,
                FrameActionView::Fail { written, .. } => written == bytes_out(es.push(e))
                    && written < len || len == 0 && written == 0,
                _ => true,
            }
        }),
{
    assert(es.push(e).drop_last() =~= es);
    lemma_offset(len, drain, es);
}

proof fn lemma_offset(len: usize, drain: bool, es: Seq<FrameEventView>)
    requires
        accepted((FrameWrite { len, drain, offset: 0, phase: FramePhase::Queued }), es),
    ensures
        ({
            let s = run((FrameWrite { len, drain, offset: 0, phase: FramePhase::Queued }), es);
            &&& s.wf()
            &&& s.offset == bytes_out(es)
            &&& s.len == len
            &&& s.drain == drain
        }),
    decreases es.len(),
{
    if es.len() > 0 {
        lemma_offset(len, drain, es.drop_last());
    }
}

/// A write that drains is never stopped by a shutdown.
pub proof fn law_drain_outlasts_a_shutdown(s: FrameWrite, e: FrameEventView)
    requires
        s.drain,
        s.accepts(e),
    ensures
        s.action(e) matches FrameActionView::Fail { source, .. } ==> !(
        source is ShutdownRequested) && !(source is SignalChanged),
{
}

} // verus!
