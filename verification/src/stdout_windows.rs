//! The standard output on Windows, where a writer of its own makes blocking writes
//! and a supervisor cancels them.
//!
//! The caller performs what a step asks for and reports what came of it.
use crate::error::cat3;
use crate::stdout::{FaultView, WriteFault};
use crate::text::{decimal, decimal_text};
use vstd::prelude::*;

verus! {

/// Longest write that is made at once, so that a cancelled frame leaves a prefix
/// that is known to be out.
pub const CHUNK: usize = 4096;

/// A write that did not get a whole frame out.
#[derive(Debug)]
pub struct WriteError {
    pub source: WriteFault,
    /// The bytes that are confirmed to be out.
    pub written: usize,
}

/// How a [`WriteError`] is told to an operator.
pub open spec fn write_error_text(source: FaultView, written: nat) -> Seq<char> {
    "stdout write failed after "@ + decimal(written) + " confirmed byte(s): "@ + source.text()
}

impl WriteError {
    /// The error in words.
    pub fn message(&self) -> (s: String)
        ensures
            s@ == write_error_text(self.source@, self.written as nat),
    {
        let fault = self.source.message();
        let count = decimal_text(self.written as u64);
        let mut s = cat3("stdout write failed after ", count.as_str(), " confirmed byte(s): ");
        s.append(fault.as_str());
        s
    }
}

/// The error of a write that a shutdown stopped.
pub fn interrupted(written: usize) -> (e: WriteError)
    ensures
        e.source@ == FaultView::ShutdownRequested,
        e.written == written,
{
    WriteError { source: WriteFault::ShutdownRequested, written }
}

/// What came of one write.
#[derive(Debug)]
pub enum ChunkEvent {
    /// This many bytes are out; `cancelled` says whether the frame is cancelled by
    /// now.
    Wrote { count: usize, cancelled: bool },
    /// The write failed; `aborted` says whether it was cancelled from outside.
    Failed { error: String, aborted: bool },
}

/// What is to be done next.
#[derive(Debug)]
pub enum ChunkAction {
    /// Write this part of the frame.
    Write { from: usize, to: usize },
    Done,
    Fail { error: WriteError },
}

pub ghost enum ChunkEventView {
    Wrote { count: nat, cancelled: bool },
    Failed { error: Seq<char>, aborted: bool },
}

pub ghost enum ChunkActionView {
    Write { from: nat, to: nat },
    Done,
    Fail { source: FaultView, written: nat },
}

impl View for ChunkEvent {
    type V = ChunkEventView;

    open spec fn view(&self) -> ChunkEventView {
        match self {
            ChunkEvent::Wrote { count, cancelled } => ChunkEventView::Wrote {
                count: *count as nat,
                cancelled: *cancelled,
            },
            ChunkEvent::Failed { error, aborted } => ChunkEventView::Failed {
                error: error@,
                aborted: *aborted,
            },
        }
    }
}

impl View for ChunkAction {
    type V = ChunkActionView;

    open spec fn view(&self) -> ChunkActionView {
        match self {
            ChunkAction::Write { from, to } => ChunkActionView::Write {
                from: *from as nat,
                to: *to as nat,
            },
            ChunkAction::Done => ChunkActionView::Done,
            ChunkAction::Fail { error } => ChunkActionView::Fail {
                source: error.source@,
                written: error.written as nat,
            },
        }
    }
}

/// The end of the chunk that begins at a place of a frame.
pub open spec fn chunk_end(len: nat, from: nat) -> nat {
    if len - from <= CHUNK {
        len
    } else {
        from + CHUNK as nat
    }
}

/// What the loop over the rest of a frame does next.
pub open spec fn next_chunk(len: nat, written: nat, cancelled: bool) -> ChunkActionView {
    if written >= len {
        ChunkActionView::Done
    } else if cancelled {
        ChunkActionView::Fail { source: FaultView::ShutdownRequested, written }
    } else {
        ChunkActionView::Write { from: written, to: chunk_end(len, written) }
    }
}

/// The write of a frame of `len` bytes in chunks.
#[derive(Debug, Clone, Copy, PartialEq, Eq, Structural)]
pub struct ChunkedWrite {
    pub len: usize,
    pub written: usize,
    pub finished: bool,
}

impl ChunkedWrite {
    pub open spec fn wf(self) -> bool {
        &&& self.written <= self.len
        &&& !self.finished ==> self.written < self.len
    }

    /// Whether this can come next: no write takes more than it was given.
    pub open spec fn accepts(self, e: ChunkEventView) -> bool {
        &&& !self.finished
        &&& e matches ChunkEventView::Wrote { count, .. } ==> self.written + count <= chunk_end(
            self.len as nat,
            self.written as nat,
        )
    }

    /// What is to be done after an event.
    pub open spec fn action(self, e: ChunkEventView) -> ChunkActionView {
        match e {
            ChunkEventView::Failed { error, aborted } => ChunkActionView::Fail {
                source: if aborted {
                    FaultView::ShutdownRequested
                } else {
                    FaultView::System { error }
                },
                written: self.written as nat,
            },
            ChunkEventView::Wrote { count, cancelled } => if count == 0 {
                ChunkActionView::Fail {
                    source: FaultView::WroteNothing,
                    written: self.written as nat,
                }
            } else {
                next_chunk(self.len as nat, self.written as nat + count, cancelled)
            },
        }
    }

    /// The state after an event.
    pub open spec fn after(self, e: ChunkEventView) -> ChunkedWrite {
        ChunkedWrite {
            written: match e {
                ChunkEventView::Wrote { count, .. } => (self.written + count) as usize,
                _ => self.written,
            },
            finished: !(self.action(e) is Write),
            ..self
        }
    }

    fn next(&mut self, cancelled: bool) -> (action: ChunkAction)
        requires
            old(self).written <= old(self).len,
        ensures
            action@ == next_chunk(old(self).len as nat, old(self).written as nat, cancelled),
            *final(self) == (ChunkedWrite { finished: !(action@ is Write), ..*old(self) }),
    {
        self.finished = true;
        if self.written >= self.len {
            ChunkAction::Done
        } else if cancelled {
            ChunkAction::Fail { error: interrupted(self.written) }
        } else {
            self.finished = false;
            let to: usize = if self.len - self.written <= CHUNK {
                self.len
            } else {
                self.written + CHUNK
            };
            ChunkAction::Write { from: self.written, to }
        }
    }

    /// Starts to write a frame of `len` bytes.
    pub fn new(len: usize, cancelled: bool) -> (r: (ChunkedWrite, ChunkAction))
        ensures
            r.1@ == next_chunk(len as nat, 0, cancelled),
            r.0 == (ChunkedWrite { len, written: 0, finished: !(r.1@ is Write) }),
            r.0.wf(),
    {
        let mut w = ChunkedWrite { len, written: 0, finished: false };
        let action = w.next(cancelled);
        (w, action)
    }

    /// Takes in what came of the last write and says what is to be done next.
    pub fn step(&mut self, event: ChunkEvent) -> (action: ChunkAction)
        requires
            old(self).wf(),
            old(self).accepts(event@),
        ensures
            *final(self) == old(self).after(event@),
            final(self).wf(),
            action@ == old(self).action(event@),
    {
        match event {
            ChunkEvent::Failed { error, aborted } => {
                self.finished = true;
                if aborted {
                    ChunkAction::Fail { error: interrupted(self.written) }
                } else {
                    ChunkAction::Fail {
                        error: WriteError {
                            source: WriteFault::System { error },
                            written: self.written,
                        },
                    }
                }
            },
            ChunkEvent::Wrote { count, cancelled } => {
                if count == 0 {
                    self.finished = true;
                    return ChunkAction::Fail {
                        error: WriteError {
                            source: WriteFault::WroteNothing,
                            written: self.written,
                        },
                    };
                }
                self.written = self.written + count;
                self.next(cancelled)
            },
        }
    }
}

/// Where the submission of a frame to the writer stands.
#[derive(Debug, Clone, Copy, PartialEq, Eq, Structural)]
pub enum SubmitPhase {
    /// Waiting for the frame before to be done.
    Queued,
    /// The writer has the frame.
    Submitted,
    /// The writer has the frame, which is cancelled.
    Cancelling,
    Finished,
}

/// What came of the last step of a submission.
#[derive(Debug, Clone, Copy, PartialEq, Eq, Structural)]
pub enum SubmitEvent {
    /// It is this frame's turn; `stopping` says whether a shutdown is requested.
    Turn { stopping: bool },
    /// The shutdown signal changed.
    SignalChanged,
    /// The writer is done with the frame, well or not.
    Completed,
}

/// What is to be done next with a submission.
#[derive(Debug, Clone, Copy, PartialEq, Eq, Structural)]
pub enum SubmitAction {
    AwaitTurn,
    /// Hand the frame to the writer.
    Submit,
    /// Cancel the frame and wait for what the writer reports.
    CancelAndWait,
    /// The result is what the writer reports.
    Report,
    /// Fail with nothing written.
    Interrupted,
}

/// The submission of a frame. One that drains is not stopped by a shutdown.
#[derive(Debug, Clone, Copy, PartialEq, Eq, Structural)]
pub struct Submission {
    pub drain: bool,
    pub phase: SubmitPhase,
}

impl Submission {
    /// Whether this can come next.
    pub open spec fn accepts(self, e: SubmitEvent) -> bool {
        match e {
            SubmitEvent::Turn { .. } => self.phase is Queued,
            SubmitEvent::SignalChanged => !self.drain && (self.phase is Queued
                || self.phase is Submitted),
            SubmitEvent::Completed => self.phase is Submitted || self.phase is Cancelling,
        }
    }

    /// What is to be done after an event.
    pub open spec fn action(self, e: SubmitEvent) -> SubmitAction {
        match e {
            SubmitEvent::Turn { stopping } => if !self.drain && stopping {
                SubmitAction::Interrupted
            } else {
                SubmitAction::Submit
            },
            SubmitEvent::SignalChanged => if self.phase is Queued {
                SubmitAction::Interrupted
            } else {
                SubmitAction::CancelAndWait
            },
            SubmitEvent::Completed => SubmitAction::Report,
        }
    }

    /// The state after an event.
    pub open spec fn after(self, e: SubmitEvent) -> Submission {
        Submission {
            drain: self.drain,
            phase: match self.action(e) {
                SubmitAction::Submit => SubmitPhase::Submitted,
                SubmitAction::CancelAndWait => SubmitPhase::Cancelling,
                _ => SubmitPhase::Finished,
            },
        }
    }

    /// Starts to submit a frame.
    pub fn new(drain: bool, stopping: bool) -> (r: (Submission, SubmitAction))
        ensures
            r.0.drain == drain,
            !drain && stopping ==> r.0.phase is Finished && r.1 is Interrupted,
            drain || !stopping ==> r.0.phase is Queued && r.1 is AwaitTurn,
    {
        if !drain && stopping {
            (Submission { drain, phase: SubmitPhase::Finished }, SubmitAction::Interrupted)
        } else {
            (Submission { drain, phase: SubmitPhase::Queued }, SubmitAction::AwaitTurn)
        }
    }

    /// Takes in what came of the last step and says what is to be done next.
    pub fn step(&mut self, event: SubmitEvent) -> (action: SubmitAction)
        requires
            old(self).accepts(event),
        ensures
            *final(self) == old(self).after(event),
            action == old(self).action(event),
    {
        let queued = matches!(self.phase, SubmitPhase::Queued);
        match event {
            SubmitEvent::Turn { stopping } => {
                if !self.drain && stopping {
                    self.phase = SubmitPhase::Finished;
                    SubmitAction::Interrupted
                } else {
                    self.phase = SubmitPhase::Submitted;
                    SubmitAction::Submit
                }
            },
            SubmitEvent::SignalChanged => {
                if queued {
                    self.phase = SubmitPhase::Finished;
                    SubmitAction::Interrupted
                } else {
                    self.phase = SubmitPhase::Cancelling;
                    SubmitAction::CancelAndWait
                }
            },
            SubmitEvent::Completed => {
                self.phase = SubmitPhase::Finished;
                SubmitAction::Report
            },
        }
    }
}

/// The state after a sequence of events.
pub open spec fn run(s: ChunkedWrite, es: Seq<ChunkEventView>) -> ChunkedWrite
    decreases es.len(),
{
    if es.len() == 0 {
        s
    } else {
        run(s, es.drop_last()).after(es.last())
    }
}

/// Whether each event of a sequence can come where it stands.
pub open spec fn accepted(s: ChunkedWrite, es: Seq<ChunkEventView>) -> bool
    decreases es.len(),
{
    es.len() == 0 || (accepted(s, es.drop_last()) && run(s, es.drop_last()).accepts(es.last()))
}

/// The bytes that got out in a sequence of events.
pub open spec fn bytes_out(es: Seq<ChunkEventView>) -> nat
    decreases es.len(),
{
    if es.len() == 0 {
        0
    } else {
        bytes_out(es.drop_last()) + match es.last() {
            ChunkEventView::Wrote { count, .. } => count,
            _ => 0,
        }
    }
}

/// The bytes of a frame go out in order, each once, in chunks of bounded length; a
/// write that is done has them all out, and one that failed reports exactly those
/// that are.
pub proof fn law_confirmed_bytes_are_exact(len: usize, es: Seq<ChunkEventView>, e: ChunkEventView)
    requires
        len > 0,
        accepted((ChunkedWrite { len, written: 0, finished: false }), es.push(e)),
    ensures
        ({
            let s = run((ChunkedWrite { len, written: 0, finished: false }), es);
            match s.action(e) {
                ChunkActionView::Write { from, to } => from == bytes_out(es.push(e)) && from < to
                    <= len && to - from <= CHUNK,
                ChunkActionView::Done => bytes_out(es.push(e)) == len,
                ChunkActionView::Fail { written, .. } => written == bytes_out(es.push(e)) && written
                    < len,
            }
        }),
{
    assert(es.push(e).drop_last() =~= es);
    lemma_written(len, es);
}

proof fn lemma_written(len: usize, es: Seq<ChunkEventView>)
    requires
        len > 0,
        accepted((ChunkedWrite { len, written: 0, finished: false }), es),
    ensures
        ({
            let s = run((ChunkedWrite { len, written: 0, finished: false }), es);
            &&& s.wf()
            &&& s.written == bytes_out(es)
            &&& s.len == len
        }),
    decreases es.len(),
{
    if es.len() > 0 {
        lemma_written(len, es.drop_last());
    }
}

/// A frame that the writer has is always waited for: a shutdown cancels it, but its
/// result is what the writer reports.
pub proof fn law_submitted_frame_is_waited_for(s: Submission, e: SubmitEvent)
    requires
        s.phase is Submitted || s.phase is Cancelling,
        s.accepts(e),
    ensures
        s.after(e).phase is Finished <==> e is Completed,
        !(s.action(e) is Interrupted),
{
}

} // verus!
