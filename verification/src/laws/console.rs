//! What writes to the standard output do, said of what the caller reports and what it
//! is told to do.
use crate::laws::reading::{lemma_mentions, mentions};
use crate::stdout::{
    write_error_text as unix_error_text, FaultView, FrameAction, FrameEvent, FrameWrite, WriteFault,
};
use crate::stdout_windows::{
    next_chunk, write_error_text, ChunkAction, ChunkEvent, ChunkedWrite, SubmitAction, SubmitEvent,
    Submission,
};
use crate::text::decimal;
use vstd::prelude::*;

verus! {

/// The bytes of a frame that are out after an event.
pub open spec fn out_after(s: FrameWrite, e: FrameEvent) -> int {
    s.offset + match e {
        FrameEvent::Wrote { count, .. } => count as int,
        _ => 0,
    }
}

/// A write to the standard output is done exactly when its whole frame is out, and
/// what is written next begins behind what is out. It goes on after every write that
/// got bytes out, unless a shutdown stops it, which none does that drains and none to a
/// regular file.
pub proof fn law_frames_are_written_to_the_end(
    s: FrameWrite,
    e: FrameEvent,
    a: FrameAction,
    t: FrameWrite,
)
    requires
        s.wf(),
        s.accepts(e@),
        a@ == s.action(e@),
        t == s.after(e@),
    ensures
        a is Done <==> out_after(s, e) == s.len && (e is Turn || (e matches FrameEvent::Wrote {
            count,
            ..
        } && count > 0)) && !(e matches FrameEvent::Turn { .. } && s.len > 0),
        e matches FrameEvent::Turn { regular, stopping } ==> s.len > 0 ==> if regular {
            a is Write
        } else if stopping && !s.drain {
            a is Fail
        } else {
            a is AwaitReadiness
        },
        e is Ready ==> a is Write,
        e is SignalChanged || e is ReadinessFailed || e is WriteFailed ==> a is Fail,
        e matches FrameEvent::WouldBlock { stopping } ==> if stopping && !s.drain {
            a is Fail
        } else {
            a is AwaitReadiness
        },
        e matches FrameEvent::Wrote { count, stopping } ==> out_after(s, e) < s.len ==> if count
            == 0 {
            a is Fail
        } else if s.phase is WritingFile {
            a is Write
        } else if stopping && !s.drain {
            a is Fail
        } else {
            a is AwaitReadiness
        },
        !(a is AwaitTurn),
        a matches FrameAction::Write { from } ==> from == out_after(s, e) && from < s.len,
        a matches FrameAction::Fail { error } ==> error.written == out_after(s, e),
        t.offset == out_after(s, e) && t.len == s.len && t.drain == s.drain,
        t.phase is Finished <==> a is Done || a is Fail,
        t.phase is AwaitingReadiness <==> a is AwaitReadiness,
        t.phase is Writing || t.phase is WritingFile <==> a is Write,
        t.phase is WritingFile ==> s.phase is WritingFile || (e matches FrameEvent::Turn {
            regular,
            ..
        } && regular),
        t.phase is Writing ==> e is Ready,
{
}

/// Why a write to the standard output stopped: an error of the system is handed on, a
/// write that took no byte is told as such, and a shutdown only where one was under way
/// and the write does not drain.
pub proof fn law_frame_faults_are_what_happened(s: FrameWrite, e: FrameEvent, a: FrameAction)
    requires
        s.wf(),
        s.accepts(e@),
        a@ == s.action(e@),
    ensures
        a matches FrameAction::Fail { error } ==> match e {
            FrameEvent::ReadinessFailed { error: why } => error.source matches WriteFault::System {
                error: told,
            } && told@ == why@,
            FrameEvent::WriteFailed { error: why } => error.source matches WriteFault::System {
                error: told,
            } && told@ == why@,
            FrameEvent::SignalChanged { terminal } => !s.drain && if terminal {
                error.source is ShutdownRequested
            } else {
                error.source is SignalChanged
            },
            FrameEvent::Wrote { count, stopping } => if count == 0 {
                error.source is WroteNothing
            } else {
                error.source is ShutdownRequested && stopping && !s.drain
            },
            FrameEvent::WouldBlock { stopping } => error.source is ShutdownRequested && stopping
                && !s.drain,
            FrameEvent::Turn { stopping, .. } => error.source is ShutdownRequested && stopping
                && !s.drain,
            FrameEvent::Ready => false,
        },
{
}

/// What can come of a step of a write to the standard output. No step takes more
/// bytes than are left.
pub proof fn law_frame_steps_in_order(
    drain: bool,
    stopping: bool,
    a: FrameAction,
    s: FrameWrite,
    e: FrameEvent,
)
    requires
        a@ == FrameWrite::first_action(drain, stopping),
        s.wf(),
    ensures
        a is Fail <==> stopping && !drain,
        a is AwaitTurn <==> drain || !stopping,
        a matches FrameAction::Fail { error } ==> error.source is ShutdownRequested && error.written
            == 0,
        s.phase is Queued ==> (s.accepts(e@) <==> e is Turn || e is SignalChanged && !s.drain),
        s.phase is AwaitingReadiness ==> (s.accepts(e@) <==> e is Ready || e is ReadinessFailed
            || e is SignalChanged && !s.drain),
        s.phase is Writing ==> (s.accepts(e@) <==> e is WouldBlock || e is WriteFailed || (
        e matches FrameEvent::Wrote { count, .. } && s.offset + count <= s.len)),
        s.phase is WritingFile ==> (s.accepts(e@) <==> e is WriteFailed || (
        e matches FrameEvent::Wrote { count, .. } && s.offset + count <= s.len)),
        s.phase is Finished ==> !s.accepts(e@),
{
}

/// An error tells what stopped the write, and how many bytes were out where any were;
/// on Windows it always tells how many. No two faults but those of the system are told
/// in the same words.
pub proof fn law_write_errors_tell_what_is_out(fault: WriteFault, written: nat)
    ensures
        mentions(unix_error_text(fault@, written), fault@.text()),
        written > 0 ==> mentions(unix_error_text(fault@, written), decimal(written)),
        mentions(write_error_text(fault@, written), fault@.text()),
        mentions(write_error_text(fault@, written), decimal(written)),
        fault matches WriteFault::System { error } ==> fault@.text() == error@,
        FaultView::ShutdownRequested.text() != FaultView::SignalChanged.text(),
        FaultView::ShutdownRequested.text() != FaultView::WroteNothing.text(),
        FaultView::SignalChanged.text() != FaultView::WroteNothing.text(),
{
    reveal_strlit("stdout shutdown requested");
    reveal_strlit("stdout shutdown signal changed");
    reveal_strlit("stdout write returned zero");
    assert("stdout shutdown requested"@.len() == 25);
    assert("stdout shutdown signal changed"@.len() == 30);
    assert("stdout write returned zero"@.len() == 26);
    let none = Seq::<char>::empty();
    let plain = "stdout write failed: "@;
    let after = "stdout write failed after "@;
    let bytes = " confirmed byte(s): "@;
    let n = decimal(written);
    let why = fault@.text();
    lemma_mentions(plain, why, none);
    assert(plain + why + none =~= plain + why);
    lemma_mentions(after, n, bytes + why);
    assert(after + n + (bytes + why) =~= after + n + bytes + why);
    lemma_mentions(after + n + bytes, why, none);
    assert(after + n + bytes + why + none =~= after + n + bytes + why);
}

/// On Windows a frame goes out in chunks of at most 4096 bytes, each as long as that
/// or as what is left, and each behind the one before. The write is done exactly when
/// the whole frame is out, and goes on after every chunk unless the frame is cancelled.
pub proof fn law_chunks_are_written_to_the_end(
    s: ChunkedWrite,
    e: ChunkEvent,
    a: ChunkAction,
    t: ChunkedWrite,
)
    requires
        s.wf(),
        s.accepts(e@),
        a@ == s.action(e@),
        t == s.after(e@),
    ensures
        e matches ChunkEvent::Failed { error: why, aborted } ==> (a matches ChunkAction::Fail {
            error,
        } && error.written == s.written && if aborted {
            error.source is ShutdownRequested
        } else {
            error.source matches WriteFault::System { error: told } && told@ == why@
        }),
        e matches ChunkEvent::Wrote { count, cancelled } ==> {
            let out = s.written + count;
            &&& a is Done <==> count > 0 && out == s.len
            &&& a is Write <==> count > 0 && out < s.len && !cancelled
            &&& a matches ChunkAction::Fail { error } ==> error.written == out && if count == 0 {
                error.source is WroteNothing
            } else {
                error.source is ShutdownRequested
            }
            &&& a matches ChunkAction::Write { from, to } ==> from == out && from < to <= s.len
                && to - from <= 4096 && (to == s.len || to - from == 4096)
            &&& t.written == out
        },
        e is Failed ==> t.written == s.written,
        t.len == s.len,
        t.finished <==> !(a is Write),
        s.finished ==> false,
{
}

/// The first chunk of a frame on Windows: nothing is written where the frame is
/// cancelled, and an empty frame is done at once.
pub proof fn law_chunks_begin_at_the_front(len: usize, cancelled: bool, a: ChunkAction)
    requires
        a@ == next_chunk(len as nat, 0, cancelled),
    ensures
        a is Done <==> len == 0,
        a is Fail <==> len > 0 && cancelled,
        a matches ChunkAction::Fail { error } ==> error.source is ShutdownRequested && error.written
            == 0,
        a matches ChunkAction::Write { from, to } ==> from == 0 && to == (if len <= 4096 {
            len as int
        } else {
            4096
        }),
{
}

/// How a frame is handed to the writer on Windows: when it is its turn, unless a
/// shutdown came first; one that the writer has is cancelled by a shutdown but always
/// waited for. A submission that drains heeds no shutdown.
pub proof fn law_submissions_go_in_order(s: Submission, e: SubmitEvent)
    ensures
        s.phase is Queued ==> (s.accepts(e) <==> e is Turn || e is SignalChanged && !s.drain),
        s.phase is Submitted ==> (s.accepts(e) <==> e is Completed || e is SignalChanged
            && !s.drain),
        s.phase is Cancelling ==> (s.accepts(e) <==> e is Completed),
        s.phase is Finished ==> !s.accepts(e),
        s.accepts(e) ==> {
            let a = s.action(e);
            let t = s.after(e);
            &&& a is Report <==> e is Completed
            &&& a is CancelAndWait <==> e is SignalChanged && s.phase is Submitted
            &&& a is Submit <==> (e matches SubmitEvent::Turn { stopping } && (s.drain
                || !stopping))
            &&& a is Interrupted <==> (e is SignalChanged && s.phase is Queued) || (
            e matches SubmitEvent::Turn { stopping } && stopping && !s.drain)
            &&& !(a is AwaitTurn)
            &&& t.drain == s.drain
            &&& t.phase is Submitted <==> a is Submit
            &&& t.phase is Cancelling <==> a is CancelAndWait
            &&& t.phase is Finished <==> a is Report || a is Interrupted
        },
{
}

} // verus!
