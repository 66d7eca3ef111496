//! What holds of every attempt, and of every delivery as a whole, whichever output
//! makes it: said of what the caller reports and what it is told to do.
use crate::delivery::{
    accepted, failures, run, shutdown_action, shutdown_counted, DeliveryAction, DeliveryEvent,
    DeliveryKind, DeliveryView, EventView, ShutdownWrite,
};
use crate::laws::reading::{lemma_mentions, mentions};
use crate::ltp_write::{LatencyTotals, LtpAction, LtpEvent, LtpWrite};
use crate::metrics::OutputMetrics;
use crate::persistent_conn::{
    ReconnectAction, ReconnectEvent, ReconnectView, WriteReconnectOutcome,
};
use crate::retry::RetryConfig;
use crate::stream_attempt::{StreamAction, StreamEvent, StreamView};
use crate::text::decimal;
use vstd::prelude::*;

verus! {

/// A message counts as delivered over a stream where, and only where, it is
/// written. Every other end of a step is a failure or leads to the next step: no
/// handshake on a plain connection, none under a name that no server can have, and
/// no write before the handshake on an encrypted one.
pub proof fn law_stream_delivers_what_is_written(
    s: StreamView,
    e: StreamEvent,
    a: StreamAction,
    t: StreamView,
)
    requires
        s.accepts(e@),
        a@ == s.action(e@),
        t == s.after(e@),
    ensures
        a is Delivered <==> e is Written,
        a is Failed <==> {
            ||| e is ConnectFailed
            ||| e is ConnectTimedOut
            ||| e is HandshakeFailed
            ||| e is HandshakeTimedOut
            ||| e is WriteFailed
            ||| e is WriteTimedOut
            ||| e is Connected && s.encrypted && !s.name_ok
        },
        a is Handshake <==> e is Connected && s.encrypted && s.name_ok,
        a is Write <==> e is HandshakeDone || e is Connected && !s.encrypted,
        !(a is Connect),
        t.phase is Finished <==> a is Delivered || a is Failed,
        t.phase is Handshaking <==> a is Handshake,
        t.phase is Writing <==> a is Write,
        t == (StreamView { phase: t.phase, ..s }),
{
}

/// What can come of a step: a connection, a handshake and a write each end well,
/// fail, or run out of time, and nothing comes after the end.
pub proof fn law_stream_steps_in_order(s: StreamView, e: StreamEvent)
    ensures
        s.phase is Connecting ==> (s.accepts(e@) <==> e is Connected || e is ConnectFailed
            || e is ConnectTimedOut),
        s.phase is Handshaking ==> (s.accepts(e@) <==> e is HandshakeDone || e is HandshakeFailed
            || e is HandshakeTimedOut),
        s.phase is Writing ==> (s.accepts(e@) <==> e is Written || e is WriteFailed
            || e is WriteTimedOut),
        s.phase is Finished ==> !s.accepts(e@),
{
}

/// The error of a failed attempt over a stream is that of the write where there is
/// one; otherwise it names the peer's address, or the host where that is what was
/// refused.
pub proof fn law_stream_errors_name_the_peer(s: StreamView, e: StreamEvent, a: StreamAction)
    requires
        s.accepts(e@),
        a@ == s.action(e@),
    ensures
        a matches StreamAction::Failed { error: told } ==> match e {
            StreamEvent::WriteFailed { error } => told@ == error@,
            StreamEvent::Connected => mentions(told@, s.host),
            _ => mentions(told@, s.address),
        },
{
    let kind = s.kind;
    let none = Seq::<char>::empty();
    let late = " timed out"@;
    let c = crate::stream_attempt::connect_prefix(kind);
    let h = crate::stream_attempt::handshake_prefix(kind);
    let w = crate::stream_attempt::write_prefix(kind);
    let n = crate::stream_attempt::name_prefix(kind);
    lemma_mentions(c, s.address, late);
    lemma_mentions(h, s.address, late);
    lemma_mentions(w, s.address, late);
    lemma_mentions(n, s.host, none);
    lemma_mentions(c, s.address, none);
    lemma_mentions(h, s.address, none);
    assert(c + s.address + none =~= c + s.address);
    assert(h + s.address + none =~= h + s.address);
    assert(n + s.host + none =~= n + s.host);
}

/// An event is settled as delivered where, and only where, an attempt delivered it.
/// After a failed attempt with the budget not spent the delivery waits, for exactly
/// the time that the back-off has come to; the one exception is the standard output,
/// which stops where part of a frame is out or a shutdown is under way.
pub proof fn law_delivery_settles_as_reported(
    s: DeliveryView,
    e: DeliveryEvent,
    a: DeliveryAction,
    t: DeliveryView,
)
    requires
        s.wf(),
        s.accepts(e@),
        a@ == s.action(e@),
        t == s.after(e@),
    ensures
        a is Deliver <==> e is Delivered,
        a is Attempt <==> e is WaitElapsed,
        e is PreSendShutdown ==> a is DeadLetter,
        e is ShutdownInWait ==> a is DeadLetter,
        e matches DeliveryEvent::Failed { error, written, stopping } ==> {
            &&& !(s.kind is Stdout) || written == 0 && !stopping ==> (a is Wait <==> s.attempt + 1
                < s.retry.max_attempts)
            &&& s.kind is Stdout && (written > 0 || stopping) ==> a is DeadLetter
            &&& a is Wait || a is DeadLetter
            &&& a matches DeliveryAction::Wait { nanos } ==> nanos == s.wait
            &&& t.error == error@
        },
        t.phase is Waiting <==> a is Wait,
        t.phase is Attempting <==> a is Attempt,
        t.phase is Finished <==> a is Deliver || a is DeadLetter,
        t.attempt == s.attempt + if e is Failed {
            1int
        } else {
            0
        },
        e is WaitElapsed ==> t.wait == s.retry.wait_after(s.wait),
        !(e is WaitElapsed) ==> t.wait == s.wait,
        !(e is Failed) ==> t.error == s.error,
        t.kind == s.kind && t.name == s.name && t.retry == s.retry,
{
}

/// What can come of a step: an attempt delivers or fails, whatever the output; it
/// can be given up before anything is sent over UDP, to Kafka and over LTP. A wait
/// runs its course, or is cut short by a shutdown, except that a file is always
/// tried again.
pub proof fn law_delivery_steps_in_order(s: DeliveryView, e: DeliveryEvent)
    ensures
        s.phase is Attempting ==> (s.accepts(e@) <==> {
            ||| e is Delivered
            ||| e is Failed
            ||| e is PreSendShutdown && (s.kind is SyslogUdp || s.kind is Kafka || s.kind is Ltp)
        }),
        s.phase is Waiting ==> (s.accepts(e@) <==> e is WaitElapsed || e is ShutdownInWait && !(
        s.kind is File)),
        s.phase is Finished ==> !s.accepts(e@),
{
}

/// A delivery begins with an attempt, nothing counted and the first of the waits.
pub proof fn law_delivery_begins_with_an_attempt(
    kind: DeliveryKind,
    name: Seq<char>,
    retry: RetryConfig,
)
    ensures
        ({
            let s = DeliveryView::start(kind, name, retry);
            &&& s.phase is Attempting
            &&& s.attempt == 0
            &&& s.wait == retry.initial_wait
            &&& s.kind == kind && s.name == name && s.retry == retry
        }),
{
}

/// The whole budget is used: a delivery of which every attempt fails, with no
/// shutdown, goes on until exactly as many attempts have failed as are configured,
/// and at least one. Before that it is not settled; then it is. The standard output
/// is held to it as long as no part of a frame is out.
pub proof fn law_whole_budget_is_used(
    kind: DeliveryKind,
    name: Seq<char>,
    retry: RetryConfig,
    es: Seq<EventView>,
)
    requires
        accepted(DeliveryView::start(kind, name, retry), es),
        forall|i: int|
            0 <= i < es.len() ==> (#[trigger] es[i] is WaitElapsed
                || (es[i] matches EventView::Failed {
                written,
                stopping,
                ..
            } && (kind is Stdout ==> written == 0 && !stopping))),
    ensures
        ({
            let s = run(DeliveryView::start(kind, name, retry), es);
            let budget: int = if retry.max_attempts > 1 {
                retry.max_attempts as int
            } else {
                1
            };
            &&& failures(es) <= budget
            &&& s.phase is Finished <==> failures(es) == budget
            &&& s.attempt == failures(es)
            &&& s.kind == kind && s.name == name && s.retry == retry
        }),
    decreases es.len(),
{
    if es.len() > 0 {
        let before = es.drop_last();
        assert forall|i: int| 0 <= i < before.len() implies (#[trigger] before[i] is WaitElapsed || (
        before[i] matches EventView::Failed { written, stopping, .. } && (kind is Stdout
            ==> written == 0 && !stopping))) by {
            assert(before[i] == es[i]);
        }
        law_whole_budget_is_used(kind, name, retry, before);
        assert(es.last() == es[es.len() - 1]);
    }
}

/// The reason for which an event is given up names the error of the last attempt
/// and how many there were; one that a shutdown forestalled names the output. The
/// LTP output, whose reasons have their own wording, counts the attempts only where
/// the budget is spent.
pub proof fn law_reasons_tell_what_happened(s: DeliveryView, e: DeliveryEvent, a: DeliveryAction)
    requires
        s.wf(),
        s.accepts(e@),
        a@ == s.action(e@),
    ensures
        a matches DeliveryAction::DeadLetter { reason } ==> match e {
            DeliveryEvent::Failed { error, .. } => mentions(reason@, error@) && mentions(
                reason@,
                decimal((s.attempt + 1) as nat),
            ),
            DeliveryEvent::ShutdownInWait => mentions(reason@, s.error) && (!(s.kind is Ltp)
                ==> mentions(reason@, decimal(s.attempt as nat))),
            DeliveryEvent::PreSendShutdown => !(s.kind is Ltp) ==> mentions(reason@, s.name),
            _ => true,
        },
{
    let none = Seq::<char>::empty();
    match e {
        DeliveryEvent::Failed { error, .. } => {
            let n = decimal((s.attempt + 1) as nat);
            lemma_counted_reason("output write stopped after "@, n, " attempt(s): "@, error@);
            lemma_counted_reason("LTP write failed after "@, n, " attempts: "@, error@);
            lemma_counted_reason("output write failed after "@, n, " attempts: "@, error@);
        },
        DeliveryEvent::ShutdownInWait => {
            let n = decimal(s.attempt as nat);
            let ltp = "LTP write failed and shutdown interrupted retry: "@;
            lemma_mentions(ltp, s.error, none);
            assert(ltp + s.error + none =~= ltp + s.error);
            lemma_counted_reason(
                "output write failed and shutdown observed mid-retry after "@,
                n,
                " attempts: "@,
                s.error,
            );
        },
        DeliveryEvent::PreSendShutdown => {
            let rest = "': "@ + "write attempt abandoned on shutdown (pre-send)"@;
            lemma_mentions("output '"@, s.name, rest);
            assert("output '"@ + s.name + rest =~= "output '"@ + s.name + "': "@
                + "write attempt abandoned on shutdown (pre-send)"@);
        },
        _ => {},
    }
}

/// The reasons of the LTP output say that it is LTP that failed, and no other's do.
pub proof fn law_ltp_reasons_say_so(s: DeliveryView, e: DeliveryEvent, a: DeliveryAction)
    requires
        s.wf(),
        s.accepts(e@),
        a@ == s.action(e@),
    ensures
        a matches DeliveryAction::DeadLetter { reason } ==> reason@.len() > 0 && (reason@[0] == 'L'
            <==> s.kind is Ltp),
{
    reveal_strlit("LTP write failed after ");
    reveal_strlit("output write failed after ");
    reveal_strlit("output write stopped after ");
    reveal_strlit("LTP write failed and shutdown interrupted retry: ");
    reveal_strlit("output write failed and shutdown observed mid-retry after ");
    reveal_strlit("LTP write abandoned on shutdown before event bytes");
    reveal_strlit("output '");
}

proof fn lemma_counted_reason(
    before: Seq<char>,
    count: Seq<char>,
    middle: Seq<char>,
    error: Seq<char>,
)
    ensures
        mentions(before + count + middle + error, count),
        mentions(before + count + middle + error, error),
{
    lemma_mentions(before, count, middle + error);
    assert(before + count + (middle + error) =~= before + count + middle + error);
    lemma_mentions(before + count + middle, error, Seq::empty());
    assert(before + count + middle + error + Seq::<char>::empty() =~= before + count + middle
        + error);
}

/// What a step of a delivery counts: one event written where it is delivered, one
/// failed where it is given up, one retry for every failed attempt, and no byte. The
/// gauge is up after a failure that is to be repeated and down once the event is
/// settled, for the outputs that have one; a file and Kafka have none.
pub proof fn law_delivery_counts_each_end_once(
    s: DeliveryView,
    e: DeliveryEvent,
    a: DeliveryAction,
    m: OutputMetrics,
    n: OutputMetrics,
)
    requires
        s.wf(),
        s.accepts(e@),
        a@ == s.action(e@),
        n == s.counted(e@, m),
    ensures
        m.events_written < u64::MAX ==> n.events_written == m.events_written + if a is Deliver {
            1int
        } else {
            0
        },
        m.events_failed < u64::MAX ==> n.events_failed == m.events_failed + if a is DeadLetter {
            1int
        } else {
            0
        },
        m.retries < u64::MAX ==> n.retries == m.retries + if e is Failed {
            1int
        } else {
            0
        },
        n.bytes_written == m.bytes_written,
        s.kind is File || s.kind is Kafka ==> n.in_retry == m.in_retry,
        !(s.kind is File || s.kind is Kafka) ==> n.in_retry == (if a is Wait {
            1
        } else if a is Deliver || a is DeadLetter {
            0
        } else {
            m.in_retry as int
        }),
{
}

/// The one attempt of a shutdown settles its event as delivered only where it was,
/// and counts it. An event whose time ran out is given up even where it was out, and
/// counts as both. The reason names the error, or the time that was allowed, which
/// the LTP output leaves out.
pub proof fn law_shutdown_attempt_settles_as_reported(
    kind: DeliveryKind,
    result: ShutdownWrite,
    a: DeliveryAction,
    m: OutputMetrics,
    n: OutputMetrics,
)
    requires
        a@ == shutdown_action(kind, result@),
        n == shutdown_counted(result@, m),
    ensures
        a is Deliver <==> result is Delivered,
        a is DeadLetter <==> !(result is Delivered),
        a matches DeliveryAction::DeadLetter { reason } ==> match result {
            ShutdownWrite::Failed { error } => mentions(reason@, error@) && (kind is SyslogUdp
                || kind is Kafka || kind is Ltp ==> reason@ == error@),
            ShutdownWrite::TimedOut { limit, .. } => kind is Ltp || mentions(reason@, limit@),
            _ => true,
        },
        m.events_written < u64::MAX ==> n.events_written == m.events_written
            + (if result is Delivered
            || (result matches ShutdownWrite::TimedOut { written, .. } && written) {
            1int
        } else {
            0
        }),
        m.events_failed < u64::MAX ==> n.events_failed == m.events_failed + if result is Delivered {
            0int
        } else {
            1
        },
        n.retries == m.retries && n.bytes_written == m.bytes_written && n.in_retry == m.in_retry,
{
    let none = Seq::<char>::empty();
    match result {
        ShutdownWrite::Failed { error } => {
            let f = "shutdown write failed: "@;
            let o = "output shutdown write failed: "@;
            lemma_mentions(f, error@, none);
            lemma_mentions(o, error@, none);
            lemma_mentions(none, error@, none);
            assert(f + error@ + none =~= f + error@);
            assert(o + error@ + none =~= o + error@);
            assert(none + error@ + none =~= error@);
        },
        ShutdownWrite::TimedOut { limit, .. } => {
            let f = "shutdown write timed out after "@;
            let o = "timed out after "@;
            lemma_mentions(f, limit@, none);
            lemma_mentions(o, limit@, none);
            assert(f + limit@ + none =~= f + limit@);
            assert(o + limit@ + none =~= o + limit@);
        },
        _ => {},
    }
}

/// A frame counts as delivered over a cached connection where, and only where, it is
/// written. A write that fails on the cached connection leads to one reconnect, and
/// one that fails on the new connection ends with its error, as does a connect that
/// fails. A shutdown between the two ends the write: with the error of the first
/// write where there was one, since bytes may be out, and otherwise with nothing
/// sent.
pub proof fn law_reconnect_delivers_what_is_written(
    s: ReconnectView,
    e: ReconnectEvent,
    a: ReconnectAction,
    t: ReconnectView,
)
    requires
        s.accepts(e@),
        a@ == s.action(e@),
        t == s.after(e@),
    ensures
        (a matches ReconnectAction::Done { outcome } && outcome is Delivered) <==> e is Written,
        e is WriteFailed && s.phase is WritingCached <==> a is Connect,
        e matches ReconnectEvent::WriteFailed { error } ==> s.phase is WritingFresh ==> (a matches
            ReconnectAction::Done { outcome } && (outcome matches WriteReconnectOutcome::Failed {
            error: told,
        } && told@ == error@)),
        e matches ReconnectEvent::ConnectFailed { error } ==> (a matches ReconnectAction::Done {
            outcome,
        } && (outcome matches WriteReconnectOutcome::Failed { error: told } && told@ == error@)),
        e matches ReconnectEvent::Connected { stopping } ==> (!s.aware || !stopping
            ==> a is WriteFresh),
        a is WriteFresh ==> e is Connected,
        !(a is WriteCached),
        e is ConnectShutdown || (e matches ReconnectEvent::Connected { stopping } && stopping
            && s.aware) ==> (a matches ReconnectAction::Done { outcome } && match s.broken {
            None => outcome is PreSendShutdown,
            Some(first) => outcome matches WriteReconnectOutcome::Failed { error: told } && told@
                == first,
        }),
        t.phase is Finished <==> a is Done,
        t.phase is Connecting <==> a is Connect,
        t.phase is WritingFresh <==> a is WriteFresh,
        !(t.phase is WritingCached),
        t.aware == s.aware,
        e matches ReconnectEvent::WriteFailed { error } ==> s.phase is WritingCached ==> t.broken
            == Some(error@),
        !(e is WriteFailed && s.phase is WritingCached) ==> t.broken == s.broken,
{
}

/// Which connection a write leaves behind: the one that the frame went over, a new
/// one that a shutdown left unused, and never one that a write failed on, except
/// that a write which heeds no shutdown keeps the new connection even then.
pub proof fn law_reconnect_keeps_working_connections(
    s: ReconnectView,
    e: ReconnectEvent,
    t: ReconnectView,
)
    requires
        s.accepts(e@),
        t == s.after(e@),
    ensures
        e is Written ==> t.cached == s.cached,
        e is Connected ==> t.cached,
        e is ConnectFailed || e is ConnectShutdown ==> !t.cached,
        e is WriteFailed && s.phase is WritingCached ==> !t.cached,
        e is WriteFailed && s.phase is WritingFresh ==> (t.cached <==> !s.aware),
{
}

/// A write begins over the cached connection where there is one and with a connect
/// where there is none; where it heeds shutdowns and one is under way, a cached
/// connection is not written to at all. What can come next follows from it.
pub proof fn law_reconnect_steps_in_order(
    cached: bool,
    aware: bool,
    stopping: bool,
    a: ReconnectAction,
    s: ReconnectView,
    e: ReconnectEvent,
)
    requires
        a@ == ReconnectView::first_action(cached, aware, stopping),
    ensures
        a is Connect <==> !cached,
        a is WriteCached <==> cached && !(aware && stopping),
        a is Done <==> cached && aware && stopping,
        a matches ReconnectAction::Done { outcome } ==> outcome is PreSendShutdown,
        !(a is WriteFresh),
        ({
            let first = ReconnectView::start(cached, aware, stopping);
            &&& first.phase is Connecting <==> a is Connect
            &&& first.phase is WritingCached <==> a is WriteCached
            &&& first.phase is Finished <==> a is Done
            &&& first.cached == cached && first.aware == aware && first.broken is None
        }),
        s.phase is WritingCached || s.phase is WritingFresh ==> (s.accepts(e@) <==> e is Written
            || e is WriteFailed),
        s.phase is Connecting ==> (s.accepts(e@) <==> e is Connected || e is ConnectFailed
            || e is ConnectShutdown && s.aware),
        s.phase is Finished ==> !s.accepts(e@),
{
}

/// A write through a cached connection counts one event where its frame is written,
/// and nothing else.
pub proof fn law_reconnect_counts_written_frames(
    s: ReconnectView,
    e: ReconnectEvent,
    m: OutputMetrics,
    n: OutputMetrics,
)
    requires
        n == s.counted(e@, m),
    ensures
        m.events_written < u64::MAX ==> n.events_written == m.events_written + if e is Written {
            1int
        } else {
            0
        },
        n.events_failed == m.events_failed && n.retries == m.retries,
        n.bytes_written == m.bytes_written && n.in_retry == m.in_retry,
{
}

/// An event counts as delivered over LTP where, and only where, its frame is written;
/// every step that fails, or runs out of time, ends the attempt as failed, with the
/// error that was reported. A new connection is greeted before the event.
pub proof fn law_ltp_delivers_what_is_written(s: LtpWrite, e: LtpEvent, a: LtpAction, t: LtpWrite)
    requires
        s.accepts(e@),
        a@ == s.action(e@),
        t == s.after(e@),
    ensures
        a is Delivered <==> e is EventWritten,
        a is Failed <==> e is ConnectFailed || e is HelloFailed || e is EventFailed
            || e is TimedOut,
        a is WriteEvent <==> e is HelloWritten,
        e matches LtpEvent::Connected { stopping } ==> if stopping && !s.drain {
            a is PreSendShutdown
        } else {
            a is WriteHello
        },
        a is WriteHello ==> e is Connected,
        a is PreSendShutdown ==> e is Connected || e is ConnectShutdown,
        !(a is Connect),
        a matches LtpAction::Failed { error: told } ==> match e {
            LtpEvent::ConnectFailed { error } => told@ == error@,
            LtpEvent::HelloFailed { error } => told@ == error@,
            LtpEvent::EventFailed { error } => told@ == error@,
            _ => true,
        },
        t.phase is WritingHello <==> a is WriteHello,
        t.phase is WritingEvent <==> a is WriteEvent,
        t.phase is Finished <==> a is Delivered || a is Failed || a is PreSendShutdown,
        t.kept <==> e is EventWritten,
        t.drain == s.drain,
{
}

/// What can come of a step over LTP. A shutdown stops a connect unless the attempt is
/// made during it; its time can run out only then, and until it is over.
pub proof fn law_ltp_steps_in_order(
    cached: bool,
    drain: bool,
    stopping: bool,
    a: LtpAction,
    s: LtpWrite,
    e: LtpEvent,
)
    requires
        a@ == LtpWrite::first_action(cached, drain, stopping),
    ensures
        a is PreSendShutdown <==> stopping && !drain,
        a is WriteEvent <==> cached && (drain || !stopping),
        a is Connect <==> !cached && (drain || !stopping),
        ({
            let first = LtpWrite::start(cached, drain, stopping);
            &&& first.phase is Connecting <==> a is Connect
            &&& first.phase is WritingEvent <==> a is WriteEvent
            &&& first.phase is Finished <==> a is PreSendShutdown
            &&& first.kept == cached && first.drain == drain
        }),
        s.phase is Connecting ==> (s.accepts(e@) <==> e is Connected || e is ConnectFailed || (
        e is ConnectShutdown && !s.drain) || (e is TimedOut && s.drain)),
        s.phase is WritingHello ==> (s.accepts(e@) <==> e is HelloWritten || e is HelloFailed || (
        e is TimedOut && s.drain)),
        s.phase is WritingEvent ==> (s.accepts(e@) <==> e is EventWritten || e is EventFailed || (
        e is TimedOut && s.drain)),
        s.phase is Finished ==> !s.accepts(e@),
{
}

/// What a step over LTP counts: the bytes of a frame that was written, and the one
/// latency that was observed for it. Nothing else moves a counter.
pub proof fn law_ltp_counts_written_frames(
    s: LtpWrite,
    e: LtpEvent,
    m: OutputMetrics,
    n: OutputMetrics,
    before: LatencyTotals,
    after: LatencyTotals,
)
    requires
        n == s.counted(e@, m),
        after == s.timed(e@, before),
    ensures
        n == (OutputMetrics { bytes_written: n.bytes_written, ..m }),
        match e {
            LtpEvent::EventWritten { frame_len, latency } => {
                &&& m.bytes_written + frame_len <= u64::MAX ==> n.bytes_written == m.bytes_written
                    + frame_len
                &&& before.count < u64::MAX ==> after.count == before.count + 1
                &&& before.sum + latency <= u64::MAX ==> after.sum == before.sum + latency
            },
            _ => n == m && after == before,
        },
{
}

} // verus!
