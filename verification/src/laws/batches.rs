//! What becomes of batches, said of what the caller reports and what it is told to do.
use crate::batched::{
    accepted, failures, failures_of, payloads_of, run, shippable_of, shutdown_flush_action,
    BatchFlush, FlushAction, FlushEvent, FlushEventView, RenderedEvent, ShutdownSend,
};
use crate::flush_run::{RunEvent, RunStep, RunView};
use crate::laws::reading::{lemma_mentions, mentions};
use crate::metrics::OutputMetrics;
use crate::retry::RetryConfig;
use crate::text::decimal;
use vstd::prelude::*;

verus! {

/// Rendering parts a batch event by event, in order: one that was rendered goes with
/// its payload, one that was not with a reason that names its error and where it
/// happened.
pub proof fn law_rendering_goes_event_by_event<E>(
    a: Seq<RenderedEvent<E>>,
    b: Seq<RenderedEvent<E>>,
    one: RenderedEvent<E>,
    site: Seq<char>,
)
    ensures
        shippable_of(a + b) == shippable_of(a) + shippable_of(b),
        payloads_of(a + b) == payloads_of(a) + payloads_of(b),
        failures_of(a + b, site) == failures_of(a, site) + failures_of(b, site),
        match one.rendered {
            Ok(payload) => {
                &&& shippable_of(seq![one]) == seq![one.event]
                &&& payloads_of(seq![one]) == seq![payload@]
                &&& failures_of(seq![one], site).len() == 0
            },
            Err(error) => {
                &&& shippable_of(seq![one]).len() == 0
                &&& payloads_of(seq![one]).len() == 0
                &&& failures_of(seq![one], site).len() == 1
                &&& failures_of(seq![one], site)[0].0 == one.event
                &&& mentions(failures_of(seq![one], site)[0].1, error@)
                &&& mentions(failures_of(seq![one], site)[0].1, site)
            },
        },
    decreases b.len(),
{
    let none = Seq::<RenderedEvent<E>>::empty();
    assert(seq![one].drop_last() =~= none);
    assert(shippable_of(none) =~= Seq::<E>::empty());
    assert(payloads_of(none) =~= Seq::<Seq<u8>>::empty());
    assert(failures_of(none, site) =~= Seq::<(E, Seq<char>)>::empty());
    match one.rendered {
        Ok(payload) => {
            assert(Seq::<E>::empty().push(one.event) =~= seq![one.event]);
            assert(Seq::<Seq<u8>>::empty().push(payload@) =~= seq![payload@]);
        },
        Err(error) => {
            let front = "render failed during "@;
            let colon = ": "@;
            lemma_mentions(front, site, colon + error@);
            assert(front + site + (colon + error@) =~= front + site + colon + error@);
            lemma_mentions(front + site + colon, error@, Seq::empty());
            assert(front + site + colon + error@ + Seq::<char>::empty() =~= front + site + colon
                + error@);
        },
    }
    if b.len() == 0 {
        assert(a + b =~= a);
        assert(shippable_of(a) + shippable_of(b) =~= shippable_of(a));
        assert(payloads_of(a) + payloads_of(b) =~= payloads_of(a));
        assert(failures_of(a, site) + failures_of(b, site) =~= failures_of(a, site));
    } else {
        law_rendering_goes_event_by_event(a, b.drop_last(), one, site);
        assert((a + b).drop_last() =~= a + b.drop_last());
        assert((a + b).last() == b.last());
        assert(shippable_of(a + b) =~= shippable_of(a) + shippable_of(b));
        assert(payloads_of(a + b) =~= payloads_of(a) + payloads_of(b));
        assert(failures_of(a + b, site) =~= failures_of(a, site) + failures_of(b, site));
    }
}

/// A batch is settled by the collector's answer where, and only where, the collector
/// took it. After a failure it waits, for the time that the back-off has come to, as
/// long as attempts are left and no shutdown has begun; otherwise it is given up, for a
/// reason that names the error and how many attempts failed.
pub proof fn law_flush_settles_as_reported(
    s: BatchFlush,
    e: FlushEvent,
    a: FlushAction,
    t: BatchFlush,
)
    requires
        s.wf(),
        s.accepts(e@),
        a@ == s.action(e@),
        t == s.after(e@),
    ensures
        a is Resolve <==> e is Sent,
        e matches FlushEvent::Sent { outcome } ==> a matches FlushAction::Resolve { outcome: o }
            ==> o == outcome,
        a is Send <==> e is WaitOver,
        e is SendCancelled ==> a is DeadLetter,
        e matches FlushEvent::SendFailed { error, stopping } ==> {
            &&& a is Wait <==> s.attempt + 1 < s.retry.max_attempts && !stopping
            &&& a is DeadLetter <==> s.attempt + 1 >= s.retry.max_attempts || stopping
            &&& a matches FlushAction::Wait { nanos } ==> nanos == s.wait
            &&& a matches FlushAction::DeadLetter { reason } ==> mentions(reason@, error@)
                && mentions(reason@, decimal((s.attempt + 1) as nat))
            &&& t.attempt == s.attempt + 1
        },
        !(e is SendFailed) ==> t.attempt == s.attempt,
        e is SendCancelled ==> (a matches FlushAction::DeadLetter { reason } && mentions(
            reason@,
            decimal(s.attempt as nat),
        )),
        t.phase is Sending <==> a is Send,
        t.phase is Waiting <==> a is Wait,
        t.phase is Finished <==> a is Resolve || a is DeadLetter,
        e is WaitOver ==> t.wait == s.retry.wait_after(s.wait),
        !(e is WaitOver) ==> t.wait == s.wait,
        t.retry == s.retry && t.count == s.count,
{
    let cancelled = crate::batched::cancelled_text();
    lemma_flush_reason(decimal(s.attempt as nat), cancelled);
    if let FlushEvent::SendFailed { error, .. } = e {
        lemma_flush_reason(decimal((s.attempt + 1) as nat), error@);
    }
}

proof fn lemma_flush_reason(count: Seq<char>, error: Seq<char>)
    ensures
        mentions("flush failed after "@ + count + " attempts: "@ + error, count),
        mentions("flush failed after "@ + count + " attempts: "@ + error, error),
{
    let before = "flush failed after "@;
    let middle = " attempts: "@;
    lemma_mentions(before, count, middle + error);
    assert(before + count + (middle + error) =~= before + count + middle + error);
    lemma_mentions(before + count + middle, error, Seq::empty());
    assert(before + count + middle + error + Seq::<char>::empty() =~= before + count + middle
        + error);
}

/// What can come of a step of a flush, and how it begins.
pub proof fn law_flush_steps_in_order(retry: RetryConfig, count: u64, s: BatchFlush, e: FlushEvent)
    ensures
        ({
            let first = BatchFlush::start(retry, count);
            &&& first.phase is Sending && first.attempt == 0
            &&& first.wait == retry.initial_wait && first.retry == retry && first.count == count
        }),
        s.phase is Sending ==> (s.accepts(e@) <==> e is Sent || e is SendFailed
            || e is SendCancelled),
        s.phase is Waiting ==> (s.accepts(e@) <==> e is WaitOver),
        s.phase is Finished ==> !s.accepts(e@),
{
}

/// The whole budget of a flush is used: while every attempt fails, with no shutdown,
/// it goes on, and is over with exactly as many failures as attempts are configured,
/// and at least one.
pub proof fn law_flush_uses_the_whole_budget(
    retry: RetryConfig,
    count: u64,
    es: Seq<FlushEventView>,
)
    requires
        accepted(BatchFlush::start(retry, count), es),
        forall|i: int|
            0 <= i < es.len() ==> (#[trigger] es[i] is WaitOver
                || (es[i] matches FlushEventView::SendFailed {
                stopping,
                ..
            } && !stopping)),
    ensures
        ({
            let s = run(BatchFlush::start(retry, count), es);
            let budget: int = if retry.max_attempts > 1 {
                retry.max_attempts as int
            } else {
                1
            };
            &&& failures(es) <= budget
            &&& s.phase is Finished <==> failures(es) == budget
            &&& s.attempt == failures(es)
            &&& s.retry == retry
        }),
    decreases es.len(),
{
    if es.len() > 0 {
        let before = es.drop_last();
        assert forall|i: int| 0 <= i < before.len() implies (#[trigger] before[i] is WaitOver || (
        before[i] matches FlushEventView::SendFailed { stopping, .. } && !stopping)) by {
            assert(before[i] == es[i]);
        }
        law_flush_uses_the_whole_budget(retry, count, before);
        assert(es.last() == es[es.len() - 1]);
    }
}

/// What a step of a flush counts: one retry for every failed attempt, and the whole
/// batch as failed where it is given up. A batch that was sent is counted later.
pub proof fn law_flush_counts_given_up_batches(
    s: BatchFlush,
    e: FlushEvent,
    a: FlushAction,
    m: OutputMetrics,
    n: OutputMetrics,
)
    requires
        s.wf(),
        s.accepts(e@),
        a@ == s.action(e@),
        n == s.counted(e@, m),
    ensures
        m.events_failed + s.count <= u64::MAX ==> n.events_failed == m.events_failed
            + if a is DeadLetter {
            s.count as int
        } else {
            0
        },
        m.retries < u64::MAX ==> n.retries == m.retries + if e is SendFailed {
            1int
        } else {
            0
        },
        n.events_written == m.events_written && n.bytes_written == m.bytes_written && n.in_retry
            == m.in_retry,
{
}

/// The one attempt of a batch at shutdown settles it by the collector's answer only
/// where the collector took it; otherwise the reason names the error, or the time that
/// was allowed.
pub proof fn law_shutdown_flush_settles_as_reported(result: ShutdownSend, a: FlushAction)
    requires
        a@ == shutdown_flush_action(result@),
    ensures
        a is Resolve <==> result is Sent,
        a is DeadLetter <==> !(result is Sent),
        match result {
            ShutdownSend::Sent { outcome } => a matches FlushAction::Resolve { outcome: o } && o
                == outcome,
            ShutdownSend::PrepareFailed { error } => a matches FlushAction::DeadLetter { reason }
                && mentions(reason@, error@),
            ShutdownSend::Failed { error } => a matches FlushAction::DeadLetter { reason }
                && mentions(reason@, error@),
            ShutdownSend::TimedOut { limit } => a matches FlushAction::DeadLetter { reason }
                && mentions(reason@, limit@),
        },
{
    let none = Seq::<char>::empty();
    let front = "transport error: "@;
    match result {
        ShutdownSend::PrepareFailed { error } => {
            lemma_mentions(front, error@, none);
            assert(front + error@ + none =~= front + error@);
        },
        ShutdownSend::Failed { error } => {
            lemma_mentions(front, error@, none);
            assert(front + error@ + none =~= front + error@);
        },
        ShutdownSend::TimedOut { limit } => {
            lemma_mentions("deadline exceeded after "@, limit@, " during shutdown flush"@);
        },
        _ => {},
    }
}

/// What a run does next: it sends once the payloads are put together and after every
/// wait, waits only in the steady state, and ends otherwise.
pub proof fn law_runs_send_what_is_prepared<E>(
    s: RunView<E>,
    e: RunEvent,
    step: RunStep<E>,
    t: RunView<E>,
)
    requires
        s.wf(),
        s.accepts(e@),
        step@ == s.step(e@),
        t == s.after(e@),
    ensures
        step is Send <==> e is Prepared || e is WaitOver,
        step is Wait <==> !s.last && (e matches RunEvent::SendFailed { stopping, .. } && !stopping
            && s.flush.attempt + 1 < s.flush.retry.max_attempts),
        !(step is Prepare),
        step matches RunStep::Wait { nanos } ==> nanos == s.flush.wait,
        step is Done ==> t.phase is Finished && t.shippable.len() == 0,
        !(step is Done) ==> t.phase is Running && t.shippable == s.shippable,
        t.last == s.last,
{
}

/// How a run ends. Of a batch that the collector took, the first events are delivered
/// and as many of the last are dead-lettered as it refused; of any other every event is
/// dead-lettered, in order, for a reason that names what went wrong.
pub proof fn law_runs_settle_every_event<E>(s: RunView<E>, e: RunEvent, step: RunStep<E>, i: int)
    requires
        s.wf(),
        s.accepts(e@),
        step@ == s.step(e@),
        s.shippable.len() <= u64::MAX,
    ensures
        step matches RunStep::Done { settled } ==> match e {
            RunEvent::Sent { outcome } => {
                let n = s.shippable.len() as int;
                let kept = if outcome.rejected <= n {
                    n - outcome.rejected
                } else {
                    0
                };
                &&& settled.delivered@ == s.shippable.take(kept)
                &&& settled.dead@.len() == n - kept
                &&& 0 <= i < n - kept ==> settled.dead@[i].0 == s.shippable[kept + i]
            },
            _ => {
                &&& settled.delivered@.len() == 0
                &&& settled.dead@.len() == s.shippable.len()
                &&& 0 <= i < s.shippable.len() ==> settled.dead@[i].0 == s.shippable[i] && match e {
                    RunEvent::PrepareFailed { error } => mentions(settled.dead@[i].1@, error@),
                    RunEvent::SendFailed { error, .. } => mentions(settled.dead@[i].1@, error@),
                    RunEvent::TimedOut { limit } => mentions(settled.dead@[i].1@, limit@),
                    _ => true,
                }
            },
        },
{
    if let RunStep::Done { settled } = step {
        let dead = crate::batched::reason_views(settled.dead@);
        assert(dead == step@->settled.dead);
        assert(dead.len() == settled.dead@.len());
        if 0 <= i < dead.len() {
            assert(dead[i] == (settled.dead@[i].0, settled.dead@[i].1@));
        }
        let none = Seq::<char>::empty();
        let front = "transport error: "@;
        let flush = "flush failed: "@;
        match e {
            RunEvent::PrepareFailed { error } => {
                lemma_mentions(front, error@, none);
                assert(front + error@ + none =~= front + error@);
                lemma_mentions(flush, error@, none);
                assert(flush + error@ + none =~= flush + error@);
            },
            RunEvent::SendFailed { error, .. } => {
                lemma_mentions(front, error@, none);
                assert(front + error@ + none =~= front + error@);
                lemma_flush_reason(decimal((s.flush.attempt + 1) as nat), error@);
            },
            RunEvent::TimedOut { limit } => {
                lemma_mentions("deadline exceeded after "@, limit@, " during shutdown flush"@);
            },
            _ => {},
        }
    }
}

/// What can come of a step of a run, and how it begins: with the payloads where there
/// are any, and at its end where there are none.
pub proof fn law_runs_go_in_order<E>(
    shippable: Seq<E>,
    payloads: Seq<Seq<u8>>,
    last: bool,
    retry: RetryConfig,
    first: RunStep<E>,
    s: RunView<E>,
    e: RunEvent,
)
    requires
        first@ == RunView::first_step(shippable, payloads),
        s.wf(),
    ensures
        first is Done <==> shippable.len() == 0,
        first is Prepare <==> shippable.len() > 0,
        first matches RunStep::Prepare { payloads: given } ==> given@.len() == payloads.len()
            && forall|k: int|
            0 <= k < payloads.len() ==> #[trigger] given@[k]@ == payloads[k],
        first matches RunStep::Done { settled } ==> settled.delivered@.len() == 0
            && settled.dead@.len() == 0,
        ({
            let start = RunView::start(shippable, last, retry);
            &&& start.shippable == shippable && start.last == last && start.flush.retry == retry
            &&& start.phase is Finished <==> first is Done
            &&& start.phase is Preparing <==> first is Prepare
            &&& start.flush.attempt == 0 && start.flush.phase is Sending
        }),
        s.phase is Preparing ==> (s.accepts(e@) <==> e is Prepared || e is PrepareFailed),
        s.phase is Running && s.flush.phase is Sending ==> (s.accepts(e@) <==> e is Sent
            || e is SendFailed || e is SendCancelled && !s.last || e is TimedOut && s.last),
        s.phase is Running && s.flush.phase is Waiting ==> (s.accepts(e@) <==> e is WaitOver),
        s.phase is Finished ==> !s.accepts(e@),
{
    match first {
        RunStep::Prepare { payloads: given } => {
            let views = crate::batched::byte_views(given@);
            assert(views == payloads);
            assert forall|k: int| 0 <= k < payloads.len() implies #[trigger] given@[k]@
                == payloads[k] by {
                assert(views[k] == given@[k]@);
            }
        },
        RunStep::Done { settled } => {
            assert(crate::batched::reason_views(settled.dead@).len() == settled.dead@.len());
        },
        _ => {},
    }
}

/// What a step of a run counts: the batch as written and failed by the collector's
/// answer where it was sent, as failed where it is given up, and nothing but a retry
/// otherwise.
pub proof fn law_runs_count_what_they_settle<E>(
    s: RunView<E>,
    e: RunEvent,
    step: RunStep<E>,
    m: OutputMetrics,
    n: OutputMetrics,
)
    requires
        s.wf(),
        s.accepts(e@),
        step@ == s.step(e@),
        n == s.counted(e@, m),
        s.shippable.len() <= u64::MAX,
        m.events_written + s.shippable.len() <= u64::MAX,
        m.events_failed + s.shippable.len() <= u64::MAX,
    ensures
        match step {
            RunStep::Done { settled } => n.events_written == m.events_written
                + settled.delivered@.len() && n.events_failed == m.events_failed
                + settled.dead@.len(),
            _ => n.events_written == m.events_written && n.events_failed == m.events_failed,
        },
        m.retries < u64::MAX ==> n.retries == m.retries + if e is SendFailed && !s.last {
            1int
        } else {
            0
        },
        n.bytes_written == m.bytes_written && n.in_retry == m.in_retry,
{
    if let RunStep::Done { settled } = step {
        assert(crate::batched::reason_views(settled.dead@).len() == settled.dead@.len());
    }
}

/// A run that is tried again counts the attempt that failed, waits, and sends the same
/// events again; each wait follows from the one before.
pub proof fn law_runs_try_the_same_events_again<E>(s: RunView<E>, e: RunEvent, t: RunView<E>)
    requires
        s.wf(),
        s.accepts(e@),
        t == s.after(e@),
    ensures
        t.last == s.last,
        t.flush.retry == s.flush.retry,
        e is Prepared ==> t.flush == s.flush,
        e is SendFailed && !s.last ==> {
            &&& t.flush.attempt == s.flush.attempt + 1
            &&& t.flush.wait == s.flush.wait
            &&& t.phase is Running ==> t.flush.phase is Waiting && t.shippable == s.shippable
        },
        e is WaitOver ==> {
            &&& t.flush.attempt == s.flush.attempt
            &&& t.flush.wait == s.flush.retry.wait_after(s.flush.wait)
            &&& t.phase is Running && t.flush.phase is Sending && t.shippable == s.shippable
        },
{
}

} // verus!
