//! What an export over several collectors does, and what it counts.
use crate::metrics::OutputMetrics;
use crate::otlp::buffer::sent_counted;
use crate::otlp::ship::{
    accepted, allowed, failures, run, Ship, ShipAction, ShipEvent, ShipEventView, ShipPhase,
};
use crate::retry::RetryConfig;
use vstd::prelude::*;

verus! {

/// An export is done where, and only where, a collector took it. After a failure it
/// waits, for the time that the back-off has come to, as long as attempts are left, and
/// gives up with the error of the last one otherwise.
pub proof fn law_export_is_done_when_sent(s: Ship, e: ShipEvent, next: int, a: ShipAction, t: Ship)
    requires
        s.accepts(e@),
        a@ == s.action(e@, next),
        t == s.after(e@, next),
        0 <= next <= usize::MAX,
        s.attempt < u32::MAX,
    ensures
        a is Done <==> e is Sent,
        a is Send <==> e is WaitElapsed,
        a is Wait <==> e is Failed && s.attempt + 1 < s.retry.max_attempts,
        a is GiveUp <==> e is Failed && s.attempt + 1 >= s.retry.max_attempts,
        a matches ShipAction::Wait { nanos } ==> nanos == s.wait,
        a matches ShipAction::Send { peer } ==> peer == next && t.phase == (ShipPhase::Sending {
            peer,
        }),
        e matches ShipEvent::Failed { error, .. } ==> a matches ShipAction::GiveUp { error: told }
            ==> told@ == error@,
        t.phase is Finished <==> a is Done || a is GiveUp,
        t.phase is Waiting <==> a is Wait,
        t.phase is Sending <==> a is Send,
        a is Wait ==> t.attempt == s.attempt + 1,
        !(a is Wait) ==> t.attempt == s.attempt,
        e is WaitElapsed ==> t.wait == s.retry.wait_after(s.wait),
        !(e is WaitElapsed) ==> t.wait == s.wait,
        t.retry == s.retry,
{
}

/// What can come of a step of an export.
pub proof fn law_export_steps_in_order(s: Ship, e: ShipEvent)
    ensures
        s.phase is Sending ==> (s.accepts(e@) <==> e is Sent || (e matches ShipEvent::Failed {
            at,
            ..
        } && at + 5_000_000_000 <= u64::MAX)),
        s.phase is Waiting ==> (s.accepts(e@) <==> e is WaitElapsed),
        s.phase is Finished ==> !s.accepts(e@),
{
}

/// The whole budget of an export is used: while every attempt fails it goes on, and
/// gives up with exactly as many failures as attempts are configured, and at least one.
pub proof fn law_export_uses_the_whole_budget(
    retry: RetryConfig,
    first: usize,
    es: Seq<(ShipEventView, int)>,
)
    requires
        accepted(
            (Ship {
                retry,
                attempt: 0,
                wait: retry.initial_wait,
                phase: ShipPhase::Sending { peer: first },
            }),
            es,
        ),
        forall|i: int| 0 <= i < es.len() ==> !((#[trigger] es[i]).0 is Sent),
    ensures
        ({
            let s = run(
                (Ship {
                    retry,
                    attempt: 0,
                    wait: retry.initial_wait,
                    phase: ShipPhase::Sending { peer: first },
                }),
                es,
            );
            let budget: int = if retry.max_attempts > 1 {
                retry.max_attempts as int
            } else {
                1
            };
            &&& failures(es) <= budget
            &&& s.phase is Finished <==> failures(es) == budget
            &&& !(s.phase is Finished) ==> s.attempt == failures(es)
            &&& s.retry == retry
        }),
    decreases es.len(),
{
    if es.len() > 0 {
        let before = es.drop_last();
        assert forall|i: int| 0 <= i < before.len() implies !((#[trigger] before[i]).0 is Sent) by {
            assert(before[i] == es[i]);
        }
        law_export_uses_the_whole_budget(retry, first, before);
        assert(es.last() == es[es.len() - 1]);
    }
}

/// At least one attempt is allowed, and otherwise as many as are configured.
pub proof fn law_one_attempt_is_always_allowed(retry: RetryConfig)
    ensures
        allowed(retry) >= 1,
        retry.max_attempts >= 1 ==> allowed(retry) == retry.max_attempts,
        allowed(retry) <= 1 || allowed(retry) <= retry.max_attempts,
{
}

/// A collector that took an export is free at once, one that failed cools down for
/// five seconds from its failure, and no other is touched.
pub proof fn law_failed_collectors_cool_down(
    s: Ship,
    e: ShipEvent,
    cooldowns: Seq<Option<u64>>,
    i: int,
)
    requires
        s.wf(cooldowns.len() as int),
        s.accepts(e@),
        0 <= i < cooldowns.len(),
    ensures
        ({
            let after = s.cooled(e@, cooldowns);
            &&& after.len() == cooldowns.len()
            &&& s.phase matches ShipPhase::Sending { peer } ==> {
                &&& i != peer ==> after[i] == cooldowns[i]
                &&& e is Sent ==> after[peer as int] is None
                &&& e matches ShipEvent::Failed { at, .. } ==> after[peer as int] is Some
                    && after[peer as int]->0 == at + 5_000_000_000
            }
            &&& !(s.phase is Sending) ==> after == cooldowns
        }),
{
}

/// Of a batch that was sent, what the collector refused has failed, but never more
/// than was sent, and the rest is written.
pub proof fn law_refused_records_have_failed(
    m: OutputMetrics,
    n: OutputMetrics,
    count: u64,
    rejected: u64,
)
    requires
        n == sent_counted(m, count, rejected),
        m.events_written + count <= u64::MAX,
        m.events_failed + count <= u64::MAX,
    ensures
        rejected <= count ==> n.events_failed == m.events_failed + rejected && n.events_written
            == m.events_written + count - rejected,
        rejected > count ==> n.events_failed == m.events_failed + count && n.events_written
            == m.events_written,
        n.retries == m.retries && n.bytes_written == m.bytes_written && n.in_retry == m.in_retry,
{
}

} // verus!
