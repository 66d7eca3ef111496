//! One export over several collectors: attempts on one candidate after the other
//! until one takes it or the budget is spent.
//!
//! The caller performs what a step asks for and reports what came of it.
use crate::peer_rotation::{selected, RotatingPeers};
use crate::retry::RetryConfig;
use crate::syslog_peers::PEER_COOLDOWN;
use vstd::prelude::*;

verus! {

/// Where an export stands.
#[derive(Debug, Clone, Copy, PartialEq, Eq, Structural)]
pub enum ShipPhase {
    /// The request is on its way to the peer with this index.
    Sending { peer: usize },
    Waiting,
    Finished,
}

/// What came of the last step.
#[derive(Debug)]
pub enum ShipEvent {
    Sent,
    /// The attempt failed at this time.
    Failed { at: u64, error: String },
    /// The wait is over at this time.
    WaitElapsed { now: u64 },
}

/// What is to be done next.
#[derive(Debug)]
pub enum ShipAction {
    Send { peer: usize },
    Wait { nanos: u64 },
    Done,
    GiveUp { error: String },
}

pub ghost enum ShipEventView {
    Sent,
    Failed { at: u64, error: Seq<char> },
    WaitElapsed { now: u64 },
}

pub ghost enum ShipActionView {
    Send { peer: int },
    Wait { nanos: u64 },
    Done,
    GiveUp { error: Seq<char> },
}

impl View for ShipEvent {
    type V = ShipEventView;

    open spec fn view(&self) -> ShipEventView {
        match self {
            ShipEvent::Sent => ShipEventView::Sent,
            ShipEvent::Failed { at, error } => ShipEventView::Failed { at: *at, error: error@ },
            ShipEvent::WaitElapsed { now } => ShipEventView::WaitElapsed { now: *now },
        }
    }
}

impl View for ShipAction {
    type V = ShipActionView;

    open spec fn view(&self) -> ShipActionView {
        match self {
            ShipAction::Send { peer } => ShipActionView::Send { peer: *peer as int },
            ShipAction::Wait { nanos } => ShipActionView::Wait { nanos: *nanos },
            ShipAction::Done => ShipActionView::Done,
            ShipAction::GiveUp { error } => ShipActionView::GiveUp { error: error@ },
        }
    }
}

/// The number of attempts allowed: at least one.
pub open spec fn allowed(retry: RetryConfig) -> int {
    if retry.max_attempts == 0 {
        1
    } else {
        retry.max_attempts as int
    }
}

/// An export in progress.
#[derive(Debug, Clone, Copy, PartialEq, Eq, Structural)]
pub struct Ship {
    pub retry: RetryConfig,
    /// Failed attempts so far.
    pub attempt: u32,
    pub wait: u64,
    pub phase: ShipPhase,
}

impl Ship {
    pub open spec fn wf(self, peers: int) -> bool {
        &&& self.phase matches ShipPhase::Sending { peer } ==> peer < peers && self.attempt
            < allowed(self.retry)
        &&& self.phase is Waiting ==> self.attempt < allowed(self.retry)
    }

    /// Whether this can come next.
    pub open spec fn accepts(self, e: ShipEventView) -> bool {
        match e {
            ShipEventView::Sent => self.phase is Sending,
            ShipEventView::Failed { at, .. } => self.phase is Sending && at + PEER_COOLDOWN
                <= u64::MAX,
            ShipEventView::WaitElapsed { .. } => self.phase is Waiting,
        }
    }

    /// The state after an event; `next` is the candidate that a further attempt
    /// goes to.
    pub open spec fn after(self, e: ShipEventView, next: int) -> Ship {
        match e {
            ShipEventView::Sent => Ship { phase: ShipPhase::Finished, ..self },
            ShipEventView::Failed { .. } => if self.attempt + 1 >= allowed(self.retry) {
                Ship { phase: ShipPhase::Finished, ..self }
            } else {
                Ship {
                    attempt: (self.attempt + 1) as u32,
                    phase: ShipPhase::Waiting,
                    ..self
                }
            },
            ShipEventView::WaitElapsed { .. } => Ship {
                wait: self.retry.wait_after(self.wait),
                phase: ShipPhase::Sending { peer: next as usize },
                ..self
            },
        }
    }

    /// What is to be done after an event.
    pub open spec fn action(self, e: ShipEventView, next: int) -> ShipActionView {
        match e {
            ShipEventView::Sent => ShipActionView::Done,
            ShipEventView::Failed { error, .. } => if self.attempt + 1 >= allowed(self.retry) {
                ShipActionView::GiveUp { error }
            } else {
                ShipActionView::Wait { nanos: self.wait }
            },
            ShipEventView::WaitElapsed { .. } => ShipActionView::Send { peer: next },
        }
    }

    /// The cooldowns after an event: a peer that took the request is freed, one
    /// that failed cools down from its failure on.
    pub open spec fn cooled(self, e: ShipEventView, cooldowns: Seq<Option<u64>>) -> Seq<Option<u64>> {
        match (e, self.phase) {
            (ShipEventView::Sent, ShipPhase::Sending { peer }) => cooldowns.update(
                peer as int,
                None,
            ),
            (ShipEventView::Failed { at, .. }, ShipPhase::Sending { peer }) => cooldowns.update(
                peer as int,
                Some((at + PEER_COOLDOWN) as u64),
            ),
            _ => cooldowns,
        }
    }

    /// Starts an export at the next candidate.
    pub fn new(retry: RetryConfig, peers: &mut RotatingPeers, now: u64) -> (r: (Ship, ShipAction))
        requires
            old(peers).cooldowns().len() > 0,
        ensures
            ({
                let first = selected(old(peers).cooldowns(), now, old(peers).next_start());
                &&& r.0 == (Ship {
                    retry,
                    attempt: 0,
                    wait: retry.initial_wait,
                    phase: ShipPhase::Sending { peer: first as usize },
                })
                &&& r.1@ == (ShipActionView::Send { peer: first })
            }),
            r.0.wf(old(peers).cooldowns().len() as int),
            final(peers).cooldowns() == old(peers).cooldowns(),
            final(peers).cursor() == old(peers).cursor().wrapping_add(1),
    {
        let peer = peers.select(now);
        (
            Ship { retry, attempt: 0, wait: retry.initial_wait, phase: ShipPhase::Sending { peer } },
            ShipAction::Send { peer },
        )
    }

    /// Takes in what came of the last step and says what is to be done next.
    pub fn step(&mut self, event: ShipEvent, peers: &mut RotatingPeers) -> (action: ShipAction)
        requires
            old(peers).cooldowns().len() > 0,
            old(self).wf(old(peers).cooldowns().len() as int),
            old(self).accepts(event@),
        ensures
            ({
                let next = match event@ {
                    ShipEventView::WaitElapsed { now } => selected(
                        old(peers).cooldowns(),
                        now,
                        old(peers).next_start(),
                    ),
                    _ => 0,
                };
                &&& *final(self) == old(self).after(event@, next)
                &&& action@ == old(self).action(event@, next)
            }),
            final(self).wf(old(peers).cooldowns().len() as int),
            final(peers).cooldowns() == old(self).cooled(event@, old(peers).cooldowns()),
            final(peers).cursor() == if event@ is WaitElapsed {
                old(peers).cursor().wrapping_add(1)
            } else {
                old(peers).cursor()
            },
    {
        let current: usize = match self.phase {
            ShipPhase::Sending { peer } => peer,
            _ => 0,
        };
        match event {
            ShipEvent::Sent => {
                peers.mark_success(current);
                self.phase = ShipPhase::Finished;
                ShipAction::Done
            },
            ShipEvent::Failed { at, error } => {
                peers.mark_failure(current, at);
                let limit: u32 = if self.retry.max_attempts == 0 {
                    1
                } else {
                    self.retry.max_attempts
                };
                if self.attempt + 1 >= limit {
                    self.phase = ShipPhase::Finished;
                    ShipAction::GiveUp { error }
                } else {
                    self.attempt = self.attempt + 1;
                    self.phase = ShipPhase::Waiting;
                    ShipAction::Wait { nanos: self.wait }
                }
            },
            ShipEvent::WaitElapsed { now } => {
                self.wait = self.retry.next_wait(self.wait);
                let peer = peers.select(now);
                self.phase = ShipPhase::Sending { peer };
                ShipAction::Send { peer }
            },
        }
    }
}

/// The state after a sequence of events, each with the candidate that comes next.
pub open spec fn run(s: Ship, es: Seq<(ShipEventView, int)>) -> Ship
    decreases es.len(),
{
    if es.len() == 0 {
        s
    } else {
        run(s, es.drop_last()).after(es.last().0, es.last().1)
    }
}

/// Whether each event of a sequence can come where it stands.
pub open spec fn accepted(s: Ship, es: Seq<(ShipEventView, int)>) -> bool
    decreases es.len(),
{
    es.len() == 0 || (accepted(s, es.drop_last()) && run(s, es.drop_last()).accepts(es.last().0))
}

/// The number of failed attempts in a sequence of events.
pub open spec fn failures(es: Seq<(ShipEventView, int)>) -> int
    decreases es.len(),
{
    if es.len() == 0 {
        0
    } else {
        failures(es.drop_last()) + if es.last().0 is Failed {
            1int
        } else {
            0
        }
    }
}

/// Whatever happens, an export fails at most as often as the budget allows; once
/// the budget is spent it is over. Each wait is the next of the configured waits.
pub proof fn law_export_stays_within_the_budget(
    retry: RetryConfig,
    first: usize,
    es: Seq<(ShipEventView, int)>,
)
    requires
        accepted(
            (Ship {
                retry,
                attempt: 0,
                wait: retry.initial_wait,
                phase: ShipPhase::Sending { peer: first },
            }),
            es,
        ),
    ensures
        ({
            let s = run(
                (Ship {
                    retry,
                    attempt: 0,
                    wait: retry.initial_wait,
                    phase: ShipPhase::Sending { peer: first },
                }),
                es,
            );
            &&& failures(es) <= allowed(retry)
            &&& failures(es) == allowed(retry) ==> s.phase is Finished
            &&& !(s.phase is Finished) ==> s.attempt == failures(es) && failures(es) < allowed(
                retry,
            )
            &&& s.retry == retry
            &&& s.phase is Sending ==> s.wait == retry.nth_wait(s.attempt as nat)
            &&& s.phase is Waiting ==> s.attempt > 0 && s.wait == retry.nth_wait(
                (s.attempt - 1) as nat,
            )
        }),
    decreases es.len(),
{
    if es.len() > 0 {
        law_export_stays_within_the_budget(retry, first, es.drop_last());
    }
}

} // verus!
