//! Rotation over peers with a passive health check: a peer whose attempt failed
//! is left alone until its cooldown has run out.
//!
//! Two forms share the rule. [`PeerList`] tries every available peer within one
//! round. [`RotatingPeers`] hands out one candidate at a time and leaves further
//! attempts to the caller's retry budget.
use crate::error::OutputError;
use crate::metrics::OutputMetrics;
use crate::syslog_peers::{Peer, PEER_COOLDOWN};
use crate::text::{decimal, decimal_text};
use vstd::prelude::*;

verus! {

/// Why a round over the peers delivered nothing.
#[derive(Debug, Clone, Copy, PartialEq, Eq, Structural)]
pub enum PeerSendError {
    /// There is no peer at all.
    Empty,
    /// Each of the `n` peers was in cooldown or failed.
    AllPeersUnavailable { n: usize },
}

impl PeerSendError {
    pub open spec fn text(self) -> Seq<char> {
        match self {
            PeerSendError::Empty => "no peers configured"@,
            PeerSendError::AllPeersUnavailable { n } => "all "@ + decimal(n as nat)
                + " peers are in cooldown or failed this round"@,
        }
    }

    /// The message shown to an operator.
    pub fn message(&self) -> (s: String)
        ensures
            s@ == self.text(),
    {
        match self {
            PeerSendError::Empty => "no peers configured".to_owned(),
            PeerSendError::AllPeersUnavailable { n } => {
                let mut s = "all ".to_owned();
                let count = decimal_text(*n as u64);
                s.append(count.as_str());
                s.append(" peers are in cooldown or failed this round");
                s
            },
        }
    }
}

/// State of one peer: its connection, where one is open, and the end of its
/// cooldown, where it failed.
#[derive(Debug)]
pub struct PeerState<C> {
    pub conn: Option<C>,
    pub cooldown_until: Option<u64>,
}

impl<C> Default for PeerState<C> {
    fn default() -> (s: PeerState<C>)
        ensures
            s.conn is None,
            s.cooldown_until is None,
    {
        PeerState { conn: None, cooldown_until: None }
    }
}

/// Counters of one peer. They wrap round like the hardware counters they are.
#[derive(Debug, Clone, Copy, PartialEq, Eq, Structural)]
pub struct PeerMetrics {
    pub events_written: u64,
    pub connect_failures: u64,
    pub cooldowns_entered: u64,
}

impl PeerMetrics {
    pub open spec fn zero() -> PeerMetrics {
        PeerMetrics { events_written: 0, connect_failures: 0, cooldowns_entered: 0 }
    }

    /// The counters after one delivery.
    pub open spec fn delivered(self) -> PeerMetrics {
        PeerMetrics { events_written: self.events_written.wrapping_add(1), ..self }
    }

    /// The counters after one failed attempt.
    pub open spec fn failed(self) -> PeerMetrics {
        PeerMetrics {
            connect_failures: self.connect_failures.wrapping_add(1),
            cooldowns_entered: self.cooldowns_entered.wrapping_add(1),
            ..self
        }
    }
}

/// How an attempt on one peer ended; a failure with the time at which it failed.
#[derive(Debug, Clone, Copy, PartialEq, Eq, Structural)]
pub enum AttemptOutcome {
    Delivered,
    Failed { at: u64 },
}

/// Whether a peer may be tried at `now`.
pub open spec fn free_at(cooldown_until: Option<u64>, now: u64) -> bool {
    match cooldown_until {
        Some(until) => until <= now,
        None => true,
    }
}

/// The peer at a distance from the start of the round.
pub open spec fn peer_at(start: int, offset: int, n: int) -> int {
    (start + offset) % n
}

/// Whether the peer at this distance is free and delivers.
pub open spec fn delivers(
    cooldowns: Seq<Option<u64>>,
    outcomes: Seq<AttemptOutcome>,
    now: u64,
    idx: int,
) -> bool {
    free_at(cooldowns[idx], now) && outcomes[idx] is Delivered
}

/// The distance of the first peer, from `offset` on, that is free and delivers;
/// the number of peers where there is none.
pub open spec fn winner_from(
    cooldowns: Seq<Option<u64>>,
    outcomes: Seq<AttemptOutcome>,
    now: u64,
    start: int,
    offset: int,
) -> int
    decreases cooldowns.len() - offset,
{
    let n = cooldowns.len() as int;
    if offset >= n {
        n
    } else if delivers(cooldowns, outcomes, now, peer_at(start, offset, n)) {
        offset
    } else {
        winner_from(cooldowns, outcomes, now, start, offset + 1)
    }
}

/// The distance of a peer from the start of the round.
pub open spec fn distance(start: int, idx: int, n: int) -> int {
    if idx >= start {
        idx - start
    } else {
        idx - start + n
    }
}

/// Whether the round tries this peer: it comes no later than the one that
/// delivers, and is free.
pub open spec fn tried(
    cooldowns: Seq<Option<u64>>,
    outcomes: Seq<AttemptOutcome>,
    now: u64,
    start: int,
    idx: int,
) -> bool {
    &&& distance(start, idx, cooldowns.len() as int) <= winner_from(
        cooldowns,
        outcomes,
        now,
        start,
        0,
    )
    &&& free_at(cooldowns[idx], now)
}

/// The end of a peer's cooldown after an attempt on it.
pub open spec fn cooldown_after(outcome: AttemptOutcome) -> Option<u64> {
    match outcome {
        AttemptOutcome::Delivered => None,
        AttemptOutcome::Failed { at } => Some((at + PEER_COOLDOWN) as u64),
    }
}

/// The counters after an attempt.
pub open spec fn metrics_after(m: PeerMetrics, outcome: AttemptOutcome) -> PeerMetrics {
    match outcome {
        AttemptOutcome::Delivered => m.delivered(),
        AttemptOutcome::Failed { .. } => m.failed(),
    }
}

/// Peers tried in rotation, with the state of each.
#[derive(Debug)]
pub struct PeerList<C> {
    peers: Vec<Peer>,
    cursor: usize,
    state: Vec<PeerState<C>>,
    metrics: Vec<PeerMetrics>,
}

/// One pass over the peers of a [`PeerList`].
#[derive(Debug, Clone, Copy)]
pub struct Rotation {
    start: usize,
    offset: usize,
    n: usize,
}

/// What the rounds of a list depend on and change: where the next one starts, and
/// the end of each peer's cooldown.
pub ghost struct RingView {
    pub cursor: usize,
    pub cooldowns: Seq<Option<u64>>,
}

impl RingView {
    /// The ring of a list whose peers have not been tried.
    pub open spec fn fresh(n: nat) -> RingView {
        RingView { cursor: 0, cooldowns: Seq::new(n, |i: int| None::<u64>) }
    }

    /// The peer at which the next round starts.
    pub open spec fn next_start(self) -> int {
        self.cursor as int % self.cooldowns.len() as int
    }

    /// The ring after a round in which the attempt on each peer would end as given.
    pub open spec fn after_round(self, now: u64, outcomes: Seq<AttemptOutcome>) -> RingView {
        RingView {
            cursor: self.cursor.wrapping_add(1),
            cooldowns: Seq::new(
                self.cooldowns.len(),
                |i: int|
                    if tried(self.cooldowns, outcomes, now, self.next_start(), i) {
                        cooldown_after(outcomes[i])
                    } else {
                        self.cooldowns[i]
                    },
            ),
        }
    }

    /// The ring after rounds in a row, each with its time and the ends of its
    /// attempts.
    pub open spec fn after_rounds(self, rounds: Seq<(u64, Seq<AttemptOutcome>)>) -> RingView
        decreases rounds.len(),
    {
        if rounds.len() == 0 {
            self
        } else {
            self.after_rounds(rounds.drop_last()).after_round(rounds.last().0, rounds.last().1)
        }
    }
}

/// What a round does next.
#[derive(Debug, Clone, Copy, PartialEq, Eq, Structural)]
pub enum RoundAction {
    /// Try this peer.
    Try { idx: usize },
    /// The round has delivered.
    Done,
    /// The round has delivered nothing.
    Fail { error: PeerSendError },
}

/// What a round does next that has come as far as `offset`.
pub open spec fn next_action(
    cooldowns: Seq<Option<u64>>,
    now: u64,
    start: int,
    offset: int,
) -> RoundAction {
    let n = cooldowns.len() as int;
    let next = first_free_from(cooldowns, now, start, offset);
    if next < n {
        RoundAction::Try { idx: peer_at(start, next, n) as usize }
    } else {
        RoundAction::Fail { error: PeerSendError::AllPeersUnavailable { n: n as usize } }
    }
}

/// How far a round has come with its next step.
pub open spec fn next_offset(
    cooldowns: Seq<Option<u64>>,
    now: u64,
    start: int,
    offset: int,
) -> int {
    let n = cooldowns.len() as int;
    let next = first_free_from(cooldowns, now, start, offset);
    if next < n {
        next + 1
    } else {
        n
    }
}

impl Rotation {
    pub closed spec fn start(self) -> int {
        self.start as int
    }

    pub closed spec fn offset(self) -> int {
        self.offset as int
    }

    pub closed spec fn count(self) -> int {
        self.n as int
    }

    pub open spec fn valid(self) -> bool {
        0 <= self.start() < self.count() && 0 <= self.offset() <= self.count()
    }

    /// The next peer of the pass, if one is left.
    pub fn candidate(&self) -> (r: Option<usize>)
        requires
            self.valid(),
        ensures
            match r {
                Some(idx) => self.offset() < self.count() && idx == peer_at(
                    self.start(),
                    self.offset(),
                    self.count(),
                ),
                None => self.offset() == self.count(),
            },
    {
        if self.offset < self.n {
            let left: usize = self.n - self.start;
            proof {
                lemma_peer_at(self.start as int, self.offset as int, self.n as int);
            }
            if self.offset < left {
                Some(self.start + self.offset)
            } else {
                Some(self.offset - left)
            }
        } else {
            None
        }
    }

    /// Moves on to the next peer of the pass.
    pub fn advance(&mut self)
        requires
            old(self).valid(),
            old(self).offset() < old(self).count(),
        ensures
            final(self).valid(),
            final(self).start() == old(self).start(),
            final(self).count() == old(self).count(),
            final(self).offset() == old(self).offset() + 1,
    {
        self.offset = self.offset + 1;
    }
}

pub proof fn lemma_peer_at(start: int, offset: int, n: int)
    requires
        0 <= start < n,
        0 <= offset < n,
    ensures
        peer_at(start, offset, n) == if start + offset < n {
            start + offset
        } else {
            start + offset - n
        },
        0 <= peer_at(start, offset, n) < n,
        distance(start, peer_at(start, offset, n), n) == offset,
{
    if start + offset < n {
        vstd::arithmetic::div_mod::lemma_small_mod((start + offset) as nat, n as nat);
    } else {
        vstd::arithmetic::div_mod::lemma_mod_sub_multiples_vanish(start + offset, n);
        vstd::arithmetic::div_mod::lemma_small_mod((start + offset - n) as nat, n as nat);
    }
}

impl<C> PeerList<C> {
    pub closed spec fn peer_seq(&self) -> Seq<Peer> {
        self.peers@
    }

    pub closed spec fn cursor(&self) -> usize {
        self.cursor
    }

    pub closed spec fn states(&self) -> Seq<PeerState<C>> {
        self.state@
    }

    pub closed spec fn counters(&self) -> Seq<PeerMetrics> {
        self.metrics@
    }

    /// The end of each peer's cooldown.
    pub open spec fn cooldowns(&self) -> Seq<Option<u64>> {
        Seq::new(self.states().len(), |i: int| self.states()[i].cooldown_until)
    }

    /// Where the next round starts, and the end of each peer's cooldown.
    pub open spec fn ring(&self) -> RingView {
        RingView { cursor: self.cursor(), cooldowns: self.cooldowns() }
    }

    /// One state and one set of counters for each peer.
    pub open spec fn wf(&self) -> bool {
        &&& self.states().len() == self.peer_seq().len()
        &&& self.counters().len() == self.peer_seq().len()
    }

    /// The peer at which the next round starts.
    pub open spec fn next_start(&self) -> int {
        self.cursor() as int % self.peer_seq().len() as int
    }

    /// A list of peers, each without a connection and free.
    pub fn new(peers: Vec<Peer>) -> (list: PeerList<C>)
        ensures
            list.wf(),
            list.peer_seq() == peers@,
            list.cursor() == 0,
            list.ring() == RingView::fresh(peers@.len()),
            forall|i: int|
                0 <= i < peers@.len() ==> (#[trigger] list.states()[i]).conn is None
                    && list.states()[i].cooldown_until is None,
            forall|i: int|
                0 <= i < peers@.len() ==> #[trigger] list.counters()[i] == PeerMetrics::zero(),
    {
        let mut state: Vec<PeerState<C>> = Vec::new();
        let mut metrics: Vec<PeerMetrics> = Vec::new();
        let n: usize = peers.len();
        for i in 0..n
            invariant
                state@.len() == i,
                metrics@.len() == i,
                forall|j: int|
                    0 <= j < i ==> (#[trigger] state@[j]).conn is None
                        && state@[j].cooldown_until is None,
                forall|j: int| 0 <= j < i ==> #[trigger] metrics@[j] == PeerMetrics::zero(),
        {
            state.push(PeerState { conn: None, cooldown_until: None });
            metrics.push(
                PeerMetrics { events_written: 0, connect_failures: 0, cooldowns_entered: 0 },
            );
        }
        let list = PeerList { peers, cursor: 0, state, metrics };
        assert(list.cooldowns() =~= RingView::fresh(n as nat).cooldowns);
        list
    }

    /// The configured peers.
    pub fn peers(&self) -> (r: &[Peer])
        ensures
            r@ == self.peer_seq(),
    {
        self.peers.as_slice()
    }

    /// The number of peers.
    pub fn len(&self) -> (n: usize)
        ensures
            n == self.peer_seq().len(),
    {
        self.peers.len()
    }

    /// The counters of each peer.
    pub fn peer_metrics(&self) -> (r: &[PeerMetrics])
        ensures
            r@ == self.counters(),
    {
        self.metrics.as_slice()
    }

    /// Starts a round at the peer after the one at which the round before started.
    pub fn begin_rotation(&mut self) -> (r: Result<Rotation, PeerSendError>)
        requires
            old(self).wf(),
        ensures
            final(self).wf(),
            final(self).peer_seq() == old(self).peer_seq(),
            final(self).states() == old(self).states(),
            final(self).counters() == old(self).counters(),
            match r {
                Err(e) => {
                    &&& old(self).peer_seq().len() == 0
                    &&& e == PeerSendError::Empty
                    &&& final(self).cursor() == old(self).cursor()
                },
                Ok(rotation) => {
                    &&& old(self).peer_seq().len() > 0
                    &&& rotation.valid()
                    &&& rotation.count() == old(self).peer_seq().len()
                    &&& rotation.start() == old(self).next_start()
                    &&& rotation.offset() == 0
                    &&& final(self).cursor() == old(self).cursor().wrapping_add(1)
                },
            },
    {
        let n: usize = self.peers.len();
        if n == 0 {
            return Err(PeerSendError::Empty);
        }
        let start: usize = self.cursor % n;
        self.cursor = self.cursor.wrapping_add(1);
        Ok(Rotation { start, offset: 0, n })
    }

    /// Whether the cooldown of a peer has run out at `now`.
    pub fn available(&self, idx: usize, now: u64) -> (r: bool)
        requires
            self.wf(),
            idx < self.peer_seq().len(),
        ensures
            r == free_at(self.cooldowns()[idx as int], now),
    {
        match self.state[idx].cooldown_until {
            Some(until) => until <= now,
            None => true,
        }
    }

    /// Takes the open connection of a peer out of the list.
    pub fn take_conn(&mut self, idx: usize) -> (conn: Option<C>)
        requires
            old(self).wf(),
            idx < old(self).peer_seq().len(),
        ensures
            final(self).wf(),
            conn == old(self).states()[idx as int].conn,
            final(self).peer_seq() == old(self).peer_seq(),
            final(self).cursor() == old(self).cursor(),
            final(self).counters() == old(self).counters(),
            final(self).states() == old(self).states().update(
                idx as int,
                PeerState {
                    conn: None,
                    cooldown_until: old(self).states()[idx as int].cooldown_until,
                },
            ),
    {
        let conn = self.state[idx].conn.take();
        assert(self.state@ =~= old(self).state@.update(
            idx as int,
            PeerState { conn: None, cooldown_until: old(self).state@[idx as int].cooldown_until },
        ));
        conn
    }

    /// Keeps an open connection for the next attempt on a peer.
    pub fn store_conn(&mut self, idx: usize, conn: C)
        requires
            old(self).wf(),
            idx < old(self).peer_seq().len(),
        ensures
            final(self).wf(),
            final(self).peer_seq() == old(self).peer_seq(),
            final(self).cursor() == old(self).cursor(),
            final(self).counters() == old(self).counters(),
            final(self).states() == old(self).states().update(
                idx as int,
                PeerState {
                    conn: Some(conn),
                    cooldown_until: old(self).states()[idx as int].cooldown_until,
                },
            ),
    {
        let until = self.state[idx].cooldown_until;
        self.state.set(idx, PeerState { conn: Some(conn), cooldown_until: until });
    }

    /// Settles an attempt on a peer. A delivery frees the peer; a failure cools it
    /// down from the time at which it failed.
    pub fn settle(&mut self, idx: usize, outcome: AttemptOutcome)
        requires
            old(self).wf(),
            idx < old(self).peer_seq().len(),
            outcome matches AttemptOutcome::Failed { at } ==> at + PEER_COOLDOWN <= u64::MAX,
        ensures
            final(self).wf(),
            final(self).peer_seq() == old(self).peer_seq(),
            final(self).cursor() == old(self).cursor(),
            final(self).states() == old(self).states().update(
                idx as int,
                PeerState {
                    conn: old(self).states()[idx as int].conn,
                    cooldown_until: cooldown_after(outcome),
                },
            ),
            final(self).counters() == old(self).counters().update(
                idx as int,
                metrics_after(old(self).counters()[idx as int], outcome),
            ),
    {
        let m = self.metrics[idx];
        match outcome {
            AttemptOutcome::Delivered => {
                let conn = self.state[idx].conn.take();
                self.state.set(idx, PeerState { conn, cooldown_until: None });
                self.metrics.set(
                    idx,
                    PeerMetrics {
                        events_written: m.events_written.wrapping_add(1),
                        connect_failures: m.connect_failures,
                        cooldowns_entered: m.cooldowns_entered,
                    },
                );
            },
            AttemptOutcome::Failed { at } => {
                let conn = self.state[idx].conn.take();
                self.state.set(idx, PeerState { conn, cooldown_until: Some(at + PEER_COOLDOWN) });
                self.metrics.set(
                    idx,
                    PeerMetrics {
                        events_written: m.events_written,
                        connect_failures: m.connect_failures.wrapping_add(1),
                        cooldowns_entered: m.cooldowns_entered.wrapping_add(1),
                    },
                );
            },
        }
        assert(self.state@ =~= old(self).state@.update(
            idx as int,
            PeerState {
                conn: old(self).state@[idx as int].conn,
                cooldown_until: cooldown_after(outcome),
            },
        ));
        assert(self.metrics@ =~= old(self).metrics@.update(
            idx as int,
            metrics_after(old(self).metrics@[idx as int], outcome),
        ));
    }

    /// Finds the next peer of a round that is free at `now`.
    pub fn next_attempt(&self, rotation: &mut Rotation, now: u64) -> (action: RoundAction)
        requires
            self.wf(),
            old(rotation).valid(),
            old(rotation).count() == self.peer_seq().len(),
        ensures
            final(rotation).valid(),
            final(rotation).start() == old(rotation).start(),
            final(rotation).count() == old(rotation).count(),
            final(rotation).offset() == next_offset(
                self.cooldowns(),
                now,
                old(rotation).start(),
                old(rotation).offset(),
            ),
            action == next_action(
                self.cooldowns(),
                now,
                old(rotation).start(),
                old(rotation).offset(),
            ),
            action matches RoundAction::Try { idx } ==> idx < self.peer_seq().len(),
    {
        let ghost cooldowns = self.cooldowns();
        let ghost start = old(rotation).start();
        loop
            invariant
                self.wf(),
                cooldowns == self.cooldowns(),
                start == old(rotation).start(),
                rotation.valid(),
                rotation.start() == start,
                rotation.count() == old(rotation).count(),
                rotation.count() == self.peer_seq().len(),
                first_free_from(cooldowns, now, start, rotation.offset()) == first_free_from(
                    cooldowns,
                    now,
                    start,
                    old(rotation).offset(),
                ),
            decreases rotation.count() - rotation.offset(),
        {
            match rotation.candidate() {
                Some(idx) => {
                    proof {
                        lemma_peer_at(start, rotation.offset(), rotation.count());
                    }
                    rotation.advance();
                    if self.available(idx, now) {
                        return RoundAction::Try { idx };
                    }
                },
                None => {
                    let error = PeerSendError::AllPeersUnavailable { n: self.peers.len() };
                    return RoundAction::Fail { error };
                },
            }
        }
    }

    /// Starts a round and finds its first peer.
    pub fn begin_round(&mut self, now: u64) -> (r: (Rotation, RoundAction))
        requires
            old(self).wf(),
        ensures
            final(self).wf(),
            final(self).peer_seq() == old(self).peer_seq(),
            final(self).states() == old(self).states(),
            final(self).counters() == old(self).counters(),
            old(self).peer_seq().len() == 0 ==> {
                &&& r.1 == RoundAction::Fail { error: PeerSendError::Empty }
                &&& r.0.start() == 0
                &&& r.0.offset() == 0
                &&& final(self).cursor() == old(self).cursor()
            },
            old(self).peer_seq().len() > 0 ==> {
                let start = old(self).next_start();
                &&& r.0.valid()
                &&& r.0.start() == start
                &&& r.0.count() == old(self).peer_seq().len()
                &&& r.0.offset() == next_offset(old(self).cooldowns(), now, start, 0)
                &&& r.1 == next_action(old(self).cooldowns(), now, start, 0)
                &&& final(self).cursor() == old(self).cursor().wrapping_add(1)
            },
            r.1 matches RoundAction::Try { idx } ==> idx < old(self).peer_seq().len(),
    {
        match self.begin_rotation() {
            Ok(rotation) => {
                let mut rotation = rotation;
                assert(self.cooldowns() =~= old(self).cooldowns());
                let action = self.next_attempt(&mut rotation, now);
                (rotation, action)
            },
            Err(error) => (Rotation { start: 0, offset: 0, n: 0 }, RoundAction::Fail { error }),
        }
    }

    /// Settles the attempt on a peer and goes on with the round: it is done where
    /// the peer delivered, and looks for the next one otherwise.
    pub fn after_attempt(
        &mut self,
        rotation: &mut Rotation,
        now: u64,
        idx: usize,
        outcome: AttemptOutcome,
    ) -> (action: RoundAction)
        requires
            old(self).wf(),
            old(rotation).valid(),
            old(rotation).count() == old(self).peer_seq().len(),
            idx < old(self).peer_seq().len(),
            outcome matches AttemptOutcome::Failed { at } ==> at + PEER_COOLDOWN <= u64::MAX,
        ensures
            final(self).wf(),
            final(self).peer_seq() == old(self).peer_seq(),
            final(self).cursor() == old(self).cursor(),
            final(self).states() == old(self).states().update(
                idx as int,
                PeerState {
                    conn: old(self).states()[idx as int].conn,
                    cooldown_until: cooldown_after(outcome),
                },
            ),
            final(self).counters() == old(self).counters().update(
                idx as int,
                metrics_after(old(self).counters()[idx as int], outcome),
            ),
            final(rotation).valid(),
            final(rotation).start() == old(rotation).start(),
            final(rotation).count() == old(rotation).count(),
            outcome is Delivered ==> action is Done && final(rotation).offset() == old(
                rotation,
            ).offset(),
            outcome is Failed ==> {
                let (start, offset) = (old(rotation).start(), old(rotation).offset());
                &&& action == next_action(final(self).cooldowns(), now, start, offset)
                &&& final(rotation).offset() == next_offset(
                    final(self).cooldowns(),
                    now,
                    start,
                    offset,
                )
            },
            action matches RoundAction::Try { idx } ==> idx < old(self).peer_seq().len(),
    {
        self.settle(idx, outcome);
        if matches!(outcome, AttemptOutcome::Delivered) {
            RoundAction::Done
        } else {
            self.next_attempt(rotation, now)
        }
    }

    /// One whole round, given how the attempt on each peer ends. From the start of
    /// the round on, each peer that is free at `now` is tried until one delivers.
    pub fn write_with_rotation_at(&mut self, now: u64, outcomes: &[AttemptOutcome]) -> (r: Result<
        (),
        PeerSendError,
    >)
        requires
            old(self).wf(),
            outcomes@.len() == old(self).peer_seq().len(),
            forall|i: int|
                0 <= i < outcomes@.len() ==> (#[trigger] outcomes@[i] matches AttemptOutcome::Failed {
                    at,
                } ==> at + PEER_COOLDOWN <= u64::MAX),
        ensures
            final(self).wf(),
            final(self).peer_seq() == old(self).peer_seq(),
            old(self).peer_seq().len() == 0 ==> {
                &&& r == Err::<(), PeerSendError>(PeerSendError::Empty)
                &&& final(self).cursor() == old(self).cursor()
            },
            old(self).peer_seq().len() > 0 ==> final(self).ring() == old(self).ring().after_round(
                now,
                outcomes@,
            ),
            old(self).peer_seq().len() > 0 ==> {
                let n = old(self).peer_seq().len() as int;
                let start = old(self).next_start();
                let cooldowns = old(self).cooldowns();
                &&& final(self).cursor() == old(self).cursor().wrapping_add(1)
                &&& r == if winner_from(cooldowns, outcomes@, now, start, 0) < n {
                    Ok::<(), PeerSendError>(())
                } else {
                    Err(PeerSendError::AllPeersUnavailable { n: n as usize })
                }
                &&& forall|i: int|
                    0 <= i < n ==> #[trigger] final(self).states()[i] == if tried(
                        cooldowns,
                        outcomes@,
                        now,
                        start,
                        i,
                    ) {
                        PeerState {
                            conn: old(self).states()[i].conn,
                            cooldown_until: cooldown_after(outcomes@[i]),
                        }
                    } else {
                        old(self).states()[i]
                    }
                &&& forall|i: int|
                    0 <= i < n ==> #[trigger] final(self).counters()[i] == if tried(
                        cooldowns,
                        outcomes@,
                        now,
                        start,
                        i,
                    ) {
                        metrics_after(old(self).counters()[i], outcomes@[i])
                    } else {
                        old(self).counters()[i]
                    }
            },
    {
        let (rotation, action) = self.begin_round(now);
        let mut rotation = rotation;
        let mut action = action;
        let ghost n = old(self).peer_seq().len() as int;
        let ghost start = old(self).next_start();
        let ghost cooldowns = old(self).cooldowns();
        let ghost w = winner_from(cooldowns, outcomes@, now, start, 0);
        proof {
            if n > 0 {
                lemma_next_step(cooldowns, cooldowns, outcomes@, now, start, 0);
                lemma_passed_over(cooldowns, now, start, 0, settled_up_to(rotation.offset(), action));
            }
        }
        loop
            invariant
                self.wf(),
                self.peer_seq() == old(self).peer_seq(),
                old(self).wf(),
                n == old(self).peer_seq().len(),
                start == old(self).next_start(),
                cooldowns == old(self).cooldowns(),
                w == winner_from(cooldowns, outcomes@, now, start, 0),
                outcomes@.len() == n,
                forall|i: int|
                    0 <= i < outcomes@.len() ==> (#[trigger] outcomes@[i] matches AttemptOutcome::Failed {
                        at,
                    } ==> at + PEER_COOLDOWN <= u64::MAX),
                n == 0 ==> {
                    &&& action == RoundAction::Fail { error: PeerSendError::Empty }
                    &&& self.cursor() == old(self).cursor()
                },
                n > 0 ==> {
                    &&& self.cursor() == old(self).cursor().wrapping_add(1)
                    &&& rotation.valid()
                    &&& rotation.count() == n
                    &&& rotation.start() == start
                    &&& reached(cooldowns, outcomes@, now, start, rotation.offset(), action)
                },
                n > 0 ==> forall|i: int|
                    0 <= i < n ==> (#[trigger] self.states()[i] == if distance(start, i, n)
                        < settled_up_to(rotation.offset(), action) && free_at(cooldowns[i], now) {
                        PeerState {
                            conn: old(self).states()[i].conn,
                            cooldown_until: cooldown_after(outcomes@[i]),
                        }
                    } else {
                        old(self).states()[i]
                    }),
                n > 0 ==> forall|i: int|
                    0 <= i < n ==> (#[trigger] self.counters()[i] == if distance(start, i, n)
                        < settled_up_to(rotation.offset(), action) && free_at(cooldowns[i], now) {
                        metrics_after(old(self).counters()[i], outcomes@[i])
                    } else {
                        old(self).counters()[i]
                    }),
            decreases n - settled_up_to(rotation.offset(), action),
        {
            match action {
                RoundAction::Done => {
                    assert(self.cooldowns() =~= old(self).ring().after_round(
                        now,
                        outcomes@,
                    ).cooldowns);
                    return Ok(());
                },
                RoundAction::Fail { error } => {
                    proof {
                        if n > 0 {
                            assert forall|i: int| 0 <= i < n implies distance(start, i, n) < n by {
                                lemma_distance(start, i, n);
                            }
                            assert(self.cooldowns() =~= old(self).ring().after_round(
                                now,
                                outcomes@,
                            ).cooldowns);
                        }
                    }
                    return Err(error);
                },
                RoundAction::Try { idx } => {
                    let ghost offset = rotation.offset();
                    proof {
                        lemma_peer_at(start, offset - 1, n);
                        assert forall|i: int| 0 <= i < n && i != idx implies distance(start, i, n)
                            != offset - 1 by {
                            lemma_distance(start, i, n);
                        }
                    }
                    assert(self.states()[idx as int] == old(self).states()[idx as int]);
                    action = self.after_attempt(&mut rotation, now, idx, outcomes[idx]);
                    proof {
                        if outcomes@[idx as int] is Failed {
                            let current = self.cooldowns();
                            assert forall|o: int| offset <= o < n implies current[#[trigger] peer_at(
                                start,
                                o,
                                n,
                            )] == cooldowns[peer_at(start, o, n)] by {
                                lemma_peer_at(start, o, n);
                            }
                            lemma_next_step(cooldowns, current, outcomes@, now, start, offset);
                            lemma_passed_over(
                                cooldowns,
                                now,
                                start,
                                offset,
                                settled_up_to(rotation.offset(), action),
                            );
                        }
                    }
                },
            }
        }
    }
}

/// Settles a message whose round is over, and counts one that was delivered.
pub fn finish_write(result: Result<(), PeerSendError>, metrics: &mut OutputMetrics) -> (r: Result<
    (),
    OutputError,
>)
    ensures
        match (result, r) {
            (Ok(_), Ok(_)) => *final(metrics) == old(metrics).written(1),
            (Err(error), Err(e)) => e@ == error.text() && *final(metrics) == *old(metrics),
            _ => false,
        },
{
    match result {
        Ok(()) => {
            metrics.add_written(1);
            Ok(())
        },
        Err(error) => Err(OutputError { message: error.message() }),
    }
}

/// Where a round stands that has come as far as `offset` and does `action` next.
spec fn reached(
    cooldowns: Seq<Option<u64>>,
    outcomes: Seq<AttemptOutcome>,
    now: u64,
    start: int,
    offset: int,
    action: RoundAction,
) -> bool {
    let n = cooldowns.len() as int;
    let w = winner_from(cooldowns, outcomes, now, start, 0);
    match action {
        RoundAction::Try { idx } => {
            &&& 0 < offset <= n
            &&& idx == peer_at(start, offset - 1, n)
            &&& free_at(cooldowns[idx as int], now)
            &&& winner_from(cooldowns, outcomes, now, start, offset - 1) == w
        },
        RoundAction::Done => 0 < offset <= n && w == offset - 1,
        RoundAction::Fail { error } => {
            &&& offset == n
            &&& w == n
            &&& error == PeerSendError::AllPeersUnavailable { n: n as usize }
        },
    }
}

/// The distance before which every free peer has been settled.
spec fn settled_up_to(offset: int, action: RoundAction) -> int {
    if action is Try {
        offset - 1
    } else {
        offset
    }
}

/// What holds of the peers at some distances holds of the peers that are that far.
proof fn lemma_passed_over(
    cooldowns: Seq<Option<u64>>,
    now: u64,
    start: int,
    from: int,
    to: int,
)
    requires
        0 <= start < cooldowns.len(),
        forall|o: int|
            from <= o < to ==> !free_at(
                cooldowns[#[trigger] peer_at(start, o, cooldowns.len() as int)],
                now,
            ),
    ensures
        forall|i: int|
            0 <= i < cooldowns.len() && from <= #[trigger] distance(
                start,
                i,
                cooldowns.len() as int,
            ) < to ==> !free_at(cooldowns[i], now),
{
    assert forall|i: int|
        0 <= i < cooldowns.len() && from <= #[trigger] distance(start, i, cooldowns.len() as int)
            < to implies !free_at(cooldowns[i], now) by {
        lemma_distance(start, i, cooldowns.len() as int);
    }
}

/// The next step of a round leaves out only peers that are not free; what the round
/// has settled before does not matter to it.
proof fn lemma_next_step(
    cooldowns: Seq<Option<u64>>,
    current: Seq<Option<u64>>,
    outcomes: Seq<AttemptOutcome>,
    now: u64,
    start: int,
    offset: int,
)
    requires
        0 <= start < cooldowns.len() <= usize::MAX,
        0 <= offset <= cooldowns.len(),
        current.len() == cooldowns.len(),
        forall|o: int|
            offset <= o < cooldowns.len() ==> current[#[trigger] peer_at(
                start,
                o,
                cooldowns.len() as int,
            )] == cooldowns[peer_at(start, o, cooldowns.len() as int)],
        winner_from(cooldowns, outcomes, now, start, offset) == winner_from(
            cooldowns,
            outcomes,
            now,
            start,
            0,
        ),
    ensures
        reached(
            cooldowns,
            outcomes,
            now,
            start,
            next_offset(current, now, start, offset),
            next_action(current, now, start, offset),
        ),
        offset <= settled_up_to(
            next_offset(current, now, start, offset),
            next_action(current, now, start, offset),
        ),
        forall|o: int|
            offset <= o < settled_up_to(
                next_offset(current, now, start, offset),
                next_action(current, now, start, offset),
            ) ==> !free_at(cooldowns[#[trigger] peer_at(start, o, cooldowns.len() as int)], now),
    decreases cooldowns.len() - offset,
{
    let n = cooldowns.len() as int;
    if offset < n {
        lemma_peer_at(start, offset, n);
        if !free_at(cooldowns[peer_at(start, offset, n)], now) {
            lemma_next_step(cooldowns, current, outcomes, now, start, offset + 1);
        }
    }
}

pub proof fn lemma_distance(start: int, idx: int, n: int)
    requires
        0 <= start < n,
        0 <= idx < n,
    ensures
        0 <= distance(start, idx, n) < n,
        peer_at(start, distance(start, idx, n), n) == idx,
{
    lemma_peer_at(start, distance(start, idx, n), n);
}

proof fn lemma_winner_range(
    cooldowns: Seq<Option<u64>>,
    outcomes: Seq<AttemptOutcome>,
    now: u64,
    start: int,
    offset: int,
)
    requires
        0 <= offset <= cooldowns.len(),
    ensures
        offset <= winner_from(cooldowns, outcomes, now, start, offset) <= cooldowns.len(),
        forall|o: int|
            offset <= o < winner_from(cooldowns, outcomes, now, start, offset) ==> !delivers(
                cooldowns,
                outcomes,
                now,
                #[trigger] peer_at(start, o, cooldowns.len() as int),
            ),
        winner_from(cooldowns, outcomes, now, start, offset) < cooldowns.len() ==> delivers(
            cooldowns,
            outcomes,
            now,
            peer_at(
                start,
                winner_from(cooldowns, outcomes, now, start, offset),
                cooldowns.len() as int,
            ),
        ),
    decreases cooldowns.len() - offset,
{
    if offset < cooldowns.len() {
        lemma_winner_range(cooldowns, outcomes, now, start, offset + 1);
    }
}

/// The distance of the first free peer from `offset` on; the number of peers where
/// none is free.
pub open spec fn first_free_from(
    cooldowns: Seq<Option<u64>>,
    now: u64,
    start: int,
    offset: int,
) -> int
    decreases cooldowns.len() - offset,
{
    let n = cooldowns.len() as int;
    if offset >= n {
        n
    } else if free_at(cooldowns[peer_at(start, offset, n)], now) {
        offset
    } else {
        first_free_from(cooldowns, now, start, offset + 1)
    }
}

/// The candidate that a selection picks: the first free peer from the start of
/// the rotation on, or the start itself where every peer is cooling down.
pub open spec fn selected(cooldowns: Seq<Option<u64>>, now: u64, start: int) -> int {
    let n = cooldowns.len() as int;
    let offset = first_free_from(cooldowns, now, start, 0);
    if offset < n {
        peer_at(start, offset, n)
    } else {
        start
    }
}

/// Rotation that hands out one candidate per attempt.
#[derive(Debug)]
pub struct RotatingPeers {
    cursor: usize,
    cooldown_until: Vec<Option<u64>>,
}

impl RotatingPeers {
    pub closed spec fn cursor(&self) -> usize {
        self.cursor
    }

    /// The end of each peer's cooldown.
    pub closed spec fn cooldowns(&self) -> Seq<Option<u64>> {
        self.cooldown_until@
    }

    /// The peer at which the next selection starts.
    pub open spec fn next_start(&self) -> int {
        self.cursor() as int % self.cooldowns().len() as int
    }

    /// A rotation over `len` free peers.
    pub fn new(len: usize) -> (r: RotatingPeers)
        ensures
            r.cursor() == 0,
            r.cooldowns() == Seq::new(len as nat, |i: int| None::<u64>),
    {
        let mut cooldown_until: Vec<Option<u64>> = Vec::new();
        for i in 0..len
            invariant
                cooldown_until@ == Seq::new(i as nat, |j: int| None::<u64>),
        {
            cooldown_until.push(None);
            assert(cooldown_until@ =~= Seq::new((i + 1) as nat, |j: int| None::<u64>));
        }
        RotatingPeers { cursor: 0, cooldown_until }
    }

    /// Picks the candidate for the next attempt.
    pub fn select(&mut self, now: u64) -> (idx: usize)
        requires
            old(self).cooldowns().len() > 0,
        ensures
            idx == selected(old(self).cooldowns(), now, old(self).next_start()),
            idx < old(self).cooldowns().len(),
            final(self).cooldowns() == old(self).cooldowns(),
            final(self).cursor() == old(self).cursor().wrapping_add(1),
    {
        let n: usize = self.cooldown_until.len();
        let start: usize = self.cursor % n;
        self.cursor = self.cursor.wrapping_add(1);
        let ghost cooldowns = self.cooldown_until@;
        let mut rotation = Rotation { start, offset: 0, n };
        while rotation.offset < n
            invariant
                rotation.valid(),
                rotation.start == start,
                rotation.n == n,
                n == cooldowns.len(),
                cooldowns == self.cooldown_until@,
                cooldowns == old(self).cooldowns(),
                start == old(self).next_start(),
                self.cursor == old(self).cursor().wrapping_add(1),
                first_free_from(cooldowns, now, start as int, 0) == first_free_from(
                    cooldowns,
                    now,
                    start as int,
                    rotation.offset as int,
                ),
            decreases n - rotation.offset,
        {
            proof {
                lemma_peer_at(start as int, rotation.offset as int, n as int);
            }
            if let Some(candidate) = rotation.candidate() {
                let free = match self.cooldown_until[candidate] {
                    Some(until) => until <= now,
                    None => true,
                };
                if free {
                    return candidate;
                }
            }
            rotation.advance();
        }
        start
    }

    /// Frees a peer after a delivery.
    pub fn mark_success(&mut self, idx: usize)
        requires
            idx < old(self).cooldowns().len(),
        ensures
            final(self).cursor() == old(self).cursor(),
            final(self).cooldowns() == old(self).cooldowns().update(idx as int, None),
    {
        self.cooldown_until.set(idx, None);
    }

    /// Cools a peer down from the time at which its attempt failed.
    pub fn mark_failure(&mut self, idx: usize, at: u64)
        requires
            idx < old(self).cooldowns().len(),
            at + PEER_COOLDOWN <= u64::MAX,
        ensures
            final(self).cursor() == old(self).cursor(),
            final(self).cooldowns() == old(self).cooldowns().update(
                idx as int,
                Some((at + PEER_COOLDOWN) as u64),
            ),
    {
        self.cooldown_until.set(idx, Some(at + PEER_COOLDOWN));
    }

    /// The end of a peer's cooldown.
    pub fn cooldown_until(&self, idx: usize) -> (r: Option<u64>)
        requires
            idx < self.cooldowns().len(),
        ensures
            r == self.cooldowns()[idx as int],
    {
        self.cooldown_until[idx]
    }
}

/// A round visits every peer exactly once.
pub proof fn law_round_visits_each_peer_once(start: int, idx: int, n: int)
    requires
        0 <= start < n,
        0 <= idx < n,
    ensures
        0 <= distance(start, idx, n) < n,
        peer_at(start, distance(start, idx, n), n) == idx,
        forall|offset: int|
            0 <= offset < n && #[trigger] peer_at(start, offset, n) == idx ==> offset == distance(
                start,
                idx,
                n,
            ),
{
    lemma_distance(start, idx, n);
    assert forall|offset: int|
        0 <= offset < n && #[trigger] peer_at(start, offset, n) == idx implies offset == distance(
        start,
        idx,
        n,
    ) by {
        lemma_peer_at(start, offset, n);
    }
}

/// A round delivers exactly when some peer is free and delivers, wherever the
/// round starts.
pub proof fn law_round_delivers_iff_some_peer_does(
    cooldowns: Seq<Option<u64>>,
    outcomes: Seq<AttemptOutcome>,
    now: u64,
    start: int,
)
    requires
        0 <= start < cooldowns.len(),
    ensures
        winner_from(cooldowns, outcomes, now, start, 0) < cooldowns.len() <==> exists|idx: int|
            0 <= idx < cooldowns.len() && #[trigger] delivers(cooldowns, outcomes, now, idx),
{
    let n = cooldowns.len() as int;
    let w = winner_from(cooldowns, outcomes, now, start, 0);
    lemma_winner_range(cooldowns, outcomes, now, start, 0);
    if w < n {
        lemma_peer_at(start, w, n);
        assert(delivers(cooldowns, outcomes, now, peer_at(start, w, n)));
    } else {
        assert forall|idx: int| 0 <= idx < n implies !#[trigger] delivers(
            cooldowns,
            outcomes,
            now,
            idx,
        ) by {
            lemma_distance(start, idx, n);
            let offset = distance(start, idx, n);
            assert(!delivers(cooldowns, outcomes, now, peer_at(start, offset, n)));
        }
    }
}

/// The peers that a round tries, in order: from the start of the round on each peer
/// once, without those in cooldown, and none after one that delivers.
pub open spec fn tried_order(
    cooldowns: Seq<Option<u64>>,
    outcomes: Seq<AttemptOutcome>,
    now: u64,
    start: int,
    offset: int,
) -> Seq<int>
    decreases cooldowns.len() - offset,
{
    let n = cooldowns.len() as int;
    if offset >= n {
        Seq::empty()
    } else {
        let idx = peer_at(start, offset, n);
        if !free_at(cooldowns[idx], now) {
            tried_order(cooldowns, outcomes, now, start, offset + 1)
        } else if outcomes[idx] is Delivered {
            seq![idx]
        } else {
            seq![idx] + tried_order(cooldowns, outcomes, now, start, offset + 1)
        }
    }
}

/// The peers that a round asks to try when it is taken step by step, each attempt
/// ending as given.
pub open spec fn asked_order(
    cooldowns: Seq<Option<u64>>,
    outcomes: Seq<AttemptOutcome>,
    now: u64,
    start: int,
    offset: int,
) -> Seq<int>
    decreases cooldowns.len() - offset,
    when 0 <= offset <= cooldowns.len()
{
    proof {
        lemma_first_free_range(cooldowns, now, start, offset);
    }
    match next_action(cooldowns, now, start, offset) {
        RoundAction::Try { idx } => seq![idx as int] + if outcomes[idx as int] is Delivered {
            Seq::empty()
        } else {
            asked_order(
                cooldowns.update(idx as int, cooldown_after(outcomes[idx as int])),
                outcomes,
                now,
                start,
                next_offset(cooldowns, now, start, offset),
            )
        },
        _ => Seq::empty(),
    }
}

proof fn lemma_asked_order(
    cooldowns: Seq<Option<u64>>,
    current: Seq<Option<u64>>,
    outcomes: Seq<AttemptOutcome>,
    now: u64,
    start: int,
    offset: int,
)
    requires
        0 <= start < cooldowns.len() <= usize::MAX,
        0 <= offset <= cooldowns.len(),
        current.len() == cooldowns.len(),
        forall|o: int|
            offset <= o < cooldowns.len() ==> current[#[trigger] peer_at(
                start,
                o,
                cooldowns.len() as int,
            )] == cooldowns[peer_at(start, o, cooldowns.len() as int)],
    ensures
        asked_order(current, outcomes, now, start, offset) == tried_order(
            cooldowns,
            outcomes,
            now,
            start,
            offset,
        ),
        forall|o: int|
            0 <= o < offset ==> !tried_order(cooldowns, outcomes, now, start, offset).contains(
                #[trigger] peer_at(start, o, cooldowns.len() as int),
            ),
        tried_order(cooldowns, outcomes, now, start, offset).no_duplicates(),
    decreases cooldowns.len() - offset,
{
    let n = cooldowns.len() as int;
    if offset < n {
        lemma_peer_at(start, offset, n);
        let idx = peer_at(start, offset, n);
        if !free_at(cooldowns[idx], now) {
            lemma_asked_order(cooldowns, current, outcomes, now, start, offset + 1);
        } else {
            let settled = current.update(idx, cooldown_after(outcomes[idx]));
            assert forall|o: int| offset + 1 <= o < n implies settled[#[trigger] peer_at(
                start,
                o,
                n,
            )] == cooldowns[peer_at(start, o, n)] by {
                lemma_peer_at(start, o, n);
            }
            lemma_asked_order(cooldowns, settled, outcomes, now, start, offset + 1);
            assert(next_offset(current, now, start, offset) == offset + 1);
            assert(seq![idx] + Seq::<int>::empty() =~= seq![idx]);
            let rest = tried_order(cooldowns, outcomes, now, start, offset + 1);
            let all = tried_order(cooldowns, outcomes, now, start, offset);
            assert(!rest.contains(idx));
            assert forall|o: int| 0 <= o < offset implies !all.contains(
                #[trigger] peer_at(start, o, n),
            ) by {
                lemma_peer_at(start, o, n);
                let other = peer_at(start, o, n);
                assert(!rest.contains(other));
                if all.contains(other) {
                    let j = choose|j: int| 0 <= j < all.len() && all[j] == other;
                    if j > 0 {
                        assert(rest[j - 1] == other);
                    }
                }
            }
            assert(all.no_duplicates()) by {
                assert forall|i: int, j: int| 0 <= i < j < all.len() implies all[i] != all[j] by {
                    assert(all[j] == rest[j - 1]);
                    if i > 0 {
                        assert(all[i] == rest[i - 1]);
                    }
                }
            }
        }
    }
}

proof fn lemma_tried_order_holds(
    cooldowns: Seq<Option<u64>>,
    outcomes: Seq<AttemptOutcome>,
    now: u64,
    start: int,
    offset: int,
    idx: int,
)
    requires
        0 <= start < cooldowns.len(),
        0 <= offset <= cooldowns.len(),
        0 <= idx < cooldowns.len(),
    ensures
        tried_order(cooldowns, outcomes, now, start, offset).contains(idx) <==> {
            &&& offset <= distance(start, idx, cooldowns.len() as int) <= winner_from(
                cooldowns,
                outcomes,
                now,
                start,
                offset,
            )
            &&& free_at(cooldowns[idx], now)
        },
    decreases cooldowns.len() - offset,
{
    let n = cooldowns.len() as int;
    lemma_distance(start, idx, n);
    lemma_winner_range(cooldowns, outcomes, now, start, offset);
    if offset < n {
        lemma_peer_at(start, offset, n);
        let here = peer_at(start, offset, n);
        let rest = tried_order(cooldowns, outcomes, now, start, offset + 1);
        let all = tried_order(cooldowns, outcomes, now, start, offset);
        lemma_tried_order_holds(cooldowns, outcomes, now, start, offset + 1, idx);
        lemma_winner_range(cooldowns, outcomes, now, start, offset + 1);
        if free_at(cooldowns[here], now) {
            assert(all[0] == here);
            if all.contains(idx) {
                let j = choose|j: int| 0 <= j < all.len() && all[j] == idx;
                if j > 0 {
                    assert(rest[j - 1] == idx);
                }
            }
            if rest.contains(idx) && !(outcomes[here] is Delivered) {
                let j = choose|j: int| 0 <= j < rest.len() && rest[j] == idx;
                assert(all[j + 1] == idx);
            }
        }
    }
}

proof fn lemma_rounds(n: nat, rounds: Seq<(u64, Seq<AttemptOutcome>)>)
    requires
        rounds.len() <= usize::MAX,
    ensures
        RingView::fresh(n).after_rounds(rounds).cursor == rounds.len(),
        RingView::fresh(n).after_rounds(rounds).cooldowns.len() == n,
    decreases rounds.len(),
{
    if rounds.len() > 0 {
        lemma_rounds(n, rounds.drop_last());
    }
}

/// After any rounds on a list, one after another, the next one starts at the peer
/// whose place is the number of those rounds, counted round the ring. From there it
/// asks for the peers in ring order, each at most once: exactly those whose cooldown
/// is over, and none after one that delivers.
pub proof fn law_rounds_go_round_the_ring(
    n: nat,
    rounds: Seq<(u64, Seq<AttemptOutcome>)>,
    now: u64,
    outcomes: Seq<AttemptOutcome>,
)
    requires
        0 < n <= usize::MAX,
        rounds.len() <= usize::MAX,
    ensures
        ({
            let ring = RingView::fresh(n).after_rounds(rounds);
            let start = rounds.len() as int % n as int;
            let asked = asked_order(ring.cooldowns, outcomes, now, ring.next_start(), 0);
            &&& ring.cooldowns.len() == n
            &&& ring.next_start() == start
            &&& asked == tried_order(ring.cooldowns, outcomes, now, start, 0)
            &&& asked.no_duplicates()
            &&& forall|idx: int|
                0 <= idx < n ==> (#[trigger] asked.contains(idx) <==> tried(
                    ring.cooldowns,
                    outcomes,
                    now,
                    start,
                    idx,
                ))
        }),
{
    lemma_rounds(n, rounds);
    let ring = RingView::fresh(n).after_rounds(rounds);
    vstd::arithmetic::div_mod::lemma_mod_bound(rounds.len() as int, n as int);
    let start = ring.next_start();
    lemma_asked_order(ring.cooldowns, ring.cooldowns, outcomes, now, start, 0);
    let asked = asked_order(ring.cooldowns, outcomes, now, start, 0);
    assert forall|idx: int| 0 <= idx < n implies (#[trigger] asked.contains(idx) <==> tried(
        ring.cooldowns,
        outcomes,
        now,
        start,
        idx,
    )) by {
        lemma_tried_order_holds(ring.cooldowns, outcomes, now, start, 0, idx);
        lemma_distance(start, idx, n as int);
    }
}

/// A failed peer stays out of every round until the whole cooldown has passed
/// since the failure, however long the attempt itself took.
pub proof fn law_cooldown_runs_from_the_failure(at: u64, now: u64)
    requires
        at + PEER_COOLDOWN <= u64::MAX,
    ensures
        free_at(cooldown_after(AttemptOutcome::Failed { at }), now) <==> now >= at + PEER_COOLDOWN,
        free_at(cooldown_after(AttemptOutcome::Delivered), now),
{
}

/// Successive rounds start at successive peers, until the cursor wraps.
pub proof fn law_rounds_start_at_successive_peers(cursor: usize, n: int)
    requires
        n > 0,
        cursor < usize::MAX,
    ensures
        cursor.wrapping_add(1) as int % n == (cursor as int % n + 1) % n,
{
    vstd::arithmetic::div_mod::lemma_add_mod_noop(cursor as int, 1, n);
    if n == 1 {
    } else {
        vstd::arithmetic::div_mod::lemma_small_mod(1, n as nat);
    }
}

/// What the search for a free peer finds, and what it passes over.
pub proof fn lemma_first_free_range(cooldowns: Seq<Option<u64>>, now: u64, start: int, offset: int)
    requires
        0 <= offset <= cooldowns.len(),
    ensures
        offset <= first_free_from(cooldowns, now, start, offset) <= cooldowns.len(),
        forall|o: int|
            offset <= o < first_free_from(cooldowns, now, start, offset) ==> !free_at(
                cooldowns[#[trigger] peer_at(start, o, cooldowns.len() as int)],
                now,
            ),
        first_free_from(cooldowns, now, start, offset) < cooldowns.len() ==> free_at(
            cooldowns[peer_at(
                start,
                first_free_from(cooldowns, now, start, offset),
                cooldowns.len() as int,
            )],
            now,
        ),
    decreases cooldowns.len() - offset,
{
    if offset < cooldowns.len() {
        lemma_first_free_range(cooldowns, now, start, offset + 1);
    }
}

/// A selection is a free peer whenever there is one, and then the nearest after
/// the start; otherwise it is the start.
pub proof fn law_selection_prefers_free_peers(
    cooldowns: Seq<Option<u64>>,
    now: u64,
    start: int,
    idx: int,
)
    requires
        0 <= start < cooldowns.len(),
        0 <= idx < cooldowns.len(),
    ensures
        0 <= selected(cooldowns, now, start) < cooldowns.len(),
        free_at(cooldowns[idx], now) ==> {
            &&& free_at(cooldowns[selected(cooldowns, now, start)], now)
            &&& distance(start, selected(cooldowns, now, start), cooldowns.len() as int)
                <= distance(start, idx, cooldowns.len() as int)
        },
        !free_at(cooldowns[selected(cooldowns, now, start)], now) ==> selected(
            cooldowns,
            now,
            start,
        ) == start,
{
    let n = cooldowns.len() as int;
    lemma_first_free_range(cooldowns, now, start, 0);
    let w = first_free_from(cooldowns, now, start, 0);
    lemma_distance(start, idx, n);
    if w < n {
        lemma_peer_at(start, w, n);
    }
    if free_at(cooldowns[idx], now) {
        let offset = distance(start, idx, n);
        assert(free_at(cooldowns[peer_at(start, offset, n)], now));
    }
}

/// A peer that failed is passed over during its cooldown while another is free,
/// and is a candidate again once its failure is followed by a delivery.
pub proof fn law_failed_peer_is_passed_over(
    cooldowns: Seq<Option<u64>>,
    now: u64,
    start: int,
    failed: int,
    other: int,
    at: u64,
)
    requires
        0 <= start < cooldowns.len(),
        0 <= failed < cooldowns.len(),
        0 <= other < cooldowns.len(),
        other != failed,
        at + PEER_COOLDOWN <= u64::MAX,
        now < at + PEER_COOLDOWN,
        free_at(cooldowns[other], now),
    ensures
        selected(
            cooldowns.update(failed, Some((at + PEER_COOLDOWN) as u64)),
            now,
            start,
        ) != failed,
        cooldowns.update(failed, Some((at + PEER_COOLDOWN) as u64)).update(failed, None)
            == cooldowns.update(failed, None),
{
    let cooled = cooldowns.update(failed, Some((at + PEER_COOLDOWN) as u64));
    law_selection_prefers_free_peers(cooled, now, start, other);
    assert(cooled.update(failed, None) =~= cooldowns.update(failed, None));
}

} // verus!
