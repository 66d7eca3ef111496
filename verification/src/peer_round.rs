//! A round over the peers of a list together with their connections: each peer that
//! is free is handed out once, with its connection where one is open, until one
//! delivers or a shutdown forestalls the sending.
use crate::peer_rotation::{
    distance, first_free_from, free_at, lemma_distance, lemma_first_free_range, lemma_peer_at, next_action,
    next_offset, peer_at, AttemptOutcome, PeerList, PeerMetrics, PeerSendError, PeerState,
    Rotation, RoundAction,
};
use crate::syslog_peers::{Peer, PEER_COOLDOWN};
use vstd::prelude::*;

verus! {

/// How the attempt on a peer ended: with a connection to keep, with the time at which
/// it failed, or before anything was sent because of a shutdown.
#[derive(Debug)]
pub enum AttemptEnd<C> {
    Delivered { conn: C },
    Failed { at: u64 },
    PreSendShutdown,
}

/// What a round does next.
#[derive(Debug)]
pub enum PeerStep<C> {
    /// Try this peer, over its connection where it has one.
    Try { idx: usize, conn: Option<C> },
    Delivered,
    Failed { error: PeerSendError },
    PreSendShutdown,
}

/// What a list of peers holds.
pub ghost struct PeersView<C> {
    pub peers: Seq<Peer>,
    pub cursor: usize,
    pub states: Seq<PeerState<C>>,
    pub counters: Seq<PeerMetrics>,
}

/// What a list of peers holds.
pub open spec fn peers_view<C>(list: PeerList<C>) -> PeersView<C> {
    PeersView {
        peers: list.peer_seq(),
        cursor: list.cursor(),
        states: list.states(),
        counters: list.counters(),
    }
}

impl<C> PeersView<C> {
    pub open spec fn wf(self) -> bool {
        self.states.len() == self.peers.len() && self.counters.len() == self.peers.len()
            && self.peers.len() <= usize::MAX
    }

    /// The end of each peer's cooldown.
    pub open spec fn cooldowns(self) -> Seq<Option<u64>> {
        Seq::new(self.states.len(), |i: int| self.states[i].cooldown_until)
    }

    /// The peer at which the next round starts.
    pub open spec fn next_start(self) -> int {
        self.cursor as int % self.peers.len() as int
    }

    /// The list whose connection to a peer is in use.
    pub open spec fn lent(self, idx: int) -> PeersView<C> {
        PeersView {
            states: self.states.update(
                idx,
                PeerState { conn: None, cooldown_until: self.states[idx].cooldown_until },
            ),
            ..self
        }
    }

    /// The list after an attempt on a peer. A delivery frees the peer and keeps its
    /// connection; a failure cools it down from the time at which it failed; a
    /// shutdown before anything was sent changes nothing.
    pub open spec fn ended(self, idx: int, end: AttemptEnd<C>) -> PeersView<C> {
        match end {
            AttemptEnd::Delivered { conn } => PeersView {
                states: self.states.update(
                    idx,
                    PeerState { conn: Some(conn), cooldown_until: None },
                ),
                counters: self.counters.update(idx, self.counters[idx].delivered()),
                ..self
            },
            AttemptEnd::Failed { at } => PeersView {
                states: self.states.update(
                    idx,
                    PeerState {
                        conn: self.states[idx].conn,
                        cooldown_until: Some((at + PEER_COOLDOWN) as u64),
                    },
                ),
                counters: self.counters.update(idx, self.counters[idx].failed()),
                ..self
            },
            AttemptEnd::PreSendShutdown => self,
        }
    }
}

/// How far a round has come: `offset` peers from `start` on are handed out or passed
/// over, and `idx` is being tried where the round is open.
pub ghost struct PeerRoundView {
    pub began: u64,
    pub start: int,
    pub offset: int,
    pub idx: int,
    pub open: bool,
}

/// A round, the list it goes over, and what it does next.
pub ghost struct RoundState<C> {
    pub round: PeerRoundView,
    pub list: PeersView<C>,
    pub step: PeerStep<C>,
}

impl<C> RoundState<C> {
    /// A round that looks for its next peer from `offset` on.
    pub open spec fn seek(list: PeersView<C>, began: u64, start: int, offset: int) -> RoundState<
        C,
    > {
        let next = next_offset(list.cooldowns(), began, start, offset);
        match next_action(list.cooldowns(), began, start, offset) {
            RoundAction::Try { idx } => RoundState {
                round: PeerRoundView { began, start, offset: next, idx: idx as int, open: true },
                list: list.lent(idx as int),
                step: PeerStep::Try { idx, conn: list.states[idx as int].conn },
            },
            RoundAction::Fail { error } => RoundState {
                round: PeerRoundView { began, start, offset: next, idx: 0, open: false },
                list,
                step: PeerStep::Failed { error },
            },
            RoundAction::Done => RoundState {
                round: PeerRoundView { began, start, offset: next, idx: 0, open: false },
                list,
                step: PeerStep::Delivered,
            },
        }
    }

    /// The first step of a round that begins at `began`. The start moves on by one
    /// with each round.
    pub open spec fn begin(list: PeersView<C>, began: u64) -> RoundState<C> {
        if list.peers.len() == 0 {
            RoundState {
                round: PeerRoundView { began, start: 0, offset: 0, idx: 0, open: false },
                list,
                step: PeerStep::Failed { error: PeerSendError::Empty },
            }
        } else {
            RoundState::seek(
                PeersView { cursor: list.cursor.wrapping_add(1), ..list },
                began,
                list.next_start(),
                0,
            )
        }
    }

    /// A round after the attempt on its peer: a delivery ends it, and so does a
    /// shutdown; a failure sends it on to the next peer.
    pub open spec fn finish(round: PeerRoundView, list: PeersView<C>, end: AttemptEnd<C>) -> (
    RoundState<C>) {
        let after = list.ended(round.idx, end);
        let over = PeerRoundView { open: false, ..round };
        match end {
            AttemptEnd::Delivered { .. } => RoundState {
                round: over,
                list: after,
                step: PeerStep::Delivered,
            },
            AttemptEnd::PreSendShutdown => RoundState {
                round: over,
                list: after,
                step: PeerStep::PreSendShutdown,
            },
            AttemptEnd::Failed { .. } => RoundState::seek(
                after,
                round.began,
                round.start,
                round.offset,
            ),
        }
    }
}

impl PeerRoundView {
    /// Whether a round belongs to a list.
    pub open spec fn over_list<C>(self, list: PeersView<C>) -> bool {
        let n = list.peers.len() as int;
        self.open ==> {
            &&& 0 <= self.start < n
            &&& 0 < self.offset <= n
            &&& self.idx == peer_at(self.start, self.offset - 1, n)
            &&& 0 <= self.idx < n
            &&& list.states[self.idx].conn is None
        }
    }
}

/// Whether this can come next: a time of failure from which a cooldown can be told.
pub open spec fn can_end<C>(end: AttemptEnd<C>) -> bool {
    end matches AttemptEnd::Failed { at } ==> at + PEER_COOLDOWN <= u64::MAX
}

/// One round in progress.
#[derive(Debug)]
pub struct PeerRound {
    began: u64,
    rotation: Rotation,
    idx: usize,
    open: bool,
}

impl View for PeerRound {
    type V = PeerRoundView;

    closed spec fn view(&self) -> PeerRoundView {
        PeerRoundView {
            began: self.began,
            start: self.rotation.start(),
            offset: self.rotation.offset(),
            idx: self.idx as int,
            open: self.open,
        }
    }
}

impl PeerRound {
    /// Whether the round belongs to a list.
    pub closed spec fn over_list<C>(&self, list: PeersView<C>) -> bool {
        &&& self@.over_list(list)
        &&& self.open ==> self.rotation.valid() && self.rotation.count() == list.peers.len()
    }

    /// Starts a round.
    pub fn begin<C>(list: &mut PeerList<C>, began: u64) -> (r: (PeerRound, PeerStep<C>))
        requires
            old(list).wf(),
        ensures
            final(list).wf(),
            r.0.over_list(peers_view(*final(list))),
            r.0@.over_list(peers_view(*final(list))),
            ({
                let state = RoundState::begin(peers_view(*old(list)), began);
                &&& r.0@ == state.round
                &&& peers_view(*final(list)) == state.list
                &&& r.1 == state.step
            }),
    {
        let count: usize = list.len();
        assert(peers_view(*list).peers.len() == count);
        let (rotation, action) = list.begin_round(began);
        assert(peers_view(*list).cooldowns() =~= peers_view(*old(list)).cooldowns());
        assert(old(list).cooldowns() =~= peers_view(*old(list)).cooldowns());
        proof {
            let n = old(list).peer_seq().len() as int;
            if n > 0 {
                vstd::arithmetic::div_mod::lemma_mod_bound(old(list).cursor() as int, n);
                lemma_seek(peers_view(*list), began, old(list).next_start(), 0);
            }
        }
        match action {
            RoundAction::Try { idx } => {
                let conn = list.take_conn(idx);
                assert(peers_view(*list).states =~= RoundState::begin(
                    peers_view(*old(list)),
                    began,
                ).list.states);
                (PeerRound { began, rotation, idx, open: true }, PeerStep::Try { idx, conn })
            },
            RoundAction::Done => (
                PeerRound { began, rotation, idx: 0, open: false },
                PeerStep::Delivered,
            ),
            RoundAction::Fail { error } => (
                PeerRound { began, rotation, idx: 0, open: false },
                PeerStep::Failed { error },
            ),
        }
    }

    /// The peer that is being tried.
    pub fn peer(&self) -> (idx: usize)
        ensures
            idx == self@.idx,
    {
        self.idx
    }

    /// Takes in how the attempt on the peer ended and says what the round does next.
    pub fn finish<C>(&mut self, list: &mut PeerList<C>, end: AttemptEnd<C>) -> (step: PeerStep<C>)
        requires
            old(list).wf(),
            old(self)@.open,
            old(self).over_list(peers_view(*old(list))),
            can_end(end),
        ensures
            final(list).wf(),
            final(self).over_list(peers_view(*final(list))),
            final(self)@.over_list(peers_view(*final(list))),
            ({
                let state = RoundState::finish(old(self)@, peers_view(*old(list)), end);
                &&& final(self)@ == state.round
                &&& peers_view(*final(list)) == state.list
                &&& step == state.step
            }),
    {
        let ghost before = peers_view(*old(list));
        let count: usize = list.len();
        assert(before.peers.len() == count);
        let idx = self.idx;
        match end {
            AttemptEnd::Delivered { conn } => {
                list.store_conn(idx, conn);
                list.settle(idx, AttemptOutcome::Delivered);
                self.open = false;
                assert(peers_view(*list).states =~= before.ended(idx as int, end).states);
                PeerStep::Delivered
            },
            AttemptEnd::PreSendShutdown => {
                self.open = false;
                PeerStep::PreSendShutdown
            },
            AttemptEnd::Failed { at } => {
                let action = list.after_attempt(
                    &mut self.rotation,
                    self.began,
                    idx,
                    AttemptOutcome::Failed { at },
                );
                let ghost after = before.ended(idx as int, end);
                assert(peers_view(*list) == after);
                assert(list.cooldowns() =~= after.cooldowns());
                proof {
                    lemma_seek(after, old(self)@.began, old(self)@.start, old(self)@.offset);
                }
                match action {
                    RoundAction::Try { idx: next } => {
                        let conn = list.take_conn(next);
                        self.idx = next;
                        assert(peers_view(*list).states =~= after.lent(next as int).states);
                        PeerStep::Try { idx: next, conn }
                    },
                    RoundAction::Done => {
                        self.idx = 0;
                        self.open = false;
                        PeerStep::Delivered
                    },
                    RoundAction::Fail { error } => {
                        self.idx = 0;
                        self.open = false;
                        PeerStep::Failed { error }
                    },
                }
            },
        }
    }
}

pub proof fn lemma_seek<C>(list: PeersView<C>, began: u64, start: int, offset: int)
    requires
        list.wf(),
        0 <= start < list.peers.len(),
        0 <= offset <= list.peers.len(),
    ensures
        ({
            let n = list.peers.len() as int;
            let next = next_offset(list.cooldowns(), began, start, offset);
            match next_action(list.cooldowns(), began, start, offset) {
                RoundAction::Try { idx } => {
                    &&& offset < next <= n
                    &&& idx == peer_at(start, next - 1, n)
                    &&& idx < n
                    &&& distance(start, idx as int, n) == next - 1
                    &&& free_at(list.cooldowns()[idx as int], began)
                },
                RoundAction::Fail { error } => next == n && error
                    == (PeerSendError::AllPeersUnavailable { n: n as usize }),
                RoundAction::Done => false,
            }
        }),
        forall|i: int|
            0 <= i < list.peers.len() && offset <= #[trigger] distance(
                start,
                i,
                list.peers.len() as int,
            ) && distance(start, i, list.peers.len() as int) < first_free_from(
                list.cooldowns(),
                began,
                start,
                offset,
            ) ==> !free_at(list.cooldowns()[i], began),
{
    let n = list.peers.len() as int;
    let c = list.cooldowns();
    lemma_first_free_range(c, began, start, offset);
    let next = first_free_from(c, began, start, offset);
    if next < n {
        lemma_peer_at(start, next, n);
    }
    assert forall|i: int|
        0 <= i < n && offset <= #[trigger] distance(start, i, n) && distance(start, i, n)
            < next implies !free_at(c[i], began) by {
        lemma_distance(start, i, n);
        assert(!free_at(c[peer_at(start, distance(start, i, n), n)], began));
    }
}

/// The round after a sequence of attempts.
pub open spec fn run<C>(s: RoundState<C>, ends: Seq<AttemptEnd<C>>) -> RoundState<C>
    decreases ends.len(),
{
    if ends.len() == 0 {
        s
    } else {
        let before = run(s, ends.drop_last());
        RoundState::finish(before.round, before.list, ends.last())
    }
}

/// Whether each attempt of a sequence can come where it stands.
pub open spec fn accepted<C>(s: RoundState<C>, ends: Seq<AttemptEnd<C>>) -> bool
    decreases ends.len(),
{
    ends.len() == 0 || (accepted(s, ends.drop_last()) && run(s, ends.drop_last()).round.open
        && can_end(ends.last()))
}

/// Whether nothing was tried on a peer.
pub open spec fn left_alone<C>(before: PeersView<C>, after: PeersView<C>, i: int) -> bool {
    after.counters[i] == before.counters[i] && after.states[i].cooldown_until
        == before.states[i].cooldown_until
}

/// Whether one of the attempts failed on a peer and cooled it down from the time at
/// which it failed.
pub open spec fn cooled<C>(
    before: PeersView<C>,
    after: PeersView<C>,
    i: int,
    ends: Seq<AttemptEnd<C>>,
) -> bool {
    &&& after.counters[i] == before.counters[i].failed()
    &&& exists|k: int|
        0 <= k < ends.len() && (#[trigger] ends[k] matches AttemptEnd::Failed { at }
            && after.states[i].cooldown_until == Some((at + PEER_COOLDOWN) as u64))
}

/// Whether a peer took the message: it is free, and its connection is kept.
pub open spec fn served<C>(before: PeersView<C>, after: PeersView<C>, i: int) -> bool {
    after.counters[i] == before.counters[i].delivered() && after.states[i].cooldown_until is None
        && after.states[i].conn is Some
}

/// The peers that a round has come past and settled.
pub open spec fn settled_offset<C>(s: RoundState<C>) -> int {
    if s.round.open {
        s.round.offset - 1
    } else {
        s.round.offset
    }
}

spec fn progress<C>(
    before: PeersView<C>,
    began: u64,
    s: RoundState<C>,
    ends: Seq<AttemptEnd<C>>,
) -> bool {
    let n = before.peers.len() as int;
    let start = before.next_start();
    &&& s.list.wf()
    &&& s.list.peers == before.peers
    &&& s.list.cursor == before.cursor.wrapping_add(1)
    &&& s.round.began == began
    &&& s.round.start == start
    &&& 0 <= s.round.offset <= n
    &&& s.round.over_list(s.list)
    &&& s.round.open <==> s.step is Try
    &&& s.step matches PeerStep::Try { idx, .. } ==> idx == s.round.idx
    &&& s.step matches PeerStep::Failed { error } ==> s.round.offset == n && error
        == (PeerSendError::AllPeersUnavailable { n: n as usize })
    &&& s.round.open ==> free_at(before.states[s.round.idx].cooldown_until, began) && distance(
        start,
        s.round.idx,
        n,
    ) == s.round.offset - 1
    &&& s.step is PreSendShutdown ==> s.round.offset > 0 && s.round.idx == peer_at(
        start,
        s.round.offset - 1,
        n,
    ) && 0 <= s.round.idx < n
    &&& s.step is Delivered ==> 0 <= s.round.idx < n && served(before, s.list, s.round.idx)
        && free_at(before.states[s.round.idx].cooldown_until, began)
    &&& forall|i: int|
        0 <= i < n && #[trigger] distance(start, i, n) >= settled_offset(s) ==> left_alone(
            before,
            s.list,
            i,
        )
    &&& forall|i: int|
        0 <= i < n && #[trigger] distance(start, i, n) < settled_offset(s) ==> if free_at(
            before.states[i].cooldown_until,
            began,
        ) {
            ||| cooled(before, s.list, i, ends)
            ||| s.step is Delivered && i == s.round.idx
            ||| s.step is PreSendShutdown && i == s.round.idx && left_alone(before, s.list, i)
        } else {
            left_alone(before, s.list, i)
        }
}

#[verifier::spinoff_prover]
#[verifier::rlimit(50)]
proof fn lemma_progress<C>(before: PeersView<C>, began: u64, ends: Seq<AttemptEnd<C>>)
    requires
        before.wf(),
        before.peers.len() > 0,
        accepted(RoundState::begin(before, began), ends),
    ensures
        progress(before, began, run(RoundState::begin(before, began), ends), ends),
    decreases ends.len(),
{
    let n = before.peers.len() as int;
    let start = before.next_start();
    vstd::arithmetic::div_mod::lemma_mod_bound(before.cursor as int, n);
    assert forall|i: int| 0 <= i < n implies 0 <= #[trigger] distance(start, i, n) < n by {
        lemma_distance(start, i, n);
    }
    if ends.len() == 0 {
        let moved = PeersView { cursor: before.cursor.wrapping_add(1), ..before };
        lemma_seek(moved, began, start, 0);
    } else {
        lemma_progress(before, began, ends.drop_last());
        let s = run(RoundState::begin(before, began), ends.drop_last());
        let end = ends.last();
        let idx = s.round.idx;
        let after = s.list.ended(idx, end);
        let shorter = ends.drop_last();
        assert(ends[ends.len() - 1] == end);
        assert forall|i: int|
            0 <= i < n && #[trigger] distance(start, i, n) < settled_offset(s) && cooled(
                before,
                s.list,
                i,
                shorter,
            ) implies cooled(before, s.list, i, ends) by {
            let k = choose|k: int|
                0 <= k < shorter.len() && (#[trigger] shorter[k] matches AttemptEnd::Failed { at }
                    && s.list.states[i].cooldown_until == Some((at + PEER_COOLDOWN) as u64));
            assert(ends[k] == shorter[k]);
        }
        assert forall|i: int| 0 <= i < n && i != idx implies #[trigger] distance(start, i, n)
            != s.round.offset - 1 by {
            lemma_distance(start, i, n);
        }
        if end is Failed {
            lemma_seek(after, began, start, s.round.offset);
        }
    }
}

/// What a round makes of the peers. Peers that were cooling down when it began are
/// left alone. Of the others, a failed attempt cools its peer down, and a delivered
/// one frees its peer, keeps its connection and ends the round; each is tried at most
/// once. A shutdown before anything was sent ends the round with no cooldown for the
/// peer that was being tried. A round that fails has tried every peer that was free.
pub proof fn law_round_settles_each_peer_once<C>(
    before: PeersView<C>,
    began: u64,
    ends: Seq<AttemptEnd<C>>,
    i: int,
)
    requires
        before.wf(),
        0 <= i < before.peers.len(),
        accepted(RoundState::begin(before, began), ends),
    ensures
        ({
            let s = run(RoundState::begin(before, began), ends);
            let free = free_at(before.states[i].cooldown_until, began);
            &&& s.list.peers == before.peers
            &&& s.list.cursor == before.cursor.wrapping_add(1)
            &&& !free ==> left_alone(before, s.list, i)
            &&& left_alone(before, s.list, i) || cooled(before, s.list, i, ends) || (s.step
                is Delivered && i == s.round.idx)
            &&& s.step is Delivered ==> {
                &&& ends.last() is Delivered
                &&& served(before, s.list, s.round.idx)
            }
            &&& s.step is Failed && free ==> cooled(before, s.list, i, ends)
            &&& s.step is PreSendShutdown ==> {
                &&& ends.last() is PreSendShutdown
                &&& left_alone(before, s.list, s.round.idx)
            }
            &&& !(s.step is Try) ==> !s.round.open
        }),
{
    lemma_progress(before, began, ends);
    let n = before.peers.len() as int;
    let start = before.next_start();
    vstd::arithmetic::div_mod::lemma_mod_bound(before.cursor as int, n);
    lemma_distance(start, i, n);
    let s = run(RoundState::begin(before, began), ends);
    if s.step is Delivered || s.step is PreSendShutdown {
        lemma_distance(start, s.round.idx, n);
    }
    if ends.len() > 0 {
        let p = run(RoundState::begin(before, began), ends.drop_last());
        lemma_progress(before, began, ends.drop_last());
        if ends.last() is Failed {
            lemma_seek(p.list.ended(p.round.idx, ends.last()), began, start, p.round.offset);
        }
    } else {
        lemma_seek(PeersView { cursor: before.cursor.wrapping_add(1), ..before }, began, start, 0);
    }
}

} // verus!
