//! A round of the `syslog_udp` output: attempts to send one datagram, on one peer
//! after the other, until one has sent it.
//!
//! The caller performs what a step asks for, on the peer that the round is at, and
//! reports what came of it.
use crate::metrics::OutputMetrics;
use crate::peer_round::{
    accepted as ends_accepted, cooled, law_round_settles_each_peer_once, left_alone, lemma_seek,
    peers_view, run as run_ends, served, AttemptEnd, PeerRound, PeerRoundView, PeerStep,
    PeersView, RoundState,
};
use crate::peer_rotation::{free_at, PeerList, PeerSendError};
use crate::syslog_peers::{host_port_text, PEER_COOLDOWN};
use crate::udp_attempt::{
    UdpAction, UdpActionView, UdpAttempt, UdpEvent, UdpEventView, UdpView,
};
use vstd::prelude::*;

verus! {

/// What came of the last step of a round.
#[derive(Debug)]
pub enum UdpRoundEvent<C> {
    /// A socket is bound.
    Bound { socket: C },
    /// Anything else.
    Other { event: UdpEvent },
}

pub ghost enum UdpRoundEventView<C> {
    Bound { socket: C },
    Other { event: UdpEventView },
}

impl<C> View for UdpRoundEvent<C> {
    type V = UdpRoundEventView<C>;

    open spec fn view(&self) -> UdpRoundEventView<C> {
        match self {
            UdpRoundEvent::Bound { socket } => UdpRoundEventView::Bound { socket: *socket },
            UdpRoundEvent::Other { event } => UdpRoundEventView::Other { event: event@ },
        }
    }
}

impl<C> UdpRoundEventView<C> {
    /// What an event is to the attempt on a peer.
    pub open spec fn plain(self) -> UdpEventView {
        match self {
            UdpRoundEventView::Bound { .. } => UdpEventView::Bound,
            UdpRoundEventView::Other { event } => event,
        }
    }
}

/// What is to be done next in a round.
#[derive(Debug)]
pub enum UdpRoundAction {
    Lookup,
    Bind { index: usize, v6: bool },
    Connect { index: usize },
    Send,
    Delivered,
    Failed { error: PeerSendError },
    PreSendShutdown,
}

pub ghost enum UdpRoundActionView {
    Lookup,
    Bind { index: int, v6: bool },
    Connect { index: int },
    Send,
    Delivered,
    Failed { error: PeerSendError },
    PreSendShutdown,
}

impl View for UdpRoundAction {
    type V = UdpRoundActionView;

    open spec fn view(&self) -> UdpRoundActionView {
        match self {
            UdpRoundAction::Lookup => UdpRoundActionView::Lookup,
            UdpRoundAction::Bind { index, v6 } => UdpRoundActionView::Bind {
                index: *index as int,
                v6: *v6,
            },
            UdpRoundAction::Connect { index } => UdpRoundActionView::Connect {
                index: *index as int,
            },
            UdpRoundAction::Send => UdpRoundActionView::Send,
            UdpRoundAction::Delivered => UdpRoundActionView::Delivered,
            UdpRoundAction::Failed { error } => UdpRoundActionView::Failed { error: *error },
            UdpRoundAction::PreSendShutdown => UdpRoundActionView::PreSendShutdown,
        }
    }
}

/// A round in progress: how far it has come, and, while it is open, the attempt on
/// the peer that it is at with the socket of that peer.
pub ghost struct UdpRoundView<C> {
    pub round: PeerRoundView,
    pub aware: bool,
    pub attempt: Option<UdpView>,
    pub socket: Option<C>,
}

/// A round, the list it goes over, and what is to be done next.
pub ghost struct UdpRoundState<C> {
    pub round: UdpRoundView<C>,
    pub list: PeersView<C>,
    pub action: UdpRoundActionView,
}

impl<C> UdpRoundState<C> {
    /// A round that has come to its next peer, or to its end. A peer that is already
    /// connected goes straight to the send.
    pub open spec fn enter(s: RoundState<C>, aware: bool) -> UdpRoundState<C> {
        match s.step {
            PeerStep::Try { idx, conn } => {
                let peer = s.list.peers[idx as int];
                UdpRoundState {
                    round: UdpRoundView {
                        round: s.round,
                        aware,
                        attempt: Some(
                            UdpView::start(
                                host_port_text(peer.host@, peer.port as nat),
                                conn is Some,
                                aware,
                            ),
                        ),
                        socket: conn,
                    },
                    list: s.list,
                    action: if conn is Some {
                        UdpRoundActionView::Send
                    } else {
                        UdpRoundActionView::Lookup
                    },
                }
            },
            PeerStep::Delivered => UdpRoundState {
                round: UdpRoundView { round: s.round, aware, attempt: None, socket: None },
                list: s.list,
                action: UdpRoundActionView::Delivered,
            },
            PeerStep::Failed { error } => UdpRoundState {
                round: UdpRoundView { round: s.round, aware, attempt: None, socket: None },
                list: s.list,
                action: UdpRoundActionView::Failed { error },
            },
            PeerStep::PreSendShutdown => UdpRoundState {
                round: UdpRoundView { round: s.round, aware, attempt: None, socket: None },
                list: s.list,
                action: UdpRoundActionView::PreSendShutdown,
            },
        }
    }

    /// The first step of a round.
    pub open spec fn begin(list: PeersView<C>, began: u64, aware: bool) -> UdpRoundState<C> {
        UdpRoundState::enter(RoundState::begin(list, began), aware)
    }

    /// The next step of a round, after an event at the time `at`.
    pub open spec fn step(
        round: UdpRoundView<C>,
        list: PeersView<C>,
        e: UdpRoundEventView<C>,
        at: u64,
    ) -> UdpRoundState<C> {
        let on = UdpRoundView {
            attempt: Some(round.attempt->0.after(e.plain())),
            socket: round.socket_after(e),
            ..round
        };
        match round.attempt->0.action(e.plain()) {
            UdpActionView::Lookup => UdpRoundState {
                round: on,
                list,
                action: UdpRoundActionView::Lookup,
            },
            UdpActionView::Bind { index, v6 } => UdpRoundState {
                round: on,
                list,
                action: UdpRoundActionView::Bind { index, v6 },
            },
            UdpActionView::Connect { index } => UdpRoundState {
                round: on,
                list,
                action: UdpRoundActionView::Connect { index },
            },
            UdpActionView::Send => UdpRoundState {
                round: on,
                list,
                action: UdpRoundActionView::Send,
            },
            _ => UdpRoundState::enter(
                RoundState::finish(round.round, list, round.end(e, at)),
                round.aware,
            ),
        }
    }
}

impl<C> UdpRoundView<C> {
    pub open spec fn wf(self, list: PeersView<C>) -> bool {
        &&& self.round.over_list(list)
        &&& self.round.open <==> self.attempt is Some
        &&& self.attempt matches Some(a) ==> {
            &&& a.wf()
            &&& a.aware == self.aware
            &&& a.phase is Connecting || a.phase is Sending ==> self.socket is Some
            &&& !(a.phase is Finished)
        }
    }

    /// Whether this can come next, at the time `at`.
    pub open spec fn accepts(self, e: UdpRoundEventView<C>, at: u64) -> bool {
        &&& self.attempt matches Some(a) && a.accepts(e.plain())
        &&& e matches UdpRoundEventView::Other { event } ==> !(event is Bound)
        &&& at + PEER_COOLDOWN <= u64::MAX
    }

    /// The socket of the peer after an event. That of an address that is given up is
    /// closed.
    pub open spec fn socket_after(self, e: UdpRoundEventView<C>) -> Option<C> {
        match e {
            UdpRoundEventView::Bound { socket } => Some(socket),
            UdpRoundEventView::Other { event } => if UdpView::gives_up_address(event) {
                None
            } else {
                self.socket
            },
        }
    }

    /// Whether an event ends the attempt on the peer.
    pub open spec fn ends(self, e: UdpRoundEventView<C>) -> bool {
        let a = self.attempt->0.action(e.plain());
        a is Delivered || a is Failed || a is PreSendShutdown
    }

    /// How the attempt on the peer ends with an event.
    pub open spec fn end(self, e: UdpRoundEventView<C>, at: u64) -> AttemptEnd<C> {
        match self.attempt->0.action(e.plain()) {
            UdpActionView::Delivered => AttemptEnd::Delivered { conn: self.socket->0 },
            UdpActionView::PreSendShutdown => AttemptEnd::PreSendShutdown,
            _ => AttemptEnd::Failed { at },
        }
    }
}

/// One round in progress.
#[derive(Debug)]
pub struct UdpRound<C> {
    round: PeerRound,
    aware: bool,
    attempt: Option<UdpAttempt>,
    socket: Option<C>,
}

impl<C> View for UdpRound<C> {
    type V = UdpRoundView<C>;

    closed spec fn view(&self) -> UdpRoundView<C> {
        UdpRoundView {
            round: self.round@,
            aware: self.aware,
            attempt: match self.attempt {
                Some(a) => Some(a@),
                None => None,
            },
            socket: self.socket,
        }
    }
}

impl<C> UdpRound<C> {
    /// Whether the round belongs to a list.
    pub closed spec fn over_list(&self, list: PeersView<C>) -> bool {
        self@.wf(list) && self.round.over_list(list)
    }

    // What a round holds once it has come to its next peer, or to its end.
    fn entered(step: PeerStep<C>, aware: bool, list: &PeerList<C>) -> (r: (
        Option<UdpAttempt>,
        Option<C>,
        UdpRoundAction,
    ))
        requires
            step matches PeerStep::Try { idx, .. } ==> idx < list.peer_seq().len(),
        ensures
            forall|round: PeerRoundView|
                ({
                    let state = #[trigger] UdpRoundState::enter(
                        RoundState { round, list: peers_view(*list), step },
                        aware,
                    );
                    &&& state.round.attempt == match r.0 {
                        Some(a) => Some(a@),
                        None => None,
                    }
                    &&& state.round.socket == r.1
                    &&& state.action == r.2@
                }),
    {
        match step {
            PeerStep::Try { idx, conn } => {
                let address = list.peers()[idx].address();
                let connected = conn.is_some();
                let (attempt, _) = UdpAttempt::new(address.as_str(), connected, aware);
                let action = if connected {
                    UdpRoundAction::Send
                } else {
                    UdpRoundAction::Lookup
                };
                (Some(attempt), conn, action)
            },
            PeerStep::Delivered => (None, None, UdpRoundAction::Delivered),
            PeerStep::Failed { error } => (None, None, UdpRoundAction::Failed { error }),
            PeerStep::PreSendShutdown => (None, None, UdpRoundAction::PreSendShutdown),
        }
    }

    /// Starts a round at the time `began`. `aware` says whether a shutdown ends it
    /// while nothing has been sent.
    pub fn begin(list: &mut PeerList<C>, began: u64, aware: bool) -> (r: (
        UdpRound<C>,
        UdpRoundAction,
    ))
        requires
            old(list).wf(),
        ensures
            final(list).wf(),
            r.0.over_list(peers_view(*final(list))),
            r.0@.wf(peers_view(*final(list))),
            ({
                let state = UdpRoundState::begin(peers_view(*old(list)), began, aware);
                &&& r.0@ == state.round
                &&& peers_view(*final(list)) == state.list
                &&& r.1@ == state.action
            }),
    {
        let (round, step) = PeerRound::begin(list, began);
        assert(RoundState::begin(peers_view(*old(list)), began) == (RoundState {
            round: round@,
            list: peers_view(*list),
            step,
        }));
        let (attempt, socket, action) = UdpRound::entered(step, aware, list);
        (UdpRound { round, aware, attempt, socket }, action)
    }

    /// The peer that is being tried.
    pub fn peer(&self) -> (idx: usize)
        ensures
            idx == self@.round.idx,
    {
        self.round.peer()
    }

    /// The socket of the peer that is being tried.
    pub fn socket(&self) -> (socket: Option<&C>)
        ensures
            match socket {
                Some(c) => self@.socket == Some(*c),
                None => self@.socket is None,
            },
    {
        self.socket.as_ref()
    }

    /// Takes in what came of the last step, at the time `at`, and says what is to be
    /// done next.
    pub fn step(
        &mut self,
        list: &mut PeerList<C>,
        event: UdpRoundEvent<C>,
        at: u64,
        metrics: &mut OutputMetrics,
    ) -> (action: UdpRoundAction)
        requires
            old(list).wf(),
            old(self).over_list(peers_view(*old(list))),
            old(self)@.accepts(event@, at),
        ensures
            final(list).wf(),
            final(self).over_list(peers_view(*final(list))),
            final(self)@.wf(peers_view(*final(list))),
            ({
                let state = UdpRoundState::step(
                    old(self)@,
                    peers_view(*old(list)),
                    event@,
                    at,
                );
                &&& final(self)@ == state.round
                &&& peers_view(*final(list)) == state.list
                &&& action@ == state.action
            }),
            *final(metrics) == old(self)@.attempt->0.counted(event@.plain(), *old(metrics)),
    {
        let ghost before = peers_view(*old(list));
        let mut attempt = match self.attempt.take() {
            Some(attempt) => attempt,
            None => {
                return UdpRoundAction::PreSendShutdown;
            },
        };
        let action = match event {
            UdpRoundEvent::Bound { socket } => {
                self.socket = Some(socket);
                attempt.step(UdpEvent::Bound, metrics)
            },
            UdpRoundEvent::Other { event } => {
                if matches!(
                    event,
                    UdpEvent::BindFailed | UdpEvent::ConnectFailed | UdpEvent::ConnectTimedOut
                ) {
                    self.socket = None;
                }
                attempt.step(event, metrics)
            },
        };
        let end = match action {
            UdpAction::Lookup => {
                self.attempt = Some(attempt);
                return UdpRoundAction::Lookup;
            },
            UdpAction::Bind { index, v6 } => {
                self.attempt = Some(attempt);
                return UdpRoundAction::Bind { index, v6 };
            },
            UdpAction::Connect { index } => {
                self.attempt = Some(attempt);
                return UdpRoundAction::Connect { index };
            },
            UdpAction::Send => {
                self.attempt = Some(attempt);
                return UdpRoundAction::Send;
            },
            UdpAction::Delivered => match self.socket.take() {
                Some(conn) => AttemptEnd::Delivered { conn },
                None => AttemptEnd::Failed { at },
            },
            UdpAction::Failed { .. } => AttemptEnd::Failed { at },
            UdpAction::PreSendShutdown => AttemptEnd::PreSendShutdown,
        };
        assert(end == old(self)@.end(event@, at));
        let step = self.round.finish(list, end);
        assert(RoundState::finish(old(self)@.round, before, end) == (RoundState {
            round: self.round@,
            list: peers_view(*list),
            step,
        }));
        let (attempt, socket, action) = UdpRound::entered(step, self.aware, list);
        self.attempt = attempt;
        self.socket = socket;
        action
    }
}

/// The round after a sequence of events, each with its time.
pub open spec fn run<C>(s: UdpRoundState<C>, es: Seq<(UdpRoundEventView<C>, u64)>) -> UdpRoundState<
    C,
>
    decreases es.len(),
{
    if es.len() == 0 {
        s
    } else {
        let before = run(s, es.drop_last());
        UdpRoundState::step(before.round, before.list, es.last().0, es.last().1)
    }
}

/// Whether each event of a sequence can come where it stands.
pub open spec fn accepted<C>(s: UdpRoundState<C>, es: Seq<(UdpRoundEventView<C>, u64)>) -> bool
    decreases es.len(),
{
    es.len() == 0 || (accepted(s, es.drop_last()) && run(s, es.drop_last()).round.accepts(
        es.last().0,
        es.last().1,
    ))
}

/// How the attempts of a sequence of events ended, in order.
pub open spec fn attempt_ends<C>(
    s: UdpRoundState<C>,
    es: Seq<(UdpRoundEventView<C>, u64)>,
) -> Seq<AttemptEnd<C>>
    decreases es.len(),
{
    if es.len() == 0 {
        Seq::empty()
    } else {
        let ends = attempt_ends(s, es.drop_last());
        let round = run(s, es.drop_last()).round;
        if round.ends(es.last().0) {
            ends.push(round.end(es.last().0, es.last().1))
        } else {
            ends
        }
    }
}

proof fn lemma_ends<C>(
    list: PeersView<C>,
    began: u64,
    aware: bool,
    es: Seq<(UdpRoundEventView<C>, u64)>,
)
    requires
        accepted(UdpRoundState::begin(list, began, aware), es),
    ensures
        ({
            let start = UdpRoundState::begin(list, began, aware);
            let s = run(start, es);
            let t = run_ends(RoundState::begin(list, began), attempt_ends(start, es));
            &&& ends_accepted(RoundState::begin(list, began), attempt_ends(start, es))
            &&& s.round.round == t.round
            &&& s.list == t.list
            &&& s.round.aware == aware
            &&& s.round.attempt is Some <==> t.step is Try
            &&& s.round.round.open <==> t.step is Try
            &&& s.action is Delivered <==> t.step is Delivered
            &&& s.action is PreSendShutdown <==> t.step is PreSendShutdown
            &&& s.action is Failed <==> t.step is Failed
        }),
    decreases es.len(),
{
    let start = UdpRoundState::begin(list, began, aware);
    if es.len() > 0 {
        lemma_ends(list, began, aware, es.drop_last());
        let before = run(start, es.drop_last());
        let ends = attempt_ends(start, es.drop_last());
        if before.round.ends(es.last().0) {
            let end = before.round.end(es.last().0, es.last().1);
            assert(ends.push(end).drop_last() =~= ends);
        }
    }
}

/// An event that ends the attempt on a peer settles that peer and no other. A failed
/// attempt cools its peer down; a sent datagram frees its peer and ends the round; a
/// shutdown before the send ends the round and leaves the list as it is. Any other
/// event leaves the list as it is, too.
pub proof fn law_attempt_settles_its_peer<C>(
    round: UdpRoundView<C>,
    list: PeersView<C>,
    e: UdpRoundEventView<C>,
    at: u64,
)
    requires
        list.wf(),
        round.wf(list),
        round.accepts(e, at),
    ensures
        ({
            let next = UdpRoundState::step(round, list, e, at);
            let done = round.attempt->0.action(e.plain());
            let idx = round.round.idx;
            &&& done is Failed ==> {
                &&& next.list.states[idx].cooldown_until == Some((at + PEER_COOLDOWN) as u64)
                &&& next.list.counters[idx] == list.counters[idx].failed()
                &&& !(next.action is Delivered)
                &&& !(next.action is PreSendShutdown)
            }
            &&& done is Delivered ==> {
                &&& next.action is Delivered
                &&& !next.round.round.open
                &&& next.list.states[idx].cooldown_until is None
                &&& next.list.states[idx].conn == round.socket
                &&& next.list.counters[idx] == list.counters[idx].delivered()
            }
            &&& e.plain() is Shutdown ==> {
                &&& next.action is PreSendShutdown
                &&& !next.round.round.open
                &&& next.list == list
            }
            &&& !round.ends(e) ==> next.list == list
            &&& forall|i: int|
                0 <= i < list.peers.len() && i != idx ==> #[trigger] left_alone(list, next.list, i)
        }),
{
    if round.ends(e) {
        let after = list.ended(round.round.idx, round.end(e, at));
        lemma_seek(after, round.round.began, round.round.start, round.round.offset);
    }
}

/// What a round makes of the peers, whatever the order of events. Peers that were
/// cooling down when it began are left alone. Each of the others is tried at most
/// once: it is left alone, cooled down by a failed attempt, or it is the one that the
/// datagram was sent to, with which the round ends. A round that a shutdown ended has
/// not cooled the peer down that it was at, and has sent nothing; one that failed has
/// tried every peer that was free.
pub proof fn law_udp_round_settles_each_peer_once<C>(
    list: PeersView<C>,
    began: u64,
    aware: bool,
    es: Seq<(UdpRoundEventView<C>, u64)>,
    i: int,
)
    requires
        list.wf(),
        0 <= i < list.peers.len(),
        accepted(UdpRoundState::begin(list, began, aware), es),
    ensures
        ({
            let start = UdpRoundState::begin(list, began, aware);
            let s = run(start, es);
            let ends = attempt_ends(start, es);
            let free = free_at(list.states[i].cooldown_until, began);
            &&& s.list.peers == list.peers
            &&& !free ==> left_alone(list, s.list, i)
            &&& left_alone(list, s.list, i) || cooled(list, s.list, i, ends) || (s.action
                is Delivered && i == s.round.round.idx)
            &&& s.action is Delivered ==> served(list, s.list, s.round.round.idx)
            &&& s.action is Failed && free ==> cooled(list, s.list, i, ends)
            &&& s.action is PreSendShutdown ==> {
                &&& aware
                &&& left_alone(list, s.list, s.round.round.idx)
            }
            &&& s.round.round.open <==> !(s.action is Delivered || s.action is Failed || s.action
                is PreSendShutdown)
        }),
{
    lemma_ends(list, began, aware, es);
    let start = UdpRoundState::begin(list, began, aware);
    law_round_settles_each_peer_once(list, began, attempt_ends(start, es), i);
    lemma_shutdown_needs_awareness(list, began, aware, es);
}

proof fn lemma_shutdown_needs_awareness<C>(
    list: PeersView<C>,
    began: u64,
    aware: bool,
    es: Seq<(UdpRoundEventView<C>, u64)>,
)
    requires
        accepted(UdpRoundState::begin(list, began, aware), es),
    ensures
        ({
            let s = run(UdpRoundState::begin(list, began, aware), es);
            &&& s.round.attempt matches Some(a) ==> a.aware == aware
            &&& s.round.aware == aware
            &&& s.action is PreSendShutdown ==> aware
        }),
    decreases es.len(),
{
    if es.len() > 0 {
        lemma_shutdown_needs_awareness(list, began, aware, es.drop_last());
    }
}

} // verus!
