//! What a round over several peers does to each of them, field by field.
use crate::laws::reading::{lemma_mentions, mentions};
use crate::peer_rotation::{
    cooldown_after, delivers, distance, free_at, lemma_distance, lemma_peer_at, metrics_after,
    next_action, next_offset, peer_at, tried, AttemptOutcome, PeerMetrics, PeerSendError, RingView,
    RoundAction,
};
use crate::peer_round::{
    lemma_seek, AttemptEnd, PeerRoundView, PeerStep, PeersView, RoundState,
};
use crate::text::decimal;
use crate::udp_attempt::UdpEvent;
use crate::udp_round::{UdpRoundAction, UdpRoundEvent, UdpRoundState, UdpRoundView};
use vstd::prelude::*;

verus! {

/// A peer is free unless it has failed and its cooldown is not over: it is free from
/// the end of the cooldown on, which is five seconds behind the failure. A delivery
/// frees it at once.
pub proof fn law_peers_are_free_after_five_seconds(at: u64, now: u64)
    requires
        at + 5_000_000_000 <= u64::MAX,
    ensures
        free_at(None, now),
        free_at(Some(at), now) <==> at <= now,
        cooldown_after(AttemptOutcome::Delivered) is None,
        cooldown_after(AttemptOutcome::Failed { at }) is Some,
        cooldown_after(AttemptOutcome::Failed { at })->0 == at + 5_000_000_000,
{
}

/// An attempt on a peer counts as one event written, or as one failure and one
/// cooldown.
pub proof fn law_peers_count_their_attempts(m: PeerMetrics, outcome: AttemptOutcome)
    requires
        m.events_written < u64::MAX,
        m.connect_failures < u64::MAX,
        m.cooldowns_entered < u64::MAX,
    ensures
        ({
            let n = metrics_after(m, outcome);
            let d: int = if outcome is Delivered {
                1
            } else {
                0
            };
            &&& n.events_written == m.events_written + d
            &&& n.connect_failures == m.connect_failures + 1 - d
            &&& n.cooldowns_entered == m.cooldowns_entered + 1 - d
        }),
        m.delivered() == metrics_after(m, AttemptOutcome::Delivered),
        forall|at: u64| m.failed() == #[trigger] metrics_after(m, AttemptOutcome::Failed { at }),
{
}

/// The peer at a distance is that many places further on, counted round the ring, and
/// its distance is that again.
pub proof fn law_peers_stand_in_a_ring(start: int, offset: int, n: int)
    requires
        0 <= start < n,
        0 <= offset < n,
    ensures
        start + offset < n ==> peer_at(start, offset, n) == start + offset,
        start + offset >= n ==> peer_at(start, offset, n) == start + offset - n,
        distance(start, peer_at(start, offset, n), n) == offset,
{
    lemma_peer_at(start, offset, n);
    lemma_distance(start, peer_at(start, offset, n), n);
    if start + offset < n {
        vstd::arithmetic::div_mod::lemma_small_mod((start + offset) as nat, n as nat);
    } else {
        vstd::arithmetic::div_mod::lemma_small_mod((start + offset - n) as nat, n as nat);
        vstd::arithmetic::div_mod::lemma_mod_add_multiples_vanish(start + offset - n, n);
    }
}

/// What a round does next: it tries a free peer, the nearest from where it has come to,
/// and fails only where no free peer is left.
pub proof fn law_rounds_try_the_nearest_free_peer<C>(
    list: PeersView<C>,
    began: u64,
    start: int,
    offset: int,
    i: int,
)
    requires
        list.wf(),
        0 <= start < list.peers.len(),
        0 <= offset <= list.peers.len(),
        0 <= i < list.peers.len(),
    ensures
        ({
            let n = list.peers.len() as int;
            let free = list.states[i].cooldown_until is None || list.states[i].cooldown_until->0
                <= began;
            match next_action(list.cooldowns(), began, start, offset) {
                RoundAction::Try { idx } => {
                    &&& idx < n
                    &&& list.states[idx as int].cooldown_until is None
                        || list.states[idx as int].cooldown_until->0 <= began
                    &&& offset <= distance(start, idx as int, n)
                    &&& free && offset <= distance(start, i, n) ==> distance(start, idx as int, n)
                        <= distance(start, i, n)
                    &&& next_offset(list.cooldowns(), began, start, offset) == distance(
                        start,
                        idx as int,
                        n,
                    ) + 1
                },
                RoundAction::Fail { error } => {
                    &&& free ==> distance(start, i, n) < offset
                    &&& error == (PeerSendError::AllPeersUnavailable { n: n as usize })
                },
                RoundAction::Done => false,
            }
        }),
{
    lemma_seek(list, began, start, offset);
    let n = list.peers.len() as int;
    lemma_distance(start, i, n);
}

/// What the end of an attempt does to the list. A delivery frees its peer, keeps the
/// connection and counts; a failure cools its peer down for five seconds from its own
/// time and counts; a shutdown before anything was sent does nothing. No other peer is
/// touched.
pub proof fn law_attempts_settle_one_peer<C>(
    list: PeersView<C>,
    idx: int,
    end: AttemptEnd<C>,
    i: int,
)
    requires
        list.wf(),
        0 <= idx < list.peers.len(),
        0 <= i < list.peers.len(),
        end matches AttemptEnd::Failed { at } ==> at + 5_000_000_000 <= u64::MAX,
    ensures
        ({
            let after = list.ended(idx, end);
            let state = after.states[idx];
            let before = list.counters[idx];
            let counted = after.counters[idx];
            &&& after.peers == list.peers && after.cursor == list.cursor
            &&& after.states.len() == list.states.len() && after.counters.len()
                == list.counters.len()
            &&& i != idx ==> after.states[i] == list.states[i] && after.counters[i]
                == list.counters[i]
            &&& match end {
                AttemptEnd::Delivered { conn } => {
                    &&& state.conn == Some(conn) && state.cooldown_until is None
                    &&& before.events_written < u64::MAX ==> counted.events_written
                        == before.events_written + 1
                    &&& counted.connect_failures == before.connect_failures
                    &&& counted.cooldowns_entered == before.cooldowns_entered
                },
                AttemptEnd::Failed { at } => {
                    &&& state.conn == list.states[idx].conn
                    &&& state.cooldown_until is Some && state.cooldown_until->0 == at
                        + 5_000_000_000
                    &&& counted.events_written == before.events_written
                    &&& before.connect_failures < u64::MAX ==> counted.connect_failures
                        == before.connect_failures + 1
                    &&& before.cooldowns_entered < u64::MAX ==> counted.cooldowns_entered
                        == before.cooldowns_entered + 1
                },
                AttemptEnd::PreSendShutdown => after == list,
            }
        }),
{
}

/// A round begins one place behind the round before and hands a free peer out with its
/// connection, which the list then holds no longer; without peers it fails at once.
pub proof fn law_rounds_begin_with_a_free_peer<C>(list: PeersView<C>, began: u64, i: int)
    requires
        list.wf(),
        0 <= i < list.peers.len() || list.peers.len() == 0,
    ensures
        ({
            let s = RoundState::begin(list, began);
            &&& list.peers.len() == 0 ==> (s.step matches PeerStep::Failed { error } && error is Empty)
                && s.list == list && !s.round.open
            &&& list.peers.len() > 0 ==> {
                &&& s.round.start == list.cursor as int % list.peers.len() as int
                &&& list.cursor < usize::MAX ==> s.list.cursor == list.cursor + 1
                &&& s.round.began == began
                &&& s.round.open <==> s.step is Try
                &&& !(s.step is Delivered) && !(s.step is PreSendShutdown)
                &&& s.step matches PeerStep::Try { idx, conn } ==> {
                    &&& idx == s.round.idx && idx < list.peers.len()
                    &&& conn == list.states[idx as int].conn
                    &&& s.list.states[idx as int].conn is None
                    &&& s.list.states[idx as int].cooldown_until
                        == list.states[idx as int].cooldown_until
                    &&& i != idx ==> s.list.states[i] == list.states[i]
                    &&& list.states[idx as int].cooldown_until is None
                        || list.states[idx as int].cooldown_until->0 <= began
                }
                &&& s.step is Failed ==> s.list.states == list.states && !(
                list.states[i].cooldown_until is None || list.states[i].cooldown_until->0 <= began)
                &&& s.list.counters == list.counters && s.list.peers == list.peers
            }
        }),
{
    if list.peers.len() > 0 {
        let n = list.peers.len() as int;
        vstd::arithmetic::div_mod::lemma_mod_bound(list.cursor as int, n);
        let moved = PeersView { cursor: list.cursor.wrapping_add(1), ..list };
        law_rounds_try_the_nearest_free_peer(moved, began, list.next_start(), 0, i);
        lemma_distance(list.next_start(), i, n);
    }
}

/// A round ends with a delivery where its attempt delivered, with a shutdown where one
/// forestalled it, and goes on after a failure: to a free peer that it has not come
/// past, or to its end.
pub proof fn law_rounds_go_on_after_a_failure<C>(
    round: PeerRoundView,
    list: PeersView<C>,
    end: AttemptEnd<C>,
)
    requires
        list.wf(),
        round.open,
        round.over_list(list),
        end matches AttemptEnd::Failed { at } ==> at + 5_000_000_000 <= u64::MAX,
    ensures
        ({
            let s = RoundState::finish(round, list, end);
            &&& s.step is Delivered <==> end is Delivered
            &&& s.step is PreSendShutdown <==> end is PreSendShutdown
            &&& s.step is Try || s.step is Failed <==> end is Failed
            &&& s.round.open <==> s.step is Try
            &&& s.step matches PeerStep::Try { idx, conn } ==> {
                let after = list.ended(round.idx, end);
                &&& idx == s.round.idx && idx < list.peers.len()
                &&& distance(round.start, idx as int, list.peers.len() as int) >= round.offset
                &&& conn == after.states[idx as int].conn
                &&& after.states[idx as int].cooldown_until is None
                    || after.states[idx as int].cooldown_until->0 <= round.began
            }
            &&& s.step matches PeerStep::Failed { error } ==> error
                == (PeerSendError::AllPeersUnavailable { n: list.peers.len() as usize })
            &&& s.round.began == round.began && s.round.start == round.start
        }),
{
    let after = list.ended(round.idx, end);
    if end is Failed {
        lemma_seek(after, round.began, round.start, round.offset);
    }
}

/// What a whole round leaves of the ring: a peer that was tried is free after a
/// delivery and cools down after a failure, one that was not is as before, and the next
/// round begins one place further on.
pub proof fn law_rings_keep_untried_peers(
    ring: RingView,
    now: u64,
    outcomes: Seq<AttemptOutcome>,
    i: int,
)
    requires
        0 <= i < ring.cooldowns.len(),
        outcomes.len() == ring.cooldowns.len(),
    ensures
        ({
            let after = ring.after_round(now, outcomes);
            let was_tried = tried(ring.cooldowns, outcomes, now, ring.next_start(), i);
            &&& after.cooldowns.len() == ring.cooldowns.len()
            &&& ring.cursor < usize::MAX ==> after.cursor == ring.cursor + 1
            &&& was_tried ==> ring.cooldowns[i] is None || ring.cooldowns[i]->0 <= now
            &&& !was_tried ==> after.cooldowns[i] == ring.cooldowns[i]
            &&& was_tried && outcomes[i] is Delivered ==> after.cooldowns[i] is None
            &&& outcomes[i] matches AttemptOutcome::Failed { at } ==> was_tried && at
                + 5_000_000_000 <= u64::MAX ==> after.cooldowns[i] is Some && after.cooldowns[i]->0
                == at + 5_000_000_000
        }),
        delivers(ring.cooldowns, outcomes, now, i) <==> outcomes[i] is Delivered && (
        ring.cooldowns[i] is None || ring.cooldowns[i]->0 <= now),
{
}

/// The message about peers that are all unavailable tells how many there are, and is
/// not the one about a list without peers.
pub proof fn law_round_errors_count_the_peers(n: usize)
    ensures
        mentions((PeerSendError::AllPeersUnavailable { n }).text(), decimal(n as nat)),
        (PeerSendError::AllPeersUnavailable { n }).text() != PeerSendError::Empty.text(),
{
    reveal_strlit("all ");
    reveal_strlit("no peers configured");
    let tail = " peers are in cooldown or failed this round"@;
    lemma_mentions("all "@, decimal(n as nat), tail);
    assert((PeerSendError::AllPeersUnavailable { n }).text()[0] == 'a');
    assert(PeerSendError::Empty.text()[0] == 'n');
}

/// A round of datagrams has delivered where, and only where, one was sent. It goes on
/// on the same peer as long as its attempt does, and hands the attempt's own steps on;
/// what ends the attempt without a datagram sent ends the round only on a shutdown, or
/// where no free peer is left.
pub proof fn law_datagram_rounds_deliver_when_sent<C>(
    round: UdpRoundView<C>,
    list: PeersView<C>,
    e: UdpRoundEvent<C>,
    at: u64,
    a: UdpRoundAction,
)
    requires
        list.wf(),
        round.wf(list),
        round.accepts(e@, at),
        a@ == UdpRoundState::step(round, list, e@, at).action,
    ensures
        a is Delivered <==> (e matches UdpRoundEvent::Other { event } && event is Sent),
        a is PreSendShutdown <==> (e matches UdpRoundEvent::Other { event } && event is Shutdown),
        e is Bound ==> a is Connect,
        e matches UdpRoundEvent::Other { event } ==> {
            &&& event is Connected ==> a is Send
            &&& event is LookupFailed || event is LookupTimedOut || event is SendFailed ==> a
                is Failed || a is Lookup || a is Send
            &&& event matches UdpEvent::Resolved { addresses } ==> addresses@.len() > 0 ==> a
                is Bind
        },
{
    let attempt = round.attempt->0;
    if let UdpRoundEvent::Other { event } = e {
        let end = round.end(e@, at);
        if round.ends(e@) {
            law_rounds_go_on_after_a_failure(round.round, list, end);
        }
    }
}

/// Where a round of datagrams has come to a peer, the attempt is on that peer's
/// address: it is looked up where there is no socket, and sent to at once where there
/// is one, over that socket.
pub proof fn law_datagram_rounds_enter_the_peer<C>(s: RoundState<C>, aware: bool)
    ensures
        ({
            let u = UdpRoundState::enter(s, aware);
            &&& u.list == s.list && u.round.round == s.round && u.round.aware == aware
            &&& match s.step {
                PeerStep::Try { idx, conn } => {
                    let peer = s.list.peers[idx as int];
                    &&& u.round.socket == conn
                    &&& u.round.attempt is Some
                    &&& u.round.attempt->0.peer == crate::syslog_peers::host_port_text(
                        peer.host@,
                        peer.port as nat,
                    )
                    &&& u.action is Send <==> conn is Some
                    &&& u.action is Lookup <==> conn is None
                    &&& u.round.attempt->0.phase is Sending <==> conn is Some
                    &&& u.round.attempt->0.phase is LookingUp <==> conn is None
                },
                PeerStep::Delivered => u.action is Delivered && u.round.attempt is None,
                PeerStep::Failed { .. } => u.action is Failed && u.round.attempt is None,
                PeerStep::PreSendShutdown => u.action is PreSendShutdown && u.round.attempt is None,
            }
        }),
{
}

/// The socket of a round of datagrams: the one that was bound last, until its address
/// is given up.
pub proof fn law_datagram_rounds_keep_the_bound_socket<C>(
    round: UdpRoundView<C>,
    e: UdpRoundEvent<C>,
)
    ensures
        match e {
            UdpRoundEvent::Bound { socket } => round.socket_after(e@) == Some(socket),
            UdpRoundEvent::Other { event } => if event is BindFailed || event is ConnectFailed
                || event is ConnectTimedOut {
                round.socket_after(e@) is None
            } else {
                round.socket_after(e@) == round.socket
            },
        },
{
}

} // verus!
