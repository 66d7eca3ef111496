//! What sending of datagrams does, said of what the caller reports and what it is told
//! to do.
use crate::laws::reading::{lemma_mentions, mentions};
use crate::metrics::OutputMetrics;
use crate::udp::{UdpWrite, UdpWriteAction, UdpWriteEvent};
use crate::udp_attempt::{
    address_views, bind_failed_text, connect_failed_text, wildcard, UdpAction,
    UdpEvent, UdpView,
};
use vstd::prelude::*;

verus! {

/// A message counts as sent where, and only where, it was; a bind, a connect and a
/// send that fail end the write, and an error about the address names it.
pub proof fn law_udp_is_done_when_sent(
    s: UdpWrite,
    e: UdpWriteEvent,
    address: Seq<char>,
    a: UdpWriteAction,
)
    requires
        a@ == UdpWrite::action(e, address),
    ensures
        a is Done <==> e is Sent,
        a is Connect <==> e is Bound,
        a is Send <==> e is Connected,
        a is Fail <==> e is BindFailed || e is ConnectFailed || e is SendFailed,
        a matches UdpWriteAction::Fail { error } ==> e is BindFailed || mentions(error@, address),
        s.accepts(e) ==> {
            let t = s.after(e);
            &&& t.phase is Connecting <==> a is Connect
            &&& t.phase is Sending <==> a is Send
            &&& t.phase is Finished <==> a is Done || a is Fail
            &&& t.connected <==> s.connected || e is Connected
        },
        s.phase is Binding ==> (s.accepts(e) <==> e is Bound || e is BindFailed),
        s.phase is Connecting ==> (s.accepts(e) <==> e is Connected || e is ConnectFailed),
        s.phase is Sending ==> (s.accepts(e) <==> e is Sent || e is SendFailed),
        s.phase is Finished ==> !s.accepts(e),
{
    let none = Seq::<char>::empty();
    let c = "udp output: failed to connect to "@;
    let d = "udp output: send to "@;
    lemma_mentions(c, address, none);
    lemma_mentions(d, address, none);
    assert(c + address + none =~= c + address);
    assert(d + address + none =~= d + address);
}

/// A datagram counts as delivered to a peer where, and only where, it was sent. Every
/// address that the lookup found is tried, in order, before the attempt fails, each
/// with a socket of its own family; a lookup or a send that fails ends it at once, and
/// only a send gives the connection up.
pub proof fn law_datagram_is_delivered_when_sent(s: UdpView, e: UdpEvent, a: UdpAction, t: UdpView)
    requires
        s.wf(),
        s.accepts(e@),
        a@ == s.action(e@),
        t == s.after(e@),
    ensures
        a is Delivered <==> e is Sent,
        a is PreSendShutdown <==> e is Shutdown,
        a is Send <==> e is Connected,
        a is Connect <==> e is Bound,
        !(a is Lookup),
        e matches UdpEvent::Resolved { addresses } ==> {
            &&& a is Bind <==> addresses@.len() > 0
            &&& a is Failed <==> addresses@.len() == 0
            &&& a matches UdpAction::Bind { index, v6 } ==> index == 0 && v6 == addresses@[0].v6
            &&& t.addresses.len() == addresses@.len()
            &&& forall|i: int|
                0 <= i < addresses@.len() ==> #[trigger] t.addresses[i] == (
                    addresses@[i].text@,
                    addresses@[i].v6,
                )
        },
        a matches UdpAction::Connect { index } ==> index == s.next,
        e is BindFailed || e is ConnectFailed || e is ConnectTimedOut ==> {
            &&& a is Bind <==> s.next + 1 < s.addresses.len()
            &&& a is Failed <==> s.next + 1 >= s.addresses.len()
            &&& a matches UdpAction::Bind { index, v6 } ==> index == s.next + 1 && v6
                == s.addresses[s.next + 1].1
            &&& t.next == s.next + 1
        },
        e is LookupFailed || e is LookupTimedOut || e is SendFailed ==> a is Failed,
        a matches UdpAction::Failed { drop_connection, .. } ==> (drop_connection <==> e
            is SendFailed),
        e is Bound || e is Connected ==> t.next == s.next,
        !(e is Resolved) ==> t.addresses == s.addresses,
        t.peer == s.peer && t.aware == s.aware,
        t.phase is Binding <==> a is Bind,
        t.phase is Connecting <==> a is Connect,
        t.phase is Sending <==> a is Send,
        t.phase is Finished <==> a is Delivered || a is Failed || a is PreSendShutdown,
{
    if let UdpEvent::Resolved { addresses } = e {
        if addresses@.len() > 0 {
            assert(address_views(addresses@)[0].1 == addresses@[0].v6);
        }
    }
}

/// What can come of a step of an attempt to send a datagram. A shutdown is heeded only
/// while nothing can have been sent, and only where the attempt is to heed it. An
/// attempt on a connected peer begins with the send.
pub proof fn law_datagram_steps_in_order(
    peer: Seq<char>,
    connected: bool,
    aware: bool,
    s: UdpView,
    e: UdpEvent,
)
    ensures
        ({
            let first = UdpView::start(peer, connected, aware);
            &&& first.phase is Sending <==> connected
            &&& first.phase is LookingUp <==> !connected
            &&& first.peer == peer && first.aware == aware && first.next == 0
        }),
        s.phase is LookingUp ==> (s.accepts(e@) <==> e is Resolved || e is LookupFailed
            || e is LookupTimedOut || e is Shutdown && s.aware),
        s.phase is Binding ==> (s.accepts(e@) <==> e is Bound || e is BindFailed),
        s.phase is Connecting ==> (s.accepts(e@) <==> e is Connected || e is ConnectFailed
            || e is ConnectTimedOut || e is Shutdown && s.aware),
        s.phase is Sending ==> (s.accepts(e@) <==> e is Sent || e is SendFailed),
        s.phase is Finished ==> !s.accepts(e@),
{
}

/// The error of an attempt to send a datagram names the peer, and the address where
/// one was given up; where no socket could be bound it names the address to bind.
pub proof fn law_datagram_errors_name_the_peer(s: UdpView, e: UdpEvent, a: UdpAction)
    requires
        s.wf(),
        s.accepts(e@),
        a@ == s.action(e@),
    ensures
        a matches UdpAction::Failed { error, .. } ==> {
            &&& !(e is BindFailed) ==> mentions(error@, s.peer)
            &&& e is ConnectFailed || e is ConnectTimedOut ==> mentions(
                error@,
                s.addresses[s.next].0,
            )
            &&& e is BindFailed ==> mentions(error@, wildcard(s.addresses[s.next].1))
        },
        wildcard(true)[0] == '[' && wildcard(true)[1] == ':' && wildcard(true).last() == '0',
        wildcard(false)[0] == '0' && wildcard(false)[1] == '.' && wildcard(false).last() == '0',
{
    reveal_strlit("[::]:0");
    reveal_strlit("0.0.0.0:0");
    assert("[::]:0"@.len() == 6 && "0.0.0.0:0"@.len() == 9);
    let none = Seq::<char>::empty();
    let late = " timed out"@;
    let peer = s.peer;
    let address = s.addresses[s.next].0;
    let v6 = s.addresses[s.next].1;
    let found = "syslog_udp: name resolution for "@;
    lemma_mentions(found, peer, " returned no addresses"@);
    let look = "syslog_udp lookup "@;
    lemma_mentions(look, peer, none);
    assert(look + peer + none =~= look + peer);
    lemma_mentions(look, peer, late);
    let send = "syslog_udp send to "@;
    lemma_mentions(send, peer, none);
    assert(send + peer + none =~= send + peer);
    let conn = "syslog_udp connect to "@;
    let open = " ("@;
    let close = ")"@;
    let text = connect_failed_text(peer, address);
    lemma_mentions(conn, peer, open + (address + close));
    assert(conn + peer + (open + (address + close)) =~= text);
    lemma_mentions(conn, peer, open + (address + close) + late);
    assert(conn + peer + (open + (address + close) + late) =~= text + late);
    lemma_mentions(conn + peer + open, address, close);
    assert(conn + peer + open + address + close =~= text);
    lemma_mentions(conn + peer + open, address, close + late);
    assert(conn + peer + open + address + (close + late) =~= text + late);
    let bind = "syslog_udp output: failed to bind ephemeral socket ("@;
    lemma_mentions(bind, wildcard(v6), close);
    assert(bind + wildcard(v6) + close == bind_failed_text(v6));
}

/// A step of an attempt to send a datagram counts the bytes that were sent and nothing
/// else.
pub proof fn law_datagrams_count_their_bytes(
    s: UdpView,
    e: UdpEvent,
    m: OutputMetrics,
    n: OutputMetrics,
)
    requires
        n == s.counted(e@, m),
    ensures
        n == (OutputMetrics { bytes_written: n.bytes_written, ..m }),
        match e {
            UdpEvent::Sent { bytes } => m.bytes_written + bytes <= u64::MAX ==> n.bytes_written
                == m.bytes_written + bytes,
            _ => n == m,
        },
{
}

} // verus!
