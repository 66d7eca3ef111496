//! One attempt to send a datagram to a peer: name lookup, an unbound socket for
//! each resolved address in turn until one connects, then the send.
//!
//! The caller performs what a step asks for and reports what came of it.
use crate::error::{cat2, cat3};
use crate::metrics::OutputMetrics;
use vstd::prelude::*;

verus! {

/// A resolved socket address: its text and its family.
#[derive(Debug)]
pub struct ResolvedAddress {
    pub text: String,
    pub v6: bool,
}

/// Where an attempt stands.
#[derive(Debug, Clone, Copy, PartialEq, Eq, Structural)]
pub enum UdpPhase {
    LookingUp,
    Binding,
    Connecting,
    Sending,
    Finished,
}

/// What came of the last step.
#[derive(Debug)]
pub enum UdpEvent {
    Resolved { addresses: Vec<ResolvedAddress> },
    LookupFailed,
    LookupTimedOut,
    Bound,
    BindFailed,
    Connected,
    ConnectFailed,
    ConnectTimedOut,
    /// A shutdown was signalled while nothing had left the process.
    Shutdown,
    Sent { bytes: usize },
    SendFailed,
}

/// What is to be done next. `Bind` names the wildcard address of the family of the
/// address that is tried; `Connect` goes to the address with the index given.
#[derive(Debug)]
pub enum UdpAction {
    Lookup,
    Bind { index: usize, v6: bool },
    Connect { index: usize },
    Send,
    Delivered,
    Failed { error: String, drop_connection: bool },
    PreSendShutdown,
}

pub ghost enum UdpEventView {
    Resolved { addresses: Seq<(Seq<char>, bool)> },
    LookupFailed,
    LookupTimedOut,
    Bound,
    BindFailed,
    Connected,
    ConnectFailed,
    ConnectTimedOut,
    Shutdown,
    Sent { bytes: usize },
    SendFailed,
}

pub ghost enum UdpActionView {
    Lookup,
    Bind { index: int, v6: bool },
    Connect { index: int },
    Send,
    Delivered,
    Failed { error: Seq<char>, drop_connection: bool },
    PreSendShutdown,
}

/// Resolved addresses by their views.
pub open spec fn address_views(addresses: Seq<ResolvedAddress>) -> Seq<(Seq<char>, bool)> {
    addresses.map_values(|a: ResolvedAddress| (a.text@, a.v6))
}

impl View for UdpEvent {
    type V = UdpEventView;

    open spec fn view(&self) -> UdpEventView {
        match self {
            UdpEvent::Resolved { addresses } => UdpEventView::Resolved {
                addresses: address_views(addresses@),
            },
            UdpEvent::LookupFailed => UdpEventView::LookupFailed,
            UdpEvent::LookupTimedOut => UdpEventView::LookupTimedOut,
            UdpEvent::Bound => UdpEventView::Bound,
            UdpEvent::BindFailed => UdpEventView::BindFailed,
            UdpEvent::Connected => UdpEventView::Connected,
            UdpEvent::ConnectFailed => UdpEventView::ConnectFailed,
            UdpEvent::ConnectTimedOut => UdpEventView::ConnectTimedOut,
            UdpEvent::Shutdown => UdpEventView::Shutdown,
            UdpEvent::Sent { bytes } => UdpEventView::Sent { bytes: *bytes },
            UdpEvent::SendFailed => UdpEventView::SendFailed,
        }
    }
}

impl View for UdpAction {
    type V = UdpActionView;

    open spec fn view(&self) -> UdpActionView {
        match self {
            UdpAction::Lookup => UdpActionView::Lookup,
            UdpAction::Bind { index, v6 } => UdpActionView::Bind { index: *index as int, v6: *v6 },
            UdpAction::Connect { index } => UdpActionView::Connect { index: *index as int },
            UdpAction::Send => UdpActionView::Send,
            UdpAction::Delivered => UdpActionView::Delivered,
            UdpAction::Failed { error, drop_connection } => UdpActionView::Failed {
                error: error@,
                drop_connection: *drop_connection,
            },
            UdpAction::PreSendShutdown => UdpActionView::PreSendShutdown,
        }
    }
}

/// The wildcard address that a socket of a family is bound to.
pub open spec fn wildcard(v6: bool) -> Seq<char> {
    if v6 {
        "[::]:0"@
    } else {
        "0.0.0.0:0"@
    }
}

/// The wildcard address that a socket of a family is bound to.
pub fn bind_address(v6: bool) -> (s: &'static str)
    ensures
        s@ == wildcard(v6),
{
    if v6 {
        "[::]:0"
    } else {
        "0.0.0.0:0"
    }
}

pub open spec fn bind_failed_text(v6: bool) -> Seq<char> {
    "syslog_udp output: failed to bind ephemeral socket ("@ + wildcard(v6) + ")"@
}

pub open spec fn connect_failed_text(peer: Seq<char>, address: Seq<char>) -> Seq<char> {
    "syslog_udp connect to "@ + peer + " ("@ + (address + ")"@)
}

/// The state of an attempt. `next` is the address that is tried; `aware` says
/// whether a shutdown ends the attempt while nothing has been sent.
pub ghost struct UdpView {
    pub peer: Seq<char>,
    pub aware: bool,
    pub addresses: Seq<(Seq<char>, bool)>,
    pub next: int,
    pub phase: UdpPhase,
}

impl UdpView {
    /// The state before the first step.
    pub open spec fn start(peer: Seq<char>, connected: bool, aware: bool) -> UdpView {
        UdpView {
            peer,
            aware,
            addresses: Seq::empty(),
            next: 0,
            phase: if connected {
                UdpPhase::Sending
            } else {
                UdpPhase::LookingUp
            },
        }
    }

    pub open spec fn wf(self) -> bool {
        self.phase is Binding || self.phase is Connecting ==> 0 <= self.next < self.addresses.len()
    }

    /// Whether this can come next.
    pub open spec fn accepts(self, e: UdpEventView) -> bool {
        match e {
            UdpEventView::Resolved { .. } => self.phase is LookingUp,
            UdpEventView::LookupFailed => self.phase is LookingUp,
            UdpEventView::LookupTimedOut => self.phase is LookingUp,
            UdpEventView::Bound => self.phase is Binding,
            UdpEventView::BindFailed => self.phase is Binding,
            UdpEventView::Connected => self.phase is Connecting,
            UdpEventView::ConnectFailed => self.phase is Connecting,
            UdpEventView::ConnectTimedOut => self.phase is Connecting,
            UdpEventView::Shutdown => self.aware && (self.phase is LookingUp
                || self.phase is Connecting),
            UdpEventView::Sent { .. } => self.phase is Sending,
            UdpEventView::SendFailed => self.phase is Sending,
        }
    }

    /// Whether the address that is tried is given up.
    pub open spec fn gives_up_address(e: UdpEventView) -> bool {
        e is BindFailed || e is ConnectFailed || e is ConnectTimedOut
    }

    /// Why the address that is tried is given up.
    pub open spec fn address_error(self, e: UdpEventView) -> Seq<char> {
        let (text, v6) = self.addresses[self.next];
        match e {
            UdpEventView::BindFailed => bind_failed_text(v6),
            UdpEventView::ConnectFailed => connect_failed_text(self.peer, text),
            _ => connect_failed_text(self.peer, text) + " timed out"@,
        }
    }

    /// The state after an event.
    pub open spec fn after(self, e: UdpEventView) -> UdpView {
        match e {
            UdpEventView::Resolved { addresses } => UdpView {
                addresses,
                next: 0,
                phase: if addresses.len() == 0 {
                    UdpPhase::Finished
                } else {
                    UdpPhase::Binding
                },
                ..self
            },
            UdpEventView::Bound => UdpView { phase: UdpPhase::Connecting, ..self },
            UdpEventView::Connected => UdpView { phase: UdpPhase::Sending, ..self },
            _ => if UdpView::gives_up_address(e) {
                UdpView {
                    next: self.next + 1,
                    phase: if self.next + 1 < self.addresses.len() {
                        UdpPhase::Binding
                    } else {
                        UdpPhase::Finished
                    },
                    ..self
                }
            } else {
                UdpView { phase: UdpPhase::Finished, ..self }
            },
        }
    }

    /// What is to be done after an event. Where every address has been given up,
    /// the error is that of the last one.
    pub open spec fn action(self, e: UdpEventView) -> UdpActionView {
        match e {
            UdpEventView::Resolved { addresses } => if addresses.len() == 0 {
                UdpActionView::Failed {
                    error: "syslog_udp: name resolution for "@ + self.peer
                        + " returned no addresses"@,
                    drop_connection: false,
                }
            } else {
                UdpActionView::Bind { index: 0, v6: addresses[0].1 }
            },
            UdpEventView::LookupFailed => UdpActionView::Failed {
                error: "syslog_udp lookup "@ + self.peer,
                drop_connection: false,
            },
            UdpEventView::LookupTimedOut => UdpActionView::Failed {
                error: "syslog_udp lookup "@ + self.peer + " timed out"@,
                drop_connection: false,
            },
            UdpEventView::Bound => UdpActionView::Connect { index: self.next },
            UdpEventView::Connected => UdpActionView::Send,
            UdpEventView::Shutdown => UdpActionView::PreSendShutdown,
            UdpEventView::Sent { .. } => UdpActionView::Delivered,
            UdpEventView::SendFailed => UdpActionView::Failed {
                error: "syslog_udp send to "@ + self.peer,
                drop_connection: true,
            },
            _ => if self.next + 1 < self.addresses.len() {
                UdpActionView::Bind { index: self.next + 1, v6: self.addresses[self.next + 1].1 }
            } else {
                UdpActionView::Failed { error: self.address_error(e), drop_connection: false }
            },
        }
    }

    /// The counters after an event: the bytes of a datagram count once it is sent.
    pub open spec fn counted(self, e: UdpEventView, m: OutputMetrics) -> OutputMetrics {
        match e {
            UdpEventView::Sent { bytes } => m.wrote_bytes(bytes as u64),
            _ => m,
        }
    }
}

/// One attempt in progress.
#[derive(Debug)]
pub struct UdpAttempt {
    peer: String,
    aware: bool,
    addresses: Vec<ResolvedAddress>,
    next: usize,
    phase: UdpPhase,
}

impl View for UdpAttempt {
    type V = UdpView;

    closed spec fn view(&self) -> UdpView {
        UdpView {
            peer: self.peer@,
            aware: self.aware,
            addresses: address_views(self.addresses@),
            next: self.next as int,
            phase: self.phase,
        }
    }
}

impl UdpAttempt {
    /// An attempt on the peer with this address. A peer that is already connected
    /// goes straight to the send.
    pub fn new(peer: &str, connected: bool, aware: bool) -> (r: (UdpAttempt, UdpAction))
        ensures
            r.0@ == UdpView::start(peer@, connected, aware),
            r.0@.wf(),
            r.1@ == if connected {
                UdpActionView::Send
            } else {
                UdpActionView::Lookup
            },
    {
        let addresses: Vec<ResolvedAddress> = Vec::new();
        assert(address_views(addresses@) =~= Seq::empty());
        let phase = if connected {
            UdpPhase::Sending
        } else {
            UdpPhase::LookingUp
        };
        let action = if connected {
            UdpAction::Send
        } else {
            UdpAction::Lookup
        };
        (UdpAttempt { peer: peer.to_owned(), aware, addresses, next: 0, phase }, action)
    }

    fn next_address(&mut self, error: String) -> (action: UdpAction)
        requires
            old(self)@.wf(),
            old(self)@.phase is Binding || old(self)@.phase is Connecting,
        ensures
            final(self)@ == (UdpView {
                next: old(self)@.next + 1,
                phase: if old(self)@.next + 1 < old(self)@.addresses.len() {
                    UdpPhase::Binding
                } else {
                    UdpPhase::Finished
                },
                ..old(self)@
            }),
            final(self)@.wf(),
            action@ == if old(self)@.next + 1 < old(self)@.addresses.len() {
                UdpActionView::Bind {
                    index: old(self)@.next + 1,
                    v6: old(self)@.addresses[old(self)@.next + 1].1,
                }
            } else {
                UdpActionView::Failed { error: error@, drop_connection: false }
            },
    {
        assert(self.next < self.addresses.len());
        self.next = self.next + 1;
        if self.next < self.addresses.len() {
            self.phase = UdpPhase::Binding;
            UdpAction::Bind { index: self.next, v6: self.addresses[self.next].v6 }
        } else {
            self.phase = UdpPhase::Finished;
            UdpAction::Failed { error, drop_connection: false }
        }
    }

    fn connect_error(&self) -> (s: String)
        requires
            0 <= self@.next < self@.addresses.len(),
        ensures
            s@ == connect_failed_text(self@.peer, self@.addresses[self@.next].0),
    {
        let mut s = "syslog_udp connect to ".to_owned();
        s.append(self.peer.as_str());
        s.append(" (");
        let mut shown = self.addresses[self.next].text.clone();
        shown.append(")");
        s.append(shown.as_str());
        s
    }

    /// Takes in what came of the last step and says what is to be done next.
    pub fn step(&mut self, event: UdpEvent, metrics: &mut OutputMetrics) -> (action: UdpAction)
        requires
            old(self)@.wf(),
            old(self)@.accepts(event@),
        ensures
            final(self)@ == old(self)@.after(event@),
            final(self)@.wf(),
            action@ == old(self)@.action(event@),
            *final(metrics) == old(self)@.counted(event@, *old(metrics)),
    {
        match event {
            UdpEvent::Resolved { addresses } => {
                self.next = 0;
                if addresses.len() == 0 {
                    self.addresses = addresses;
                    self.phase = UdpPhase::Finished;
                    let error = cat3(
                        "syslog_udp: name resolution for ",
                        self.peer.as_str(),
                        " returned no addresses",
                    );
                    UdpAction::Failed { error, drop_connection: false }
                } else {
                    let v6 = addresses[0].v6;
                    self.addresses = addresses;
                    self.phase = UdpPhase::Binding;
                    UdpAction::Bind { index: 0, v6 }
                }
            },
            UdpEvent::LookupFailed => {
                self.phase = UdpPhase::Finished;
                UdpAction::Failed {
                    error: cat2("syslog_udp lookup ", self.peer.as_str()),
                    drop_connection: false,
                }
            },
            UdpEvent::LookupTimedOut => {
                self.phase = UdpPhase::Finished;
                UdpAction::Failed {
                    error: cat3("syslog_udp lookup ", self.peer.as_str(), " timed out"),
                    drop_connection: false,
                }
            },
            UdpEvent::Bound => {
                self.phase = UdpPhase::Connecting;
                UdpAction::Connect { index: self.next }
            },
            UdpEvent::BindFailed => {
                let error = cat3(
                    "syslog_udp output: failed to bind ephemeral socket (",
                    bind_address(self.addresses[self.next].v6),
                    ")",
                );
                self.next_address(error)
            },
            UdpEvent::Connected => {
                self.phase = UdpPhase::Sending;
                UdpAction::Send
            },
            UdpEvent::ConnectFailed => {
                let error = self.connect_error();
                self.next_address(error)
            },
            UdpEvent::ConnectTimedOut => {
                let mut error = self.connect_error();
                error.append(" timed out");
                self.next_address(error)
            },
            UdpEvent::Shutdown => {
                self.phase = UdpPhase::Finished;
                UdpAction::PreSendShutdown
            },
            UdpEvent::Sent { bytes } => {
                metrics.add_bytes(bytes as u64);
                self.phase = UdpPhase::Finished;
                UdpAction::Delivered
            },
            UdpEvent::SendFailed => {
                self.phase = UdpPhase::Finished;
                UdpAction::Failed {
                    error: cat2("syslog_udp send to ", self.peer.as_str()),
                    drop_connection: true,
                }
            },
        }
    }

    /// The resolved address with this index.
    pub fn address(&self, index: usize) -> (s: &str)
        requires
            index < self@.addresses.len(),
        ensures
            s@ == self@.addresses[index as int].0,
    {
        self.addresses[index].text.as_str()
    }
}

/// The state after a sequence of events.
pub open spec fn run(s: UdpView, es: Seq<UdpEventView>) -> UdpView
    decreases es.len(),
{
    if es.len() == 0 {
        s
    } else {
        run(s, es.drop_last()).after(es.last())
    }
}

/// Whether each event of a sequence can come where it stands.
pub open spec fn accepted(s: UdpView, es: Seq<UdpEventView>) -> bool
    decreases es.len(),
{
    es.len() == 0 || (accepted(s, es.drop_last()) && run(s, es.drop_last()).accepts(es.last()))
}

/// The number of addresses given up in a sequence of events.
pub open spec fn given_up(es: Seq<UdpEventView>) -> int
    decreases es.len(),
{
    if es.len() == 0 {
        0
    } else {
        given_up(es.drop_last()) + if UdpView::gives_up_address(es.last()) {
            1int
        } else {
            0
        }
    }
}

/// The addresses are tried one after the other, each at most once: the address
/// that is tried, or that connected, comes right behind those given up.
pub proof fn law_addresses_are_tried_in_order(
    peer: Seq<char>,
    aware: bool,
    es: Seq<UdpEventView>,
)
    requires
        accepted(UdpView::start(peer, false, aware), es),
    ensures
        ({
            let s = run(UdpView::start(peer, false, aware), es);
            &&& s.wf()
            &&& s.next == given_up(es)
            &&& s.phase is Sending ==> given_up(es) < s.addresses.len()
            &&& given_up(es) <= s.addresses.len()
            &&& s.phase is LookingUp ==> es.len() == 0
        }),
    decreases es.len(),
{
    if es.len() > 0 {
        law_addresses_are_tried_in_order(peer, aware, es.drop_last());
    }
}

/// An attempt that fails for want of an address has given up every one of them,
/// and reports why the last was given up.
pub proof fn law_failure_means_every_address_was_tried(
    peer: Seq<char>,
    aware: bool,
    es: Seq<UdpEventView>,
    e: UdpEventView,
)
    requires
        accepted(UdpView::start(peer, false, aware), es.push(e)),
        UdpView::gives_up_address(e),
        run(UdpView::start(peer, false, aware), es.push(e)).phase is Finished,
    ensures
        ({
            let s = run(UdpView::start(peer, false, aware), es);
            &&& given_up(es) + 1 == s.addresses.len()
            &&& s.action(e) == (UdpActionView::Failed {
                error: s.address_error(e),
                drop_connection: false,
            })
        }),
{
    assert(es.push(e).drop_last() =~= es);
    law_addresses_are_tried_in_order(peer, aware, es);
}

/// A shutdown ends an attempt only while no datagram can have left the process,
/// and only where the attempt is aware of it.
pub proof fn law_shutdown_only_before_the_send(s: UdpView)
    requires
        s.accepts(UdpEventView::Shutdown),
    ensures
        s.aware,
        !(s.phase is Sending),
        s.action(UdpEventView::Shutdown) is PreSendShutdown,
{
}

} // verus!
