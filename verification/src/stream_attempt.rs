//! One attempt to write a message to a syslog peer over a stream: connect, TLS
//! handshake where the peer is encrypted, then the write.
//!
//! The caller performs what a step asks for and reports what came of it.
use crate::error::{cat2, cat3};
use vstd::prelude::*;

verus! {

/// Which output makes the attempt.
#[derive(Debug, Clone, Copy, PartialEq, Eq, Structural)]
pub enum StreamKind {
    SyslogTcp,
    SyslogTls,
}

/// Where an attempt stands.
#[derive(Debug, Clone, Copy, PartialEq, Eq, Structural)]
pub enum StreamPhase {
    Connecting,
    Handshaking,
    Writing,
    Finished,
}

/// What came of the last step.
#[derive(Debug)]
pub enum StreamEvent {
    Connected,
    ConnectFailed,
    ConnectTimedOut,
    HandshakeDone,
    HandshakeFailed,
    HandshakeTimedOut,
    Written,
    WriteFailed { error: String },
    WriteTimedOut,
}

/// What is to be done next.
#[derive(Debug)]
pub enum StreamAction {
    Connect,
    Handshake,
    Write,
    /// The message is written; the connection is kept.
    Delivered,
    /// The attempt failed; a connection that there may be is dropped.
    Failed { error: String },
}

pub ghost enum StreamEventView {
    Connected,
    ConnectFailed,
    ConnectTimedOut,
    HandshakeDone,
    HandshakeFailed,
    HandshakeTimedOut,
    Written,
    WriteFailed { error: Seq<char> },
    WriteTimedOut,
}

pub ghost enum StreamActionView {
    Connect,
    Handshake,
    Write,
    Delivered,
    Failed { error: Seq<char> },
}

impl View for StreamEvent {
    type V = StreamEventView;

    open spec fn view(&self) -> StreamEventView {
        match self {
            StreamEvent::Connected => StreamEventView::Connected,
            StreamEvent::ConnectFailed => StreamEventView::ConnectFailed,
            StreamEvent::ConnectTimedOut => StreamEventView::ConnectTimedOut,
            StreamEvent::HandshakeDone => StreamEventView::HandshakeDone,
            StreamEvent::HandshakeFailed => StreamEventView::HandshakeFailed,
            StreamEvent::HandshakeTimedOut => StreamEventView::HandshakeTimedOut,
            StreamEvent::Written => StreamEventView::Written,
            StreamEvent::WriteFailed { error } => StreamEventView::WriteFailed { error: error@ },
            StreamEvent::WriteTimedOut => StreamEventView::WriteTimedOut,
        }
    }
}

impl View for StreamAction {
    type V = StreamActionView;

    open spec fn view(&self) -> StreamActionView {
        match self {
            StreamAction::Connect => StreamActionView::Connect,
            StreamAction::Handshake => StreamActionView::Handshake,
            StreamAction::Write => StreamActionView::Write,
            StreamAction::Delivered => StreamActionView::Delivered,
            StreamAction::Failed { error } => StreamActionView::Failed { error: error@ },
        }
    }
}

/// What an attempt is made on. `name_ok` says whether the host can stand as the
/// server's name in a handshake.
pub ghost struct StreamView {
    pub kind: StreamKind,
    pub address: Seq<char>,
    pub host: Seq<char>,
    pub encrypted: bool,
    pub name_ok: bool,
    pub phase: StreamPhase,
}

pub open spec fn connect_prefix(kind: StreamKind) -> Seq<char> {
    match kind {
        StreamKind::SyslogTcp => "syslog_tcp connect to "@,
        StreamKind::SyslogTls => "syslog_tls TCP connect to "@,
    }
}

pub open spec fn handshake_prefix(kind: StreamKind) -> Seq<char> {
    match kind {
        StreamKind::SyslogTcp => "syslog_tcp TLS handshake to "@,
        StreamKind::SyslogTls => "syslog_tls TLS handshake to "@,
    }
}

pub open spec fn name_prefix(kind: StreamKind) -> Seq<char> {
    match kind {
        StreamKind::SyslogTcp => "syslog_tcp invalid server name: "@,
        StreamKind::SyslogTls => "syslog_tls invalid server name: "@,
    }
}

pub open spec fn write_prefix(kind: StreamKind) -> Seq<char> {
    match kind {
        StreamKind::SyslogTcp => "syslog_tcp write to "@,
        StreamKind::SyslogTls => "syslog_tls write to "@,
    }
}

impl StreamView {
    /// Whether this can come next.
    pub open spec fn accepts(self, e: StreamEventView) -> bool {
        match e {
            StreamEventView::Connected => self.phase is Connecting,
            StreamEventView::ConnectFailed => self.phase is Connecting,
            StreamEventView::ConnectTimedOut => self.phase is Connecting,
            StreamEventView::HandshakeDone => self.phase is Handshaking,
            StreamEventView::HandshakeFailed => self.phase is Handshaking,
            StreamEventView::HandshakeTimedOut => self.phase is Handshaking,
            StreamEventView::Written => self.phase is Writing,
            StreamEventView::WriteFailed { .. } => self.phase is Writing,
            StreamEventView::WriteTimedOut => self.phase is Writing,
        }
    }

    /// What is to be done after an event.
    pub open spec fn action(self, e: StreamEventView) -> StreamActionView {
        match e {
            StreamEventView::Connected => if !self.encrypted {
                StreamActionView::Write
            } else if self.name_ok {
                StreamActionView::Handshake
            } else {
                StreamActionView::Failed { error: name_prefix(self.kind) + self.host }
            },
            StreamEventView::ConnectFailed => StreamActionView::Failed {
                error: connect_prefix(self.kind) + self.address,
            },
            StreamEventView::ConnectTimedOut => StreamActionView::Failed {
                error: connect_prefix(self.kind) + self.address + " timed out"@,
            },
            StreamEventView::HandshakeDone => StreamActionView::Write,
            StreamEventView::HandshakeFailed => StreamActionView::Failed {
                error: handshake_prefix(self.kind) + self.address,
            },
            StreamEventView::HandshakeTimedOut => StreamActionView::Failed {
                error: handshake_prefix(self.kind) + self.address + " timed out"@,
            },
            StreamEventView::Written => StreamActionView::Delivered,
            StreamEventView::WriteFailed { error } => StreamActionView::Failed { error },
            StreamEventView::WriteTimedOut => StreamActionView::Failed {
                error: write_prefix(self.kind) + self.address + " timed out"@,
            },
        }
    }

    /// The state after an event.
    pub open spec fn after(self, e: StreamEventView) -> StreamView {
        StreamView {
            phase: match self.action(e) {
                StreamActionView::Connect => StreamPhase::Connecting,
                StreamActionView::Handshake => StreamPhase::Handshaking,
                StreamActionView::Write => StreamPhase::Writing,
                StreamActionView::Delivered => StreamPhase::Finished,
                StreamActionView::Failed { .. } => StreamPhase::Finished,
            },
            ..self
        }
    }
}

/// One attempt in progress.
#[derive(Debug)]
pub struct StreamAttempt {
    kind: StreamKind,
    address: String,
    host: String,
    encrypted: bool,
    name_ok: bool,
    phase: StreamPhase,
}

impl View for StreamAttempt {
    type V = StreamView;

    closed spec fn view(&self) -> StreamView {
        StreamView {
            kind: self.kind,
            address: self.address@,
            host: self.host@,
            encrypted: self.encrypted,
            name_ok: self.name_ok,
            phase: self.phase,
        }
    }
}

impl StreamAttempt {
    /// An attempt on a peer, with the verdict on its host as a server's name. A
    /// peer that is already connected goes straight to the write.
    pub fn with_name_verdict(
        kind: StreamKind,
        address: &str,
        host: &str,
        encrypted: bool,
        connected: bool,
        name_ok: bool,
    ) -> (r: (StreamAttempt, StreamAction))
        ensures
            r.0@ == (StreamView {
                kind,
                address: address@,
                host: host@,
                encrypted,
                name_ok,
                phase: if connected {
                    StreamPhase::Writing
                } else {
                    StreamPhase::Connecting
                },
            }),
            r.1@ == if connected {
                StreamActionView::Write
            } else {
                StreamActionView::Connect
            },
    {
        let phase = if connected {
            StreamPhase::Writing
        } else {
            StreamPhase::Connecting
        };
        let action = if connected {
            StreamAction::Write
        } else {
            StreamAction::Connect
        };
        (
            StreamAttempt {
                kind,
                address: address.to_owned(),
                host: host.to_owned(),
                encrypted,
                name_ok,
                phase,
            },
            action,
        )
    }

    /// An attempt on a peer.
    pub fn new(
        kind: StreamKind,
        address: &str,
        host: &str,
        encrypted: bool,
        connected: bool,
    ) -> (r: (StreamAttempt, StreamAction))
        ensures
            r.0@ == (StreamView {
                kind,
                address: address@,
                host: host@,
                encrypted,
                name_ok: crate::server_name::server_name_accepts(host@),
                phase: if connected {
                    StreamPhase::Writing
                } else {
                    StreamPhase::Connecting
                },
            }),
            r.1@ == if connected {
                StreamActionView::Write
            } else {
                StreamActionView::Connect
            },
    {
        let name_ok = crate::server_name::is_server_name(host);
        StreamAttempt::with_name_verdict(kind, address, host, encrypted, connected, name_ok)
    }

    /// Takes in what came of the last step and says what is to be done next.
    pub fn step(&mut self, event: StreamEvent) -> (action: StreamAction)
        requires
            old(self)@.accepts(event@),
        ensures
            final(self)@ == old(self)@.after(event@),
            action@ == old(self)@.action(event@),
    {
        let tcp = matches!(self.kind, StreamKind::SyslogTcp);
        match event {
            StreamEvent::Connected => {
                if !self.encrypted {
                    self.phase = StreamPhase::Writing;
                    StreamAction::Write
                } else if self.name_ok {
                    self.phase = StreamPhase::Handshaking;
                    StreamAction::Handshake
                } else {
                    self.phase = StreamPhase::Finished;
                    let prefix = if tcp {
                        "syslog_tcp invalid server name: "
                    } else {
                        "syslog_tls invalid server name: "
                    };
                    StreamAction::Failed { error: cat2(prefix, self.host.as_str()) }
                }
            },
            StreamEvent::ConnectFailed => {
                self.phase = StreamPhase::Finished;
                let prefix = if tcp {
                    "syslog_tcp connect to "
                } else {
                    "syslog_tls TCP connect to "
                };
                StreamAction::Failed { error: cat2(prefix, self.address.as_str()) }
            },
            StreamEvent::ConnectTimedOut => {
                self.phase = StreamPhase::Finished;
                let prefix = if tcp {
                    "syslog_tcp connect to "
                } else {
                    "syslog_tls TCP connect to "
                };
                StreamAction::Failed { error: cat3(prefix, self.address.as_str(), " timed out") }
            },
            StreamEvent::HandshakeDone => {
                self.phase = StreamPhase::Writing;
                StreamAction::Write
            },
            StreamEvent::HandshakeFailed => {
                self.phase = StreamPhase::Finished;
                let prefix = if tcp {
                    "syslog_tcp TLS handshake to "
                } else {
                    "syslog_tls TLS handshake to "
                };
                StreamAction::Failed { error: cat2(prefix, self.address.as_str()) }
            },
            StreamEvent::HandshakeTimedOut => {
                self.phase = StreamPhase::Finished;
                let prefix = if tcp {
                    "syslog_tcp TLS handshake to "
                } else {
                    "syslog_tls TLS handshake to "
                };
                StreamAction::Failed { error: cat3(prefix, self.address.as_str(), " timed out") }
            },
            StreamEvent::Written => {
                self.phase = StreamPhase::Finished;
                StreamAction::Delivered
            },
            StreamEvent::WriteFailed { error } => {
                self.phase = StreamPhase::Finished;
                StreamAction::Failed { error }
            },
            StreamEvent::WriteTimedOut => {
                self.phase = StreamPhase::Finished;
                let prefix = if tcp {
                    "syslog_tcp write to "
                } else {
                    "syslog_tls write to "
                };
                StreamAction::Failed { error: cat3(prefix, self.address.as_str(), " timed out") }
            },
        }
    }
}

/// The state after a sequence of events.
pub open spec fn run(s: StreamView, es: Seq<StreamEventView>) -> StreamView
    decreases es.len(),
{
    if es.len() == 0 {
        s
    } else {
        run(s, es.drop_last()).after(es.last())
    }
}

/// Whether each event of a sequence can come where it stands.
pub open spec fn accepted(s: StreamView, es: Seq<StreamEventView>) -> bool
    decreases es.len(),
{
    es.len() == 0 || (accepted(s, es.drop_last()) && run(s, es.drop_last()).accepts(es.last()))
}

/// An encrypted peer gets no byte of a message before the handshake is done: on a
/// new connection the write begins only after it, and only under a name that the
/// server can be held to.
pub proof fn law_encrypted_write_follows_the_handshake(s: StreamView, es: Seq<StreamEventView>)
    requires
        s.phase is Connecting,
        s.encrypted,
        accepted(s, es),
        run(s, es).phase is Writing,
    ensures
        s.name_ok,
        es == seq![StreamEventView::Connected, StreamEventView::HandshakeDone],
{
    lemma_short(s, es);
}

proof fn lemma_short(s: StreamView, es: Seq<StreamEventView>)
    requires
        s.phase is Connecting,
        accepted(s, es),
    ensures
        run(s, es).encrypted == s.encrypted,
        run(s, es).name_ok == s.name_ok,
        run(s, es).phase is Connecting ==> es.len() == 0,
        run(s, es).phase is Handshaking ==> s.encrypted && s.name_ok && es
            == seq![StreamEventView::Connected],
        run(s, es).phase is Writing && s.encrypted ==> s.name_ok && es
            == seq![StreamEventView::Connected, StreamEventView::HandshakeDone],
    decreases es.len(),
{
    if es.len() > 0 {
        lemma_short(s, es.drop_last());
        let before = es.drop_last();
        assert(es =~= before.push(es.last()));
        if run(s, before).phase is Connecting {
            assert(before =~= Seq::empty());
            assert(es =~= seq![es.last()]);
        }
        if run(s, before).phase is Handshaking && run(s, es).phase is Writing {
            assert(es =~= seq![StreamEventView::Connected, StreamEventView::HandshakeDone]);
        }
    }
}

} // verus!
