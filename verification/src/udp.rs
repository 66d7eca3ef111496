//! The `udp` output: one datagram per message to one address.
use crate::error::{cat2, output_error, output_text, OutputError};
use crate::metrics::OutputMetrics;
use crate::props::{get_string, string_at, Property};
use vstd::prelude::*;

verus! {

/// A configured output.
#[derive(Debug)]
pub struct UdpOutput {
    pub address: String,
    pub metrics: OutputMetrics,
}

impl UdpOutput {
    /// Reads the configuration of the output.
    pub fn from_properties(name: &str, properties: &[Property]) -> (r: Result<
        UdpOutput,
        OutputError,
    >)
        ensures
            match r {
                Ok(output) => {
                    &&& string_at(properties@, "address"@) == Some(output.address@)
                    &&& output.metrics == OutputMetrics::zero()
                },
                Err(e) => {
                    &&& string_at(properties@, "address"@) is None
                    &&& e@ == output_text(name@, "udp requires 'address'"@)
                },
            },
    {
        match get_string(properties, "address") {
            Some(address) => Ok(UdpOutput { address, metrics: OutputMetrics::new() }),
            None => Err(output_error(name, "udp requires 'address'")),
        }
    }
}

/// Where a write stands.
#[derive(Debug, Clone, Copy, PartialEq, Eq, Structural)]
pub enum UdpWritePhase {
    Binding,
    Connecting,
    Sending,
    Finished,
}

/// What came of a step.
#[derive(Debug, Clone, Copy, PartialEq, Eq, Structural)]
pub enum UdpWriteEvent {
    Bound,
    BindFailed,
    Connected,
    ConnectFailed,
    Sent,
    SendFailed,
}

/// What is to be done next: bind a socket to any port, connect it to the address,
/// send the message, or end.
#[derive(Debug)]
pub enum UdpWriteAction {
    Bind,
    Connect,
    Send,
    Done,
    Fail { error: String },
}

/// A [`UdpWriteAction`], its text as a sequence of characters.
pub ghost enum UdpWriteActionView {
    Bind,
    Connect,
    Send,
    Done,
    Fail { error: Seq<char> },
}

impl View for UdpWriteAction {
    type V = UdpWriteActionView;

    open spec fn view(&self) -> UdpWriteActionView {
        match self {
            UdpWriteAction::Bind => UdpWriteActionView::Bind,
            UdpWriteAction::Connect => UdpWriteActionView::Connect,
            UdpWriteAction::Send => UdpWriteActionView::Send,
            UdpWriteAction::Done => UdpWriteActionView::Done,
            UdpWriteAction::Fail { error } => UdpWriteActionView::Fail { error: error@ },
        }
    }
}

/// One write in progress. The socket is made once, by the first write that gets as
/// far as connecting it, and kept from then on, also where a send fails.
#[derive(Debug, Clone, Copy, PartialEq, Eq, Structural)]
pub struct UdpWrite {
    /// Whether there is a socket to keep.
    pub connected: bool,
    pub phase: UdpWritePhase,
}

impl UdpWrite {
    /// Whether this can come next.
    pub open spec fn accepts(self, e: UdpWriteEvent) -> bool {
        match e {
            UdpWriteEvent::Bound | UdpWriteEvent::BindFailed => self.phase is Binding,
            UdpWriteEvent::Connected | UdpWriteEvent::ConnectFailed => self.phase is Connecting,
            UdpWriteEvent::Sent | UdpWriteEvent::SendFailed => self.phase is Sending,
        }
    }

    /// What is to be done after an event.
    pub open spec fn action(e: UdpWriteEvent, address: Seq<char>) -> UdpWriteActionView {
        match e {
            UdpWriteEvent::Bound => UdpWriteActionView::Connect,
            UdpWriteEvent::BindFailed => UdpWriteActionView::Fail {
                error: "udp output: failed to bind ephemeral socket"@,
            },
            UdpWriteEvent::Connected => UdpWriteActionView::Send,
            UdpWriteEvent::ConnectFailed => UdpWriteActionView::Fail {
                error: "udp output: failed to connect to "@ + address,
            },
            UdpWriteEvent::Sent => UdpWriteActionView::Done,
            UdpWriteEvent::SendFailed => UdpWriteActionView::Fail {
                error: "udp output: send to "@ + address,
            },
        }
    }

    /// The state after an event.
    pub open spec fn after(self, e: UdpWriteEvent) -> UdpWrite {
        UdpWrite {
            connected: self.connected || e is Connected,
            phase: match e {
                UdpWriteEvent::Bound => UdpWritePhase::Connecting,
                UdpWriteEvent::Connected => UdpWritePhase::Sending,
                _ => UdpWritePhase::Finished,
            },
        }
    }

    /// Starts a write; `connected` says whether there is a socket already.
    pub fn new(connected: bool) -> (r: (UdpWrite, UdpWriteAction))
        ensures
            r.0.connected == connected,
            connected ==> r.0.phase is Sending && r.1@ is Send,
            !connected ==> r.0.phase is Binding && r.1@ is Bind,
    {
        if connected {
            (UdpWrite { connected, phase: UdpWritePhase::Sending }, UdpWriteAction::Send)
        } else {
            (UdpWrite { connected, phase: UdpWritePhase::Binding }, UdpWriteAction::Bind)
        }
    }

    /// Takes in what came of the last step and says what is to be done next. A
    /// message that was sent is counted.
    pub fn step(&mut self, event: UdpWriteEvent, output: &mut UdpOutput) -> (action: UdpWriteAction)
        requires
            old(self).accepts(event),
        ensures
            *final(self) == old(self).after(event),
            action@ == UdpWrite::action(event, old(output).address@),
            final(output).address@ == old(output).address@,
            final(output).metrics == if event is Sent {
                old(output).metrics.written(1)
            } else {
                old(output).metrics
            },
    {
        match event {
            UdpWriteEvent::Bound => {
                self.phase = UdpWritePhase::Connecting;
                UdpWriteAction::Connect
            },
            UdpWriteEvent::BindFailed => {
                self.phase = UdpWritePhase::Finished;
                let error = "udp output: failed to bind ephemeral socket".to_owned();
                UdpWriteAction::Fail { error }
            },
            UdpWriteEvent::Connected => {
                self.connected = true;
                self.phase = UdpWritePhase::Sending;
                UdpWriteAction::Send
            },
            UdpWriteEvent::ConnectFailed => {
                self.phase = UdpWritePhase::Finished;
                let error = cat2("udp output: failed to connect to ", output.address.as_str());
                UdpWriteAction::Fail { error }
            },
            UdpWriteEvent::Sent => {
                self.phase = UdpWritePhase::Finished;
                output.metrics.add_written(1);
                UdpWriteAction::Done
            },
            UdpWriteEvent::SendFailed => {
                self.phase = UdpWritePhase::Finished;
                let error = cat2("udp output: send to ", output.address.as_str());
                UdpWriteAction::Fail { error }
            },
        }
    }
}

} // verus!
