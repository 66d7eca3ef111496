//! The `tcp` output: framed messages to one address over a kept connection.
use crate::error::{cat3, output_error, output_text, OutputError};
use crate::framing::{counted_frame, frame_counted, frame_with_newline, terminated_frame};
use crate::metrics::OutputMetrics;
use crate::props::{get_ident, get_int, get_string, ident_at, int_at, string_at, Property};
use crate::syslog_tcp::unknown_framing_text;
use crate::text::{signed_decimal, signed_decimal_text, text_eq};
use vstd::prelude::*;

verus! {

/// Framing of messages on the stream.
#[derive(Debug, Clone, Copy, PartialEq, Eq, Structural)]
pub enum TcpOutputFraming {
    /// The length in decimal, a space, then the message.
    OctetCounting,
    /// The message, then a line feed.
    NonTransparent,
}

/// Port used where only a host is configured.
pub const DEFAULT_PORT: i64 = 514;

/// The address that the output connects to: as configured, or made of host and
/// port.
pub open spec fn address_setting(props: Seq<Property>) -> Option<Seq<char>> {
    match string_at(props, "address"@) {
        Some(address) => Some(address),
        None => match string_at(props, "host"@) {
            None => None,
            Some(host) => {
                let port = match int_at(props, "port"@) {
                    Some(port) => port,
                    None => DEFAULT_PORT,
                };
                Some(host + ":"@ + signed_decimal(port as int))
            },
        },
    }
}

/// What the `framing` setting is read as.
pub open spec fn framing_result(name: Seq<char>, props: Seq<Property>) -> Result<
    TcpOutputFraming,
    Seq<char>,
> {
    match ident_at(props, "framing"@) {
        None => Ok(TcpOutputFraming::OctetCounting),
        Some(word) => if word == "non_transparent"@ {
            Ok(TcpOutputFraming::NonTransparent)
        } else if word == "octet_counting"@ {
            Ok(TcpOutputFraming::OctetCounting)
        } else {
            Err(unknown_framing_text(name, word))
        },
    }
}

/// What a configuration is read as.
pub open spec fn config_result(name: Seq<char>, props: Seq<Property>) -> Result<
    (Seq<char>, TcpOutputFraming),
    Seq<char>,
> {
    match address_setting(props) {
        None => Err(output_text(name, "tcp requires 'address' or 'host'+'port'"@)),
        Some(address) => match framing_result(name, props) {
            Err(e) => Err(e),
            Ok(framing) => Ok((address, framing)),
        },
    }
}

/// The bytes that a message is shipped as.
pub open spec fn framed(framing: TcpOutputFraming, payload: Seq<u8>) -> Seq<u8> {
    match framing {
        TcpOutputFraming::OctetCounting => counted_frame(payload),
        TcpOutputFraming::NonTransparent => terminated_frame(payload),
    }
}

/// A configured output.
#[derive(Debug)]
pub struct TcpOutput {
    pub address: String,
    pub framing: TcpOutputFraming,
    pub metrics: OutputMetrics,
}

impl TcpOutput {
    /// Reads the configuration of the output.
    pub fn from_properties(name: &str, properties: &[Property]) -> (r: Result<
        TcpOutput,
        OutputError,
    >)
        ensures
            match r {
                Ok(output) => {
                    &&& config_result(name@, properties@) == Ok::<
                        (Seq<char>, TcpOutputFraming),
                        Seq<char>,
                    >((output.address@, output.framing))
                    &&& output.metrics == OutputMetrics::zero()
                },
                Err(e) => config_result(name@, properties@) == Err::<
                    (Seq<char>, TcpOutputFraming),
                    Seq<char>,
                >(e@),
            },
    {
        let address: String = match get_string(properties, "address") {
            Some(address) => address,
            None => match get_string(properties, "host") {
                None => {
                    return Err(output_error(name, "tcp requires 'address' or 'host'+'port'"));
                },
                Some(host) => {
                    let port: i64 = match get_int(properties, "port") {
                        Some(port) => port,
                        None => DEFAULT_PORT,
                    };
                    let shown = signed_decimal_text(port);
                    cat3(host.as_str(), ":", shown.as_str())
                },
            },
        };
        let framing = match get_ident(properties, "framing") {
            None => TcpOutputFraming::OctetCounting,
            Some(word) => {
                if text_eq(word.as_str(), "non_transparent") {
                    TcpOutputFraming::NonTransparent
                } else if text_eq(word.as_str(), "octet_counting") {
                    TcpOutputFraming::OctetCounting
                } else {
                    let rest = cat3(
                        "unknown framing '",
                        word.as_str(),
                        "' (expected octet_counting | non_transparent)",
                    );
                    return Err(output_error(name, rest.as_str()));
                }
            },
        };
        Ok(TcpOutput { address, framing, metrics: OutputMetrics::new() })
    }

    /// Frames one message.
    pub fn frame(&self, payload: &[u8]) -> (frame: Vec<u8>)
        ensures
            frame@ == framed(self.framing, payload@),
    {
        match self.framing {
            TcpOutputFraming::OctetCounting => frame_counted(payload),
            TcpOutputFraming::NonTransparent => frame_with_newline(payload),
        }
    }
}

} // verus!
