//! The `otlp` output: one collector, over any of the three transports.
use crate::error::{cat3, option_view, output_error, output_text, OutputError};
use crate::metrics::OutputMetrics;
use crate::otlp::buffer::BatchBuffer;
use crate::otlp::config::{
    get_word_or, grpc_endpoint_accepts, is_grpc_endpoint, word_or, DEFAULT_BATCH_TIMEOUT,
};
use crate::otlp::http::parse_verify;
use crate::otlp::merge::payload_views;
use crate::props::{
    first_block, get_block, get_positive_int, get_string, get_string_map, ident_at, pairs_view,
    positive_int_at, string_at, string_map_at, Property,
};
use crate::retry::{parse_wait, wait_setting};
use crate::text::{chars_of, decimal, decimal_text, starts_with, text_eq, text_of};
use vstd::prelude::*;

verus! {

/// Characters of a response that an error shows.
pub const SNIPPET_LIMIT: usize = 500;

/// Transport and encoding.
#[derive(Debug, Clone, Copy, PartialEq, Eq, Structural)]
pub enum Protocol {
    HttpJson,
    HttpProtobuf,
    Grpc,
}

/// The protocol that a word names.
pub open spec fn protocol_named(word: Seq<char>) -> Option<Protocol> {
    if word == "http_json"@ {
        Some(Protocol::HttpJson)
    } else if word == "http_protobuf"@ {
        Some(Protocol::HttpProtobuf)
    } else if word == "grpc"@ {
        Some(Protocol::Grpc)
    } else {
        None
    }
}

pub open spec fn unknown_protocol_text(name: Seq<char>, word: Seq<char>) -> Seq<char> {
    output_text(
        name,
        "unknown protocol '"@ + word + "' (expected http_json, http_protobuf, or grpc)"@,
    )
}

impl Protocol {
    /// Reads the `protocol` setting.
    pub fn parse(s: &str, output_name: &str) -> (r: Result<Protocol, OutputError>)
        ensures
            match r {
                Ok(protocol) => protocol_named(s@) == Some(protocol),
                Err(e) => protocol_named(s@) is None && e@ == unknown_protocol_text(
                    output_name@,
                    s@,
                ),
            },
    {
        if text_eq(s, "http_json") {
            Ok(Protocol::HttpJson)
        } else if text_eq(s, "http_protobuf") {
            Ok(Protocol::HttpProtobuf)
        } else if text_eq(s, "grpc") {
            Ok(Protocol::Grpc)
        } else {
            let rest = cat3(
                "unknown protocol '",
                s,
                "' (expected http_json, http_protobuf, or grpc)",
            );
            Err(output_error(output_name, rest.as_str()))
        }
    }

    /// The `Content-Type` of a request; gRPC sets its own.
    pub fn content_type(self) -> (s: Option<&'static str>)
        ensures
            match self {
                Protocol::HttpJson => s matches Some(t) && t@ == "application/json"@,
                Protocol::HttpProtobuf => s matches Some(t) && t@ == "application/x-protobuf"@,
                Protocol::Grpc => s is None,
            },
    {
        match self {
            Protocol::HttpJson => Some("application/json"),
            Protocol::HttpProtobuf => Some("application/x-protobuf"),
            Protocol::Grpc => None,
        }
    }
}

/// What a configuration asks for.
#[derive(Debug)]
pub struct OtlpSettings {
    pub endpoint: String,
    pub protocol: Protocol,
    pub batch_size: u64,
    pub batch_timeout: u64,
    pub headers: Vec<(String, String)>,
    pub verify: bool,
    pub ca_path: Option<String>,
}

pub ghost struct SettingsView {
    pub endpoint: Seq<char>,
    pub protocol: Protocol,
    pub batch_size: u64,
    pub batch_timeout: u64,
    pub headers: Seq<(Seq<char>, Seq<char>)>,
    pub verify: bool,
    pub ca_path: Option<Seq<char>>,
}

impl View for OtlpSettings {
    type V = SettingsView;

    open spec fn view(&self) -> SettingsView {
        SettingsView {
            endpoint: self.endpoint@,
            protocol: self.protocol,
            batch_size: self.batch_size,
            batch_timeout: self.batch_timeout,
            headers: pairs_view(self.headers@),
            verify: self.verify,
            ca_path: option_view(self.ca_path),
        }
    }
}

/// The message about a batch level that the output does not have.
pub open spec fn level_text(name: Seq<char>, word: Seq<char>) -> Seq<char> {
    output_text(
        name,
        "batch_level '"@ + word + "' is not implemented in v0.5.0 (only 'none' supported)"@,
    )
}

/// The path of the CA certificate, where one is set.
pub open spec fn ca_setting(props: Seq<Property>) -> Option<Seq<char>> {
    match first_block(props, "tls"@) {
        Some(block) => string_at(block, "ca"@),
        None => None,
    }
}

/// What the settings are read as.
pub open spec fn settings_result(name: Seq<char>, props: Seq<Property>) -> Result<
    SettingsView,
    Seq<char>,
> {
    let word = word_or(props, "protocol"@, "http_protobuf"@);
    let level = word_or(props, "batch_level"@, "none"@);
    match string_at(props, "endpoint"@) {
        None => Err(output_text(name, "otlp requires 'endpoint'"@)),
        Some(endpoint) => match protocol_named(word) {
            None => Err(unknown_protocol_text(name, word)),
            Some(protocol) => match positive_int_at(props, "batch_size"@) {
                Err(e) => Err(e),
                Ok(size) => match wait_setting(props, "batch_timeout"@, DEFAULT_BATCH_TIMEOUT) {
                    Err(e) => Err(e),
                    Ok(batch_timeout) => if level != "none"@ {
                        Err(level_text(name, level))
                    } else {
                        Ok(
                            SettingsView {
                                endpoint,
                                protocol,
                                batch_size: match size {
                                    Some(n) => n,
                                    None => 1,
                                },
                                batch_timeout,
                                headers: string_map_at(props, "headers"@),
                                verify: ident_at(props, "verify"@) != Some("false"@),
                                ca_path: ca_setting(props),
                            },
                        )
                    },
                },
            },
        },
    }
}

/// Reads the settings: protobuf over HTTP, one event to a batch and five seconds by
/// default.
pub fn parse_settings(name: &str, properties: &[Property]) -> (r: Result<OtlpSettings, OutputError>)
    ensures
        match r {
            Ok(settings) => settings_result(name@, properties@) == Ok::<SettingsView, Seq<char>>(
                settings@,
            ),
            Err(e) => settings_result(name@, properties@) == Err::<SettingsView, Seq<char>>(e@),
        },
{
    let endpoint = match get_string(properties, "endpoint") {
        Some(endpoint) => endpoint,
        None => {
            return Err(output_error(name, "otlp requires 'endpoint'"));
        },
    };
    let word = get_word_or(properties, "protocol", "http_protobuf");
    let protocol = match Protocol::parse(word.as_str(), name) {
        Ok(protocol) => protocol,
        Err(e) => {
            return Err(e);
        },
    };
    let batch_size: u64 = match get_positive_int(properties, "batch_size") {
        Ok(Some(n)) => n,
        Ok(None) => 1,
        Err(e) => {
            return Err(e);
        },
    };
    let batch_timeout: u64 = match parse_wait(properties, "batch_timeout", DEFAULT_BATCH_TIMEOUT) {
        Ok(wait) => wait,
        Err(e) => {
            return Err(e);
        },
    };
    let level = get_word_or(properties, "batch_level", "none");
    if !text_eq(level.as_str(), "none") {
        let rest = cat3(
            "batch_level '",
            level.as_str(),
            "' is not implemented in v0.5.0 (only 'none' supported)",
        );
        return Err(output_error(name, rest.as_str()));
    }
    let headers = get_string_map(properties, "headers");
    let verify = parse_verify(properties);
    let ca_path = match get_block(properties, "tls") {
        Some(block) => get_string(block.as_slice(), "ca"),
        None => None,
    };
    Ok(OtlpSettings { endpoint, protocol, batch_size, batch_timeout, headers, verify, ca_path })
}

/// What came of setting up the client for some settings.
#[derive(Debug, Clone, Copy, PartialEq, Eq, Structural)]
pub enum ClientSetup {
    Ready,
    /// The CA certificate could not be read from its file.
    UnreadableCa,
    /// The CA certificate is none.
    InvalidCa,
    /// The client could not be built.
    NotBuilt,
}

/// Why no output can be made of settings and what came of the client; nothing where
/// one can.
pub open spec fn refusal(
    name: Seq<char>,
    s: SettingsView,
    setup: ClientSetup,
    endpoint_accepted: bool,
) -> Option<Seq<char>> {
    let path = match s.ca_path {
        Some(path) => path,
        None => "<inline>"@,
    };
    if setup is UnreadableCa {
        Some(output_text(name, "cannot read CA cert "@ + path))
    } else if !(s.protocol is Grpc) {
        match setup {
            ClientSetup::InvalidCa => Some(output_text(name, "invalid CA cert PEM at "@ + path)),
            ClientSetup::NotBuilt => Some(output_text(name, "failed to build HTTP client"@)),
            _ => None,
        }
    } else if !endpoint_accepted {
        Some(output_text(name, "invalid gRPC endpoint"@))
    } else if !(setup is Ready) {
        Some(output_text(name, "failed to configure gRPC TLS"@))
    } else if !s.verify {
        Some(
            output_text(
                name,
                "`verify false` is not supported on gRPC transport (use `http://` for plaintext or set up a real CA for TLS)"@,
            ),
        )
    } else {
        None
    }
}

/// Says why no output can be made; certificates cannot go unchecked over gRPC.
pub fn check_client(
    name: &str,
    settings: &OtlpSettings,
    setup: ClientSetup,
    endpoint_accepted: bool,
) -> (r: Option<OutputError>)
    ensures
        option_view(r) == refusal(name@, settings@, setup, endpoint_accepted),
{
    let path: &str = match &settings.ca_path {
        Some(path) => path.as_str(),
        None => "<inline>",
    };
    if matches!(setup, ClientSetup::UnreadableCa) {
        let rest = crate::error::cat2("cannot read CA cert ", path);
        return Some(output_error(name, rest.as_str()));
    }
    if !matches!(settings.protocol, Protocol::Grpc) {
        return match setup {
            ClientSetup::InvalidCa => {
                let rest = crate::error::cat2("invalid CA cert PEM at ", path);
                Some(output_error(name, rest.as_str()))
            },
            ClientSetup::NotBuilt => Some(output_error(name, "failed to build HTTP client")),
            _ => None,
        };
    }
    if !endpoint_accepted {
        Some(output_error(name, "invalid gRPC endpoint"))
    } else if !matches!(setup, ClientSetup::Ready) {
        Some(output_error(name, "failed to configure gRPC TLS"))
    } else if !settings.verify {
        Some(
            output_error(
                name,
                "`verify false` is not supported on gRPC transport (use `http://` for plaintext or set up a real CA for TLS)",
            ),
        )
    } else {
        None
    }
}

/// What a configuration is read as, with what came of the client.
pub open spec fn config_result(
    name: Seq<char>,
    props: Seq<Property>,
    setup: ClientSetup,
) -> Result<SettingsView, Seq<char>> {
    match settings_result(name, props) {
        Err(e) => Err(e),
        Ok(s) => match refusal(name, s, setup, grpc_endpoint_accepts(s.endpoint)) {
            Some(e) => Err(e),
            None => Ok(s),
        },
    }
}

/// A configured output with its buffer.
#[derive(Debug)]
pub struct OtlpOutput {
    pub settings: OtlpSettings,
    pub buffer: BatchBuffer,
    pub metrics: OutputMetrics,
}

/// What is to be done after an event was buffered.
#[derive(Debug, Clone, Copy, PartialEq, Eq, Structural)]
pub enum AfterWrite {
    /// The batch is full: send it.
    Flush,
    /// Start the timer that sends the batch later.
    StartTimer,
    /// The timer is running.
    Wait,
}

impl OtlpOutput {
    /// Reads the configuration of the output. `setup` says what came of the client
    /// for the settings that [`parse_settings`] gives; it does not matter where that
    /// fails.
    pub fn from_properties(name: &str, properties: &[Property], setup: ClientSetup) -> (r: Result<
        OtlpOutput,
        OutputError,
    >)
        ensures
            match r {
                Ok(output) => {
                    &&& config_result(name@, properties@, setup) == Ok::<SettingsView, Seq<char>>(
                        output.settings@,
                    )
                    &&& output.buffer.items().len() == 0
                    &&& output.buffer.batch_size() == output.settings.batch_size
                    &&& output.metrics == OutputMetrics::zero()
                },
                Err(e) => config_result(name@, properties@, setup) == Err::<
                    SettingsView,
                    Seq<char>,
                >(e@),
            },
    {
        let settings = match parse_settings(name, properties) {
            Ok(settings) => settings,
            Err(e) => {
                return Err(e);
            },
        };
        let accepted = is_grpc_endpoint(settings.endpoint.as_str());
        match check_client(name, &settings, setup, accepted) {
            Some(e) => Err(e),
            None => {
                let buffer = BatchBuffer::new(settings.batch_size);
                Ok(OtlpOutput { settings, buffer, metrics: OutputMetrics::new() })
            },
        }
    }

    /// Buffers an event and says what is to be done next.
    pub fn write(&mut self, payload: Vec<u8>, timer_running: bool) -> (next: AfterWrite)
        ensures
            final(self).buffer.items() == old(self).buffer.items().push(payload@),
            final(self).buffer.batch_size() == old(self).buffer.batch_size(),
            final(self).settings == old(self).settings,
            final(self).metrics == old(self).metrics,
            next == if final(self).buffer.items().len() >= old(self).buffer.batch_size() {
                AfterWrite::Flush
            } else if timer_running {
                AfterWrite::Wait
            } else {
                AfterWrite::StartTimer
            },
    {
        let full = self.buffer.push(payload);
        if full {
            AfterWrite::Flush
        } else if timer_running {
            AfterWrite::Wait
        } else {
            AfterWrite::StartTimer
        }
    }

    /// Takes the batch out for sending; nothing where there is none.
    pub fn begin_flush(&mut self) -> (batch: Option<Vec<Vec<u8>>>)
        ensures
            final(self).buffer.items().len() == 0,
            final(self).buffer.batch_size() == old(self).buffer.batch_size(),
            final(self).settings == old(self).settings,
            final(self).metrics == old(self).metrics,
            match batch {
                None => old(self).buffer.items().len() == 0,
                Some(drained) => old(self).buffer.items().len() > 0 && payload_views(drained@)
                    == old(self).buffer.items(),
            },
    {
        let drained = self.buffer.drain();
        assert(payload_views(drained@).len() == drained@.len());
        if drained.len() == 0 {
            None
        } else {
            Some(drained)
        }
    }

    /// Counts a batch that was sent, or that could not be: the whole of it is
    /// written, or has failed. It does not come back.
    pub fn finish_flush(&mut self, count: u64, delivered: bool)
        ensures
            final(self).buffer == old(self).buffer,
            final(self).settings == old(self).settings,
            final(self).metrics == if delivered {
                old(self).metrics.written(count)
            } else {
                old(self).metrics.failed(count)
            },
    {
        if delivered {
            self.metrics.add_written(count);
        } else {
            self.metrics.add_failed(count);
        }
    }
}

/// Whether a gRPC channel is set up with TLS: the endpoint asks for it in so many
/// letters, or there is a CA certificate.
pub fn needs_tls(settings: &OtlpSettings) -> (r: bool)
    ensures
        r == ("https://"@.is_prefix_of(settings@.endpoint) || settings@.ca_path is Some),
{
    starts_with(settings.endpoint.as_str(), "https://") || settings.ca_path.is_some()
}

/// The beginning of a text, of limited length.
pub open spec fn snippet(text: Seq<char>) -> Seq<char> {
    if text.len() <= SNIPPET_LIMIT {
        text
    } else {
        text.take(SNIPPET_LIMIT as int)
    }
}

/// The error about a response that is no success.
pub fn status_error(endpoint: &str, status: u16, text: &str) -> (e: OutputError)
    ensures
        e@ == "output otlp: "@ + endpoint@ + " returned HTTP "@ + decimal(status as nat) + " — "@
            + snippet(text@),
{
    let chars = chars_of(text);
    let end: usize = if chars.len() <= SNIPPET_LIMIT {
        chars.len()
    } else {
        SNIPPET_LIMIT
    };
    let shown = text_of(&chars, 0, end);
    assert(shown@ =~= snippet(text@));
    let mut message = cat3("output otlp: ", endpoint, " returned HTTP ");
    let code = decimal_text(status as u64);
    message.append(code.as_str());
    message.append(" — ");
    message.append(shown.as_str());
    OutputError { message }
}

/// Over gRPC certificates are always checked: settings that would leave them
/// unchecked are refused, whatever came of the client.
pub proof fn law_grpc_checks_certificates(
    name: Seq<char>,
    props: Seq<Property>,
    setup: ClientSetup,
)
    requires
        config_result(name, props, setup) is Ok,
        config_result(name, props, setup)->Ok_0.protocol is Grpc,
    ensures
        config_result(name, props, setup)->Ok_0.verify,
        setup is Ready,
{
}

} // verus!
