//! The `otlp_http` output.
use crate::error::{cat3, list_views, option_view, output_error, output_text, OutputError};
use crate::metrics::OutputMetrics;
use crate::otlp::buffer::{BatchBuffer, SendOutcome};
use crate::otlp::config::{
    batch_result, destination_result, get_word_or, parse_batch, parse_peers, refused,
    rejected_count, word_or, BatchSettings, OtlpKind, OtlpPeer, OtlpPeerView,
};
use crate::otlp::model::{
    decode_rejections, decoded_rejections, encode_request, encoded_request, json_request,
    parse_rejections, parsed_rejections, write_json_request, ExportLogsServiceRequest,
    ResourceLogsView,
};
use crate::peer_rotation::RotatingPeers;
use crate::props::{get_ident, get_string_map, ident_at, pairs_view, string_map_at, Property};
use crate::retry::{retry_result, RetryConfig};
use crate::text::text_eq;
use vstd::prelude::*;

verus! {

/// Encoding of requests and responses.
#[derive(Debug, Clone, Copy, PartialEq, Eq, Structural)]
pub enum HttpProtocol {
    Json,
    Protobuf,
}

/// The protocol that a word names.
pub open spec fn protocol_named(word: Seq<char>) -> Option<HttpProtocol> {
    if word == "http_json"@ {
        Some(HttpProtocol::Json)
    } else if word == "http_protobuf"@ {
        Some(HttpProtocol::Protobuf)
    } else {
        None
    }
}

pub open spec fn unknown_protocol_text(name: Seq<char>, word: Seq<char>) -> Seq<char> {
    output_text(
        name,
        "unknown protocol '"@ + word + "' (expected http_protobuf or http_json)"@,
    )
}

impl HttpProtocol {
    /// Reads the `protocol` setting.
    pub fn parse(s: &str, output_name: &str) -> (r: Result<HttpProtocol, OutputError>)
        ensures
            match r {
                Ok(protocol) => protocol_named(s@) == Some(protocol),
                Err(e) => protocol_named(s@) is None && e@ == unknown_protocol_text(
                    output_name@,
                    s@,
                ),
            },
    {
        if text_eq(s, "http_json") {
            Ok(HttpProtocol::Json)
        } else if text_eq(s, "http_protobuf") {
            Ok(HttpProtocol::Protobuf)
        } else {
            let rest = cat3("unknown protocol '", s, "' (expected http_protobuf or http_json)");
            Err(output_error(output_name, rest.as_str()))
        }
    }

    /// The `Content-Type` of a request.
    pub fn content_type(self) -> (s: &'static str)
        ensures
            s@ == match self {
                HttpProtocol::Json => "application/json"@,
                HttpProtocol::Protobuf => "application/x-protobuf"@,
            },
    {
        match self {
            HttpProtocol::Json => "application/json",
            HttpProtocol::Protobuf => "application/x-protobuf",
        }
    }
}

/// What a configuration says.
pub ghost struct HttpConfigView {
    pub protocol: HttpProtocol,
    pub batch: BatchSettings,
    pub headers: Seq<(Seq<char>, Seq<char>)>,
    pub verify: bool,
    pub peers: Seq<OtlpPeerView>,
    pub retry: RetryConfig,
}

/// What a configuration is read as.
pub open spec fn config_result(
    name: Seq<char>,
    props: Seq<Property>,
    retry_defaults: RetryConfig,
) -> Result<HttpConfigView, Seq<char>> {
    let word = word_or(props, "protocol"@, "http_protobuf"@);
    match protocol_named(word) {
        None => Err(unknown_protocol_text(name, word)),
        Some(protocol) => match batch_result(name, props) {
            Err(e) => Err(e),
            Ok(batch) => match destination_result(OtlpKind::Http, name, props) {
                Err(e) => Err(e),
                Ok(peers) => match retry_result(props, retry_defaults) {
                    Err(e) => Err(e),
                    Ok(retry) => Ok(
                        HttpConfigView {
                            protocol,
                            batch,
                            headers: string_map_at(props, "headers"@),
                            verify: ident_at(props, "verify"@) != Some("false"@),
                            peers,
                            retry,
                        },
                    ),
                },
            },
        },
    }
}

/// Whether certificates are checked: unless the setting is `false`.
pub fn parse_verify(properties: &[Property]) -> (verify: bool)
    ensures
        verify == (ident_at(properties@, "verify"@) != Some("false"@)),
{
    match get_ident(properties, "verify") {
        Some(word) => !text_eq(word.as_str(), "false"),
        None => true,
    }
}

/// A configured output with the state of its collectors and its buffer.
#[derive(Debug)]
pub struct OtlpHttpOutput {
    pub name: String,
    pub protocol: HttpProtocol,
    pub batch: BatchSettings,
    pub headers: Vec<(String, String)>,
    pub verify: bool,
    pub peers: Vec<OtlpPeer>,
    pub rotation: RotatingPeers,
    pub retry: RetryConfig,
    pub buffer: BatchBuffer,
    pub metrics: OutputMetrics,
}

impl OtlpHttpOutput {
    pub open spec fn config(&self) -> HttpConfigView {
        HttpConfigView {
            protocol: self.protocol,
            batch: self.batch,
            headers: pairs_view(self.headers@),
            verify: self.verify,
            peers: list_views(self.peers@),
            retry: self.retry,
        }
    }

    /// Reads the configuration of the output.
    pub fn from_properties(
        name: &str,
        properties: &[Property],
        retry_defaults: RetryConfig,
    ) -> (r: Result<OtlpHttpOutput, OutputError>)
        ensures
            match r {
                Ok(output) => {
                    &&& config_result(name@, properties@, retry_defaults) == Ok::<
                        HttpConfigView,
                        Seq<char>,
                    >(output.config())
                    &&& output.name@ == name@
                    &&& output.rotation.cursor() == 0
                    &&& output.rotation.cooldowns() == Seq::new(
                        output.peers@.len(),
                        |i: int| None::<u64>,
                    )
                    &&& output.buffer.items().len() == 0
                    &&& output.buffer.batch_size() == output.batch.size
                    &&& output.metrics == OutputMetrics::zero()
                },
                Err(e) => config_result(name@, properties@, retry_defaults) == Err::<
                    HttpConfigView,
                    Seq<char>,
                >(e@),
            },
    {
        let word = get_word_or(properties, "protocol", "http_protobuf");
        let protocol = match HttpProtocol::parse(word.as_str(), name) {
            Ok(protocol) => protocol,
            Err(e) => {
                return Err(e);
            },
        };
        let batch = match parse_batch(name, properties) {
            Ok(batch) => batch,
            Err(e) => {
                return Err(e);
            },
        };
        let headers = get_string_map(properties, "headers");
        let verify = parse_verify(properties);
        let peers = match parse_peers(OtlpKind::Http, name, properties) {
            Ok(peers) => peers,
            Err(e) => {
                return Err(e);
            },
        };
        let retry = match RetryConfig::from_output_properties(properties, retry_defaults) {
            Ok(retry) => retry,
            Err(e) => {
                return Err(e);
            },
        };
        let rotation = RotatingPeers::new(peers.len());
        Ok(
            OtlpHttpOutput {
                name: name.to_owned(),
                protocol,
                batch,
                headers,
                verify,
                peers,
                rotation,
                retry,
                buffer: BatchBuffer::new(batch.size),
                metrics: OutputMetrics::new(),
            },
        )
    }
}

/// The client certificate and its key in one PEM text: each on lines of its own.
pub fn combined_pem(cert: &[u8], key: &[u8]) -> (pem: Vec<u8>)
    ensures
        pem@ == if cert@.len() > 0 && cert@.last() == 10u8 {
            cert@ + key@
        } else {
            cert@.push(10u8) + key@
        },
{
    let mut pem: Vec<u8> = Vec::new();
    pem.extend_from_slice(cert);
    let ends_line = cert.len() > 0 && cert[cert.len() - 1] == 10u8;
    if !ends_line {
        pem.push(10u8);
    }
    pem.extend_from_slice(key);
    assert(pem@ =~= if cert@.len() > 0 && cert@.last() == 10u8 {
        cert@ + key@
    } else {
        cert@.push(10u8) + key@
    });
    pem
}

/// The body of a request; nothing where it cannot be written.
pub open spec fn body_of(protocol: HttpProtocol, entries: Seq<ResourceLogsView>) -> Option<
    Seq<u8>,
> {
    match protocol {
        HttpProtocol::Protobuf => Some(encoded_request(entries)),
        HttpProtocol::Json => json_request(entries),
    }
}

/// Writes the body of a request.
pub fn request_body(protocol: HttpProtocol, request: &ExportLogsServiceRequest) -> (body: Option<
    Vec<u8>,
>)
    ensures
        option_view(body) == body_of(protocol, request@),
{
    match protocol {
        HttpProtocol::Protobuf => Some(encode_request(request)),
        HttpProtocol::Json => write_json_request(request),
    }
}

/// What the body of a successful response reports as refused; nothing where it is
/// empty or cannot be read.
pub open spec fn reported(protocol: HttpProtocol, body: Seq<u8>) -> Option<i64> {
    if body.len() == 0 {
        None
    } else {
        match protocol {
            HttpProtocol::Protobuf => decoded_rejections(body),
            HttpProtocol::Json => parsed_rejections(body),
        }
    }
}

/// Reads the body of a successful response. One that is empty or cannot be read
/// counts as full acceptance.
pub fn response_outcome(protocol: HttpProtocol, body: &[u8]) -> (outcome: SendOutcome)
    ensures
        outcome.rejected == refused(reported(protocol, body@)),
        body@.len() == 0 ==> outcome.rejected == 0,
{
    let said: Option<i64> = if body.len() == 0 {
        None
    } else {
        match protocol {
            HttpProtocol::Protobuf => decode_rejections(body),
            HttpProtocol::Json => parse_rejections(body),
        }
    };
    SendOutcome { rejected: rejected_count(said) }
}

/// Whether an HTTP status is a success.
pub fn status_is_success(status: u16) -> (r: bool)
    ensures
        r == (200 <= status < 300),
{
    200 <= status && status < 300
}

/// The error about a response that is no success.
pub fn status_error(endpoint: &str, status: u16, snippet: &str) -> (e: OutputError)
    ensures
        e@ == "output otlp_http: "@ + endpoint@ + " returned HTTP "@ + crate::text::decimal(
            status as nat,
        ) + " — "@ + snippet@,
{
    let mut message = cat3("output otlp_http: ", endpoint, " returned HTTP ");
    let shown = crate::text::decimal_text(status as u64);
    message.append(shown.as_str());
    message.append(" — ");
    message.append(snippet);
    OutputError { message }
}

} // verus!
