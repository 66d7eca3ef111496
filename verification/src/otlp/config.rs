//! Configuration that the OTLP outputs share.
use crate::error::{
    cat2, cat3, list_outcome, list_views, option_view, outcome, output_error, output_message,
    output_text, OutputError,
};
use crate::otlp::merge::{level_named, BatchLevel};
use crate::props::{
    first_block, get_block, get_positive_int, get_string, get_word, positive_int_at, string_at,
    word_at, Property,
};
use crate::retry::{parse_wait, wait_setting};
use crate::syslog_peers::{
    iter_peers_block, lemma_iter_result, parses_to, peer_blocks, peers_block_result,
    two_destinations, two_destinations_text,
};
use crate::text::{ascii_lower, lower_text, starts_with};
use crate::tls::{tls_block_result, ClientTlsConfig, TlsView};
use vstd::prelude::*;

verus! {

/// Nanoseconds after which a batch that is not full is sent by default.
pub const DEFAULT_BATCH_TIMEOUT: u64 = 5_000_000_000;

/// Nanoseconds that one export may take.
pub const REQUEST_TIMEOUT: u64 = 30_000_000_000;

/// Which transport an output uses.
#[derive(Debug, Clone, Copy, PartialEq, Eq, Structural)]
pub enum OtlpKind {
    Http,
    Grpc,
}

impl OtlpKind {
    /// The name of the output in messages.
    pub open spec fn label(self) -> Seq<char> {
        match self {
            OtlpKind::Http => "otlp_http"@,
            OtlpKind::Grpc => "otlp_grpc"@,
        }
    }

    fn label_text(&self) -> (s: &'static str)
        ensures
            s@ == self.label(),
    {
        match self {
            OtlpKind::Http => "otlp_http",
            OtlpKind::Grpc => "otlp_grpc",
        }
    }
}

/// A collector.
#[derive(Debug)]
pub struct OtlpPeer {
    pub endpoint: String,
    pub tls: Option<ClientTlsConfig>,
}

/// What an [`OtlpPeer`] says.
pub ghost struct OtlpPeerView {
    pub endpoint: Seq<char>,
    pub tls: Option<TlsView>,
}

impl View for OtlpPeer {
    type V = OtlpPeerView;

    open spec fn view(&self) -> OtlpPeerView {
        OtlpPeerView { endpoint: self.endpoint@, tls: option_view(self.tls) }
    }
}

/// Whether an endpoint is reached over TLS, by its scheme in any spelling.
pub open spec fn is_https(endpoint: Seq<char>) -> bool {
    "https://"@.is_prefix_of(ascii_lower(endpoint))
}

/// The message about TLS settings for an endpoint that does not use TLS.
pub open spec fn plaintext_text(kind: OtlpKind, name: Seq<char>, endpoint: Seq<char>) -> Seq<char> {
    output_text(
        name,
        kind.label() + " peer endpoint '"@ + endpoint
            + "' uses a plaintext scheme but a tls { ... } block was supplied — switch the endpoint to https:// or drop the tls block"@,
    )
}

/// Whether tonic takes a text for the endpoint of a gRPC channel.
pub uninterp spec fn grpc_endpoint_accepts(endpoint: Seq<char>) -> bool;

/// Asks `tonic::transport::Endpoint::from_shared` whether it takes the text: it does
/// where the text parses as a URI. The contract claims only that the verdict depends
/// on the text.
#[verifier::external_body]
pub(crate) fn is_grpc_endpoint(endpoint: &str) -> (r: bool)
    ensures
        r == grpc_endpoint_accepts(endpoint@),
{
    tonic::transport::Endpoint::from_shared(endpoint.to_owned()).is_ok()
}

/// The message about an endpoint that no gRPC channel can be made for.
pub open spec fn invalid_endpoint_text(name: Seq<char>, endpoint: Seq<char>) -> Seq<char> {
    output_text(name, "invalid gRPC endpoint '"@ + endpoint + "'"@)
}

/// What a peer is with the verdict on its endpoint.
pub open spec fn judged(kind: OtlpKind, name: Seq<char>, peer: OtlpPeerView, accepted: bool) -> Result<
    OtlpPeerView,
    Seq<char>,
> {
    if kind is Grpc && !accepted {
        Err(invalid_endpoint_text(name, peer.endpoint))
    } else {
        Ok(peer)
    }
}

/// What a `peer` block is read as.
pub open spec fn peer_result(kind: OtlpKind, name: Seq<char>, props: Seq<Property>) -> Result<
    OtlpPeerView,
    Seq<char>,
> {
    match settings_result(kind, name, props) {
        Err(e) => Err(e),
        Ok(peer) => judged(kind, name, peer, grpc_endpoint_accepts(peer.endpoint)),
    }
}

/// What the settings of a `peer` block are read as, before its endpoint is judged.
pub open spec fn settings_result(kind: OtlpKind, name: Seq<char>, props: Seq<Property>) -> Result<
    OtlpPeerView,
    Seq<char>,
> {
    match string_at(props, "endpoint"@) {
        None => Err(output_text(name, kind.label() + " peer requires 'endpoint'"@)),
        Some(endpoint) => match first_block(props, "tls"@) {
            None => Ok(OtlpPeerView { endpoint, tls: None }),
            Some(block) => if !is_https(endpoint) {
                Err(plaintext_text(kind, name, endpoint))
            } else {
                match tls_block_result(block, "output '"@ + name + "'"@) {
                    Ok(tls) => Ok(OtlpPeerView { endpoint, tls: Some(tls) }),
                    Err(e) => Err(e),
                }
            },
        },
    }
}

/// Whether an endpoint is reached over TLS.
pub fn https_endpoint(endpoint: &str) -> (r: bool)
    ensures
        r == is_https(endpoint@),
{
    let lower = lower_text(endpoint);
    starts_with(lower.as_str(), "https://")
}

/// Takes in the verdict on the endpoint of a peer; only over gRPC does it count.
pub fn judge(kind: OtlpKind, name: &str, peer: OtlpPeer, accepted: bool) -> (r: Result<
    OtlpPeer,
    OutputError,
>)
    ensures
        outcome(r) == judged(kind, name@, peer@, accepted),
{
    if matches!(kind, OtlpKind::Grpc) && !accepted {
        let rest = cat3("invalid gRPC endpoint '", peer.endpoint.as_str(), "'");
        Err(output_error(name, rest.as_str()))
    } else {
        Ok(peer)
    }
}

/// Reads one `peer` block.
pub fn parse_peer(kind: OtlpKind, name: &str, peer_props: &[Property]) -> (r: Result<
    OtlpPeer,
    OutputError,
>)
    ensures
        outcome(r) == peer_result(kind, name@, peer_props@),
{
    match parse_settings(kind, name, peer_props) {
        Ok(peer) => {
            let accepted = is_grpc_endpoint(peer.endpoint.as_str());
            judge(kind, name, peer, accepted)
        },
        Err(e) => Err(e),
    }
}

/// Reads the settings of one `peer` block. TLS settings for an endpoint without TLS
/// are refused: they would be ignored, and the data sent in clear text.
pub fn parse_settings(kind: OtlpKind, name: &str, peer_props: &[Property]) -> (r: Result<
    OtlpPeer,
    OutputError,
>)
    ensures
        outcome(r) == settings_result(kind, name@, peer_props@),
{
    let endpoint = match get_string(peer_props, "endpoint") {
        Some(endpoint) => endpoint,
        None => {
            let rest = cat2(kind.label_text(), " peer requires 'endpoint'");
            return Err(output_error(name, rest.as_str()));
        },
    };
    let block = match get_block(peer_props, "tls") {
        Some(block) => block,
        None => {
            return Ok(OtlpPeer { endpoint, tls: None });
        },
    };
    if !https_endpoint(endpoint.as_str()) {
        let mut rest = cat3(kind.label_text(), " peer endpoint '", endpoint.as_str());
        rest.append(
            "' uses a plaintext scheme but a tls { ... } block was supplied — switch the endpoint to https:// or drop the tls block",
        );
        return Err(output_error(name, rest.as_str()));
    }
    let label = cat3("output '", name, "'");
    match crate::tls::parse_tls_block(block.as_slice(), label.as_str()) {
        Ok(tls) => Ok(OtlpPeer { endpoint, tls: Some(tls) }),
        Err(e) => Err(e),
    }
}

/// The message about a configuration without a destination.
pub open spec fn no_destination_text(kind: OtlpKind, name: Seq<char>) -> Seq<char> {
    output_text(
        name,
        kind.label() + " requires a 'peer { ... }' or 'peers { peer { ... } ... }' block"@,
    )
}

/// What the destination of the output is read as: exactly one of `peer` and `peers`.
pub open spec fn destination_result(kind: OtlpKind, name: Seq<char>, props: Seq<Property>) -> Result<
    Seq<OtlpPeerView>,
    Seq<char>,
> {
    match (first_block(props, "peer"@), first_block(props, "peers"@)) {
        (Some(_), Some(_)) => Err(two_destinations_text(name)),
        (Some(block), None) => match peer_result(kind, name, block) {
            Ok(peer) => Ok(seq![peer]),
            Err(e) => Err(e),
        },
        (None, Some(inner)) => peers_block_result(
            inner,
            output_text(name, "peers"@),
            |block: Seq<Property>| peer_result(kind, name, block),
        ),
        (None, None) => Err(no_destination_text(kind, name)),
    }
}

/// Reads the collectors of the output.
pub fn parse_peers(kind: OtlpKind, name: &str, properties: &[Property]) -> (r: Result<
    Vec<OtlpPeer>,
    OutputError,
>)
    ensures
        list_outcome(r) == destination_result(kind, name@, properties@),
{
    if let Some(peer_block) = get_block(properties, "peer") {
        if get_block(properties, "peers").is_some() {
            return Err(two_destinations(name));
        }
        return match parse_peer(kind, name, peer_block.as_slice()) {
            Ok(peer) => {
                let mut peers: Vec<OtlpPeer> = Vec::new();
                peers.push(peer);
                assert(list_views(peers@) =~= seq![peer@]);
                Ok(peers)
            },
            Err(e) => Err(e),
        };
    }
    if let Some(peers_block) = get_block(properties, "peers") {
        let label = output_message(name, "peers");
        let one = |inner: &[Property]| -> (p: Result<OtlpPeer, OutputError>)
            ensures
                outcome(p) == peer_result(kind, name@, inner@),
            { parse_peer(kind, name, inner) };
        let r = iter_peers_block(peers_block.as_slice(), label.as_str(), one);
        proof {
            let blocks = peer_blocks(peers_block@);
            let parse = |block: Seq<Property>| peer_result(kind, name@, block);
            assert forall|b: Seq<Property>, p: Result<OtlpPeer, OutputError>| #[trigger]
                parses_to(one, b, p) implies outcome(p) == parse(b) by {
                let s = choose|s: &[Property]|
                    #![trigger s@]
                    s@ == b && call_ensures(one, (s,), p);
                assert(s@ == b && call_ensures(one, (s,), p));
            }
            lemma_iter_result(blocks, one, parse, label@, r);
        }
        return r;
    }
    let rest = cat2(
        kind.label_text(),
        " requires a 'peer { ... }' or 'peers { peer { ... } ... }' block",
    );
    Err(output_error(name, rest.as_str()))
}

/// The settings of a batch.
#[derive(Debug, Clone, Copy, PartialEq, Eq, Structural)]
pub struct BatchSettings {
    pub size: u64,
    pub timeout: u64,
    pub level: BatchLevel,
}

/// A word setting with a default.
pub open spec fn word_or(props: Seq<Property>, key: Seq<char>, default: Seq<char>) -> Seq<char> {
    match word_at(props, key) {
        Some(word) => word,
        None => default,
    }
}

/// A word setting with a default.
pub fn get_word_or(props: &[Property], key: &str, default: &str) -> (s: String)
    ensures
        s@ == word_or(props@, key@, default@),
{
    match get_word(props, key) {
        Some(word) => word,
        None => default.to_owned(),
    }
}

/// What the settings of a batch are read as.
pub open spec fn batch_result(name: Seq<char>, props: Seq<Property>) -> Result<
    BatchSettings,
    Seq<char>,
> {
    match positive_int_at(props, "batch_size"@) {
        Err(e) => Err(e),
        Ok(size) => match wait_setting(props, "batch_timeout"@, DEFAULT_BATCH_TIMEOUT) {
            Err(e) => Err(e),
            Ok(timeout) => {
                let word = word_or(props, "batch_level"@, "none"@);
                match level_named(word) {
                    None => Err(
                        output_text(
                            name,
                            "unknown batch_level '"@ + word
                                + "' (expected none, resource, or scope)"@,
                        ),
                    ),
                    Some(level) => Ok(
                        BatchSettings {
                            size: match size {
                                Some(n) => n,
                                None => 1,
                            },
                            timeout,
                            level,
                        },
                    ),
                }
            },
        },
    }
}

/// Reads the settings of a batch: one event, five seconds and no merging by
/// default.
pub fn parse_batch(name: &str, props: &[Property]) -> (r: Result<BatchSettings, OutputError>)
    ensures
        match r {
            Ok(batch) => batch_result(name@, props@) == Ok::<BatchSettings, Seq<char>>(batch),
            Err(e) => batch_result(name@, props@) == Err::<BatchSettings, Seq<char>>(e@),
        },
{
    let size: u64 = match get_positive_int(props, "batch_size") {
        Ok(Some(n)) => n,
        Ok(None) => 1,
        Err(e) => {
            return Err(e);
        },
    };
    let timeout: u64 = match parse_wait(props, "batch_timeout", DEFAULT_BATCH_TIMEOUT) {
        Ok(wait) => wait,
        Err(e) => {
            return Err(e);
        },
    };
    let word = get_word_or(props, "batch_level", "none");
    match BatchLevel::parse(word.as_str(), name) {
        Ok(level) => Ok(BatchSettings { size, timeout, level }),
        Err(e) => Err(e),
    }
}

/// The number of records that a collector refused, out of what its response
/// reports: nothing reported is nothing refused, and so is a negative number.
pub open spec fn refused(reported: Option<i64>) -> u64 {
    match reported {
        Some(n) => if n > 0 {
            n as u64
        } else {
            0
        },
        None => 0,
    }
}

/// The number of records that a collector refused.
pub fn rejected_count(reported: Option<i64>) -> (n: u64)
    ensures
        n == refused(reported),
{
    match reported {
        Some(n) => if n > 0 {
            n as u64
        } else {
            0
        },
        None => 0,
    }
}

/// TLS settings are accepted only for endpoints that use TLS, and only with a
/// client certificate and its key together or not at all. An accepted destination
/// has at least one peer.
pub proof fn law_tls_settings_are_never_ignored(kind: OtlpKind, name: Seq<char>, props: Seq<Property>)
    requires
        destination_result(kind, name, props) is Ok,
    ensures
        destination_result(kind, name, props)->Ok_0.len() > 0,
        forall|i: int|
            0 <= i < destination_result(kind, name, props)->Ok_0.len() ==> ((
            #[trigger] destination_result(kind, name, props)->Ok_0[i]).tls matches Some(tls)
                ==> tls.paired() && is_https(destination_result(kind, name, props)->Ok_0[i].endpoint)),
{
    if first_block(props, "peer"@) is None {
        let inner = first_block(props, "peers"@)->0;
        let blocks = peer_blocks(inner);
        let parse = |block: Seq<Property>| peer_result(kind, name, block);
        lemma_all_come_from_blocks(blocks, parse);
        let peers = destination_result(kind, name, props)->Ok_0;
        assert forall|i: int| 0 <= i < peers.len() implies ((#[trigger] peers[i]).tls matches Some(
            tls,
        ) ==> tls.paired() && is_https(peers[i].endpoint)) by {
            assert(parse(blocks[i]) == Ok::<OtlpPeerView, Seq<char>>(peers[i]));
        }
    }
}

proof fn lemma_all_come_from_blocks(
    blocks: Seq<Seq<Property>>,
    parse: spec_fn(Seq<Property>) -> Result<OtlpPeerView, Seq<char>>,
)
    ensures
        crate::syslog_peers::all_parsed(blocks, parse) matches Ok(values) ==> {
            &&& values.len() == blocks.len()
            &&& forall|i: int|
                0 <= i < blocks.len() ==> parse(blocks[i]) == Ok::<OtlpPeerView, Seq<char>>(
                    #[trigger] values[i],
                )
        },
    decreases blocks.len(),
{
    if blocks.len() > 0 {
        lemma_all_come_from_blocks(blocks.drop_last(), parse);
    }
}

} // verus!
