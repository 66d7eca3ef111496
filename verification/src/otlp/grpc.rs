//! The `otlp_grpc` output.
use crate::error::{list_views, OutputError};
use crate::metrics::OutputMetrics;
use crate::otlp::buffer::SendOutcome;
use crate::otlp::config::{
    batch_result, destination_result, parse_batch, parse_peers, refused, rejected_count,
    BatchSettings, OtlpKind, OtlpPeer, OtlpPeerView,
};
use crate::peer_rotation::RotatingPeers;
use crate::props::{get_string_map, pairs_view, string_map_at, Property};
use crate::retry::{retry_result, RetryConfig};
use crate::syslog_peers::PEER_COOLDOWN;
use crate::text::{ascii_lower, lower_text, starts_with};
use vstd::prelude::*;

verus! {

/// What a configuration says.
pub ghost struct GrpcConfigView {
    pub batch: BatchSettings,
    pub headers: Seq<(Seq<char>, Seq<char>)>,
    pub peers: Seq<OtlpPeerView>,
    pub retry: RetryConfig,
}

/// What a configuration is read as.
pub open spec fn config_result(
    name: Seq<char>,
    props: Seq<Property>,
    retry_defaults: RetryConfig,
) -> Result<GrpcConfigView, Seq<char>> {
    match batch_result(name, props) {
        Err(e) => Err(e),
        Ok(batch) => match destination_result(OtlpKind::Grpc, name, props) {
            Err(e) => Err(e),
            Ok(peers) => match retry_result(props, retry_defaults) {
                Err(e) => Err(e),
                Ok(retry) => Ok(
                    GrpcConfigView {
                        batch,
                        headers: string_map_at(props, "headers"@),
                        peers,
                        retry,
                    },
                ),
            },
        },
    }
}

/// A configured output with the state of its collectors.
#[derive(Debug)]
pub struct OtlpGrpcOutput {
    pub name: String,
    pub batch: BatchSettings,
    pub headers: Vec<(String, String)>,
    pub peers: Vec<OtlpPeer>,
    pub rotation: RotatingPeers,
    pub retry: RetryConfig,
    pub metrics: OutputMetrics,
}

impl OtlpGrpcOutput {
    pub open spec fn config(&self) -> GrpcConfigView {
        GrpcConfigView {
            batch: self.batch,
            headers: pairs_view(self.headers@),
            peers: list_views(self.peers@),
            retry: self.retry,
        }
    }

    /// Reads the configuration of the output.
    pub fn from_properties(
        name: &str,
        properties: &[Property],
        retry_defaults: RetryConfig,
    ) -> (r: Result<OtlpGrpcOutput, OutputError>)
        ensures
            match r {
                Ok(output) => {
                    &&& config_result(name@, properties@, retry_defaults) == Ok::<
                        GrpcConfigView,
                        Seq<char>,
                    >(output.config())
                    &&& output.name@ == name@
                    &&& output.rotation.cursor() == 0
                    &&& output.rotation.cooldowns() == Seq::new(
                        output.peers@.len(),
                        |i: int| None::<u64>,
                    )
                    &&& output.metrics == OutputMetrics::zero()
                },
                Err(e) => config_result(name@, properties@, retry_defaults) == Err::<
                    GrpcConfigView,
                    Seq<char>,
                >(e@),
            },
    {
        let batch = match parse_batch(name, properties) {
            Ok(batch) => batch,
            Err(e) => {
                return Err(e);
            },
        };
        let headers = get_string_map(properties, "headers");
        let peers = match parse_peers(OtlpKind::Grpc, name, properties) {
            Ok(peers) => peers,
            Err(e) => {
                return Err(e);
            },
        };
        let retry = match RetryConfig::from_output_properties(properties, retry_defaults) {
            Ok(retry) => retry,
            Err(e) => {
                return Err(e);
            },
        };
        let rotation = RotatingPeers::new(peers.len());
        Ok(
            OtlpGrpcOutput {
                name: name.to_owned(),
                batch,
                headers,
                peers,
                rotation,
                retry,
                metrics: OutputMetrics::new(),
            },
        )
    }
}

/// Whether a channel to a peer is set up with TLS: its endpoint asks for it in so
/// many letters, or it has TLS settings.
pub fn needs_tls(peer: &OtlpPeer) -> (r: bool)
    ensures
        r == ("https://"@.is_prefix_of(peer@.endpoint) || peer@.tls is Some),
{
    starts_with(peer.endpoint.as_str(), "https://") || peer.tls.is_some()
}

/// The key that a header is sent under: in lower case.
pub fn metadata_key(header: &str) -> (key: String)
    ensures
        key@ == ascii_lower(header@),
{
    lower_text(header)
}

/// Settles one attempt on the peer that a selection picked: a peer that took the
/// request is freed, one that failed cools down from the time of its failure.
pub fn settle_send(rotation: &mut RotatingPeers, peer: usize, failed_at: Option<u64>)
    requires
        peer < old(rotation).cooldowns().len(),
        failed_at matches Some(at) ==> at + PEER_COOLDOWN <= u64::MAX,
    ensures
        final(rotation).cursor() == old(rotation).cursor(),
        final(rotation).cooldowns() == old(rotation).cooldowns().update(
            peer as int,
            match failed_at {
                None => None,
                Some(at) => Some((at + PEER_COOLDOWN) as u64),
            },
        ),
{
    match failed_at {
        None => {
            rotation.mark_success(peer);
        },
        Some(at) => {
            rotation.mark_failure(peer, at);
        },
    }
}

/// What a collector that answered has refused, out of what it reports.
pub fn response_outcome(said: Option<i64>) -> (outcome: SendOutcome)
    ensures
        outcome.rejected == refused(said),
{
    SendOutcome { rejected: rejected_count(said) }
}

} // verus!
