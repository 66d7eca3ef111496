//! The `syslog_udp` output: one datagram per message.
use crate::error::{list_outcome, list_views, outcome, output_message, output_text, OutputError};
use crate::metrics::OutputMetrics;
use crate::peer_rotation::PeerList;
use crate::props::{first_block, Property};
use crate::retry::{retry_result, RetryConfig};
use crate::syslog_peers::{
    host_port_result, labelled_parses_to, lemma_all_parsed_err, lemma_all_parsed_ok,
    no_peer_text, parse_host_port, parse_peer_or_peers, peer_blocks, peers_block_result, Peer, PeerView,
};
use crate::syslog_tcp::PLAIN_PORT;
use vstd::prelude::*;

verus! {

/// What a `peer` block is read as.
pub open spec fn peer_result(name: Seq<char>, label: Seq<char>, props: Seq<Property>) -> Result<
    PeerView,
    Seq<char>,
> {
    match host_port_result(props, PLAIN_PORT, output_text(name, label)) {
        Err(e) => Err(e),
        Ok((host, port)) => Ok(PeerView { host, port, tls: None }),
    }
}

/// Reads one `peer` block.
pub fn parse_peer(name: &str, label: &str, properties: &[Property]) -> (r: Result<Peer, OutputError>)
    ensures
        outcome(r) == peer_result(name@, label@, properties@),
{
    let full_label = output_message(name, label);
    match parse_host_port(properties, PLAIN_PORT, full_label.as_str()) {
        Ok((host, port)) => Ok(Peer { host, port, tls: None }),
        Err(e) => Err(e),
    }
}

/// What the destination of the output is read as: exactly one of `peer` and
/// `peers`.
pub open spec fn destination_result(name: Seq<char>, props: Seq<Property>) -> Result<
    Seq<PeerView>,
    Seq<char>,
> {
    match (first_block(props, "peer"@), first_block(props, "peers"@)) {
        (Some(_), Some(_)) => Err(output_text(name, "'peer' and 'peers' are mutually exclusive"@)),
        (Some(block), None) => match peer_result(name, "peer"@, block) {
            Ok(peer) => Ok(seq![peer]),
            Err(e) => Err(e),
        },
        (None, Some(inner)) => peers_block_result(
            inner,
            output_text(name, "peers"@),
            |block: Seq<Property>| peer_result(name, "peers.peer"@, block),
        ),
        (None, None) => Err(output_text(name, "either 'peer' or 'peers' is required"@)),
    }
}

/// Reads the peers of the output.
pub fn parse_peers(name: &str, properties: &[Property]) -> (r: Result<Vec<Peer>, OutputError>)
    ensures
        list_outcome(r) == destination_result(name@, properties@),
{
    let one = |label: &str, peer_props: &[Property]| -> (p: Result<Peer, OutputError>)
        ensures
            outcome(p) == peer_result(name@, label@, peer_props@),
        { parse_peer(name, label, peer_props) };
    let r = parse_peer_or_peers(name, properties, one);
    proof {
        assert forall|l: &str, b: Seq<Property>, p: Result<Peer, OutputError>| #[trigger]
            labelled_parses_to(one, l, b, p) implies outcome(p) == peer_result(name@, l@, b) by {
            let s = choose|s: &[Property]|
                #![trigger s@]
                s@ == b && call_ensures(one, (l, s), p);
            assert(s@ == b && call_ensures(one, (l, s), p));
        }
        match (first_block(properties@, "peer"@), first_block(properties@, "peers"@)) {
            (Some(block), None) => {
                lemma_single_peer(name@, block, one, r);
            },
            (None, Some(inner)) => {
                lemma_several_peers(name@, inner, one, r);
            },
            _ => {},
        }
    }
    r
}

proof fn lemma_single_peer<F: Fn(&str, &[Property]) -> Result<Peer, OutputError>>(
    name: Seq<char>,
    block: Seq<Property>,
    one: F,
    r: Result<Vec<Peer>, OutputError>,
)
    requires
        forall|l: &str, b: Seq<Property>, p: Result<Peer, OutputError>| #[trigger]
            labelled_parses_to(one, l, b, p) ==> outcome(p) == peer_result(name, l@, b),
        match r {
            Ok(peers) => peers@.len() == 1 && labelled_parses_to(
                one,
                "peer",
                block,
                Ok(peers@[0]),
            ),
            Err(e) => labelled_parses_to(one, "peer", block, Err(e)),
        },
    ensures
        list_outcome(r) == match peer_result(name, "peer"@, block) {
            Ok(peer) => Ok::<Seq<PeerView>, Seq<char>>(seq![peer]),
            Err(e) => Err(e),
        },
{
    if let Ok(peers) = r {
        assert(labelled_parses_to(one, "peer", block, Ok(peers@[0])));
        assert(list_views(peers@) =~= seq![peers@[0]@]);
    }
}

proof fn lemma_several_peers<F: Fn(&str, &[Property]) -> Result<Peer, OutputError>>(
    name: Seq<char>,
    inner: Seq<Property>,
    one: F,
    r: Result<Vec<Peer>, OutputError>,
)
    requires
        forall|l: &str, b: Seq<Property>, p: Result<Peer, OutputError>| #[trigger]
            labelled_parses_to(one, l, b, p) ==> outcome(p) == peer_result(name, l@, b),
        match r {
            Ok(peers) => {
                &&& peers@.len() > 0
                &&& peers@.len() == peer_blocks(inner).len()
                &&& forall|i: int|
                    0 <= i < peers@.len() ==> labelled_parses_to(
                        one,
                        "peers.peer",
                        peer_blocks(inner)[i],
                        Ok(#[trigger] peers@[i]),
                    )
            },
            Err(e) => {
                ||| peer_blocks(inner).len() == 0 && e@ == no_peer_text(
                    output_text(name, "peers"@),
                )
                ||| exists|k: int, done: Seq<Peer>|
                    #![trigger done.len(), peer_blocks(inner)[k]]
                    {
                        &&& 0 <= k < peer_blocks(inner).len()
                        &&& done.len() == k
                        &&& forall|i: int|
                            0 <= i < k ==> labelled_parses_to(
                                one,
                                "peers.peer",
                                peer_blocks(inner)[i],
                                Ok(#[trigger] done[i]),
                            )
                        &&& labelled_parses_to(one, "peers.peer", peer_blocks(inner)[k], Err(e))
                    }
            },
        },
    ensures
        list_outcome(r) == peers_block_result(
            inner,
            output_text(name, "peers"@),
            |block: Seq<Property>| peer_result(name, "peers.peer"@, block),
        ),
{
    let blocks = peer_blocks(inner);
    let parse = |block: Seq<Property>| peer_result(name, "peers.peer"@, block);
    match r {
        Ok(peers) => {
            assert forall|i: int| 0 <= i < blocks.len() implies parse(#[trigger] blocks[i]) == Ok::<
                PeerView,
                Seq<char>,
            >(list_views(peers@)[i]) by {
                assert(labelled_parses_to(one, "peers.peer", blocks[i], Ok(peers@[i])));
            }
            lemma_all_parsed_ok(blocks, parse, list_views(peers@));
        },
        Err(e) => {
            if blocks.len() > 0 {
                let (k, done) = choose|k: int, done: Seq<Peer>|
                    #![trigger done.len(), blocks[k]]
                    {
                        &&& 0 <= k < blocks.len()
                        &&& done.len() == k
                        &&& forall|i: int|
                            0 <= i < k ==> labelled_parses_to(
                                one,
                                "peers.peer",
                                blocks[i],
                                Ok(#[trigger] done[i]),
                            )
                        &&& labelled_parses_to(one, "peers.peer", blocks[k], Err(e))
                    };
                assert forall|i: int| 0 <= i < k implies parse(#[trigger] blocks[i]) is Ok by {
                    assert(labelled_parses_to(one, "peers.peer", blocks[i], Ok(done[i])));
                }
                assert(labelled_parses_to(one, "peers.peer", blocks[k], Err(e)));
                lemma_all_parsed_err(blocks, parse, k, e@);
            }
        },
    }
}

/// What a configuration is read as.
pub open spec fn config_result(
    name: Seq<char>,
    props: Seq<Property>,
    retry_defaults: RetryConfig,
) -> Result<(RetryConfig, Seq<PeerView>), Seq<char>> {
    match retry_result(props, retry_defaults) {
        Err(e) => Err(e),
        Ok(retry) => match destination_result(name, props) {
            Err(e) => Err(e),
            Ok(peers) => Ok((retry, peers)),
        },
    }
}

/// A configured output with the state of its peers, over sockets of type `C`.
#[derive(Debug)]
pub struct SyslogUdpOutput<C> {
    pub name: String,
    pub peers: PeerList<C>,
    pub retry: RetryConfig,
    pub metrics: OutputMetrics,
}

impl<C> SyslogUdpOutput<C> {
    /// Reads the configuration of the output.
    pub fn from_properties(
        name: &str,
        properties: &[Property],
        retry_defaults: RetryConfig,
    ) -> (r: Result<Self, OutputError>)
        ensures
            match r {
                Ok(output) => {
                    &&& config_result(name@, properties@, retry_defaults) == Ok::<
                        (RetryConfig, Seq<PeerView>),
                        Seq<char>,
                    >((output.retry, list_views(output.peers.peer_seq())))
                    &&& output.name@ == name@
                    &&& output.peers.wf()
                    &&& output.peers.cursor() == 0
                    &&& forall|i: int|
                        0 <= i < output.peers.peer_seq().len() ==> (
                        #[trigger] output.peers.states()[i]).conn is None
                            && output.peers.states()[i].cooldown_until is None
                    &&& output.metrics == OutputMetrics::zero()
                },
                Err(e) => config_result(name@, properties@, retry_defaults) == Err::<
                    (RetryConfig, Seq<PeerView>),
                    Seq<char>,
                >(e@),
            },
    {
        let retry = match RetryConfig::from_output_properties(properties, retry_defaults) {
            Ok(retry) => retry,
            Err(e) => {
                return Err(e);
            },
        };
        match parse_peers(name, properties) {
            Ok(peers) => Ok(
                SyslogUdpOutput {
                    name: name.to_owned(),
                    peers: PeerList::new(peers),
                    retry,
                    metrics: OutputMetrics::new(),
                },
            ),
            Err(e) => Err(e),
        }
    }
}

} // verus!
