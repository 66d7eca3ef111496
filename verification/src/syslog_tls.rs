//! The `syslog_tls` output: syslog over TLS to every peer.
use crate::error::{
    list_outcome, list_views, outcome, output_error, output_message, output_text, OutputError,
};
use crate::metrics::OutputMetrics;
use crate::props::{get_block, get_int, get_string, int_at, string_at, Property};
use crate::syslog_peers::{
    all_parsed, peer_blocks, two_destinations, Peer, PeerList, PeerView, SyslogFraming,
};
use crate::syslog_tcp::{
    destination_result, framing_result, peer_tls_result, profiles_result, TLS_PORT,
};
use crate::text::text_eq;
use crate::tls::{ClientTlsConfig, TlsProfiles, TlsView};
use vstd::prelude::*;

pub use crate::syslog_tcp::{parse_framing, parse_peer_tls, parse_tls_block, parse_tls_profiles};

verus! {

/// What a `peer` block is read as: host and port first, the port 6514 where none
/// is given, then its TLS settings.
pub open spec fn peer_result(
    name: Seq<char>,
    label: Seq<char>,
    props: Seq<Property>,
    profiles: Map<Seq<char>, TlsView>,
) -> Result<PeerView, Seq<char>> {
    match string_at(props, "host"@) {
        None => Err(output_text(name, label + " requires 'host'"@)),
        Some(host) => {
            let port: Option<u16> = match int_at(props, "port"@) {
                None => Some(TLS_PORT),
                Some(port) => if 0 <= port <= 65535 {
                    Some(port as u16)
                } else {
                    None
                },
            };
            match port {
                None => Err(output_text(name, label + " port must be 0..=65535"@)),
                Some(port) => match peer_tls_result(name, label, props, profiles) {
                    Err(e) => Err(e),
                    Ok(tls) => Ok(PeerView { host, port, tls }),
                },
            }
        },
    }
}

/// Reads one `peer` block.
pub fn parse_peer(
    name: &str,
    label: &str,
    properties: &[Property],
    profiles: &TlsProfiles,
) -> (r: Result<Peer, OutputError>)
    ensures
        outcome(r) == peer_result(name@, label@, properties@, profiles@),
{
    let host = match get_string(properties, "host") {
        Some(host) => host,
        None => {
            let mut rest = label.to_owned();
            rest.append(" requires 'host'");
            return Err(output_error(name, rest.as_str()));
        },
    };
    let port: u16 = match get_int(properties, "port") {
        None => TLS_PORT,
        Some(port) => {
            if 0 <= port && port <= 65535 {
                port as u16
            } else {
                let mut rest = label.to_owned();
                rest.append(" port must be 0..=65535");
                return Err(output_error(name, rest.as_str()));
            }
        },
    };
    match parse_peer_tls(name, label, properties, profiles) {
        Ok(tls) => Ok(Peer { host, port, tls }),
        Err(e) => Err(e),
    }
}

/// Reads the peers of the output.
pub fn parse_peers(name: &str, properties: &[Property], profiles: &TlsProfiles) -> (r: Result<
    Vec<Peer>,
    OutputError,
>)
    ensures
        list_outcome(r) == destination_result(
            name@,
            properties@,
            |label: Seq<char>, block: Seq<Property>| peer_result(name@, label, block, profiles@),
        ),
{
    if let Some(peer_block) = get_block(properties, "peer") {
        if get_block(properties, "peers").is_some() {
            return Err(two_destinations(name));
        }
        return match parse_peer(name, "peer", peer_block.as_slice(), profiles) {
            Ok(peer) => {
                let mut peers: Vec<Peer> = Vec::new();
                peers.push(peer);
                assert(list_views(peers@) =~= seq![peer@]);
                Ok(peers)
            },
            Err(e) => Err(e),
        };
    }
    let peers_block = match get_block(properties, "peers") {
        Some(block) => block,
        None => {
            return Err(output_error(name, "either 'peer' or 'peers' is required"));
        },
    };
    let ghost blocks = peer_blocks(peers_block@);
    let ghost by_label = |label: Seq<char>, block: Seq<Property>|
        peer_result(name@, label, block, profiles@);
    let ghost parse = |block: Seq<Property>| by_label("peers.peer"@, block);
    let mut out: Vec<Peer> = Vec::new();
    let mut i: usize = 0;
    assert(list_views(out@) =~= Seq::empty());
    while i < peers_block.len()
        invariant
            i <= peers_block@.len(),
            blocks == peer_blocks(peers_block@),
            by_label == (|label: Seq<char>, block: Seq<Property>|
                peer_result(name@, label, block, profiles@)),
            parse == (|block: Seq<Property>| by_label("peers.peer"@, block)),
            crate::props::first_block(properties@, "peer"@) is None,
            crate::props::first_block(properties@, "peers"@) == Some(peers_block@),
            all_parsed(peer_blocks(peers_block@.take(i as int)), parse) == Ok::<
                Seq<PeerView>,
                Seq<char>,
            >(list_views(out@)),
            out@.len() == peer_blocks(peers_block@.take(i as int)).len(),
        decreases peers_block@.len() - i,
    {
        let ghost here = peer_blocks(peers_block@.take(i as int));
        let ghost next = peer_blocks(peers_block@.take(i + 1));
        proof {
            assert(peers_block@.take(i + 1).drop_last() =~= peers_block@.take(i as int));
            assert(peers_block@.take(i + 1).last() == peers_block@[i as int]);
        }
        if let Property::Block { key, properties: inner } = &peers_block[i] {
            if text_eq(key.as_str(), "peer") {
                assert(next.drop_last() =~= here);
                assert(next.last() == inner@);
                let ghost before = out@;
                match parse_peer(name, "peers.peer", inner.as_slice(), profiles) {
                    Ok(peer) => {
                        out.push(peer);
                        assert(list_views(out@) =~= list_views(before).push(peer@));
                    },
                    Err(e) => {
                        proof {
                            assert(parse(next.last()) == Err::<PeerView, Seq<char>>(e@));
                            crate::syslog_peers::lemma_all_parsed_stops(
                                peers_block@,
                                i + 1,
                                parse,
                                e@,
                            );
                        }
                        return Err(e);
                    },
                }
            }
        }
        i = i + 1;
    }
    assert(peers_block@.take(peers_block@.len() as int) =~= peers_block@);
    if out.len() == 0 {
        let label = output_message(name, "peers");
        let mut message = label;
        message.append(" block must contain at least one peer");
        return Err(OutputError { message });
    }
    Ok(out)
}

/// What a whole configuration is read as.
pub open spec fn config_result(name: Seq<char>, props: Seq<Property>) -> Result<
    (SyslogFraming, Seq<PeerView>),
    Seq<char>,
> {
    match framing_result(name, props) {
        Err(e) => Err(e),
        Ok(framing) => match profiles_result(name, props) {
            Err(e) => Err(e),
            Ok(profiles) => match destination_result(
                name,
                props,
                |label: Seq<char>, block: Seq<Property>| peer_result(name, label, block, profiles),
            ) {
                Err(e) => Err(e),
                Ok(peers) => Ok((framing, peers)),
            },
        },
    }
}

/// The TLS settings that the connector of a peer is built from: those of the
/// peer, or the defaults where it has none.
pub open spec fn connector_settings(tls: Option<TlsView>) -> TlsView {
    match tls {
        Some(settings) => settings,
        None => TlsView::none(),
    }
}

/// A configured output with the state of its peers; `C` is the connection that a
/// peer keeps open.
#[derive(Debug)]
pub struct SyslogTlsOutput<C> {
    pub framing: SyslogFraming,
    pub peers: PeerList<C>,
    pub metrics: OutputMetrics,
}

impl<C> SyslogTlsOutput<C> {
    /// Reads the configuration of the output.
    pub fn from_properties(name: &str, properties: &[Property]) -> (r: Result<Self, OutputError>)
        ensures
            match r {
                Ok(output) => {
                    &&& config_result(name@, properties@) == Ok::<
                        (SyslogFraming, Seq<PeerView>),
                        Seq<char>,
                    >((output.framing, list_views(output.peers.peer_seq())))
                    &&& output.peers.wf()
                    &&& output.peers.cursor() == 0
                    &&& forall|i: int|
                        0 <= i < output.peers.peer_seq().len() ==> (
                        #[trigger] output.peers.states()[i]).conn is None
                            && output.peers.states()[i].cooldown_until is None
                    &&& output.metrics == OutputMetrics::zero()
                },
                Err(e) => config_result(name@, properties@) == Err::<
                    (SyslogFraming, Seq<PeerView>),
                    Seq<char>,
                >(e@),
            },
    {
        let framing = match parse_framing(name, properties) {
            Ok(framing) => framing,
            Err(e) => {
                return Err(e);
            },
        };
        let profiles = match parse_tls_profiles(name, properties) {
            Ok(profiles) => profiles,
            Err(e) => {
                return Err(e);
            },
        };
        match parse_peers(name, properties, &profiles) {
            Ok(peers) => {
                Ok(
                    SyslogTlsOutput {
                        framing,
                        peers: PeerList::new(peers),
                        metrics: OutputMetrics::new(),
                    },
                )
            },
            Err(e) => Err(e),
        }
    }

    /// The settings of the connector for a peer.
    pub fn connector_config(&self, idx: usize) -> (c: ClientTlsConfig)
        requires
            self.peers.wf(),
            idx < self.peers.peer_seq().len(),
        ensures
            c@ == connector_settings(self.peers.peer_seq()[idx as int]@.tls),
    {
        match &self.peers.peers()[idx].tls {
            Some(tls) => tls.duplicate(),
            None => ClientTlsConfig::empty(),
        }
    }
}

} // verus!
