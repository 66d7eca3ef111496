//! The `syslog_tcp` output: syslog over TCP to peers that are plaintext or TLS.
use crate::error::{list_outcome, list_views, option_view, outcome, output_error, output_message, output_text, OutputError};
use crate::metrics::OutputMetrics;
use crate::props::{
    first_block, get_block, get_ident, ident_at, key_of, Expr, Property,
};
use crate::syslog_peers::{
    host_port_result, iter_peers_block, lemma_iter_result, parse_host_port, parses_to,
    peer_blocks, peers_block_result, two_destinations, two_destinations_text, Peer, PeerList,
    PeerView, SyslogFraming,
};
use crate::text::{join_dots, joined, text_eq, texts};
use crate::tls::{tls_block_result, ClientTlsConfig, TlsProfiles, TlsView};
use vstd::prelude::*;

verus! {

/// Default port of a TLS peer.
pub const TLS_PORT: u16 = 6514;

/// Default port of a plaintext peer.
pub const PLAIN_PORT: u16 = 514;

/// The message about a framing that does not exist.
pub open spec fn unknown_framing_text(name: Seq<char>, word: Seq<char>) -> Seq<char> {
    output_text(
        name,
        "unknown framing '"@ + word + "' (expected octet_counting | non_transparent)"@,
    )
}

/// What the `framing` setting is read as; counted frames where it is missing.
pub open spec fn framing_result(name: Seq<char>, props: Seq<Property>) -> Result<
    SyslogFraming,
    Seq<char>,
> {
    match ident_at(props, "framing"@) {
        None => Ok(SyslogFraming::OctetCounting),
        Some(word) => if word == "non_transparent"@ {
            Ok(SyslogFraming::NonTransparent)
        } else if word == "octet_counting"@ {
            Ok(SyslogFraming::OctetCounting)
        } else {
            Err(unknown_framing_text(name, word))
        },
    }
}

/// Reads the `framing` setting.
pub fn parse_framing(name: &str, properties: &[Property]) -> (r: Result<SyslogFraming, OutputError>)
    ensures
        match r {
            Ok(framing) => framing_result(name@, properties@) == Ok::<SyslogFraming, Seq<char>>(
                framing,
            ),
            Err(e) => framing_result(name@, properties@) == Err::<SyslogFraming, Seq<char>>(e@),
        },
{
    match get_ident(properties, "framing") {
        None => Ok(SyslogFraming::OctetCounting),
        Some(word) => {
            if text_eq(word.as_str(), "non_transparent") {
                Ok(SyslogFraming::NonTransparent)
            } else if text_eq(word.as_str(), "octet_counting") {
                Ok(SyslogFraming::OctetCounting)
            } else {
                let rest = crate::error::cat3(
                    "unknown framing '",
                    word.as_str(),
                    "' (expected octet_counting | non_transparent)",
                );
                Err(output_error(name, rest.as_str()))
            }
        },
    }
}

/// What the blocks inside a top-level `tls` block define, in order.
pub open spec fn profiles_of(name: Seq<char>, blocks: Seq<Property>) -> Result<
    Map<Seq<char>, TlsView>,
    Seq<char>,
>
    decreases blocks.len(),
{
    if blocks.len() == 0 {
        Ok(Map::empty())
    } else {
        match profiles_of(name, blocks.drop_last()) {
            Err(e) => Err(e),
            Ok(before) => match blocks.last() {
                Property::Block { key, properties } => match tls_block_result(
                    properties@,
                    output_text(name, "tls profile '"@ + key@ + "'"@),
                ) {
                    Ok(tls) => Ok(before.insert(key@, tls)),
                    Err(e) => Err(e),
                },
                Property::KeyValue { .. } => Ok(before),
            },
        }
    }
}

/// The named TLS profiles of an output.
pub open spec fn profiles_result(name: Seq<char>, props: Seq<Property>) -> Result<
    Map<Seq<char>, TlsView>,
    Seq<char>,
> {
    match first_block(props, "tls"@) {
        None => Ok(Map::empty()),
        Some(blocks) => profiles_of(name, blocks),
    }
}

proof fn lemma_profiles_error(name: Seq<char>, blocks: Seq<Property>, k: int)
    requires
        0 <= k <= blocks.len(),
        profiles_of(name, blocks.take(k)) is Err,
    ensures
        profiles_of(name, blocks) == profiles_of(name, blocks.take(k)),
    decreases blocks.len(),
{
    if k == blocks.len() {
        assert(blocks.take(k) =~= blocks);
    } else {
        assert(blocks.drop_last().take(k) =~= blocks.take(k));
        lemma_profiles_error(name, blocks.drop_last(), k);
    }
}

/// Reads the named TLS profiles of the top-level `tls` block.
pub fn parse_tls_profiles(name: &str, properties: &[Property]) -> (r: Result<
    TlsProfiles,
    OutputError,
>)
    ensures
        outcome(r) == profiles_result(name@, properties@),
{
    let mut profiles = TlsProfiles::new();
    let block = match get_block(properties, "tls") {
        None => {
            return Ok(profiles);
        },
        Some(block) => block,
    };
    let mut i: usize = 0;
    while i < block.len()
        invariant
            i <= block@.len(),
            first_block(properties@, "tls"@) == Some(block@),
            profiles_of(name@, block@.take(i as int)) == Ok::<Map<Seq<char>, TlsView>, Seq<char>>(
                profiles@,
            ),
        decreases block@.len() - i,
    {
        assert(block@.take(i + 1).drop_last() =~= block@.take(i as int));
        assert(block@.take(i + 1).last() == block@[i as int]);
        if let Property::Block { key, properties: inner } = &block[i] {
            let rest = crate::error::cat3("tls profile '", key.as_str(), "'");
            let label = output_message(name, rest.as_str());
            match parse_tls_block(label.as_str(), inner.as_slice()) {
                Ok(tls) => {
                    profiles.insert(key.clone(), tls);
                },
                Err(e) => {
                    proof {
                        lemma_profiles_error(name@, block@, i + 1);
                    }
                    return Err(e);
                },
            }
        }
        i = i + 1;
    }
    assert(block@.take(block@.len() as int) =~= block@);
    Ok(profiles)
}

/// Reads and checks one `tls` block.
pub fn parse_tls_block(label: &str, properties: &[Property]) -> (r: Result<
    ClientTlsConfig,
    OutputError,
>)
    ensures
        outcome(r) == tls_block_result(properties@, label@),
{
    crate::tls::parse_tls_block(properties, label)
}

/// The first property with this key, of either form.
pub open spec fn first_keyed(props: Seq<Property>, key: Seq<char>) -> Option<Property>
    decreases props.len(),
{
    if props.len() == 0 {
        None
    } else if key_of(props[0]) == key {
        Some(props[0])
    } else {
        first_keyed(props.drop_first(), key)
    }
}

/// The profile that a `tls` value names.
pub open spec fn profile_name(value: Expr) -> Option<Seq<char>> {
    match value {
        Expr::Ident(parts) => if parts@.len() > 0 {
            Some(joined(texts(parts@), "."@))
        } else {
            None
        },
        Expr::StringLit(s) => Some(s@),
        _ => None,
    }
}

/// What the `tls` property of a peer is read as: an inline block, or the name of
/// a profile that must exist.
pub open spec fn peer_tls_result(
    name: Seq<char>,
    label: Seq<char>,
    props: Seq<Property>,
    profiles: Map<Seq<char>, TlsView>,
) -> Result<Option<TlsView>, Seq<char>> {
    match first_keyed(props, "tls"@) {
        None => Ok(None),
        Some(Property::Block { properties, .. }) => match tls_block_result(
            properties@,
            output_text(name, label + " tls"@),
        ) {
            Ok(tls) => Ok(Some(tls)),
            Err(e) => Err(e),
        },
        Some(Property::KeyValue { value, .. }) => match profile_name(value) {
            None => Err(
                output_text(name, label + " tls must be a profile name or inline block"@),
            ),
            Some(profile) => if profiles.contains_key(profile) {
                Ok(Some(profiles[profile]))
            } else {
                Err(output_text(name, "unknown tls profile '"@ + profile + "'"@))
            },
        },
    }
}

fn find_keyed<'a>(properties: &'a [Property], key: &str) -> (r: Option<&'a Property>)
    ensures
        match r {
            Some(p) => first_keyed(properties@, key@) == Some(*p),
            None => first_keyed(properties@, key@) is None,
        },
{
    let mut i: usize = 0;
    assert(properties@.skip(0) =~= properties@);
    while i < properties.len()
        invariant
            i <= properties@.len(),
            first_keyed(properties@, key@) == first_keyed(properties@.skip(i as int), key@),
        decreases properties@.len() - i,
    {
        assert(properties@.skip(i as int).drop_first() =~= properties@.skip(i + 1));
        assert(properties@.skip(i as int)[0] == properties@[i as int]);
        let found = match &properties[i] {
            Property::KeyValue { key: k, .. } => text_eq(k.as_str(), key),
            Property::Block { key: k, .. } => text_eq(k.as_str(), key),
        };
        if found {
            return Some(&properties[i]);
        }
        i = i + 1;
    }
    None
}

/// Reads the `tls` property of a peer.
pub fn parse_peer_tls(
    name: &str,
    label: &str,
    properties: &[Property],
    profiles: &TlsProfiles,
) -> (r: Result<Option<ClientTlsConfig>, OutputError>)
    ensures
        match r {
            Ok(tls) => peer_tls_result(name@, label@, properties@, profiles@) == Ok::<
                Option<TlsView>,
                Seq<char>,
            >(option_view(tls)),
            Err(e) => peer_tls_result(name@, label@, properties@, profiles@) == Err::<
                Option<TlsView>,
                Seq<char>,
            >(e@),
        },
{
    match find_keyed(properties, "tls") {
        None => Ok(None),
        Some(Property::Block { properties: inner, .. }) => {
            let mut rest = label.to_owned();
            rest.append(" tls");
            let block_label = output_message(name, rest.as_str());
            match parse_tls_block(block_label.as_str(), inner.as_slice()) {
                Ok(tls) => Ok(Some(tls)),
                Err(e) => Err(e),
            }
        },
        Some(Property::KeyValue { value, .. }) => {
            let profile: Option<String> = match value {
                Expr::Ident(parts) => if parts.len() > 0 {
                    Some(join_dots(parts))
                } else {
                    None
                },
                Expr::StringLit(s) => Some(s.clone()),
                _ => None,
            };
            match profile {
                None => {
                    let mut rest = label.to_owned();
                    rest.append(" tls must be a profile name or inline block");
                    Err(output_error(name, rest.as_str()))
                },
                Some(profile) => match profiles.lookup(profile.as_str()) {
                    Some(tls) => Ok(Some(tls)),
                    None => {
                        let rest = crate::error::cat3(
                            "unknown tls profile '",
                            profile.as_str(),
                            "'",
                        );
                        Err(output_error(name, rest.as_str()))
                    },
                },
            }
        },
    }
}

/// What a `peer` block is read as. The default port depends on whether this peer
/// uses TLS.
pub open spec fn peer_result(
    name: Seq<char>,
    label: Seq<char>,
    props: Seq<Property>,
    profiles: Map<Seq<char>, TlsView>,
) -> Result<PeerView, Seq<char>> {
    match peer_tls_result(name, label, props, profiles) {
        Err(e) => Err(e),
        Ok(tls) => {
            let default_port = if tls is Some {
                TLS_PORT
            } else {
                PLAIN_PORT
            };
            match host_port_result(props, default_port, output_text(name, label)) {
                Err(e) => Err(e),
                Ok((host, port)) => Ok(PeerView { host, port, tls }),
            }
        },
    }
}

/// Reads one `peer` block.
pub fn parse_peer(
    name: &str,
    label: &str,
    properties: &[Property],
    profiles: &TlsProfiles,
) -> (r: Result<Peer, OutputError>)
    ensures
        outcome(r) == peer_result(name@, label@, properties@, profiles@),
{
    let tls = match parse_peer_tls(name, label, properties, profiles) {
        Ok(tls) => tls,
        Err(e) => {
            return Err(e);
        },
    };
    let default_port: u16 = if tls.is_some() {
        TLS_PORT
    } else {
        PLAIN_PORT
    };
    let host_port_label = output_message(name, label);
    match parse_host_port(properties, default_port, host_port_label.as_str()) {
        Ok((host, port)) => Ok(Peer { host, port, tls }),
        Err(e) => Err(e),
    }
}

/// What the destination of an output is read as, given what a `peer` block with a
/// label is read as: exactly one of `peer` and `peers`.
pub open spec fn destination_result(
    name: Seq<char>,
    props: Seq<Property>,
    parse: spec_fn(Seq<char>, Seq<Property>) -> Result<PeerView, Seq<char>>,
) -> Result<Seq<PeerView>, Seq<char>> {
    match (first_block(props, "peer"@), first_block(props, "peers"@)) {
        (Some(_), Some(_)) => Err(two_destinations_text(name)),
        (Some(block), None) => match parse("peer"@, block) {
            Ok(peer) => Ok(seq![peer]),
            Err(e) => Err(e),
        },
        (None, Some(inner)) => peers_block_result(
            inner,
            output_text(name, "peers"@),
            |block: Seq<Property>| parse("peers.peer"@, block),
        ),
        (None, None) => Err(output_text(name, "either 'peer' or 'peers' is required"@)),
    }
}

/// Reads the peers of the output.
pub fn parse_peers(name: &str, properties: &[Property], profiles: &TlsProfiles) -> (r: Result<
    Vec<Peer>,
    OutputError,
>)
    ensures
        list_outcome(r) == destination_result(
            name@,
            properties@,
            |label: Seq<char>, block: Seq<Property>| peer_result(name@, label, block, profiles@),
        ),
{
    if let Some(peer_block) = get_block(properties, "peer") {
        if get_block(properties, "peers").is_some() {
            return Err(two_destinations(name));
        }
        return match parse_peer(name, "peer", peer_block.as_slice(), profiles) {
            Ok(peer) => {
                let mut peers: Vec<Peer> = Vec::new();
                peers.push(peer);
                assert(list_views(peers@) =~= seq![peer@]);
                Ok(peers)
            },
            Err(e) => Err(e),
        };
    }
    if let Some(peers_block) = get_block(properties, "peers") {
        let label = output_message(name, "peers");
        let one = |inner: &[Property]| -> (p: Result<Peer, OutputError>)
            ensures
                outcome(p) == peer_result(name@, "peers.peer"@, inner@, profiles@),
            { parse_peer(name, "peers.peer", inner, profiles) };
        let r = iter_peers_block(peers_block.as_slice(), label.as_str(), one);
        proof {
            let blocks = peer_blocks(peers_block@);
            let parse = |block: Seq<Property>| peer_result(name@, "peers.peer"@, block, profiles@);
            let by_label = |label: Seq<char>, block: Seq<Property>|
                peer_result(name@, label, block, profiles@);
            assert forall|b: Seq<Property>, p: Result<Peer, OutputError>| #[trigger]
                parses_to(one, b, p) implies outcome(p) == parse(b) by {
                let s = choose|s: &[Property]|
                    #![trigger s@]
                    s@ == b && call_ensures(one, (s,), p);
                assert(s@ == b && call_ensures(one, (s,), p));
            }
            lemma_iter_result(blocks, one, parse, label@, r);
            assert((|block: Seq<Property>| by_label("peers.peer"@, block)) =~= parse);
        }
        return r;
    }
    Err(output_error(name, "either 'peer' or 'peers' is required"))
}

/// What a whole configuration is read as.
pub open spec fn config_result(name: Seq<char>, props: Seq<Property>) -> Result<
    (SyslogFraming, Seq<PeerView>),
    Seq<char>,
> {
    match framing_result(name, props) {
        Err(e) => Err(e),
        Ok(framing) => match profiles_result(name, props) {
            Err(e) => Err(e),
            Ok(profiles) => match destination_result(
                name,
                props,
                |label: Seq<char>, block: Seq<Property>| peer_result(name, label, block, profiles),
            ) {
                Err(e) => Err(e),
                Ok(peers) => Ok((framing, peers)),
            },
        },
    }
}

/// A configured output with the state of its peers; `C` is the connection that a
/// peer keeps open.
#[derive(Debug)]
pub struct SyslogTcpOutput<C> {
    pub framing: SyslogFraming,
    pub peers: PeerList<C>,
    pub metrics: OutputMetrics,
}

impl<C> SyslogTcpOutput<C> {
    /// Reads the configuration of the output.
    pub fn from_properties(name: &str, properties: &[Property]) -> (r: Result<Self, OutputError>)
        ensures
            match r {
                Ok(output) => {
                    &&& config_result(name@, properties@) == Ok::<
                        (SyslogFraming, Seq<PeerView>),
                        Seq<char>,
                    >((output.framing, list_views(output.peers.peer_seq())))
                    &&& output.peers.wf()
                    &&& output.peers.cursor() == 0
                    &&& forall|i: int|
                        0 <= i < output.peers.peer_seq().len() ==> (
                        #[trigger] output.peers.states()[i]).conn is None
                            && output.peers.states()[i].cooldown_until is None
                    &&& output.metrics == OutputMetrics::zero()
                },
                Err(e) => config_result(name@, properties@) == Err::<
                    (SyslogFraming, Seq<PeerView>),
                    Seq<char>,
                >(e@),
            },
    {
        let framing = match parse_framing(name, properties) {
            Ok(framing) => framing,
            Err(e) => {
                return Err(e);
            },
        };
        let profiles = match parse_tls_profiles(name, properties) {
            Ok(profiles) => profiles,
            Err(e) => {
                return Err(e);
            },
        };
        match parse_peers(name, properties, &profiles) {
            Ok(peers) => {
                Ok(
                    SyslogTcpOutput {
                        framing,
                        peers: PeerList::new(peers),
                        metrics: OutputMetrics::new(),
                    },
                )
            },
            Err(e) => Err(e),
        }
    }
}

} // verus!
