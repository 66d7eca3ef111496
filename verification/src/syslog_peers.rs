//! Destinations shared by the syslog outputs: their configuration, the framing
//! of messages, and rotation over several peers with a cooldown after a failure.
//!
//! Points in time and durations are nanoseconds; a point in time counts from an
//! origin that the caller fixes once.
use crate::error::{
    list_outcome, list_views, option_view, outcome, output_error, output_message, output_text,
    OutputError,
};
use crate::framing::{counted_frame, frame_counted, frame_with_newline, terminated_frame};
use crate::props::{first_block, get_block, get_int, get_string, int_at, string_at, Property};
use crate::text::{contains_char, decimal, decimal_text, has_char, text_eq};
use crate::tls::{ClientTlsConfig, TlsView};
use vstd::prelude::*;

pub use crate::peer_rotation::{
    AttemptOutcome, PeerList, PeerMetrics, PeerSendError, PeerState, RotatingPeers, Rotation,
    RoundAction,
};

verus! {

/// How long a peer is left alone after a failed attempt.
pub const PEER_COOLDOWN: u64 = 5_000_000_000;

/// Longest wait for a connect to one peer.
pub const PEER_CONNECT_TIMEOUT: u64 = 5_000_000_000;

/// Longest wait for a TLS handshake with one peer.
pub const PEER_HANDSHAKE_TIMEOUT: u64 = 5_000_000_000;

/// Longest wait for one write and flush on an established connection.
pub const PEER_WRITE_TIMEOUT: u64 = 10_000_000_000;

/// What a syslog output ships for one event.
#[derive(Debug)]
pub struct SyslogPayload {
    pub egress: Vec<u8>,
}

/// Framing of syslog messages on a stream.
#[derive(Debug, Clone, Copy, PartialEq, Eq, Structural)]
pub enum SyslogFraming {
    /// The length in decimal, a space, then the message.
    OctetCounting,
    /// The message, then a line feed.
    NonTransparent,
}

/// The bytes that a message is shipped as.
pub open spec fn framed(framing: SyslogFraming, payload: Seq<u8>) -> Seq<u8> {
    match framing {
        SyslogFraming::OctetCounting => counted_frame(payload),
        SyslogFraming::NonTransparent => terminated_frame(payload),
    }
}

/// Frames one message.
pub fn write_framed(framing: SyslogFraming, payload: &[u8]) -> (frame: Vec<u8>)
    ensures
        frame@ == framed(framing, payload@),
{
    match framing {
        SyslogFraming::OctetCounting => frame_counted(payload),
        SyslogFraming::NonTransparent => frame_with_newline(payload),
    }
}

/// A configured destination. `tls` is there only where the connection is to be
/// encrypted.
#[derive(Debug)]
pub struct Peer {
    pub host: String,
    pub port: u16,
    pub tls: Option<ClientTlsConfig>,
}

/// What a [`Peer`] says.
pub ghost struct PeerView {
    pub host: Seq<char>,
    pub port: u16,
    pub tls: Option<TlsView>,
}

impl View for Peer {
    type V = PeerView;

    open spec fn view(&self) -> PeerView {
        PeerView { host: self.host@, port: self.port, tls: option_view(self.tls) }
    }
}

/// Whether a host is an IPv6 literal that still needs its brackets.
pub open spec fn needs_brackets(host: Seq<char>) -> bool {
    &&& has_char(host, ':')
    &&& host[0] != '['
    &&& host.last() != ']'
}

/// `host:port`, with brackets round a bare IPv6 literal.
pub open spec fn host_port_text(host: Seq<char>, port: nat) -> Seq<char> {
    if needs_brackets(host) {
        "["@ + host + "]:"@ + decimal(port)
    } else {
        host + ":"@ + decimal(port)
    }
}

impl Peer {
    /// `host:port` as a connect call takes it. A bare IPv6 literal is put in
    /// brackets, since its colons would swallow the port; one that already has
    /// them is left as it is.
    pub fn address(&self) -> (s: String)
        ensures
            s@ == host_port_text(self.host@, self.port as nat),
    {
        let port = decimal_text(self.port as u64);
        let mut s = String::new();
        if contains_char(self.host.as_str(), ':') {
            let chars = crate::text::chars_of(self.host.as_str());
            if chars[0] != '[' && chars[chars.len() - 1] != ']' {
                s.append("[");
                s.append(self.host.as_str());
                s.append("]:");
                s.append(port.as_str());
                assert(s@ =~= host_port_text(self.host@, self.port as nat));
                return s;
            }
        }
        s.append(self.host.as_str());
        s.append(":");
        s.append(port.as_str());
        assert(s@ =~= host_port_text(self.host@, self.port as nat));
        s
    }
}

/// What the `host` and `port` of a peer block are read as.
pub open spec fn host_port_result(
    props: Seq<Property>,
    default_port: u16,
    label: Seq<char>,
) -> Result<(Seq<char>, u16), Seq<char>> {
    match string_at(props, "host"@) {
        None => Err(label + " requires 'host'"@),
        Some(host) => match int_at(props, "port"@) {
            None => Ok((host, default_port)),
            Some(port) => if 0 <= port <= 65535 {
                Ok((host, port as u16))
            } else {
                Err(label + " port must be 0..=65535"@)
            },
        },
    }
}

/// Reads `host` and `port` of a peer block.
pub fn parse_host_port(properties: &[Property], default_port: u16, label: &str) -> (r: Result<
    (String, u16),
    OutputError,
>)
    ensures
        match r {
            Ok((host, port)) => host_port_result(properties@, default_port, label@) == Ok::<
                (Seq<char>, u16),
                Seq<char>,
            >((host@, port)),
            Err(e) => host_port_result(properties@, default_port, label@) == Err::<
                (Seq<char>, u16),
                Seq<char>,
            >(e@),
        },
{
    match get_string(properties, "host") {
        None => {
            let mut message = label.to_owned();
            message.append(" requires 'host'");
            Err(OutputError { message })
        },
        Some(host) => match get_int(properties, "port") {
            None => Ok((host, default_port)),
            Some(port) => if 0 <= port && port <= 65535 {
                Ok((host, port as u16))
            } else {
                let mut message = label.to_owned();
                message.append(" port must be 0..=65535");
                Err(OutputError { message })
            },
        },
    }
}

/// The contents of the `peer` blocks of a `peers` block, in order.
pub open spec fn peer_blocks(props: Seq<Property>) -> Seq<Seq<Property>>
    decreases props.len(),
{
    if props.len() == 0 {
        Seq::empty()
    } else {
        let before = peer_blocks(props.drop_last());
        match props.last() {
            Property::Block { key, properties } => if key@ == "peer"@ {
                before.push(properties@)
            } else {
                before
            },
            Property::KeyValue { .. } => before,
        }
    }
}

/// The message about a `peers` block without a peer.
pub open spec fn no_peer_text(label: Seq<char>) -> Seq<char> {
    label + " block must contain at least one peer"@
}

/// Whether `parse` gives this result on these properties.
pub open spec fn parses_to<T, F: Fn(&[Property]) -> Result<T, OutputError>>(
    parse: F,
    props: Seq<Property>,
    r: Result<T, OutputError>,
) -> bool {
    exists|s: &[Property]| #![trigger s@] s@ == props && call_ensures(parse, (s,), r)
}

/// Parses every `peer` block inside a `peers` block with the given parser, and
/// stops at the first that it refuses.
pub fn iter_peers_block<T, F: Fn(&[Property]) -> Result<T, OutputError>>(
    peers_block: &[Property],
    label: &str,
    parse_one: F,
) -> (r: Result<Vec<T>, OutputError>)
    requires
        forall|s: &[Property]| call_requires(parse_one, (s,)),
    ensures
        match r {
            Ok(peers) => {
                &&& peers@.len() > 0
                &&& peers@.len() == peer_blocks(peers_block@).len()
                &&& forall|i: int|
                    0 <= i < peers@.len() ==> parses_to(
                        parse_one,
                        peer_blocks(peers_block@)[i],
                        Ok(#[trigger] peers@[i]),
                    )
            },
            Err(e) => {
                ||| peer_blocks(peers_block@).len() == 0 && e@ == no_peer_text(label@)
                ||| exists|k: int, done: Seq<T>|
                    #![trigger done.len(), peer_blocks(peers_block@)[k]]
                    {
                        &&& 0 <= k < peer_blocks(peers_block@).len()
                        &&& done.len() == k
                        &&& forall|i: int|
                            0 <= i < k ==> parses_to(
                                parse_one,
                                peer_blocks(peers_block@)[i],
                                Ok(#[trigger] done[i]),
                            )
                        &&& parses_to(parse_one, peer_blocks(peers_block@)[k], Err(e))
                    }
            },
        },
{
    let ghost blocks = peer_blocks(peers_block@);
    let mut out: Vec<T> = Vec::new();
    let mut i: usize = 0;
    while i < peers_block.len()
        invariant
            i <= peers_block@.len(),
            blocks == peer_blocks(peers_block@),
            forall|s: &[Property]| call_requires(parse_one, (s,)),
            out@.len() == peer_blocks(peers_block@.take(i as int)).len(),
            peer_blocks(peers_block@.take(i as int)).is_prefix_of(blocks),
            forall|j: int|
                0 <= j < out@.len() ==> parses_to(parse_one, blocks[j], Ok(#[trigger] out@[j])),
        decreases peers_block@.len() - i,
    {
        proof {
            assert(peers_block@.take(i + 1).drop_last() =~= peers_block@.take(i as int));
            assert(peers_block@.take(i + 1).last() == peers_block@[i as int]);
            lemma_peer_blocks_prefix(peers_block@, i + 1);
        }
        if let Property::Block { key, properties } = &peers_block[i] {
            if text_eq(key.as_str(), "peer") {
                let ghost k = out@.len() as int;
                assert(peer_blocks(peers_block@.take(i + 1))[k] == properties@);
                assert(blocks[k] == properties@);
                let inner: &[Property] = properties.as_slice();
                assert(inner@ == blocks[k]);
                match parse_one(inner) {
                    Ok(peer) => {
                        assert(parses_to(parse_one, blocks[k], Ok(peer)));
                        out.push(peer);
                    },
                    Err(e) => {
                        assert(parses_to(parse_one, blocks[k], Err(e)));
                        assert(out@.len() == k);
                        return Err(e);
                    },
                }
            }
        }
        i = i + 1;
    }
    assert(peers_block@.take(peers_block@.len() as int) =~= peers_block@);
    if out.len() == 0 {
        let mut message = label.to_owned();
        message.append(" block must contain at least one peer");
        return Err(OutputError { message });
    }
    Ok(out)
}

/// A block that is refused ends the walk: what comes behind it does not matter.
pub(crate) proof fn lemma_all_parsed_stops<V>(
    props: Seq<Property>,
    k: int,
    parse: spec_fn(Seq<Property>) -> Result<V, Seq<char>>,
    e: Seq<char>,
)
    requires
        0 <= k <= props.len(),
        all_parsed(peer_blocks(props.take(k)), parse) == Err::<Seq<V>, Seq<char>>(e),
    ensures
        all_parsed(peer_blocks(props), parse) == Err::<Seq<V>, Seq<char>>(e),
        peer_blocks(props).len() > 0,
    decreases props.len(),
{
    if k == props.len() {
        assert(props.take(k) =~= props);
    } else {
        assert(props.drop_last().take(k) =~= props.take(k));
        lemma_all_parsed_stops(props.drop_last(), k, parse, e);
        let before = peer_blocks(props.drop_last());
        if peer_blocks(props) != before {
            assert(peer_blocks(props).drop_last() =~= before);
        }
    }
}

proof fn lemma_peer_blocks_prefix(props: Seq<Property>, k: int)
    requires
        0 <= k <= props.len(),
    ensures
        peer_blocks(props.take(k)).is_prefix_of(peer_blocks(props)),
    decreases props.len(),
{
    if k == props.len() {
        assert(props.take(k) =~= props);
        assert(peer_blocks(props) =~= peer_blocks(props).subrange(
            0,
            peer_blocks(props).len() as int,
        ));
    } else {
        lemma_peer_blocks_prefix(props.drop_last(), k);
        assert(props.drop_last().take(k) =~= props.take(k));
        let small = peer_blocks(props.take(k));
        let mid = peer_blocks(props.drop_last());
        assert(small =~= peer_blocks(props).subrange(0, small.len() as int));
    }
}

/// Every block parsed in order, or the error of the first one refused.
pub open spec fn all_parsed<V>(
    blocks: Seq<Seq<Property>>,
    parse: spec_fn(Seq<Property>) -> Result<V, Seq<char>>,
) -> Result<Seq<V>, Seq<char>>
    decreases blocks.len(),
{
    if blocks.len() == 0 {
        Ok(Seq::empty())
    } else {
        match all_parsed(blocks.drop_last(), parse) {
            Err(e) => Err(e),
            Ok(done) => match parse(blocks.last()) {
                Err(e) => Err(e),
                Ok(v) => Ok(done.push(v)),
            },
        }
    }
}

/// What a `peers` block is read as, given what each `peer` block is read as.
pub open spec fn peers_block_result<V>(
    props: Seq<Property>,
    label: Seq<char>,
    parse: spec_fn(Seq<Property>) -> Result<V, Seq<char>>,
) -> Result<Seq<V>, Seq<char>> {
    let blocks = peer_blocks(props);
    if blocks.len() == 0 {
        Err(no_peer_text(label))
    } else {
        all_parsed(blocks, parse)
    }
}

pub proof fn lemma_all_parsed_ok<V>(
    blocks: Seq<Seq<Property>>,
    parse: spec_fn(Seq<Property>) -> Result<V, Seq<char>>,
    values: Seq<V>,
)
    requires
        values.len() == blocks.len(),
        forall|i: int|
            0 <= i < blocks.len() ==> parse(#[trigger] blocks[i]) == Ok::<V, Seq<char>>(values[i]),
    ensures
        all_parsed(blocks, parse) == Ok::<Seq<V>, Seq<char>>(values),
    decreases blocks.len(),
{
    if blocks.len() > 0 {
        let shorter = blocks.drop_last();
        assert forall|i: int| 0 <= i < shorter.len() implies parse(#[trigger] shorter[i]) == Ok::<
            V,
            Seq<char>,
        >(values.drop_last()[i]) by {
            assert(shorter[i] == blocks[i]);
        }
        lemma_all_parsed_ok(shorter, parse, values.drop_last());
        assert(parse(blocks[blocks.len() - 1]) == Ok::<V, Seq<char>>(values.last()));
        assert(values.drop_last().push(values.last()) =~= values);
    } else {
        assert(values =~= Seq::empty());
    }
}

pub proof fn lemma_all_parsed_err<V>(
    blocks: Seq<Seq<Property>>,
    parse: spec_fn(Seq<Property>) -> Result<V, Seq<char>>,
    k: int,
    e: Seq<char>,
)
    requires
        0 <= k < blocks.len(),
        forall|i: int| 0 <= i < k ==> parse(#[trigger] blocks[i]) is Ok,
        parse(blocks[k]) == Err::<V, Seq<char>>(e),
    ensures
        all_parsed(blocks, parse) == Err::<Seq<V>, Seq<char>>(e),
    decreases blocks.len(),
{
    let shorter = blocks.drop_last();
    if k < blocks.len() - 1 {
        assert forall|i: int| 0 <= i < k implies parse(#[trigger] shorter[i]) is Ok by {
            assert(shorter[i] == blocks[i]);
        }
        lemma_all_parsed_err(shorter, parse, k, e);
    } else {
        let values = Seq::new(k as nat, |i: int| parse(blocks[i])->Ok_0);
        assert forall|i: int| 0 <= i < shorter.len() implies parse(#[trigger] shorter[i]) == Ok::<
            V,
            Seq<char>,
        >(values[i]) by {
            assert(shorter[i] == blocks[i]);
        }
        lemma_all_parsed_ok(shorter, parse, values);
    }
}

/// What the walk over the `peer` blocks gives, where the parser of one block is a
/// function of what the block holds.
pub proof fn lemma_iter_result<T: View, F: Fn(&[Property]) -> Result<T, OutputError>>(
    blocks: Seq<Seq<Property>>,
    one: F,
    parse: spec_fn(Seq<Property>) -> Result<T::V, Seq<char>>,
    label: Seq<char>,
    r: Result<Vec<T>, OutputError>,
)
    requires
        forall|b: Seq<Property>, p: Result<T, OutputError>| #[trigger]
            parses_to(one, b, p) ==> outcome(p) == parse(b),
        match r {
            Ok(peers) => {
                &&& peers@.len() > 0
                &&& peers@.len() == blocks.len()
                &&& forall|i: int|
                    0 <= i < peers@.len() ==> parses_to(one, blocks[i], Ok(#[trigger] peers@[i]))
            },
            Err(e) => {
                ||| blocks.len() == 0 && e@ == no_peer_text(label)
                ||| exists|k: int, done: Seq<T>|
                    #![trigger done.len(), blocks[k]]
                    {
                        &&& 0 <= k < blocks.len()
                        &&& done.len() == k
                        &&& forall|i: int|
                            0 <= i < k ==> parses_to(one, blocks[i], Ok(#[trigger] done[i]))
                        &&& parses_to(one, blocks[k], Err(e))
                    }
            },
        },
    ensures
        list_outcome(r) == if blocks.len() == 0 {
            Err::<Seq<T::V>, Seq<char>>(no_peer_text(label))
        } else {
            all_parsed(blocks, parse)
        },
{
    match r {
        Ok(peers) => {
            assert forall|i: int| 0 <= i < blocks.len() implies parse(#[trigger] blocks[i]) == Ok::<
                T::V,
                Seq<char>,
            >(list_views(peers@)[i]) by {
                assert(parses_to(one, blocks[i], Ok(peers@[i])));
            }
            lemma_all_parsed_ok(blocks, parse, list_views(peers@));
        },
        Err(e) => {
            if blocks.len() > 0 {
                let (k, done) = choose|k: int, done: Seq<T>|
                    #![trigger done.len(), blocks[k]]
                    {
                        &&& 0 <= k < blocks.len()
                        &&& done.len() == k
                        &&& forall|i: int|
                            0 <= i < k ==> parses_to(one, blocks[i], Ok(#[trigger] done[i]))
                        &&& parses_to(one, blocks[k], Err(e))
                    };
                assert forall|i: int| 0 <= i < k implies parse(#[trigger] blocks[i]) is Ok by {
                    assert(parses_to(one, blocks[i], Ok(done[i])));
                }
                assert(parses_to(one, blocks[k], Err(e)));
                lemma_all_parsed_err(blocks, parse, k, e@);
            }
        },
    }
}

/// What the parser of one peer gave, of the single `peer` block or of the blocks
/// inside `peers`.
pub open spec fn labelled_parses_to<F: Fn(&str, &[Property]) -> Result<Peer, OutputError>>(
    parse: F,
    label: &str,
    props: Seq<Property>,
    r: Result<Peer, OutputError>,
) -> bool {
    exists|s: &[Property]| #![trigger s@] s@ == props && call_ensures(parse, (label, s), r)
}

/// Turns the `peer { ... }` or `peers { peer { ... } ... }` of a syslog output
/// into its peers. Exactly one of the two must be there. The parser gets the
/// label `peer` for the single form and `peers.peer` for each block of the other.
pub fn parse_peer_or_peers<F: Fn(&str, &[Property]) -> Result<Peer, OutputError>>(
    name: &str,
    properties: &[Property],
    parse_peer: F,
) -> (r: Result<Vec<Peer>, OutputError>)
    requires
        forall|l: &str, s: &[Property]| call_requires(parse_peer, (l, s)),
    ensures
        match (first_block(properties@, "peer"@), first_block(properties@, "peers"@)) {
            (Some(_), Some(_)) => r matches Err(e) && e@ == output_text(
                name@,
                "'peer' and 'peers' are mutually exclusive"@,
            ),
            (None, None) => r matches Err(e) && e@ == output_text(
                name@,
                "either 'peer' or 'peers' is required"@,
            ),
            (Some(block), None) => match r {
                Ok(peers) => peers@.len() == 1 && labelled_parses_to(
                    parse_peer,
                    "peer",
                    block,
                    Ok(peers@[0]),
                ),
                Err(e) => labelled_parses_to(parse_peer, "peer", block, Err(e)),
            },
            (None, Some(inner)) => match r {
                Ok(peers) => {
                    &&& peers@.len() > 0
                    &&& peers@.len() == peer_blocks(inner).len()
                    &&& forall|i: int|
                        0 <= i < peers@.len() ==> labelled_parses_to(
                            parse_peer,
                            "peers.peer",
                            peer_blocks(inner)[i],
                            Ok(#[trigger] peers@[i]),
                        )
                },
                Err(e) => {
                    ||| peer_blocks(inner).len() == 0 && e@ == no_peer_text(
                        output_text(name@, "peers"@),
                    )
                    ||| exists|k: int, done: Seq<Peer>|
                        #![trigger done.len(), peer_blocks(inner)[k]]
                        {
                            &&& 0 <= k < peer_blocks(inner).len()
                            &&& done.len() == k
                            &&& forall|i: int|
                                0 <= i < k ==> labelled_parses_to(
                                    parse_peer,
                                    "peers.peer",
                                    peer_blocks(inner)[i],
                                    Ok(#[trigger] done[i]),
                                )
                            &&& labelled_parses_to(
                                parse_peer,
                                "peers.peer",
                                peer_blocks(inner)[k],
                                Err(e),
                            )
                        }
                },
            },
        },
{
    match (get_block(properties, "peer"), get_block(properties, "peers")) {
        (Some(_), Some(_)) => Err(
            output_error(name, "'peer' and 'peers' are mutually exclusive"),
        ),
        (Some(peer_block), None) => {
            let inner: &[Property] = peer_block.as_slice();
            let parsed = parse_peer("peer", inner);
            assert(inner@ == first_block(properties@, "peer"@)->0);
            match parsed {
                Ok(peer) => {
                    let mut peers: Vec<Peer> = Vec::new();
                    peers.push(peer);
                    Ok(peers)
                },
                Err(e) => Err(e),
            }
        },
        (None, Some(peers_block)) => {
            let label = output_message(name, "peers");
            let parser = &parse_peer;
            let one = |inner: &[Property]| -> (p: Result<Peer, OutputError>)
                ensures
                    call_ensures(*parser, ("peers.peer", inner), p),
                { parser("peers.peer", inner) };
            let ghost blocks = peer_blocks(peers_block@);
            let r = iter_peers_block(peers_block.as_slice(), label.as_str(), one);
            proof {
                assert forall|i: int, p: Result<Peer, OutputError>|
                    0 <= i < blocks.len() && #[trigger] parses_to(
                        one,
                        blocks[i],
                        p,
                    ) implies labelled_parses_to(parse_peer, "peers.peer", blocks[i], p) by {
                    let s = choose|s: &[Property]|
                        #![trigger s@]
                        s@ == blocks[i] && call_ensures(one, (s,), p);
                    assert(s@ == blocks[i] && call_ensures(parse_peer, ("peers.peer", s), p));
                }
            }
            r
        },
        (None, None) => Err(output_error(name, "either 'peer' or 'peers' is required")),
    }
}

/// The message about a configuration with both a `peer` and a `peers` block.
pub open spec fn two_destinations_text(name: Seq<char>) -> Seq<char> {
    output_text(name, "'peer' and 'peers' are mutually exclusive (exclusive group 'destination')"@)
}

/// The error of a configuration with both a `peer` and a `peers` block.
pub fn two_destinations(name: &str) -> (e: OutputError)
    ensures
        e@ == two_destinations_text(name@),
{
    output_error(name, "'peer' and 'peers' are mutually exclusive (exclusive group 'destination')")
}

} // verus!
