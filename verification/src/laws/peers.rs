//! What the outputs over streams and datagrams are configured to: framing, addresses,
//! peers and their TLS settings.
use crate::framing::{counted_frame, decimal_bytes, terminated_frame};
use crate::laws::reading::{lemma_mentions, mentions};
use crate::props::{first_block, ident_at, int_at, string_at, Expr, Property};
use crate::retry::{retry_result, RetryConfig};
use crate::syslog_peers::{
    all_parsed, framed, host_port_result, host_port_text, peer_blocks, peers_block_result, Peer,
    PeerView, SyslogFraming,
};
use crate::syslog_tcp::{
    destination_result, first_keyed, framing_result, peer_result, peer_tls_result, profile_name,
    profiles_of, profiles_result,
};
use crate::tcp::{TcpOutput, TcpOutputFraming};
use crate::text::{decimal, has_char, joined, signed_decimal, texts};
use crate::tls::TlsView;
use vstd::prelude::*;

verus! {

/// The bytes of a framed message. With octet counting the length comes first, in
/// decimal, then a space, then the message; otherwise the message, then a line feed.
pub proof fn law_frame_bytes(payload: Seq<u8>, i: int)
    ensures
        ({
            let digits = decimal(payload.len());
            let k = digits.len() as int;
            let counted = framed(SyslogFraming::OctetCounting, payload);
            let ended = framed(SyslogFraming::NonTransparent, payload);
            &&& counted.len() == k + 1 + payload.len()
            &&& 0 <= i < k ==> counted[i] == digits[i] as u8
            &&& counted[k] == 32
            &&& 0 <= i < payload.len() ==> counted[k + 1 + i] == payload[i]
            &&& ended.len() == payload.len() + 1
            &&& 0 <= i < payload.len() ==> ended[i] == payload[i]
            &&& ended[payload.len() as int] == 10
            &&& crate::tcp::framed(TcpOutputFraming::OctetCounting, payload) == counted
            &&& crate::tcp::framed(TcpOutputFraming::NonTransparent, payload) == ended
        }),
{
    assert(decimal_bytes(payload.len()).len() == decimal(payload.len()).len());
    assert(counted_frame(payload).len() > 0 && terminated_frame(payload).len() > 0);
}

/// The framing is what the word says, counted where there is none; any other word is
/// refused by name.
pub proof fn law_framing_is_what_the_word_says(name: Seq<char>, props: Seq<Property>)
    ensures
        match ident_at(props, "framing"@) {
            None => framing_result(name, props) == Ok::<SyslogFraming, Seq<char>>(
                SyslogFraming::OctetCounting,
            ) && crate::tcp::framing_result(name, props) == Ok::<TcpOutputFraming, Seq<char>>(
                TcpOutputFraming::OctetCounting,
            ),
            Some(word) => {
                &&& framing_result(name, props) == Ok::<SyslogFraming, Seq<char>>(
                    SyslogFraming::OctetCounting,
                ) <==> word == "octet_counting"@
                &&& framing_result(name, props) == Ok::<SyslogFraming, Seq<char>>(
                    SyslogFraming::NonTransparent,
                ) <==> word == "non_transparent"@
                &&& crate::tcp::framing_result(name, props) == Ok::<TcpOutputFraming, Seq<char>>(
                    TcpOutputFraming::OctetCounting,
                ) <==> word == "octet_counting"@
                &&& crate::tcp::framing_result(name, props) == Ok::<TcpOutputFraming, Seq<char>>(
                    TcpOutputFraming::NonTransparent,
                ) <==> word == "non_transparent"@
                &&& framing_result(name, props) matches Err(e) ==> mentions(e, word)
                &&& crate::tcp::framing_result(name, props) matches Err(e) ==> mentions(e, word)
            },
        },
{
    reveal_strlit("octet_counting");
    reveal_strlit("non_transparent");
    assert("octet_counting"@.len() == 14 && "non_transparent"@.len() == 15);
    if let Some(word) = ident_at(props, "framing"@) {
        let o = "output '"@;
        let c = "': "@;
        let u = "unknown framing '"@;
        let x = "' (expected octet_counting | non_transparent)"@;
        lemma_mentions(o + name + c + u, word, x);
        assert(o + name + c + u + word + x =~= o + name + c + (u + word + x));
    }
}

/// The TCP output connects to the address that is configured, or else to the host and
/// the port, 514 where none is given; without either it is refused.
pub proof fn law_tcp_output_is_what_is_configured(
    name: Seq<char>,
    props: Seq<Property>,
    output: TcpOutput,
)
    ensures
        crate::tcp::config_result(name, props) is Ok <==> (string_at(props, "address"@) is Some
            || string_at(props, "host"@) is Some) && crate::tcp::framing_result(name, props) is Ok,
        crate::tcp::config_result(name, props) == Ok::<(Seq<char>, TcpOutputFraming), Seq<char>>(
            (output.address@, output.framing),
        ) ==> {
            &&& crate::tcp::framing_result(name, props) == Ok::<TcpOutputFraming, Seq<char>>(
                output.framing,
            )
            &&& match string_at(props, "address"@) {
                Some(address) => output.address@ == address,
                None => string_at(props, "host"@) is Some && output.address@ == string_at(
                    props,
                    "host"@,
                )->0 + seq![':'] + (match int_at(props, "port"@) {
                    Some(port) => signed_decimal(port as int),
                    None => decimal(514),
                }),
            }
        },
{
    reveal_strlit(":");
    assert(":"@ =~= seq![':']);
    assert(signed_decimal(514) == decimal(514));
}

/// A peer has the host that its block gives, and the port, or the default one where
/// none is given; without a host, or with a port that no port can be, it is refused.
pub proof fn law_peers_are_reached_at_host_and_port(
    props: Seq<Property>,
    default_port: u16,
    label: Seq<char>,
)
    ensures
        host_port_result(props, default_port, label) is Ok <==> string_at(props, "host"@) is Some
            && (int_at(props, "port"@) matches Some(p) ==> 0 <= p <= 65535),
        host_port_result(props, default_port, label) matches Ok((host, port)) ==> {
            &&& string_at(props, "host"@) == Some(host)
            &&& int_at(props, "port"@) matches Some(p) ==> port == p
            &&& int_at(props, "port"@) is None ==> port == default_port
        },
        host_port_result(props, default_port, label) matches Err(e) ==> mentions(e, label),
{
    let none = Seq::<char>::empty();
    lemma_mentions(none, label, " requires 'host'"@);
    lemma_mentions(none, label, " port must be 0..=65535"@);
    assert(none + label =~= label);
}

/// The address of a peer is its host and its port with a colon between them; a host
/// with a colon of its own stands in brackets, unless it has brackets already.
pub proof fn law_addresses_are_host_and_port(peer: Peer)
    ensures
        ({
            let host = peer.host@;
            let text = host_port_text(host, peer.port as nat);
            let port = decimal(peer.port as nat);
            &&& !has_char(host, ':') ==> text == host + seq![':'] + port
            &&& has_char(host, ':') && host[0] != '[' && host.last() != ']' ==> text == seq!['[']
                + host + seq![']', ':'] + port
            &&& has_char(host, ':') && host[0] == '[' ==> text == host + seq![':'] + port
        }),
{
    reveal_strlit(":");
    reveal_strlit("[");
    reveal_strlit("]:");
    assert(":"@ =~= seq![':']);
    assert("["@ =~= seq!['[']);
    assert("]:"@ =~= seq![']', ':']);
}

/// The peers of a block are its `peer` blocks, in order, and nothing else.
pub proof fn law_peer_blocks_come_in_order(a: Seq<Property>, b: Seq<Property>, p: Property)
    ensures
        peer_blocks(a + b) == peer_blocks(a) + peer_blocks(b),
        match p {
            Property::Block { key, properties } => if key@ == "peer"@ {
                peer_blocks(seq![p]) == seq![properties@]
            } else {
                peer_blocks(seq![p]).len() == 0
            },
            _ => peer_blocks(seq![p]).len() == 0,
        },
    decreases b.len(),
{
    assert(seq![p].drop_last() =~= Seq::<Property>::empty());
    assert(peer_blocks(seq![p].drop_last()) =~= Seq::<Seq<Property>>::empty());
    if let Property::Block { key, properties } = p {
        assert(Seq::<Seq<Property>>::empty().push(properties@) =~= seq![properties@]);
    }
    if b.len() == 0 {
        assert(a + b =~= a);
        assert(peer_blocks(a) + peer_blocks(b) =~= peer_blocks(a));
    } else {
        law_peer_blocks_come_in_order(a, b.drop_last(), p);
        assert((a + b).drop_last() =~= a + b.drop_last());
        assert((a + b).last() == b.last());
        assert(peer_blocks(a + b) =~= peer_blocks(a) + peer_blocks(b));
    }
}

/// Blocks are read one by one: all are accepted exactly if each is, as what each is
/// read as, in order; otherwise the error is that of the first that is refused.
pub proof fn law_blocks_are_read_one_by_one<V>(
    blocks: Seq<Seq<Property>>,
    parse: spec_fn(Seq<Property>) -> Result<V, Seq<char>>,
    k: int,
)
    ensures
        all_parsed(blocks, parse) is Ok <==> forall|i: int|
            0 <= i < blocks.len() ==> parse(#[trigger] blocks[i]) is Ok,
        all_parsed(blocks, parse) matches Ok(values) ==> values.len() == blocks.len() && forall|
            i: int,
        |
            0 <= i < blocks.len() ==> parse(blocks[i]) == Ok::<V, Seq<char>>(#[trigger] values[i]),
        0 <= k < blocks.len() && (forall|i: int| 0 <= i < k ==> parse(#[trigger] blocks[i]) is Ok)
            ==> (parse(blocks[k]) matches Err(e) ==> all_parsed(blocks, parse) == Err::<
            Seq<V>,
            Seq<char>,
        >(e)),
    decreases blocks.len(),
{
    if blocks.len() > 0 {
        let shorter = blocks.drop_last();
        let n = blocks.len() - 1;
        law_blocks_are_read_one_by_one(shorter, parse, k);
        assert(blocks[n] == blocks.last());
        if all_parsed(shorter, parse) is Ok {
            assert forall|i: int| 0 <= i < n implies parse(#[trigger] blocks[i]) is Ok by {
                assert(shorter[i] == blocks[i]);
            }
            if all_parsed(blocks, parse) is Ok {
                let values = all_parsed(blocks, parse)->Ok_0;
                let before = all_parsed(shorter, parse)->Ok_0;
                assert forall|i: int| 0 <= i < blocks.len() implies parse(blocks[i]) == Ok::<
                    V,
                    Seq<char>,
                >(#[trigger] values[i]) by {
                    if i < n {
                        assert(values[i] == before[i]);
                        assert(shorter[i] == blocks[i]);
                    }
                }
            }
        } else {
            let i = choose|i: int| 0 <= i < shorter.len() && parse(#[trigger] shorter[i]) is Err;
            assert(blocks[i] == shorter[i]);
        }
        if 0 <= k < n && (forall|i: int| 0 <= i < k ==> parse(#[trigger] blocks[i]) is Ok) {
            assert forall|i: int| 0 <= i < k implies parse(#[trigger] shorter[i]) is Ok by {
                assert(shorter[i] == blocks[i]);
            }
            assert(shorter[k] == blocks[k]);
        }
    }
}

/// A `peers` block is read as all its peers, and refused by its label without any.
pub proof fn law_peers_blocks_hold_peers<V>(
    props: Seq<Property>,
    label: Seq<char>,
    parse: spec_fn(Seq<Property>) -> Result<V, Seq<char>>,
)
    ensures
        peer_blocks(props).len() == 0 ==> (peers_block_result(props, label, parse) matches Err(e)
            && mentions(e, label)),
        peer_blocks(props).len() > 0 ==> peers_block_result(props, label, parse) == all_parsed(
            peer_blocks(props),
            parse,
        ),
{
    let none = Seq::<char>::empty();
    lemma_mentions(none, label, " block must contain at least one peer"@);
    assert(none + label =~= label);
}

/// The property that counts is the first with the key, whatever its form.
pub proof fn law_first_keyed_property_counts(p: Property, rest: Seq<Property>, key: Seq<char>)
    ensures
        first_keyed(Seq::<Property>::empty(), key) is None,
        ({
            let k = match p {
                Property::KeyValue { key, .. } => key@,
                Property::Block { key, .. } => key@,
            };
            first_keyed(seq![p] + rest, key) == if k == key {
                Some(p)
            } else {
                first_keyed(rest, key)
            }
        }),
{
    assert((seq![p] + rest)[0] == p);
    assert((seq![p] + rest).drop_first() =~= rest);
}

/// The TLS settings of a peer: none without a `tls` property, those of an inline
/// block, or those of the profile that it names, which must be there.
pub proof fn law_peer_tls_is_inline_or_a_profile(
    name: Seq<char>,
    label: Seq<char>,
    props: Seq<Property>,
    profiles: Map<Seq<char>, TlsView>,
)
    ensures
        ({
            let r = peer_tls_result(name, label, props, profiles);
            match first_keyed(props, "tls"@) {
                None => r == Ok::<Option<TlsView>, Seq<char>>(None),
                Some(Property::Block { properties, .. }) => {
                    &&& r is Err <==> (string_at(properties@, "cert"@) is Some) != (string_at(
                        properties@,
                        "key"@,
                    ) is Some)
                    &&& r matches Ok(tls) ==> tls is Some && tls->0.ca == string_at(
                        properties@,
                        "ca"@,
                    ) && tls->0.cert == string_at(properties@, "cert"@) && tls->0.key == string_at(
                        properties@,
                        "key"@,
                    )
                },
                Some(Property::KeyValue { value, .. }) => {
                    &&& r is Ok <==> profile_name(value) is Some && profiles.contains_key(
                        profile_name(value)->0,
                    )
                    &&& r matches Ok(tls) ==> tls is Some && tls->0
                        == profiles[profile_name(value)->0]
                },
            }
        }),
{
}

/// A profile is named by a text, or by a dotted name.
pub proof fn law_profiles_are_named_by_text_or_path(value: Expr, s: Seq<char>)
    ensures
        profile_name(value) == Some(s) <==> match value {
            Expr::StringLit(x) => x@ == s,
            Expr::Ident(parts) => parts@.len() > 0 && joined(texts(parts@), "."@) == s,
            _ => false,
        },
{
}

/// Profiles are the blocks inside `tls`, each with its paths under its name; a later
/// one takes the place of an earlier one with the same name.
pub proof fn law_profiles_are_the_blocks(
    name: Seq<char>,
    blocks: Seq<Property>,
    p: Property,
    other: Seq<char>,
)
    ensures
        profiles_of(name, Seq::<Property>::empty()) == Ok::<Map<Seq<char>, TlsView>, Seq<char>>(
            Map::empty(),
        ),
        profiles_of(name, blocks) is Err ==> profiles_of(name, blocks.push(p)) is Err,
        profiles_of(name, blocks) matches Ok(before) ==> match p {
            Property::Block { key, properties } => {
                let cert = string_at(properties@, "cert"@);
                let secret = string_at(properties@, "key"@);
                let r = profiles_of(name, blocks.push(p));
                &&& r is Ok <==> (cert is Some <==> secret is Some)
                &&& r matches Ok(m) ==> {
                    &&& m.contains_key(key@)
                    &&& m[key@].ca == string_at(properties@, "ca"@)
                    &&& m[key@].cert == cert && m[key@].key == secret
                    &&& other != key@ ==> (m.contains_key(other) <==> before.contains_key(other))
                    &&& other != key@ && before.contains_key(other) ==> m[other] == before[other]
                }
                &&& r matches Err(e) ==> mentions(e, key@)
            },
            _ => profiles_of(name, blocks.push(p)) == Ok::<Map<Seq<char>, TlsView>, Seq<char>>(
                before,
            ),
        },
{
    assert(blocks.push(p).drop_last() =~= blocks);
    if let Property::Block { key, properties } = p {
        let o = "output '"@;
        let c = "': "@;
        let t = "tls profile '"@;
        let q = "'"@;
        let label = o + name + c + (t + key@ + q);
        let tail = ": cert and key must be set together"@;
        assert(crate::tls::unpaired_text(label) == label + tail);
        lemma_mentions(o + name + c + t, key@, q + tail);
        assert(o + name + c + t + key@ + (q + tail) =~= label + tail);
    }
}

/// The profiles of an output are those of its `tls` block; without one there are none.
pub proof fn law_profiles_come_from_the_tls_block(name: Seq<char>, props: Seq<Property>)
    ensures
        match first_block(props, "tls"@) {
            None => profiles_result(name, props) == Ok::<Map<Seq<char>, TlsView>, Seq<char>>(
                Map::empty(),
            ),
            Some(blocks) => profiles_result(name, props) == profiles_of(name, blocks),
        },
{
}

/// A peer of the output over TCP has its host, its TLS settings, and its port: 6514
/// where it is encrypted and none is given, 514 where it is not.
pub proof fn law_tcp_peer_is_what_is_configured(
    name: Seq<char>,
    label: Seq<char>,
    props: Seq<Property>,
    profiles: Map<Seq<char>, TlsView>,
    peer: Peer,
)
    ensures
        peer_result(name, label, props, profiles) is Ok <==> {
            &&& peer_tls_result(name, label, props, profiles) is Ok
            &&& string_at(props, "host"@) is Some
            &&& int_at(props, "port"@) matches Some(p) ==> 0 <= p <= 65535
        },
        peer_result(name, label, props, profiles) == Ok::<PeerView, Seq<char>>(peer@) ==> {
            &&& string_at(props, "host"@) == Some(peer.host@)
            &&& int_at(props, "port"@) matches Some(p) ==> peer.port == p
            &&& int_at(props, "port"@) is None ==> peer.port == (if peer.tls is Some {
                6514int
            } else {
                514int
            })
            &&& match peer.tls {
                Some(tls) => peer_tls_result(name, label, props, profiles) == Ok::<
                    Option<TlsView>,
                    Seq<char>,
                >(Some(tls@)),
                None => peer_tls_result(name, label, props, profiles) == Ok::<
                    Option<TlsView>,
                    Seq<char>,
                >(None),
            }
        },
{
}

/// A peer of the output over TLS has its host, its TLS settings, and its port, 6514
/// where none is given.
pub proof fn law_tls_peer_is_what_is_configured(
    name: Seq<char>,
    label: Seq<char>,
    props: Seq<Property>,
    profiles: Map<Seq<char>, TlsView>,
    peer: Peer,
)
    ensures
        crate::syslog_tls::peer_result(name, label, props, profiles) is Ok <==> {
            &&& peer_tls_result(name, label, props, profiles) is Ok
            &&& string_at(props, "host"@) is Some
            &&& int_at(props, "port"@) matches Some(p) ==> 0 <= p <= 65535
        },
        crate::syslog_tls::peer_result(name, label, props, profiles) == Ok::<PeerView, Seq<char>>(
            peer@,
        ) ==> {
            &&& string_at(props, "host"@) == Some(peer.host@)
            &&& int_at(props, "port"@) matches Some(p) ==> peer.port == p
            &&& int_at(props, "port"@) is None ==> peer.port == 6514
            &&& match peer.tls {
                Some(tls) => peer_tls_result(name, label, props, profiles) == Ok::<
                    Option<TlsView>,
                    Seq<char>,
                >(Some(tls@)),
                None => peer_tls_result(name, label, props, profiles) == Ok::<
                    Option<TlsView>,
                    Seq<char>,
                >(None),
            }
        },
        crate::syslog_tls::connector_settings(None).ca is None,
        crate::syslog_tls::connector_settings(None).cert is None
            && crate::syslog_tls::connector_settings(None).key is None,
        peer.tls matches Some(tls) ==> crate::syslog_tls::connector_settings(Some(tls@)) == tls@,
{
}

/// A peer of the output over UDP has its host and its port, 514 where none is given,
/// and is never encrypted.
pub proof fn law_udp_peer_is_what_is_configured(
    name: Seq<char>,
    label: Seq<char>,
    props: Seq<Property>,
    peer: Peer,
)
    ensures
        crate::syslog_udp::peer_result(name, label, props) is Ok <==> string_at(
            props,
            "host"@,
        ) is Some && (int_at(props, "port"@) matches Some(p) ==> 0 <= p <= 65535),
        crate::syslog_udp::peer_result(name, label, props) == Ok::<PeerView, Seq<char>>(peer@) ==> {
            &&& string_at(props, "host"@) == Some(peer.host@)
            &&& int_at(props, "port"@) matches Some(p) ==> peer.port == p
            &&& int_at(props, "port"@) is None ==> peer.port == 514
            &&& peer.tls is None
        },
{
}

/// The destination of an output over a stream is one `peer` block or one `peers`
/// block, never both and never neither, and its peers are what those blocks are read
/// as, in order.
pub proof fn law_destination_is_peer_or_peers(
    name: Seq<char>,
    props: Seq<Property>,
    parse: spec_fn(Seq<char>, Seq<Property>) -> Result<PeerView, Seq<char>>,
)
    ensures
        ({
            let one = first_block(props, "peer"@);
            let several = first_block(props, "peers"@);
            let r = destination_result(name, props, parse);
            &&& r is Ok ==> (one is Some) != (several is Some)
            &&& one is Some && several is None ==> {
                &&& r is Ok <==> parse("peer"@, one->0) is Ok
                &&& r matches Ok(peers) ==> peers.len() == 1 && parse("peer"@, one->0) == Ok::<
                    PeerView,
                    Seq<char>,
                >(peers[0])
            }
            &&& one is None && several is Some ==> r == peers_block_result(
                several->0,
                "output '"@ + name + "': "@ + "peers"@,
                |block: Seq<Property>| parse("peers.peer"@, block),
            )
        }),
{
}

/// The same of the output over UDP.
pub proof fn law_udp_destination_is_peer_or_peers(name: Seq<char>, props: Seq<Property>)
    ensures
        ({
            let one = first_block(props, "peer"@);
            let several = first_block(props, "peers"@);
            let r = crate::syslog_udp::destination_result(name, props);
            &&& r is Ok ==> (one is Some) != (several is Some)
            &&& one is Some && several is None ==> {
                let p = crate::syslog_udp::peer_result(name, "peer"@, one->0);
                &&& r is Ok <==> p is Ok
                &&& r matches Ok(peers) ==> peers.len() == 1 && p == Ok::<PeerView, Seq<char>>(
                    peers[0],
                )
            }
            &&& one is None && several is Some ==> r == peers_block_result(
                several->0,
                "output '"@ + name + "': "@ + "peers"@,
                |block: Seq<Property>| crate::syslog_udp::peer_result(name, "peers.peer"@, block),
            )
        }),
{
}

/// An output over a stream is accepted exactly if its framing, its profiles and its
/// destination are, and has that framing and those peers.
pub proof fn law_stream_outputs_are_what_is_configured(name: Seq<char>, props: Seq<Property>)
    ensures
        ({
            let profiles = profiles_result(name, props);
            let f = framing_result(name, props);
            let tcp = destination_result(
                name,
                props,
                |label: Seq<char>, block: Seq<Property>|
                    peer_result(name, label, block, profiles->Ok_0),
            );
            let tls = destination_result(
                name,
                props,
                |label: Seq<char>, block: Seq<Property>|
                    crate::syslog_tls::peer_result(name, label, block, profiles->Ok_0),
            );
            let a = crate::syslog_tcp::config_result(name, props);
            let b = crate::syslog_tls::config_result(name, props);
            &&& a is Ok <==> f is Ok && profiles is Ok && tcp is Ok
            &&& a matches Ok((framing, peers)) ==> f == Ok::<SyslogFraming, Seq<char>>(framing)
                && tcp == Ok::<Seq<PeerView>, Seq<char>>(peers)
            &&& b is Ok <==> f is Ok && profiles is Ok && tls is Ok
            &&& b matches Ok((framing, peers)) ==> f == Ok::<SyslogFraming, Seq<char>>(framing)
                && tls == Ok::<Seq<PeerView>, Seq<char>>(peers)
        }),
{
}

/// An output over UDP is accepted exactly if its retry block and its destination are,
/// and has that budget and those peers.
pub proof fn law_udp_output_is_what_is_configured(
    name: Seq<char>,
    props: Seq<Property>,
    defaults: RetryConfig,
)
    ensures
        ({
            let r = crate::syslog_udp::config_result(name, props, defaults);
            let retry = retry_result(props, defaults);
            let peers = crate::syslog_udp::destination_result(name, props);
            &&& r is Ok <==> retry is Ok && peers is Ok
            &&& r matches Ok((budget, list)) ==> retry == Ok::<RetryConfig, Seq<char>>(budget)
                && peers == Ok::<Seq<PeerView>, Seq<char>>(list)
        }),
{
}

} // verus!
