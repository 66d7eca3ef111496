//! Configuration of the `ltp` output: the one peer that it sends to, held to a
//! pinned Ed25519 key.
use crate::error::{cat2, cat3, outcome, output_error, output_text, OutputError};
use crate::props::{digits_value, parse_digits, Expr, Property};
use crate::server_name::{ipv6_accepts, is_ipv6, is_server_name, server_name_accepts};
use crate::syslog_peers::peer_blocks;
use crate::text::{chars_of, decimal, decimal_text, has_char, text_eq, text_of, texts};
use base64::Engine;
use vstd::prelude::*;

verus! {

/// Port used where the endpoint names none.
pub const DEFAULT_LTP_PORT: u16 = 7514;

/// Length of the bytes in front of the key in an Ed25519 public key.
pub const SPKI_PREFIX_LEN: usize = 12;

/// Length of an Ed25519 public key with the bytes in front of it.
pub const SPKI_LEN: usize = 44;

/// What a text decodes to in standard base64 with padding; nothing where it is no
/// such text.
pub uninterp spec fn base64_decoded(text: Seq<char>) -> Option<Seq<u8>>;

/// Calls `decode` of `base64::engine::general_purpose::STANDARD`. The contract
/// claims only that the result depends on the text alone; the alphabet and the
/// padding are left to that engine.
#[verifier::external_body]
pub(crate) fn decode_base64(text: &str) -> (r: Option<Vec<u8>>)
    ensures
        match r {
            Some(bytes) => base64_decoded(text@) == Some(bytes@),
            None => base64_decoded(text@) is None,
        },
{
    base64::engine::general_purpose::STANDARD.decode(text).ok()
}

/// The bytes in front of the key: a sequence of the algorithm identifier of Ed25519
/// and a bit string.
pub open spec fn spki_prefix() -> Seq<u8> {
    seq![0x30, 0x2a, 0x30, 0x05, 0x06, 0x03, 0x2b, 0x65, 0x70, 0x03, 0x21, 0x00]
}

/// Whether bytes are an Ed25519 public key with its identifier.
pub open spec fn is_ed25519_spki(bytes: Seq<u8>) -> bool {
    bytes.len() == SPKI_LEN && bytes.take(SPKI_PREFIX_LEN as int) == spki_prefix()
}

/// What the decoded public key of a peer is taken for.
pub open spec fn spki_result(name: Seq<char>, decoded: Option<Seq<u8>>) -> Result<
    Seq<u8>,
    Seq<char>,
> {
    match decoded {
        None => Err(output_text(name, "peer pubkey is not valid base64"@)),
        Some(bytes) => if is_ed25519_spki(bytes) {
            Ok(bytes)
        } else {
            Err(output_text(name, "peer pubkey must be an Ed25519 SPKI DER value"@))
        },
    }
}

/// Checks the decoded public key of a peer.
pub fn check_spki(name: &str, decoded: Option<Vec<u8>>) -> (r: Result<Vec<u8>, OutputError>)
    ensures
        outcome(r) == spki_result(
            name@,
            match decoded {
                Some(bytes) => Some(bytes@),
                None => None,
            },
        ),
{
    let bytes: Vec<u8> = match decoded {
        Some(bytes) => bytes,
        None => {
            return Err(output_error(name, "peer pubkey is not valid base64"));
        },
    };
    let prefix: [u8; 12] = [
        0x30,
        0x2a,
        0x30,
        0x05,
        0x06,
        0x03,
        0x2b,
        0x65,
        0x70,
        0x03,
        0x21,
        0x00,
    ];
    let mut fits = bytes.len() == SPKI_LEN;
    assert(prefix@ =~= spki_prefix());
    if fits {
        let mut i: usize = 0;
        while i < SPKI_PREFIX_LEN
            invariant
                i <= SPKI_PREFIX_LEN,
                bytes@.len() == SPKI_LEN,
                prefix@ == spki_prefix(),
                fits ==> forall|j: int| 0 <= j < i ==> #[trigger] bytes@[j] == spki_prefix()[j],
                !fits ==> exists|j: int|
                    0 <= j < SPKI_PREFIX_LEN && #[trigger] bytes@[j] != spki_prefix()[j],
            decreases SPKI_PREFIX_LEN - i,
        {
            if bytes[i] != prefix[i] {
                fits = false;
                assert(bytes@[i as int] != spki_prefix()[i as int]);
            }
            i = i + 1;
        }
        proof {
            if fits {
                assert(bytes@.take(SPKI_PREFIX_LEN as int) =~= spki_prefix());
            } else {
                let j = choose|j: int|
                    0 <= j < SPKI_PREFIX_LEN && #[trigger] bytes@[j] != spki_prefix()[j];
                assert(bytes@.take(SPKI_PREFIX_LEN as int)[j] == bytes@[j]);
            }
        }
    }
    if fits {
        Ok(bytes)
    } else {
        Err(output_error(name, "peer pubkey must be an Ed25519 SPKI DER value"))
    }
}

/// Decodes and checks the public key of a peer.
pub fn decode_ed25519_spki(name: &str, encoded: &str) -> (r: Result<Vec<u8>, OutputError>)
    ensures
        outcome(r) == spki_result(name@, base64_decoded(encoded@)),
{
    check_spki(name, decode_base64(encoded))
}

/// The string literals that properties give to a key, in order.
pub open spec fn literals_at(props: Seq<Property>, key: Seq<char>) -> Seq<Seq<char>>
    decreases props.len(),
{
    if props.len() == 0 {
        Seq::empty()
    } else {
        let before = literals_at(props.drop_last(), key);
        match props.last() {
            Property::KeyValue { key: k, value: Expr::StringLit(s) } => if k@ == key {
                before.push(s@)
            } else {
                before
            },
            _ => before,
        }
    }
}

/// What a required string is read as: the one literal with the key.
pub open spec fn literal_result(name: Seq<char>, props: Seq<Property>, key: Seq<char>) -> Result<
    Seq<char>,
    Seq<char>,
> {
    let found = literals_at(props, key);
    if found.len() == 1 {
        Ok(found[0])
    } else if found.len() == 0 {
        Err(output_text(name, "peer "@ + key + " requires a string value"@))
    } else {
        Err(output_text(name, "duplicate peer "@ + key))
    }
}

/// Reads a required string that must be given exactly once.
pub fn required_literal_string(name: &str, properties: &[Property], key: &str) -> (r: Result<
    String,
    OutputError,
>)
    ensures
        outcome(r) == literal_result(name@, properties@, key@),
{
    let mut found: Vec<String> = Vec::new();
    let mut i: usize = 0;
    assert(texts(found@) =~= Seq::empty());
    while i < properties.len()
        invariant
            i <= properties@.len(),
            texts(found@) == literals_at(properties@.take(i as int), key@),
        decreases properties@.len() - i,
    {
        assert(properties@.take(i + 1).drop_last() =~= properties@.take(i as int));
        assert(properties@.take(i + 1).last() == properties@[i as int]);
        let ghost before = found@;
        if let Property::KeyValue { key: k, value: Expr::StringLit(s) } = &properties[i] {
            if text_eq(k.as_str(), key) {
                found.push(s.clone());
                assert(texts(found@) =~= texts(before).push(s@));
            }
        }
        i = i + 1;
    }
    assert(properties@.take(properties@.len() as int) =~= properties@);
    assert(texts(found@).len() == found@.len());
    if found.len() == 1 {
        assert(texts(found@)[0] == found@[0]@);
        Ok(found[0].clone())
    } else if found.len() == 0 {
        let rest = cat3("peer ", key, " requires a string value");
        Err(output_error(name, rest.as_str()))
    } else {
        let rest = cat2("duplicate peer ", key);
        Err(output_error(name, rest.as_str()))
    }
}

/// The port that a text stands for: decimal digits, a plus sign allowed in front.
pub open spec fn port_value(s: Seq<char>) -> Option<u16> {
    let digits = if s.len() > 1 && s[0] == '+' {
        s.skip(1)
    } else {
        s
    };
    match digits_value(digits) {
        Some(n) => if digits.len() > 0 && n <= 65535 {
            Some(n as u16)
        } else {
            None
        },
        None => None,
    }
}

/// Reads a port that stands in `v` from a place on.
fn parse_port(v: &Vec<char>, from: usize) -> (r: Option<u16>)
    requires
        from <= v@.len(),
    ensures
        r == port_value(v@.skip(from as int)),
{
    let n: usize = v.len();
    let ghost s = v@.skip(from as int);
    let start: usize = if n - from > 1 && v[from] == '+' {
        from + 1
    } else {
        from
    };
    proof {
        if start != from {
            assert(s.skip(1) =~= v@.subrange(start as int, n as int));
        } else {
            assert(s =~= v@.subrange(start as int, n as int));
        }
    }
    if start == n {
        return None;
    }
    match parse_digits(v, start, n) {
        Some(value) => if value <= 65535 {
            Some(value as u16)
        } else {
            None
        },
        None => None,
    }
}

/// The first place of a character from `from` on; the length where there is none.
pub open spec fn place_from(s: Seq<char>, c: char, from: int) -> int
    decreases s.len() - from,
{
    if from >= s.len() {
        s.len() as int
    } else if s[from] == c {
        from
    } else {
        place_from(s, c, from + 1)
    }
}

fn find_from(v: &Vec<char>, c: char, from: usize) -> (i: usize)
    requires
        from <= v@.len(),
    ensures
        i == place_from(v@, c, from as int),
        from <= i <= v@.len(),
        i < v@.len() ==> v@[i as int] == c,
        forall|j: int| from <= j < i ==> v@[j] != c,
{
    let mut i: usize = from;
    while i < v.len()
        invariant
            from <= i <= v@.len(),
            place_from(v@, c, from as int) == place_from(v@, c, i as int),
            forall|j: int| from <= j < i ==> v@[j] != c,
        decreases v@.len() - i,
    {
        if v[i] == c {
            return i;
        }
        i = i + 1;
    }
    i
}

/// Where a peer is reached: the host that the server is held to, and the address
/// that is connected to.
pub ghost struct EndpointView {
    pub host: Seq<char>,
    pub address: Seq<char>,
}

pub open spec fn plain_address(host: Seq<char>, port: u16) -> Seq<char> {
    host + ":"@ + decimal(port as nat)
}

pub open spec fn bracketed_address(host: Seq<char>, port: u16) -> Seq<char> {
    "["@ + host + "]:"@ + decimal(port as nat)
}

/// The part of an endpoint that has to be an IPv6 address: what stands in brackets
/// in front, or the whole where it holds more than one colon.
pub open spec fn ipv6_part(s: Seq<char>) -> Option<Seq<char>> {
    let close = place_from(s, ']', 1);
    let colon = place_from(s, ':', 0);
    if s.len() > 0 && s[0] == '[' {
        if close < s.len() {
            Some(s.subrange(1, close))
        } else {
            None
        }
    } else if colon < s.len() && place_from(s, ':', colon + 1) < s.len() {
        Some(s)
    } else {
        None
    }
}

/// What an endpoint is read as, given whether the part of it that has to be an IPv6
/// address is one. It is `host`, `host:port`, a bare IPv6 address, or one in
/// brackets with or without a port.
pub open spec fn endpoint_result(name: Seq<char>, s: Seq<char>, ipv6_ok: bool) -> Result<
    EndpointView,
    Seq<char>,
> {
    let close = place_from(s, ']', 1);
    let colon = place_from(s, ':', 0);
    if s.len() == 0 {
        Err(output_text(name, "peer endpoint must be non-empty"@))
    } else if s[0] == '[' {
        if close >= s.len() {
            Err(output_text(name, "invalid bracketed peer endpoint"@))
        } else if !ipv6_ok {
            Err(output_text(name, "invalid IPv6 peer endpoint"@))
        } else {
            let host = s.subrange(1, close);
            if close + 1 == s.len() {
                Ok(EndpointView { host, address: bracketed_address(host, DEFAULT_LTP_PORT) })
            } else if s[close + 1] != ':' {
                Err(output_text(name, "invalid peer endpoint"@))
            } else {
                match port_value(s.skip(close + 2)) {
                    Some(port) => Ok(EndpointView { host, address: bracketed_address(host, port) }),
                    None => Err(output_text(name, "invalid peer endpoint port"@)),
                }
            }
        }
    } else if colon >= s.len() {
        Ok(EndpointView { host: s, address: plain_address(s, DEFAULT_LTP_PORT) })
    } else if place_from(s, ':', colon + 1) < s.len() {
        if ipv6_ok {
            Ok(EndpointView { host: s, address: bracketed_address(s, DEFAULT_LTP_PORT) })
        } else {
            Err(output_text(name, "invalid peer endpoint"@))
        }
    } else if colon == 0 {
        Err(output_text(name, "peer endpoint host must be non-empty"@))
    } else {
        match port_value(s.skip(colon + 1)) {
            Some(port) => {
                let host = s.take(colon);
                Ok(EndpointView { host, address: plain_address(host, port) })
            },
            None => Err(output_text(name, "invalid peer endpoint port"@)),
        }
    }
}

/// Where a peer is reached.
#[derive(Debug)]
pub struct PeerEndpoint {
    pub host: String,
    pub address: String,
}

impl View for PeerEndpoint {
    type V = EndpointView;

    open spec fn view(&self) -> EndpointView {
        EndpointView { host: self.host@, address: self.address@ }
    }
}

fn plain(host: String, port: u16) -> (e: PeerEndpoint)
    ensures
        e@ == (EndpointView { host: host@, address: plain_address(host@, port) }),
{
    let shown = decimal_text(port as u64);
    let address = cat3(host.as_str(), ":", shown.as_str());
    PeerEndpoint { host, address }
}

fn bracketed(host: String, port: u16) -> (e: PeerEndpoint)
    ensures
        e@ == (EndpointView { host: host@, address: bracketed_address(host@, port) }),
{
    let shown = decimal_text(port as u64);
    let mut address = cat3("[", host.as_str(), "]:");
    address.append(shown.as_str());
    PeerEndpoint { host, address }
}

/// Reads an endpoint, given whether the part of it that has to be an IPv6 address
/// is one.
pub fn endpoint_with_verdict(name: &str, endpoint: &str, ipv6_ok: bool) -> (r: Result<
    PeerEndpoint,
    OutputError,
>)
    ensures
        outcome(r) == endpoint_result(name@, endpoint@, ipv6_ok),
{
    let v = chars_of(endpoint);
    let n: usize = v.len();
    if n == 0 {
        return Err(output_error(name, "peer endpoint must be non-empty"));
    }
    if v[0] == '[' {
        let close = find_from(&v, ']', 1);
        if close >= n {
            return Err(output_error(name, "invalid bracketed peer endpoint"));
        }
        if !ipv6_ok {
            return Err(output_error(name, "invalid IPv6 peer endpoint"));
        }
        let host = text_of(&v, 1, close);
        if close + 1 == n {
            return Ok(bracketed(host, DEFAULT_LTP_PORT));
        }
        if v[close + 1] != ':' {
            return Err(output_error(name, "invalid peer endpoint"));
        }
        return match parse_port(&v, close + 2) {
            Some(port) => Ok(bracketed(host, port)),
            None => Err(output_error(name, "invalid peer endpoint port")),
        };
    }
    let colon = find_from(&v, ':', 0);
    if colon >= n {
        return Ok(plain(endpoint.to_owned(), DEFAULT_LTP_PORT));
    }
    let second = find_from(&v, ':', colon + 1);
    if second < n {
        return if ipv6_ok {
            Ok(bracketed(endpoint.to_owned(), DEFAULT_LTP_PORT))
        } else {
            Err(output_error(name, "invalid peer endpoint"))
        };
    }
    if colon == 0 {
        return Err(output_error(name, "peer endpoint host must be non-empty"));
    }
    match parse_port(&v, colon + 1) {
        Some(port) => {
            let host = text_of(&v, 0, colon);
            assert(host@ =~= endpoint@.take(colon as int));
            Ok(plain(host, port))
        },
        None => Err(output_error(name, "invalid peer endpoint port")),
    }
}

/// Whether the part of an endpoint that has to be an IPv6 address is one; true
/// where no part has to.
pub open spec fn ipv6_verdict(s: Seq<char>) -> bool {
    match ipv6_part(s) {
        Some(part) => ipv6_accepts(part),
        None => true,
    }
}

/// Whether the part of an endpoint that has to be an IPv6 address looks like one, if
/// it is taken for one: with a colon and without a closing bracket.
pub open spec fn ipv6_shaped(s: Seq<char>) -> bool {
    ipv6_part(s) matches Some(part) ==> ipv6_accepts(part) ==> has_char(part, ':') && !has_char(
        part,
        ']',
    )
}

// Judges the part that has to be an IPv6 address.
fn judge_ipv6(endpoint: &str) -> (r: bool)
    ensures
        r == ipv6_verdict(endpoint@),
        ipv6_shaped(endpoint@),
{
    let v = chars_of(endpoint);
    let n: usize = v.len();
    if n == 0 {
        return true;
    }
    if v[0] == '[' {
        let close = find_from(&v, ']', 1);
        if close >= n {
            return true;
        }
        let host = text_of(&v, 1, close);
        return is_ipv6(host.as_str());
    }
    let colon = find_from(&v, ':', 0);
    if colon >= n {
        return true;
    }
    let second = find_from(&v, ':', colon + 1);
    if second < n {
        is_ipv6(endpoint)
    } else {
        true
    }
}

/// The address of a host and a port: with brackets where the host holds a colon.
pub open spec fn host_address(host: Seq<char>, port: u16) -> Seq<char> {
    if has_char(host, ':') {
        bracketed_address(host, port)
    } else {
        plain_address(host, port)
    }
}

/// Whether an endpoint says nothing of a port: it ends with a bracket that closes
/// its first, or begins with none and holds no colon or several.
pub open spec fn names_no_port(s: Seq<char>) -> bool {
    let colon = place_from(s, ':', 0);
    if s.len() > 0 && s[0] == '[' {
        place_from(s, ']', 1) + 1 == s.len()
    } else {
        colon >= s.len() || place_from(s, ':', colon + 1) < s.len()
    }
}

/// Whether an endpoint is reached where another one is: the host is not empty, the
/// address is made of it and a port, the default one where none is named, and read
/// as an endpoint it gives the same again.
pub open spec fn reads_back(name: Seq<char>, endpoint: Seq<char>, found: EndpointView) -> bool {
    &&& found.host.len() > 0
    &&& exists|port: u16|
        found.address == #[trigger] host_address(found.host, port) && (names_no_port(endpoint)
            ==> port == DEFAULT_LTP_PORT)
    &&& endpoint_result(name, found.address, ipv6_verdict(found.address)) == Ok::<
        EndpointView,
        Seq<char>,
    >(found)
}

/// Reads an endpoint. The address that it gives reads back to itself.
pub fn parse_endpoint(name: &str, endpoint: &str) -> (r: Result<PeerEndpoint, OutputError>)
    ensures
        outcome(r) == endpoint_result(name@, endpoint@, ipv6_verdict(endpoint@)),
        r matches Ok(found) ==> reads_back(name@, endpoint@, found@),
{
    let r = endpoint_with_verdict(name, endpoint, judge_ipv6(endpoint));
    proof {
        if endpoint_result(name@, endpoint@, ipv6_verdict(endpoint@)) is Ok {
            law_address_reads_back(name@, endpoint@);
        }
    }
    r
}

/// The one peer of the output.
#[derive(Debug)]
pub struct PeerConfig {
    pub node_id: String,
    pub address: String,
    /// The name that the server is addressed by in the handshake.
    pub server_name: String,
    pub public_key_spki: Vec<u8>,
}

/// What a [`PeerConfig`] says.
pub ghost struct PeerConfigView {
    pub node_id: Seq<char>,
    pub address: Seq<char>,
    pub server_name: Seq<char>,
    pub spki: Seq<u8>,
}

impl View for PeerConfig {
    type V = PeerConfigView;

    open spec fn view(&self) -> PeerConfigView {
        PeerConfigView {
            node_id: self.node_id@,
            address: self.address@,
            server_name: self.server_name@,
            spki: self.public_key_spki@,
        }
    }
}

/// What the outside parsers say about the texts of a peer: what the public key
/// decodes to, whether the endpoint's IPv6 part is an address, and whether its
/// host is a server's name.
pub ghost struct PeerVerdicts {
    pub decoded: spec_fn(Seq<char>) -> Option<Seq<u8>>,
    pub ipv6: spec_fn(Seq<char>) -> bool,
    pub server_name: spec_fn(Seq<char>) -> bool,
}

/// What the peer of the output is read as: exactly one `peer` block with a name, a
/// key and an endpoint.
pub open spec fn peer_result(name: Seq<char>, props: Seq<Property>, verdicts: PeerVerdicts) -> Result<
    PeerConfigView,
    Seq<char>,
> {
    let blocks = peer_blocks(props);
    if blocks.len() != 1 {
        Err(output_text(name, "exactly one peer block is required"@))
    } else {
        let peer = blocks[0];
        match literal_result(name, peer, "node_id"@) {
            Err(e) => Err(e),
            Ok(node_id) => if node_id.len() == 0 {
                Err(output_text(name, "peer node_id must be non-empty"@))
            } else {
                match literal_result(name, peer, "pubkey"@) {
                    Err(e) => Err(e),
                    Ok(pubkey) => match spki_result(name, (verdicts.decoded)(pubkey)) {
                        Err(e) => Err(e),
                        Ok(spki) => match literal_result(name, peer, "endpoint"@) {
                            Err(e) => Err(e),
                            Ok(text) => match endpoint_result(
                                name,
                                text,
                                (verdicts.ipv6)(text),
                            ) {
                                Err(e) => Err(e),
                                Ok(endpoint) => if (verdicts.server_name)(endpoint.host) {
                                    Ok(
                                        PeerConfigView {
                                            node_id,
                                            address: endpoint.address,
                                            server_name: endpoint.host,
                                            spki,
                                        },
                                    )
                                } else {
                                    Err(
                                        output_text(
                                            name,
                                            "invalid peer endpoint host '"@ + endpoint.host + "'"@,
                                        ),
                                    )
                                },
                            },
                        },
                    },
                }
            },
        }
    }
}

/// The verdicts of the parsers that the output uses.
pub open spec fn outside_verdicts() -> PeerVerdicts {
    PeerVerdicts {
        decoded: |text: Seq<char>| base64_decoded(text),
        ipv6: |text: Seq<char>| ipv6_verdict(text),
        server_name: |text: Seq<char>| server_name_accepts(text),
    }
}

/// The contents of the only `peer` block; nothing where there is none or more than
/// one.
fn only_peer_block(properties: &[Property]) -> (r: Option<&Vec<Property>>)
    ensures
        match r {
            Some(block) => peer_blocks(properties@) == seq![block@],
            None => peer_blocks(properties@).len() != 1,
        },
{
    let mut found: Option<&Vec<Property>> = None;
    let mut count: usize = 0;
    let mut i: usize = 0;
    while i < properties.len()
        invariant
            i <= properties@.len(),
            count <= i,
            count == peer_blocks(properties@.take(i as int)).len(),
            count >= 1 ==> found is Some,
            found matches Some(block) ==> count >= 1 && peer_blocks(
                properties@.take(i as int),
            ).last() == block@,
        decreases properties@.len() - i,
    {
        assert(properties@.take(i + 1).drop_last() =~= properties@.take(i as int));
        assert(properties@.take(i + 1).last() == properties@[i as int]);
        if let Property::Block { key, properties: inner } = &properties[i] {
            if text_eq(key.as_str(), "peer") {
                found = Some(inner);
                count = count + 1;
            }
        }
        i = i + 1;
    }
    assert(properties@.take(properties@.len() as int) =~= properties@);
    if count == 1 {
        proof {
            let block = found->0;
            assert(peer_blocks(properties@) =~= seq![block@]);
        }
        found
    } else {
        None
    }
}

/// Reads the peer of the output.
pub fn parse_peer(name: &str, properties: &[Property]) -> (r: Result<PeerConfig, OutputError>)
    ensures
        outcome(r) == peer_result(name@, properties@, outside_verdicts()),
{
    let peer: &[Property] = match only_peer_block(properties) {
        Some(block) => block.as_slice(),
        None => {
            return Err(output_error(name, "exactly one peer block is required"));
        },
    };
    let node_id = match required_literal_string(name, peer, "node_id") {
        Ok(node_id) => node_id,
        Err(e) => {
            return Err(e);
        },
    };
    if node_id.as_str().is_empty() {
        return Err(output_error(name, "peer node_id must be non-empty"));
    }
    let pubkey = match required_literal_string(name, peer, "pubkey") {
        Ok(pubkey) => pubkey,
        Err(e) => {
            return Err(e);
        },
    };
    let public_key_spki = match decode_ed25519_spki(name, pubkey.as_str()) {
        Ok(spki) => spki,
        Err(e) => {
            return Err(e);
        },
    };
    let endpoint = match required_literal_string(name, peer, "endpoint") {
        Ok(endpoint) => endpoint,
        Err(e) => {
            return Err(e);
        },
    };
    let PeerEndpoint { host, address } = match parse_endpoint(name, endpoint.as_str()) {
        Ok(found) => found,
        Err(e) => {
            return Err(e);
        },
    };
    if !is_server_name(host.as_str()) {
        let rest = cat3("invalid peer endpoint host '", host.as_str(), "'");
        return Err(output_error(name, rest.as_str()));
    }
    Ok(PeerConfig { node_id, address, server_name: host, public_key_spki })
}

/// Checks the configuration of the peer without keeping it.
pub fn validate_static_properties(name: &str, properties: &[Property]) -> (r: Result<(), OutputError>)
    ensures
        match r {
            Ok(()) => peer_result(name@, properties@, outside_verdicts()) is Ok,
            Err(e) => peer_result(name@, properties@, outside_verdicts()) == Err::<
                PeerConfigView,
                Seq<char>,
            >(e@),
        },
{
    match parse_peer(name, properties) {
        Ok(_) => Ok(()),
        Err(e) => Err(e),
    }
}

/// Whether a server that presents this key, with this many certificates behind it,
/// is the pinned one: exactly the expected key, and nothing behind it.
pub fn pin_accepts(expected_spki: &[u8], presented: &[u8], intermediates: usize) -> (r: bool)
    ensures
        r == (intermediates == 0 && presented@ == expected_spki@),
{
    if intermediates != 0 || presented.len() != expected_spki.len() {
        return false;
    }
    let mut i: usize = 0;
    while i < presented.len()
        invariant
            i <= presented@.len(),
            presented@.len() == expected_spki@.len(),
            forall|j: int| 0 <= j < i ==> presented@[j] == expected_spki@[j],
        decreases presented@.len() - i,
    {
        if presented[i] != expected_spki[i] {
            return false;
        }
        i = i + 1;
    }
    assert(presented@ =~= expected_spki@);
    true
}

/// An accepted peer has a name and a well-formed Ed25519 key, whatever the outside
/// parsers say.
pub proof fn law_accepted_peer_has_name_and_key(
    name: Seq<char>,
    props: Seq<Property>,
    verdicts: PeerVerdicts,
)
    requires
        peer_result(name, props, verdicts) is Ok,
    ensures
        peer_result(name, props, verdicts)->Ok_0.node_id.len() > 0,
        is_ed25519_spki(peer_result(name, props, verdicts)->Ok_0.spki),
        peer_blocks(props).len() == 1,
{
}

/// An endpoint without a port is reached at the default port.
pub proof fn law_default_port(name: Seq<char>, host: Seq<char>)
    requires
        host.len() > 0,
        host[0] != '[',
        forall|i: int| 0 <= i < host.len() ==> host[i] != ':',
    ensures
        endpoint_result(name, host, true) == Ok::<EndpointView, Seq<char>>(
            EndpointView { host, address: plain_address(host, DEFAULT_LTP_PORT) },
        ),
{
    lemma_no_place(host, ':', 0);
}

proof fn lemma_place(s: Seq<char>, c: char, from: int, k: int)
    requires
        0 <= from <= k < s.len(),
        s[k] == c,
        forall|i: int| from <= i < k ==> s[i] != c,
    ensures
        place_from(s, c, from) == k,
    decreases k - from,
{
    if from < k {
        lemma_place(s, c, from + 1, k);
    }
}

proof fn lemma_place_found(s: Seq<char>, c: char, from: int)
    requires
        0 <= from <= s.len(),
    ensures
        from <= place_from(s, c, from) <= s.len(),
        place_from(s, c, from) < s.len() ==> s[place_from(s, c, from)] == c,
        forall|i: int| from <= i < place_from(s, c, from) ==> s[i] != c,
    decreases s.len() - from,
{
    if from < s.len() && s[from] != c {
        lemma_place_found(s, c, from + 1);
    }
}

proof fn lemma_decimal(n: nat)
    ensures
        decimal(n).len() > 0,
        digits_value(decimal(n)) == Some(n),
        forall|i: int| 0 <= i < decimal(n).len() ==> '0' <= #[trigger] decimal(n)[i] <= '9',
    decreases n,
{
    let s = decimal(n);
    if n < 10 {
        assert(s.drop_last() =~= Seq::empty());
        assert(digits_value(s.drop_last()) == Some(0nat));
    } else {
        lemma_decimal(n / 10);
        assert(s.drop_last() =~= decimal(n / 10));
        assert forall|i: int| 0 <= i < s.len() implies '0' <= #[trigger] s[i] <= '9' by {
            if i < s.len() - 1 {
                assert(s[i] == decimal(n / 10)[i]);
            }
        }
    }
}

proof fn lemma_port_reads_back(port: u16)
    ensures
        port_value(decimal(port as nat)) == Some(port),
{
    lemma_decimal(port as nat);
    assert('0' <= decimal(port as nat)[0] <= '9');
}

proof fn lemma_plain_reads_back(name: Seq<char>, host: Seq<char>, port: u16)
    requires
        host.len() > 0,
        host[0] != '[',
        !has_char(host, ':'),
    ensures
        ({
            let address = plain_address(host, port);
            &&& ipv6_part(address) is None
            &&& endpoint_result(name, address, true) == Ok::<EndpointView, Seq<char>>(
                EndpointView { host, address },
            )
        }),
{
    reveal_strlit(":");
    let shown = decimal(port as nat);
    let address = plain_address(host, port);
    lemma_decimal(port as nat);
    lemma_port_reads_back(port);
    let colon = host.len() as int;
    assert(address[0] == host[0]);
    assert forall|i: int| 0 <= i < colon implies address[i] != ':' by {
        assert(address[i] == host[i]);
    }
    assert(address[colon] == ':');
    lemma_place(address, ':', 0, colon);
    lemma_place_found(address, ':', colon + 1);
    let second = place_from(address, ':', colon + 1);
    if second < address.len() {
        assert(address[second] == shown[second - colon - 1]);
    }
    assert(address.skip(colon + 1) =~= shown);
    assert(address.take(colon) =~= host);
}

proof fn lemma_bracketed_reads_back(name: Seq<char>, host: Seq<char>, port: u16)
    requires
        !has_char(host, ']'),
    ensures
        ({
            let address = bracketed_address(host, port);
            &&& ipv6_part(address) == Some(host)
            &&& endpoint_result(name, address, true) == Ok::<EndpointView, Seq<char>>(
                EndpointView { host, address },
            )
        }),
{
    reveal_strlit("[");
    reveal_strlit("]:");
    let shown = decimal(port as nat);
    let address = bracketed_address(host, port);
    lemma_port_reads_back(port);
    lemma_decimal(port as nat);
    let close = host.len() as int + 1;
    assert(address[0] == '[');
    assert forall|i: int| 1 <= i < close implies address[i] != ']' by {
        assert(address[i] == host[i - 1]);
    }
    assert(address[close] == ']');
    assert(address[close + 1] == ':');
    lemma_place(address, ']', 1, close);
    assert(address.subrange(1, close) =~= host);
    assert(address.skip(close + 2) =~= shown);
}

/// The address that an endpoint gives is made of its host and a port, and reads back
/// to itself, provided that what is taken for an IPv6 address looks like one.
pub proof fn law_address_reads_back(name: Seq<char>, s: Seq<char>)
    requires
        ipv6_shaped(s),
        endpoint_result(name, s, ipv6_verdict(s)) is Ok,
    ensures
        reads_back(name, s, endpoint_result(name, s, ipv6_verdict(s))->Ok_0),
{
    let found = endpoint_result(name, s, ipv6_verdict(s))->Ok_0;
    let host = found.host;
    let close = place_from(s, ']', 1);
    let colon = place_from(s, ':', 0);
    lemma_place_found(s, ':', 0);
    if s[0] == '[' {
        assert(has_char(host, ':') && !has_char(host, ']'));
        let port = if close + 1 == s.len() {
            DEFAULT_LTP_PORT
        } else {
            port_value(s.skip(close + 2))->0
        };
        lemma_bracketed_reads_back(name, host, port);
        assert(found.address == host_address(host, port));
    } else if colon >= s.len() {
        assert(!has_char(host, ':'));
        lemma_plain_reads_back(name, host, DEFAULT_LTP_PORT);
        assert(found.address == host_address(host, DEFAULT_LTP_PORT));
    } else if place_from(s, ':', colon + 1) < s.len() {
        assert(has_char(host, ':') && !has_char(host, ']'));
        lemma_bracketed_reads_back(name, host, DEFAULT_LTP_PORT);
        assert(found.address == host_address(host, DEFAULT_LTP_PORT));
    } else {
        assert(!has_char(host, ':')) by {
            if has_char(host, ':') {
                let i = choose|i: int| 0 <= i < host.len() && host[i] == ':';
                assert(s[i] == ':');
            }
        }
        assert(host[0] == s[0]);
        let port = port_value(s.skip(colon + 1))->0;
        lemma_plain_reads_back(name, host, port);
        assert(found.address == host_address(host, port));
    }
}

proof fn lemma_no_place(s: Seq<char>, c: char, from: int)
    requires
        0 <= from <= s.len(),
        forall|i: int| 0 <= i < s.len() ==> s[i] != c,
    ensures
        place_from(s, c, from) == s.len(),
    decreases s.len() - from,
{
    if from < s.len() {
        lemma_no_place(s, c, from + 1);
    }
}

} // verus!
