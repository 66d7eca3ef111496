//! What the LTP output puts on the wire, and whom it sends to: times, stamps, bytes
//! of frames, endpoints, keys.
use crate::laws::reading::{lemma_mentions, mentions};
use crate::ltp::{
    be_bytes, config_result, departed, frame_of, frame_result, own_meta, wire_time, with_local,
    FramePrefix, HopStamp, LtpMeta, MetaView, StampView, stamp_views,
};
use crate::ltp_config::{
    base64_decoded, endpoint_result, ipv6_part, ipv6_verdict, is_ed25519_spki, literal_result,
    literals_at, outside_verdicts, peer_result, place_from, port_value, spki_result, EndpointView,
    PeerConfig, PeerConfigView, DEFAULT_LTP_PORT,
};
use crate::ltp_wire::{
    encoded_meta, encoded_stamp, encoded_stamps, fixed64_field, text_part, time_part, varint,
};
use crate::props::{digits_value, Expr, Property};
use crate::retry::{retry_result, RetryConfig};
use crate::server_name::server_name_accepts;
use crate::syslog_peers::peer_blocks;
use crate::text::{decimal, has_char};
use vstd::bytes::spec_u64_to_le_bytes;
use vstd::prelude::*;
use vstd::utf8::encode_utf8;

verus! {

/// A time goes over the wire as it is, to the nanosecond; one before the epoch, or
/// one that cannot be told, goes as 0. Later times never become earlier ones.
pub proof fn law_times_go_over_the_wire_as_they_are(t: i64, u: i64)
    ensures
        t >= 0 ==> wire_time(Some(t)) == t,
        t < 0 ==> wire_time(Some(t)) == 0,
        wire_time(None) == 0,
        t <= u ==> wire_time(Some(t)) <= wire_time(Some(u)),
{
}

/// A stamp is seen by the name of its node, its arrival and its departure, and
/// stamps are seen in order.
pub proof fn law_stamps_are_seen_whole(meta: LtpMeta, i: int)
    requires
        0 <= i < meta.stamps@.len(),
    ensures
        meta@.key == meta.key@,
        meta@.stamps.len() == meta.stamps@.len(),
        meta@.stamps[i].node_id == meta.stamps@[i].node_id@,
        meta@.stamps[i].arrival == meta.stamps@[i].arrival_unix_nano,
        meta@.stamps[i].departure == meta.stamps@[i].departure_unix_nano,
{
}

/// A fresh stamp of this node has arrived when the event was received and has not
/// departed. It stands behind the stamps that the event came with, which stay as they
/// are. Where the event came with a stamp of this node that has not departed, no other
/// is added.
pub proof fn law_fresh_stamps_arrive_when_received(
    stamps: Seq<HopStamp>,
    node_id: Seq<char>,
    received_at: Option<i64>,
    i: int,
)
    ensures
        ({
            let made = with_local(stamp_views(stamps), node_id, wire_time(received_at));
            let pending = stamps.len() > 0 && stamps.last().node_id@ == node_id
                && stamps.last().departure_unix_nano == 0;
            &&& 0 <= i < stamps.len() ==> made[i] == stamps[i]@
            &&& pending ==> made.len() == stamps.len()
            &&& !pending ==> {
                &&& made.len() == stamps.len() + 1
                &&& made.last().node_id == node_id
                &&& made.last().departure == 0
                &&& received_at matches Some(t) ==> t >= 0 ==> made.last().arrival == t
            }
        }),
{
    if stamps.len() > 0 {
        assert(stamp_views(stamps).last() == stamps.last()@);
    }
}

/// The departure that an attempt puts on the wire is the time of the attempt, and the
/// time that the event then spent in this node is the time since its arrival.
pub proof fn law_departure_is_the_time_of_the_attempt(m: MetaView, local: int, now: i64, i: int)
    requires
        0 <= local < m.stamps.len(),
        0 <= i < m.stamps.len(),
        now >= 0,
    ensures
        ({
            let sent = departed(m, local, wire_time(Some(now)));
            &&& sent.stamps[local].departure == now
            &&& sent.stamps[local].arrival == m.stamps[local].arrival
            &&& sent.stamps[local].node_id == m.stamps[local].node_id
            &&& i != local ==> sent.stamps[i] == m.stamps[i]
            &&& sent.stamps.len() == m.stamps.len()
            &&& sent.key == m.key
        }),
{
}

/// The bytes of a frame, one after the other: four of magic, the version, four that
/// count the metadata, the metadata, four that count the payload, the payload.
pub proof fn law_frame_bytes(prefix: FramePrefix, meta: Seq<u8>, payload: Seq<u8>, i: int)
    requires
        meta.len() <= u32::MAX,
        payload.len() <= u32::MAX,
    ensures
        ({
            let f = frame_of(prefix, meta, payload);
            let m = meta.len() as int;
            let p = payload.len() as int;
            &&& f.len() == 13 + m + p
            &&& 0 <= i < 4 ==> f[i] == prefix.magic@[i]
            &&& f[4] == prefix.version
            &&& f[5] * 0x100_0000 + f[6] * 0x1_0000 + f[7] * 0x100 + f[8] == m
            &&& 0 <= i < m ==> f[9 + i] == meta[i]
            &&& f[9 + m] * 0x100_0000 + f[10 + m] * 0x1_0000 + f[11 + m] * 0x100 + f[12 + m] == p
            &&& 0 <= i < p ==> f[13 + m + i] == payload[i]
        }),
{
    let f = frame_of(prefix, meta, payload);
    let m = meta.len() as int;
    let p = payload.len() as int;
    let a = be_bytes(m);
    let b = be_bytes(p);
    lemma_count_bytes(m);
    lemma_count_bytes(p);
    lemma_frame_places(prefix.magic@, prefix.version, a, meta, b, payload, i);
    assert(f == prefix.magic@.push(prefix.version) + a + meta + b + payload);
}

proof fn lemma_count_bytes(n: int)
    requires
        0 <= n <= u32::MAX,
    ensures
        be_bytes(n).len() == 4,
        be_bytes(n)[0] * 0x100_0000 + be_bytes(n)[1] * 0x1_0000 + be_bytes(n)[2] * 0x100
            + be_bytes(n)[3] == n,
{
    let a = be_bytes(n);
    assert(a[0] == n / 0x100_0000);
    assert(a[1] == n / 0x1_0000 % 0x100);
    assert(a[2] == n / 0x100 % 0x100);
    assert(a[3] == n % 0x100);
}

proof fn lemma_frame_places(
    magic: Seq<u8>,
    version: u8,
    a: Seq<u8>,
    meta: Seq<u8>,
    b: Seq<u8>,
    payload: Seq<u8>,
    i: int,
)
    requires
        magic.len() == 4,
        a.len() == 4,
        b.len() == 4,
    ensures
        ({
            let f = magic.push(version) + a + meta + b + payload;
            let m = meta.len() as int;
            &&& f.len() == 13 + m + payload.len()
            &&& 0 <= i < 4 ==> f[i] == magic[i]
            &&& f[4] == version
            &&& f[5] == a[0] && f[6] == a[1] && f[7] == a[2] && f[8] == a[3]
            &&& 0 <= i < m ==> f[9 + i] == meta[i]
            &&& f[9 + m] == b[0] && f[10 + m] == b[1] && f[11 + m] == b[2] && f[12 + m] == b[3]
            &&& 0 <= i < payload.len() ==> f[13 + m + i] == payload[i]
        }),
{
}

/// A frame is made exactly if the metadata have at most 65536 bytes and the payload
/// can be counted in four.
pub proof fn law_frames_within_their_limits(prefix: FramePrefix, meta: Seq<u8>, payload: Seq<u8>)
    ensures
        frame_result(prefix, meta, payload) is Ok <==> meta.len() <= 65536 && payload.len()
            <= 0xffff_ffff,
        frame_result(prefix, meta, payload) matches Ok(frame) ==> frame == frame_of(
            prefix,
            meta,
            payload,
        ),
{
}

/// The number that digits in base 128 stand for, the lowest first.
pub open spec fn varint_value(s: Seq<u8>) -> int
    decreases s.len(),
{
    if s.len() == 0 {
        0
    } else {
        s[0] % 128 + 128 * varint_value(s.skip(1))
    }
}

/// A count on the wire stands for the number, in digits of which all but the last
/// have their highest bit set.
pub proof fn law_counts_read_back(n: nat)
    ensures
        varint_value(varint(n)) == n,
        varint(n).len() > 0,
        varint(n).last() < 128,
        forall|i: int| 0 <= i < varint(n).len() - 1 ==> #[trigger] varint(n)[i] >= 128,
    decreases n,
{
    let s = varint(n);
    if n < 128 {
        assert(s.skip(1) =~= Seq::<u8>::empty());
        assert(varint_value(s.skip(1)) == 0);
    } else {
        law_counts_read_back(n / 128);
        let low = (n % 128 + 128) as u8;
        assert(low == n % 128 + 128);
        assert(s.skip(1) =~= varint(n / 128));
        assert(s[0] == low);
        assert forall|i: int| 0 <= i < s.len() - 1 implies #[trigger] s[i] >= 128 by {
            if i > 0 {
                assert(s[i] == varint(n / 128)[i - 1]);
            }
        }
        assert(s.last() == varint(n / 128).last());
    }
}

/// A stamp on the wire ends with its departure in field 3, before it its arrival in
/// field 2, before it the node's name in field 1; times are eight bytes, the lowest
/// first. A name or a time that is empty or zero is left out.
pub proof fn law_stamp_bytes(s: StampView)
    ensures
        ({
            let b = encoded_stamp(s);
            let d: int = if s.departure == 0 {
                0
            } else {
                9
            };
            let a: int = if s.arrival == 0 {
                0
            } else {
                9
            };
            let n = b.len() - a - d;
            &&& n >= 0
            &&& s.departure != 0 ==> b[b.len() - 9] == 25 && b.subrange(
                b.len() - 8,
                b.len() as int,
            ) == spec_u64_to_le_bytes(s.departure)
            &&& s.arrival != 0 ==> b[n] == 17 && b.subrange(n + 1, n + 9) == spec_u64_to_le_bytes(
                s.arrival,
            )
            &&& s.node_id.len() == 0 <==> n == 0
            &&& s.node_id.len() > 0 ==> b[0] == 10 && b.take(n) == seq![10u8] + varint(
                encode_utf8(s.node_id).len(),
            ) + encode_utf8(s.node_id)
        }),
{
    vstd::bytes::lemma_auto_spec_u64_to_from_le_bytes();
    let b = encoded_stamp(s);
    let name = text_part(1, s.node_id);
    let at = time_part(2, s.arrival);
    let dt = time_part(3, s.departure);
    assert(varint(10) =~= seq![10u8]);
    assert(varint(17) =~= seq![17u8]);
    assert(varint(25) =~= seq![25u8]);
    let n = b.len() - at.len() - dt.len();
    assert(n == name.len());
    assert(b.take(n) =~= name);
    if s.departure != 0 {
        assert(fixed64_field(3, s.departure).len() == 9);
        assert(b.subrange(b.len() - 8, b.len() as int) =~= spec_u64_to_le_bytes(s.departure));
    }
    if s.arrival != 0 {
        assert(fixed64_field(2, s.arrival).len() == 9);
        assert(b.subrange(n + 1, n + 9) =~= spec_u64_to_le_bytes(s.arrival));
    }
    if s.node_id.len() > 0 {
        assert(b[0] == name[0]);
    }
}

/// Metadata on the wire are the key in field 1, left out where it is empty, and then
/// the stamps in order, each in field 2 with its length in front.
pub proof fn law_metadata_bytes(m: MetaView, next: StampView)
    ensures
        m.stamps.len() == 0 && m.key.len() == 0 ==> encoded_meta(m).len() == 0,
        m.stamps.len() == 0 && m.key.len() > 0 ==> encoded_meta(m) == seq![10u8] + varint(
            m.key.len(),
        ) + m.key,
        encoded_meta(MetaView { key: m.key, stamps: m.stamps.push(next) }) == encoded_meta(m) + (
        seq![18u8] + varint(encoded_stamp(next).len()) + encoded_stamp(next)),
{
    assert(varint(10) =~= seq![10u8]);
    assert(varint(18) =~= seq![18u8]);
    let more = m.stamps.push(next);
    assert(more.drop_last() =~= m.stamps);
    assert(more.last() == next);
    assert(encoded_stamps(Seq::<StampView>::empty()) == Seq::<u8>::empty());
    let longer = MetaView { key: m.key, stamps: more };
    assert(encoded_meta(longer) =~= encoded_meta(m) + (seq![18u8] + varint(
        encoded_stamp(next).len(),
    ) + encoded_stamp(next)));
    if m.stamps.len() == 0 {
        assert(m.stamps =~= Seq::<StampView>::empty());
        assert(encoded_meta(m) =~= crate::ltp_wire::key_part(m.key));
    }
}

/// The hello carries the node's name in field 1.
pub proof fn law_hello_bytes(node_id: Seq<char>)
    requires
        node_id.len() > 0,
    ensures
        text_part(1, node_id) == seq![10u8] + varint(encode_utf8(node_id).len()) + encode_utf8(
            node_id,
        ),
{
    assert(varint(10) =~= seq![10u8]);
}

/// What a node's name is judged by is an event with a key of sixteen bytes and one
/// stamp of that node with both times.
pub proof fn law_own_metadata_have_one_full_stamp(node_id: Seq<char>)
    ensures
        own_meta(node_id).key.len() == 16,
        own_meta(node_id).stamps.len() == 1,
        own_meta(node_id).stamps[0].node_id == node_id,
        own_meta(node_id).stamps[0].arrival != 0 && own_meta(node_id).stamps[0].departure != 0,
{
}

/// The literals of a key are read in order, one for each property that gives it a
/// string, and from nothing else.
pub proof fn law_literals_come_in_order(a: Seq<Property>, b: Seq<Property>, p: Property, key: Seq<char>)
    ensures
        literals_at(Seq::<Property>::empty(), key).len() == 0,
        literals_at(a + b, key) == literals_at(a, key) + literals_at(b, key),
        match p {
            Property::KeyValue { key: k, value: Expr::StringLit(s) } => literals_at(seq![p], key)
                == if k@ == key {
                seq![s@]
            } else {
                Seq::<Seq<char>>::empty()
            },
            _ => literals_at(seq![p], key).len() == 0,
        },
    decreases b.len(),
{
    assert(seq![p].drop_last() =~= Seq::<Property>::empty());
    assert(literals_at(seq![p].drop_last(), key) =~= Seq::<Seq<char>>::empty());
    assert(Seq::<Seq<char>>::empty().push(Seq::<char>::empty()).len() == 1);
    if let Property::KeyValue { key: k, value: Expr::StringLit(s) } = p {
        assert(Seq::<Seq<char>>::empty().push(s@) =~= seq![s@]);
    }
    if b.len() == 0 {
        assert(a + b =~= a);
        assert(literals_at(a, key) + literals_at(b, key) =~= literals_at(a, key));
    } else {
        law_literals_come_in_order(a, b.drop_last(), p, key);
        assert((a + b).drop_last() =~= a + b.drop_last());
        assert((a + b).last() == b.last());
        assert(literals_at(a + b, key) =~= literals_at(a, key) + literals_at(b, key));
    }
}

/// A required string is taken where it is given exactly once; a missing one and one
/// that is given again are refused with a message that names the key.
pub proof fn law_required_strings_are_given_once(
    name: Seq<char>,
    props: Seq<Property>,
    key: Seq<char>,
)
    ensures
        literal_result(name, props, key) is Ok <==> literals_at(props, key).len() == 1,
        literal_result(name, props, key) matches Ok(s) ==> literals_at(props, key) == seq![s],
        literal_result(name, props, key) matches Err(e) ==> {
            &&& mentions(e, name) && mentions(e, key)
            &&& literals_at(props, key).len() == 0 ==> mentions(e, " requires a string value"@)
            &&& literals_at(props, key).len() > 1 ==> mentions(e, "duplicate peer "@)
        },
{
    let found = literals_at(props, key);
    if found.len() == 1 {
        assert(found =~= seq![found[0]]);
    } else {
        let none = Seq::<char>::empty();
        let o = "output '"@;
        let c = "': "@;
        let lacking = " requires a string value"@;
        let p = "peer "@;
        let d = "duplicate peer "@;
        lemma_mentions(o, name, c + (p + key + lacking));
        assert(o + name + (c + (p + key + lacking)) =~= o + name + c + (p + key + lacking));
        lemma_mentions(o + name + c + p, key, lacking);
        assert(o + name + c + p + key + lacking =~= o + name + c + (p + key + lacking));
        lemma_mentions(o + name + c + p + key, lacking, none);
        assert(o + name + c + p + key + lacking + none =~= o + name + c + (p + key + lacking));
        lemma_mentions(o + name + c, d, key);
        assert(o + name + c + d + key =~= o + name + c + (d + key));
        lemma_mentions(o, name, c + (d + key));
        assert(o + name + (c + (d + key)) =~= o + name + c + (d + key));
        lemma_mentions(o + name + c + d, key, none);
        assert(o + name + c + d + key + none =~= o + name + c + (d + key));
    }
}

/// A port is a number of at most 65535, written in decimal digits, with a plus sign
/// in front or without.
pub proof fn law_ports_are_decimal(digits: Seq<char>)
    requires
        digits.len() > 0,
    ensures
        digits_value(digits) matches Some(n) ==> n <= 65535 ==> port_value(digits) == Some(n as u16)
            && port_value(seq!['+'] + digits) == Some(n as u16),
        digits_value(digits) matches Some(n) ==> n > 65535 ==> port_value(digits) is None
            && port_value(seq!['+'] + digits) is None,
        digits_value(digits) is None && digits[0] != '+' ==> port_value(digits) is None,
        port_value(Seq::<char>::empty()) is None,
{
    let signed = seq!['+'] + digits;
    assert(signed.skip(1) =~= digits);
    if digits_value(digits) is Some {
        lemma_digits_only(digits);
        assert('0' <= digits[0] <= '9');
    }
}

proof fn lemma_digits_only(s: Seq<char>)
    requires
        digits_value(s) is Some,
    ensures
        forall|i: int| 0 <= i < s.len() ==> '0' <= #[trigger] s[i] <= '9',
    decreases s.len(),
{
    if s.len() > 0 {
        lemma_digits_only(s.drop_last());
        assert forall|i: int| 0 <= i < s.len() implies '0' <= #[trigger] s[i] <= '9' by {
            if i < s.len() - 1 {
                assert(s[i] == s.drop_last()[i]);
            }
        }
    }
}

proof fn lemma_first_place(s: Seq<char>, c: char, from: int, k: int)
    requires
        0 <= from <= k <= s.len(),
        k < s.len() ==> s[k] == c,
        forall|i: int| from <= i < k ==> s[i] != c,
    ensures
        place_from(s, c, from) == k,
    decreases k - from,
{
    if from < k {
        lemma_first_place(s, c, from + 1, k);
    }
}

/// `host:port` is reached at that host and that port.
pub proof fn law_endpoint_of_host_and_port(
    name: Seq<char>,
    host: Seq<char>,
    digits: Seq<char>,
    ipv6_ok: bool,
)
    requires
        !has_char(host, ':'),
        host.len() > 0 ==> host[0] != '[',
        !has_char(digits, ':'),
    ensures
        ({
            let r = endpoint_result(name, host + seq![':'] + digits, ipv6_ok);
            &&& r is Ok <==> host.len() > 0 && port_value(digits) is Some
            &&& r matches Ok(found) ==> found.host == host && found.address == host + seq![':']
                + decimal(port_value(digits)->0 as nat)
        }),
{
    reveal_strlit(":");
    assert(":"@ =~= seq![':']);
    let s = host + seq![':'] + digits;
    let n = host.len() as int;
    assert forall|i: int| 0 <= i < n implies s[i] != ':' by {
        assert(s[i] == host[i]);
    }
    lemma_first_place(s, ':', 0, n);
    assert forall|i: int| n + 1 <= i < s.len() implies s[i] != ':' by {
        assert(s[i] == digits[i - n - 1]);
    }
    lemma_first_place(s, ':', n + 1, s.len() as int);
    assert(s.skip(n + 1) =~= digits);
    assert(s.take(n) =~= host);
    if n > 0 {
        assert(s[0] == host[0]);
    } else {
        assert(s[0] == ':');
    }
}

/// An IPv6 address in brackets is reached at that address, at the port behind it, or
/// at port 7514 where there is none; what is not an IPv6 address is refused there.
pub proof fn law_endpoint_in_brackets(
    name: Seq<char>,
    host: Seq<char>,
    digits: Seq<char>,
    ipv6_ok: bool,
)
    requires
        !has_char(host, ']'),
    ensures
        ({
            let open = seq!['['] + host + seq![']'];
            let r = endpoint_result(name, open, ipv6_ok);
            let q = endpoint_result(name, open + seq![':'] + digits, ipv6_ok);
            &&& ipv6_part(open) == Some(host) && ipv6_part(open + seq![':'] + digits) == Some(host)
            &&& r is Ok <==> ipv6_ok
            &&& r matches Ok(found) ==> found.host == host && found.address == open + seq![':']
                + decimal(7514)
            &&& q is Ok <==> ipv6_ok && port_value(digits) is Some
            &&& q matches Ok(found) ==> found.host == host && found.address == open + seq![':']
                + decimal(port_value(digits)->0 as nat)
        }),
{
    reveal_strlit("[");
    reveal_strlit("]:");
    let open = seq!['['] + host + seq![']'];
    let s = open + seq![':'] + digits;
    let close = host.len() as int + 1;
    assert forall|i: int| 1 <= i < close implies open[i] != ']' && s[i] != ']' by {
        assert(open[i] == host[i - 1] && s[i] == host[i - 1]);
    }
    lemma_first_place(open, ']', 1, close);
    lemma_first_place(s, ']', 1, close);
    assert(open.subrange(1, close) =~= host);
    assert(s.subrange(1, close) =~= host);
    assert(s.skip(close + 2) =~= digits);
    assert(s[close + 1] == ':');
    let p = decimal(port_value(digits)->0 as nat);
    assert("["@ + host + "]:"@ + p =~= open + seq![':'] + p);
    assert("["@ + host + "]:"@ + decimal(7514) =~= open + seq![':'] + decimal(7514));
}

/// Other endpoints: the empty one is refused, and so is a bracket that is never
/// closed; one without a colon is a host at port 7514; one with several colons is an
/// IPv6 address at that port, or refused.
pub proof fn law_endpoint_of_other_forms(
    name: Seq<char>,
    s: Seq<char>,
    i: int,
    j: int,
    ipv6_ok: bool,
)
    ensures
        endpoint_result(name, Seq::<char>::empty(), ipv6_ok) is Err,
        s.len() > 0 && s[0] == '[' && !has_char(s, ']')
            ==> endpoint_result(name, s, ipv6_ok) is Err,
        s.len() > 0 && s[0] != '[' && !has_char(s, ':') ==> endpoint_result(name, s, ipv6_ok)
            == Ok::<
            EndpointView,
            Seq<char>,
        >(EndpointView { host: s, address: s + seq![':'] + decimal(7514) }),
        s.len() > 0 && s[0] != '[' && !has_char(s, ':') ==> ipv6_part(s) is None,
        0 <= i < j < s.len() && s[i] == ':' && s[j] == ':' && s[0] != '[' ==> {
            let r = endpoint_result(name, s, ipv6_ok);
            &&& ipv6_part(s) == Some(s)
            &&& r is Ok <==> ipv6_ok
            &&& r matches Ok(found) ==> found.host == s && found.address == seq!['['] + s + seq![
                ']',
                ':',
            ] + decimal(7514)
        },
{
    reveal_strlit(":");
    reveal_strlit("[");
    reveal_strlit("]:");
    assert(":"@ =~= seq![':']);
    assert("["@ =~= seq!['[']);
    assert("]:"@ =~= seq![']', ':']);
    if !has_char(s, ']') && s.len() > 0 {
        lemma_first_place(s, ']', 1, s.len() as int);
    }
    if !has_char(s, ':') {
        lemma_first_place(s, ':', 0, s.len() as int);
    }
    if 0 <= i < j < s.len() && s[i] == ':' && s[j] == ':' {
        lemma_place_at_most(s, ':', 0, i);
        let first = place_from(s, ':', 0);
        lemma_place_at_most(s, ':', first + 1, j);
    }
}

proof fn lemma_place_at_most(s: Seq<char>, c: char, from: int, k: int)
    requires
        0 <= from <= k < s.len(),
        s[k] == c,
    ensures
        from <= place_from(s, c, from) <= k,
    decreases k - from,
{
    if from < k && s[from] != c {
        lemma_place_at_most(s, c, from + 1, k);
    }
}

/// A public key is an Ed25519 key exactly if it is thirty-two bytes behind the twelve
/// that say so, and it is kept as it is.
pub proof fn law_keys_are_ed25519(name: Seq<char>, bytes: Seq<u8>, key: Seq<u8>)
    ensures
        ({
            let front: Seq<u8> = seq![48, 42, 48, 5, 6, 3, 43, 101, 112, 3, 33, 0];
            &&& is_ed25519_spki(bytes) <==> bytes.len() == 44 && bytes.take(12) == front
            &&& key.len() == 32 ==> is_ed25519_spki(front + key)
        }),
        spki_result(name, Some(bytes)) is Ok <==> is_ed25519_spki(bytes),
        spki_result(name, Some(bytes)) matches Ok(kept) ==> kept == bytes,
        spki_result(name, None) is Err,
{
    let front: Seq<u8> = seq![48, 42, 48, 5, 6, 3, 43, 101, 112, 3, 33, 0];
    assert(crate::ltp_config::spki_prefix() =~= front);
    assert((front + key).take(12) =~= front);
}

/// An accepted peer is what its block says: the one name, the one key, decoded, and
/// the host and the address of the one endpoint, whose host a server can be held to.
pub proof fn law_peer_is_what_is_configured(
    name: Seq<char>,
    props: Seq<Property>,
    peer: PeerConfig,
)
    requires
        peer_result(name, props, outside_verdicts()) == Ok::<PeerConfigView, Seq<char>>(peer@),
    ensures
        peer_blocks(props).len() == 1,
        ({
            let block = peer_blocks(props)[0];
            let text = literals_at(block, "endpoint"@)[0];
            let pubkey = literals_at(block, "pubkey"@)[0];
            &&& literals_at(block, "node_id"@) == seq![peer.node_id@]
            &&& peer.node_id@.len() > 0
            &&& literals_at(block, "pubkey"@).len() == 1
            &&& base64_decoded(pubkey) == Some(peer.public_key_spki@)
            &&& is_ed25519_spki(peer.public_key_spki@)
            &&& literals_at(block, "endpoint"@).len() == 1
            &&& endpoint_result(name, text, ipv6_verdict(text)) == Ok::<EndpointView, Seq<char>>(
                EndpointView { host: peer.server_name@, address: peer.address@ },
            )
            &&& server_name_accepts(peer.server_name@)
        }),
{
    let block = peer_blocks(props)[0];
    law_required_strings_are_given_once(name, block, "node_id"@);
    law_required_strings_are_given_once(name, block, "pubkey"@);
    law_required_strings_are_given_once(name, block, "endpoint"@);
}

/// A peer is accepted wherever nothing speaks against it: one block, in which a name
/// that is not empty, a key and an endpoint are each given once and hold.
pub proof fn law_good_peers_are_accepted(name: Seq<char>, props: Seq<Property>)
    requires
        peer_blocks(props).len() == 1,
        ({
            let block = peer_blocks(props)[0];
            let text = literals_at(block, "endpoint"@)[0];
            let decoded = base64_decoded(literals_at(block, "pubkey"@)[0]);
            let found = endpoint_result(name, text, ipv6_verdict(text));
            &&& literals_at(block, "node_id"@).len() == 1
            &&& literals_at(block, "node_id"@)[0].len() > 0
            &&& literals_at(block, "pubkey"@).len() == 1
            &&& decoded is Some && is_ed25519_spki(decoded->0)
            &&& literals_at(block, "endpoint"@).len() == 1
            &&& found is Ok && server_name_accepts(found->Ok_0.host)
        }),
    ensures
        peer_result(name, props, outside_verdicts()) is Ok,
{
}

/// An output is made of its peer, its node's name and its retry budget, and only
/// where there are counters for the peer, an identity that is short enough, and a
/// key.
pub proof fn law_output_needs_identity_key_and_counters(
    name: Seq<char>,
    props: Seq<Property>,
    known_peers: Seq<Seq<char>>,
    node_id: Option<Seq<char>>,
    has_key: bool,
    retry_defaults: RetryConfig,
)
    ensures
        ({
            let r = config_result(name, props, known_peers, node_id, has_key, retry_defaults);
            let peer = peer_result(name, props, outside_verdicts());
            let retry = retry_result(props, retry_defaults);
            &&& r is Ok <==> {
                &&& peer is Ok
                &&& known_peers.contains(peer->Ok_0.node_id)
                &&& node_id is Some
                &&& encoded_meta(own_meta(node_id->0)).len() <= 65536
                &&& has_key
                &&& retry is Ok
            }
            &&& r matches Ok((id, p, t)) ==> node_id == Some(id) && peer == Ok::<
                PeerConfigView,
                Seq<char>,
            >(p) && retry == Ok::<RetryConfig, Seq<char>>(t)
        }),
{
}

} // verus!
