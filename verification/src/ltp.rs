//! The `ltp` output: one event per frame over a mutually authenticated connection,
//! each event with the stamps of the nodes that it passed.
use crate::error::{cat3, output_error, output_text, OutputError};
use crate::ltp_config::{
    outside_verdicts, parse_peer, peer_result, PeerConfig, PeerConfigView,
};
use crate::ltp_wire::{
    decoded_meta, encode_hello, encode_meta, encoded_meta, law_encoded_metadata_decode,
};
use crate::metrics::OutputMetrics;
use crate::props::Property;
use crate::retry::{retry_result, RetryConfig};
use crate::text::{decimal, decimal_text, text_eq};
use vstd::prelude::*;

pub use crate::ltp_config::{
    decode_ed25519_spki, parse_endpoint, pin_accepts, required_literal_string,
    validate_static_properties, DEFAULT_LTP_PORT,
};

verus! {

/// Longest encoding of an event's metadata, in bytes.
pub const MAX_META_LEN: usize = 65536;

/// The passage of an event through one node. Times are nanoseconds since the Unix
/// epoch; a departure of 0 is still to come.
#[derive(Debug)]
pub struct HopStamp {
    pub node_id: String,
    pub arrival_unix_nano: u64,
    pub departure_unix_nano: u64,
}

/// What a [`HopStamp`] says.
pub ghost struct StampView {
    pub node_id: Seq<char>,
    pub arrival: u64,
    pub departure: u64,
}

impl View for HopStamp {
    type V = StampView;

    open spec fn view(&self) -> StampView {
        StampView {
            node_id: self.node_id@,
            arrival: self.arrival_unix_nano,
            departure: self.departure_unix_nano,
        }
    }
}

/// Stamps by their views.
pub open spec fn stamp_views(stamps: Seq<HopStamp>) -> Seq<StampView> {
    stamps.map_values(|s: HopStamp| s@)
}

/// The metadata that travel with an event.
#[derive(Debug)]
pub struct LtpMeta {
    pub key: Vec<u8>,
    pub stamps: Vec<HopStamp>,
}

/// What an [`LtpMeta`] says.
pub ghost struct MetaView {
    pub key: Seq<u8>,
    pub stamps: Seq<StampView>,
}

impl View for LtpMeta {
    type V = MetaView;

    open spec fn view(&self) -> MetaView {
        MetaView { key: self.key@, stamps: stamp_views(self.stamps@) }
    }
}

/// A point in time as it goes over the wire: one before the epoch, or one that
/// cannot be told in nanoseconds, is 0.
pub open spec fn wire_time(nanos: Option<i64>) -> u64 {
    match nanos {
        Some(n) => if n > 0 {
            n as u64
        } else {
            0
        },
        None => 0,
    }
}

/// A point in time as it goes over the wire.
pub fn wire_nanos(nanos: Option<i64>) -> (n: u64)
    ensures
        n == wire_time(nanos),
{
    match nanos {
        Some(n) => if n > 0 {
            n as u64
        } else {
            0
        },
        None => 0,
    }
}

/// The metadata of an event that has passed this node only.
pub fn event_meta(node_id: &str, key: &[u8; 16], arrival_unix_nano: u64, departure_unix_nano: u64) -> (m:
    LtpMeta)
    ensures
        m@ == (MetaView {
            key: key@,
            stamps: seq![
                StampView {
                    node_id: node_id@,
                    arrival: arrival_unix_nano,
                    departure: departure_unix_nano,
                },
            ],
        }),
{
    let mut bytes: Vec<u8> = Vec::new();
    let mut i: usize = 0;
    while i < 16
        invariant
            i <= 16,
            bytes@ == key@.take(i as int),
        decreases 16 - i,
    {
        bytes.push(key[i]);
        i = i + 1;
        assert(bytes@ =~= key@.take(i as int));
    }
    assert(key@.take(16) =~= key@);
    let mut stamps: Vec<HopStamp> = Vec::new();
    stamps.push(HopStamp { node_id: node_id.to_owned(), arrival_unix_nano, departure_unix_nano });
    let m = LtpMeta { key: bytes, stamps };
    assert(m@.stamps =~= seq![
        StampView {
            node_id: node_id@,
            arrival: arrival_unix_nano,
            departure: departure_unix_nano,
        },
    ]);
    m
}

/// The metadata of an event of a node's own with both times: none that the node gives
/// such an event is longer when encoded.
pub open spec fn own_meta(node_id: Seq<char>) -> MetaView {
    MetaView {
        key: Seq::new(16, |i: int| 0u8),
        stamps: seq![StampView { node_id, arrival: 1, departure: 1 }],
    }
}

/// The encoded length of the metadata of an event of a node's own.
pub fn event_meta_len(node_id: &str) -> (n: usize)
    ensures
        n == encoded_meta(own_meta(node_id@)).len(),
{
    let key: [u8; 16] = [0u8; 16];
    assert(key@ =~= Seq::new(16, |i: int| 0u8));
    let meta = event_meta(node_id, &key, 1, 1);
    encode_meta(&meta).len()
}

/// The message about a node's name that is too long.
pub open spec fn meta_too_long_text(name: Seq<char>, len: nat) -> Seq<char> {
    output_text(
        name,
        "node_id makes LTP event metadata "@ + decimal(len) + " bytes (maximum "@ + decimal(
            MAX_META_LEN as nat,
        ) + ")"@,
    )
}

/// An event's metadata while it is being delivered: its stamps with this node's,
/// and the place of this node's.
#[derive(Debug)]
pub struct WorkingEventMeta {
    meta: LtpMeta,
    local_stamp: usize,
}

impl WorkingEventMeta {
    /// The metadata.
    pub closed spec fn meta_view(&self) -> MetaView {
        self.meta@
    }

    /// The place of this node's stamp.
    pub closed spec fn local(&self) -> int {
        self.local_stamp as int
    }

    pub open spec fn wf(&self) -> bool {
        0 <= self.local() < self.meta_view().stamps.len()
    }

    /// The metadata.
    pub fn meta(&self) -> (m: &LtpMeta)
        ensures
            m@ == self.meta_view(),
    {
        &self.meta
    }

    /// The place of this node's stamp.
    pub fn local_stamp(&self) -> (i: usize)
        ensures
            i == self.local(),
    {
        self.local_stamp
    }
}

/// Whether the last stamp of an event is this node's, with the departure still to
/// come.
pub open spec fn pending_local(stamps: Seq<StampView>, node_id: Seq<char>) -> bool {
    stamps.len() > 0 && stamps.last().node_id == node_id && stamps.last().departure == 0
}

/// The stamps of an event with this node's: the pending one, or a new one behind
/// the others.
pub open spec fn with_local(stamps: Seq<StampView>, node_id: Seq<char>, arrival: u64) -> Seq<
    StampView,
> {
    if pending_local(stamps, node_id) {
        stamps
    } else {
        stamps.push(StampView { node_id, arrival, departure: 0 })
    }
}

fn copy_stamp(s: &HopStamp) -> (c: HopStamp)
    ensures
        c@ == s@,
{
    HopStamp {
        node_id: s.node_id.clone(),
        arrival_unix_nano: s.arrival_unix_nano,
        departure_unix_nano: s.departure_unix_nano,
    }
}

/// Makes the metadata that an event is delivered with, out of its stamps so far.
/// Those are left as they are.
pub fn working_event_meta(
    node_id: &str,
    key: &[u8; 16],
    received_at: Option<i64>,
    prefix: &[HopStamp],
) -> (w: WorkingEventMeta)
    requires
        prefix@.len() < usize::MAX,
    ensures
        w.wf(),
        w.meta_view() == (MetaView {
            key: key@,
            stamps: with_local(stamp_views(prefix@), node_id@, wire_time(received_at)),
        }),
        w.local() == w.meta_view().stamps.len() - 1,
{
    let arrival = wire_nanos(received_at);
    let ghost views = stamp_views(prefix@);
    let n: usize = prefix.len();
    let reuses = if n > 0 {
        assert(views.last() == prefix@.last()@);
        text_eq(prefix[n - 1].node_id.as_str(), node_id) && prefix[n - 1].departure_unix_nano == 0
    } else {
        false
    };
    assert(reuses == pending_local(views, node_id@));
    let mut stamps: Vec<HopStamp> = Vec::with_capacity(if reuses {
        n
    } else {
        n + 1
    });
    let mut i: usize = 0;
    assert(stamp_views(stamps@) =~= views.take(0));
    while i < n
        invariant
            i <= n,
            n == prefix@.len(),
            views == stamp_views(prefix@),
            stamp_views(stamps@) == views.take(i as int),
        decreases n - i,
    {
        let ghost before = stamps@;
        stamps.push(copy_stamp(&prefix[i]));
        assert(stamp_views(stamps@) =~= stamp_views(before).push(views[i as int]));
        assert(views.take(i + 1) =~= views.take(i as int).push(views[i as int]));
        i = i + 1;
    }
    assert(views.take(n as int) =~= views);
    if !reuses {
        let ghost before = stamps@;
        stamps.push(
            HopStamp {
                node_id: node_id.to_owned(),
                arrival_unix_nano: arrival,
                departure_unix_nano: 0,
            },
        );
        assert(stamp_views(stamps@) =~= stamp_views(before).push(
            StampView { node_id: node_id@, arrival, departure: 0 },
        ));
    }
    assert(stamp_views(stamps@).len() == stamps@.len());
    let local_stamp: usize = stamps.len() - 1;
    let mut bytes: Vec<u8> = Vec::new();
    let mut j: usize = 0;
    while j < 16
        invariant
            j <= 16,
            bytes@ == key@.take(j as int),
        decreases 16 - j,
    {
        bytes.push(key[j]);
        j = j + 1;
        assert(bytes@ =~= key@.take(j as int));
    }
    assert(key@.take(16) =~= key@);
    WorkingEventMeta { meta: LtpMeta { key: bytes, stamps }, local_stamp }
}

/// Metadata with the departure of one stamp set.
pub open spec fn departed(m: MetaView, local: int, departure: u64) -> MetaView {
    MetaView {
        key: m.key,
        stamps: m.stamps.update(local, StampView { departure, ..m.stamps[local] }),
    }
}

/// Sets the departure of this node's stamp to the time of an attempt. Nothing else
/// changes, so that every attempt differs from the one before in that time alone.
pub fn stamp_departure(working: &mut WorkingEventMeta, now: Option<i64>)
    requires
        old(working).wf(),
    ensures
        final(working).wf(),
        final(working).local() == old(working).local(),
        final(working).meta_view() == departed(
            old(working).meta_view(),
            old(working).local(),
            wire_time(now),
        ),
{
    let departure = wire_nanos(now);
    let i: usize = working.local_stamp;
    assert(stamp_views(working.meta.stamps@).len() == working.meta.stamps@.len());
    let changed = HopStamp {
        node_id: working.meta.stamps[i].node_id.clone(),
        arrival_unix_nano: working.meta.stamps[i].arrival_unix_nano,
        departure_unix_nano: departure,
    };
    let ghost before = working.meta.stamps@;
    working.meta.stamps.set(i, changed);
    assert(stamp_views(working.meta.stamps@) =~= stamp_views(before).update(
        i as int,
        StampView { departure, ..stamp_views(before)[i as int] },
    ));
}

/// The time that an event spent in this node; 0 where the clock went backwards.
pub fn intra_latency(working: &WorkingEventMeta) -> (nanos: u64)
    requires
        working.wf(),
    ensures
        ({
            let stamp = working.meta_view().stamps[working.local()];
            nanos == if stamp.departure >= stamp.arrival {
                stamp.departure - stamp.arrival
            } else {
                0
            }
        }),
{
    assert(stamp_views(working.meta.stamps@).len() == working.meta.stamps@.len());
    let stamp = &working.meta.stamps[working.local_stamp];
    stamp.departure_unix_nano.saturating_sub(stamp.arrival_unix_nano)
}

/// What begins every frame.
#[derive(Debug, Clone, Copy)]
pub struct FramePrefix {
    pub magic: [u8; 4],
    pub version: u8,
}

/// A number as four bytes, the most significant first.
pub open spec fn be_bytes(n: int) -> Seq<u8> {
    seq![
        (n / 0x100_0000) as u8,
        (n / 0x1_0000 % 0x100) as u8,
        (n / 0x100 % 0x100) as u8,
        (n % 0x100) as u8,
    ]
}

/// A frame: magic, version, the length of the metadata, the metadata, the length of
/// the payload, the payload.
pub open spec fn frame_of(prefix: FramePrefix, meta: Seq<u8>, payload: Seq<u8>) -> Seq<u8> {
    prefix.magic@.push(prefix.version) + be_bytes(meta.len() as int) + meta + be_bytes(
        payload.len() as int,
    ) + payload
}

fn push_be(out: &mut Vec<u8>, n: u32)
    ensures
        final(out)@ == old(out)@ + be_bytes(n as int),
{
    out.push((n / 0x100_0000) as u8);
    out.push((n / 0x1_0000 % 0x100) as u8);
    out.push((n / 0x100 % 0x100) as u8);
    out.push((n % 0x100) as u8);
    assert(out@ =~= old(out)@ + be_bytes(n as int));
}

/// Puts a frame together out of the encoded metadata of an event and its payload.
pub fn assemble_frame(prefix: FramePrefix, meta: &[u8], payload: &[u8]) -> (frame: Vec<u8>)
    requires
        meta@.len() <= u32::MAX,
        payload@.len() <= u32::MAX,
    ensures
        frame@ == frame_of(prefix, meta@, payload@),
{
    let mut frame: Vec<u8> = Vec::new();
    frame.push(prefix.magic[0]);
    frame.push(prefix.magic[1]);
    frame.push(prefix.magic[2]);
    frame.push(prefix.magic[3]);
    frame.push(prefix.version);
    assert(frame@ =~= prefix.magic@.push(prefix.version));
    push_be(&mut frame, meta.len() as u32);
    frame.extend_from_slice(meta);
    push_be(&mut frame, payload.len() as u32);
    frame.extend_from_slice(payload);
    assert(frame@ =~= frame_of(prefix, meta@, payload@));
    frame
}

/// The frame of encoded metadata and a payload, where both keep to their limits.
pub open spec fn frame_result(prefix: FramePrefix, meta: Seq<u8>, payload: Seq<u8>) -> Result<
    Seq<u8>,
    Seq<char>,
> {
    if meta.len() > MAX_META_LEN || payload.len() > u32::MAX {
        Err("LTP frame is too long"@)
    } else {
        Ok(frame_of(prefix, meta, payload))
    }
}

/// What making a frame came to, by its view.
pub open spec fn frame_outcome(r: Result<Vec<u8>, OutputError>) -> Result<Seq<u8>, Seq<char>> {
    match r {
        Ok(frame) => Ok(frame@),
        Err(e) => Err(e@),
    }
}

/// Puts a frame together where its parts keep to their limits.
pub fn checked_frame(prefix: FramePrefix, meta: &[u8], payload: &[u8]) -> (r: Result<
    Vec<u8>,
    OutputError,
>)
    ensures
        frame_outcome(r) == frame_result(prefix, meta@, payload@),
{
    if meta.len() > MAX_META_LEN || payload.len() as u64 > u32::MAX as u64 {
        Err(OutputError { message: "LTP frame is too long".to_owned() })
    } else {
        Ok(assemble_frame(prefix, meta, payload))
    }
}

/// The frame of one attempt to deliver an event. This node's departure is set to the
/// time of the attempt, and the frame holds the metadata as they then stand, encoded,
/// and the payload.
pub fn event_frame(
    working: &mut WorkingEventMeta,
    now: Option<i64>,
    prefix: FramePrefix,
    payload: &[u8],
) -> (r: Result<Vec<u8>, OutputError>)
    requires
        old(working).wf(),
    ensures
        final(working).wf(),
        final(working).local() == old(working).local(),
        final(working).meta_view() == departed(
            old(working).meta_view(),
            old(working).local(),
            wire_time(now),
        ),
        frame_outcome(r) == frame_result(
            prefix,
            encoded_meta(final(working).meta_view()),
            payload@,
        ),
{
    stamp_departure(working, now);
    let bytes = encode_meta(&working.meta);
    checked_frame(prefix, bytes.as_slice(), payload)
}

/// The frame that begins a connection: the node's name, and no payload.
pub fn hello_frame(node_id: &str, prefix: FramePrefix) -> (r: Result<Vec<u8>, OutputError>)
    ensures
        frame_outcome(r) == frame_result(
            prefix,
            crate::ltp_wire::text_part(1, node_id@),
            Seq::empty(),
        ),
{
    let bytes = encode_hello(node_id);
    let none: Vec<u8> = Vec::new();
    checked_frame(prefix, bytes.as_slice(), none.as_slice())
}

/// The number that four bytes stand for, the most significant first.
pub open spec fn be_value(s: Seq<u8>) -> int {
    s[0] * 0x100_0000 + s[1] * 0x1_0000 + s[2] * 0x100 + s[3]
}

/// The encoded metadata in a frame.
pub open spec fn frame_meta(frame: Seq<u8>) -> Seq<u8> {
    frame.subrange(9, 9 + be_value(frame.subrange(5, 9)))
}

/// The payload in a frame.
pub open spec fn frame_payload(frame: Seq<u8>) -> Seq<u8> {
    let at = 9 + be_value(frame.subrange(5, 9));
    frame.subrange(at + 4, at + 4 + be_value(frame.subrange(at, at + 4)))
}

/// The reason given for a payload that is too long.
pub open spec fn oversize_text(len: nat, limit: nat) -> Seq<char> {
    "LTP payload length "@ + decimal(len) + " exceeds the "@ + decimal(limit) + " byte limit"@
}

/// Refuses a payload that is longer than the limit; such an event is never tried.
pub fn check_payload(len: usize, limit: usize) -> (r: Result<(), OutputError>)
    ensures
        r is Err <==> len > limit,
        r matches Err(e) ==> e@ == oversize_text(len as nat, limit as nat),
{
    if len > limit {
        let shown = decimal_text(len as u64);
        let most = decimal_text(limit as u64);
        let mut message = cat3("LTP payload length ", shown.as_str(), " exceeds the ");
        message.append(most.as_str());
        message.append(" byte limit");
        Err(OutputError { message })
    } else {
        Ok(())
    }
}

/// A configured output.
#[derive(Debug)]
pub struct LtpOutput {
    pub name: String,
    pub node_id: String,
    pub peer: PeerConfig,
    pub retry: RetryConfig,
    pub metrics: OutputMetrics,
}

/// What a configuration is read as, for a node with this name. `known_peer` says of
/// a peer's name whether there are counters for it; `node_id` is nothing where the
/// node has no identity; `has_key` says whether it has a key.
pub open spec fn config_result(
    name: Seq<char>,
    props: Seq<Property>,
    known_peers: Seq<Seq<char>>,
    node_id: Option<Seq<char>>,
    has_key: bool,
    retry_defaults: RetryConfig,
) -> Result<(Seq<char>, PeerConfigView, RetryConfig), Seq<char>> {
    match peer_result(name, props, outside_verdicts()) {
        Err(e) => Err(e),
        Ok(peer) => if !known_peers.contains(peer.node_id) {
            Err(output_text(name, "LTP peer metrics are unavailable"@))
        } else {
            match node_id {
                None => Err(output_text(name, "LTP node identity is unavailable"@)),
                Some(id) => {
                    let len = encoded_meta(own_meta(id)).len();
                    if len > MAX_META_LEN {
                        Err(meta_too_long_text(name, len))
                    } else if !has_key {
                        Err(output_text(name, "LTP node key is unavailable"@))
                    } else {
                        match retry_result(props, retry_defaults) {
                            Err(e) => Err(e),
                            Ok(retry) => Ok((id, peer, retry)),
                        }
                    }
                },
            }
        },
    }
}

fn knows(known_peers: &Vec<String>, node_id: &str) -> (r: bool)
    ensures
        r == crate::text::texts(known_peers@).contains(node_id@),
{
    let ghost names = crate::text::texts(known_peers@);
    let mut i: usize = 0;
    while i < known_peers.len()
        invariant
            i <= known_peers@.len(),
            names == crate::text::texts(known_peers@),
            forall|j: int| 0 <= j < i ==> #[trigger] names[j] != node_id@,
        decreases known_peers@.len() - i,
    {
        assert(names[i as int] == known_peers@[i as int]@);
        if text_eq(known_peers[i].as_str(), node_id) {
            return true;
        }
        i = i + 1;
    }
    false
}

impl LtpOutput {
    /// Reads the configuration of the output.
    pub fn from_properties(
        name: &str,
        properties: &[Property],
        known_peers: &Vec<String>,
        node_id: Option<&str>,
        has_key: bool,
        retry_defaults: RetryConfig,
    ) -> (r: Result<LtpOutput, OutputError>)
        ensures
            match config_result(
                name@,
                properties@,
                crate::text::texts(known_peers@),
                crate::error::option_view(node_id),
                has_key,
                retry_defaults,
            ) {
                Err(e) => r matches Err(x) && x@ == e,
                Ok((id, peer, retry)) => r matches Ok(output) && {
                    &&& output.name@ == name@
                    &&& output.node_id@ == id
                    &&& output.peer@ == peer
                    &&& output.retry == retry
                    &&& output.metrics == OutputMetrics::zero()
                },
            },
    {
        let peer = match parse_peer(name, properties) {
            Ok(peer) => peer,
            Err(e) => {
                return Err(e);
            },
        };
        if !knows(known_peers, peer.node_id.as_str()) {
            return Err(output_error(name, "LTP peer metrics are unavailable"));
        }
        let id: &str = match node_id {
            Some(id) => id,
            None => {
                return Err(output_error(name, "LTP node identity is unavailable"));
            },
        };
        let len: usize = event_meta_len(id);
        if len > MAX_META_LEN {
            let shown = decimal_text(len as u64);
            let most = decimal_text(MAX_META_LEN as u64);
            let mut rest = cat3("node_id makes LTP event metadata ", shown.as_str(), " bytes (maximum ");
            rest.append(most.as_str());
            rest.append(")");
            return Err(output_error(name, rest.as_str()));
        }
        if !has_key {
            return Err(output_error(name, "LTP node key is unavailable"));
        }
        let retry = match RetryConfig::from_output_properties(properties, retry_defaults) {
            Ok(retry) => retry,
            Err(e) => {
                return Err(e);
            },
        };
        Ok(
            LtpOutput {
                name: name.to_owned(),
                node_id: id.to_owned(),
                peer,
                retry,
                metrics: OutputMetrics::new(),
            },
        )
    }
}

/// Attempts of one delivery differ in the departure time alone: stamping again
/// replaces the time of the attempt before and leaves the rest.
pub proof fn law_attempts_differ_in_departure_only(
    m: MetaView,
    local: int,
    first: u64,
    second: u64,
    i: int,
)
    requires
        0 <= local < m.stamps.len(),
        0 <= i < m.stamps.len(),
    ensures
        departed(departed(m, local, first), local, second) == departed(m, local, second),
        departed(m, local, first).key == m.key,
        departed(m, local, first).stamps.len() == m.stamps.len(),
        i != local ==> departed(m, local, first).stamps[i] == m.stamps[i],
        departed(m, local, first).stamps[i].node_id == m.stamps[i].node_id,
        departed(m, local, first).stamps[i].arrival == m.stamps[i].arrival,
{
    assert(departed(departed(m, local, first), local, second).stamps =~= departed(
        m,
        local,
        second,
    ).stamps);
}

proof fn lemma_be_value(n: int)
    requires
        0 <= n <= u32::MAX,
    ensures
        be_value(be_bytes(n)) == n,
{
    let s = be_bytes(n);
    assert(s[0] == n / 0x100_0000);
    assert(s[1] == n / 0x1_0000 % 0x100);
    assert(s[2] == n / 0x100 % 0x100);
    assert(s[3] == n % 0x100);
}

proof fn lemma_frame_parts(prefix: FramePrefix, meta: Seq<u8>, payload: Seq<u8>)
    requires
        meta.len() <= u32::MAX,
        payload.len() <= u32::MAX,
    ensures
        frame_meta(frame_of(prefix, meta, payload)) == meta,
        frame_payload(frame_of(prefix, meta, payload)) == payload,
{
    let frame = frame_of(prefix, meta, payload);
    let m = meta.len() as int;
    let p = payload.len() as int;
    lemma_be_value(m);
    lemma_be_value(p);
    assert(frame.subrange(5, 9) =~= be_bytes(m));
    assert(frame.subrange(9 + m, 13 + m) =~= be_bytes(p));
    assert(frame_meta(frame) =~= meta);
    assert(frame_payload(frame) =~= payload);
}

/// Two attempts in a row, at two times, put the same event on the wire. Decoded, both
/// frames hold the payload unchanged, the same key and the same stamps but for this
/// node's departure, which is the time of the attempt; the second attempt adds no
/// stamp. `m` stands for the metadata before the first attempt.
pub proof fn law_attempts_carry_the_same_event(
    prefix: FramePrefix,
    m: MetaView,
    local: int,
    payload: Seq<u8>,
    times: (Option<i64>, Option<i64>),
)
    requires
        0 <= local < m.stamps.len(),
        ({
            let first = departed(m, local, wire_time(times.0));
            let second = departed(first, local, wire_time(times.1));
            &&& frame_result(prefix, encoded_meta(first), payload) is Ok
            &&& frame_result(prefix, encoded_meta(second), payload) is Ok
        }),
    ensures
        ({
            let first = departed(m, local, wire_time(times.0));
            let second = departed(first, local, wire_time(times.1));
            let a = frame_result(prefix, encoded_meta(first), payload)->Ok_0;
            let b = frame_result(prefix, encoded_meta(second), payload)->Ok_0;
            let x = decoded_meta(frame_meta(a));
            let y = decoded_meta(frame_meta(b));
            &&& frame_payload(a) == payload
            &&& frame_payload(b) == payload
            &&& x.key == m.key
            &&& y.key == m.key
            &&& x.stamps.len() == m.stamps.len()
            &&& y.stamps.len() == m.stamps.len()
            &&& x.stamps[local] == (StampView {
                departure: wire_time(times.0),
                ..m.stamps[local]
            })
            &&& y.stamps[local] == (StampView {
                departure: wire_time(times.1),
                ..m.stamps[local]
            })
            &&& forall|i: int|
                0 <= i < m.stamps.len() && i != local ==> #[trigger] x.stamps[i] == m.stamps[i]
                    && y.stamps[i] == m.stamps[i]
        }),
{
    let first = departed(m, local, wire_time(times.0));
    let second = departed(first, local, wire_time(times.1));
    lemma_frame_parts(prefix, encoded_meta(first), payload);
    lemma_frame_parts(prefix, encoded_meta(second), payload);
    law_encoded_metadata_decode(first);
    law_encoded_metadata_decode(second);
}

/// An event keeps the stamps that it came with, and has exactly one pending stamp
/// of this node behind them; making the metadata again adds no second one.
pub proof fn law_one_pending_stamp(stamps: Seq<StampView>, node_id: Seq<char>, arrival: u64, again: u64)
    ensures
        pending_local(with_local(stamps, node_id, arrival), node_id),
        stamps.is_prefix_of(with_local(stamps, node_id, arrival)),
        with_local(with_local(stamps, node_id, arrival), node_id, again) == with_local(
            stamps,
            node_id,
            arrival,
        ),
        with_local(stamps, node_id, arrival).len() <= stamps.len() + 1,
{
    let made = with_local(stamps, node_id, arrival);
    assert(stamps =~= made.subrange(0, stamps.len() as int));
}

proof fn lemma_be_bytes(m: int, n: int)
    requires
        0 <= m <= u32::MAX,
        0 <= n <= u32::MAX,
        be_bytes(m) == be_bytes(n),
    ensures
        m == n,
{
    let a = be_bytes(m);
    let b = be_bytes(n);
    assert(a[0] == b[0] && a[1] == b[1] && a[2] == b[2] && a[3] == b[3]);
    assert(a[0] == m / 0x100_0000 && b[0] == n / 0x100_0000);
    assert(a[1] == m / 0x1_0000 % 0x100 && b[1] == n / 0x1_0000 % 0x100);
    assert(a[2] == m / 0x100 % 0x100 && b[2] == n / 0x100 % 0x100);
    assert(a[3] == m % 0x100 && b[3] == n % 0x100);
}

/// A stream of frames can be read in one way only: two streams that begin with a
/// frame and are equal begin with the same metadata and the same payload, and go on
/// equally.
pub proof fn law_frames_read_one_way(
    prefix: FramePrefix,
    meta_a: Seq<u8>,
    payload_a: Seq<u8>,
    after_a: Seq<u8>,
    meta_b: Seq<u8>,
    payload_b: Seq<u8>,
    after_b: Seq<u8>,
)
    requires
        meta_a.len() <= u32::MAX,
        payload_a.len() <= u32::MAX,
        meta_b.len() <= u32::MAX,
        payload_b.len() <= u32::MAX,
        frame_of(prefix, meta_a, payload_a) + after_a == frame_of(prefix, meta_b, payload_b)
            + after_b,
    ensures
        meta_a == meta_b,
        payload_a == payload_b,
        after_a == after_b,
{
    let x = frame_of(prefix, meta_a, payload_a) + after_a;
    let y = frame_of(prefix, meta_b, payload_b) + after_b;
    let ma = meta_a.len() as int;
    let mb = meta_b.len() as int;
    let pa = payload_a.len() as int;
    let pb = payload_b.len() as int;
    assert(be_bytes(ma) =~= x.subrange(5, 9));
    assert(be_bytes(mb) =~= y.subrange(5, 9));
    lemma_be_bytes(ma, mb);
    assert(meta_a =~= x.subrange(9, 9 + ma));
    assert(meta_b =~= y.subrange(9, 9 + mb));
    assert(be_bytes(pa) =~= x.subrange(9 + ma, 13 + ma));
    assert(be_bytes(pb) =~= y.subrange(9 + mb, 13 + mb));
    lemma_be_bytes(pa, pb);
    assert(payload_a =~= x.subrange(13 + ma, 13 + ma + pa));
    assert(payload_b =~= y.subrange(13 + mb, 13 + mb + pb));
    assert(after_a =~= x.subrange(13 + ma + pa, x.len() as int));
    assert(after_b =~= y.subrange(13 + mb + pb, y.len() as int));
}

} // verus!
