//! The encoding of what an LTP frame carries beside its payload: protobuf messages
//! in which a field that is empty or zero is left out.
//!
//! An event's metadata hold its key in field 1 and its stamps in fields 2; a stamp
//! holds the node's name in field 1, the arrival in field 2 and the departure in
//! field 3; the hello holds the node's name in field 1.
use crate::ltp::{own_meta, HopStamp, LtpMeta, MetaView, StampView};
use vstd::bytes::spec_u64_to_le_bytes;
use vstd::prelude::*;
use vstd::utf8::encode_utf8;

verus! {

/// A number in base 128, the lowest digit first; every byte but the last has its
/// highest bit set.
pub open spec fn varint(n: nat) -> Seq<u8>
    decreases n,
{
    if n < 128 {
        seq![n as u8]
    } else {
        seq![(n % 128 + 128) as u8] + varint(n / 128)
    }
}

/// A field of bytes: its key, the number of bytes, and the bytes.
pub open spec fn bytes_field(tag: nat, value: Seq<u8>) -> Seq<u8> {
    varint(tag * 8 + 2) + varint(value.len()) + value
}

/// A field of eight bytes: its key, and the bytes of the number, lowest first.
pub open spec fn fixed64_field(tag: nat, value: u64) -> Seq<u8> {
    varint(tag * 8 + 1) + spec_u64_to_le_bytes(value)
}

/// Calls `prost::encoding::bytes::encode`. The contract claims that it appends the
/// field's key, the number of bytes and the bytes.
#[verifier::external_body]
fn put_bytes(tag: u32, value: &Vec<u8>, out: &mut Vec<u8>)
    requires
        1 <= tag < 0x2000_0000,
    ensures
        final(out)@ == old(out)@ + bytes_field(tag as nat, value@),
{
    prost::encoding::bytes::encode(tag, value, out);
}

/// Calls `prost::encoding::string::encode`. The contract claims that it appends the
/// field's key, the number of bytes of the text in UTF-8, and those bytes.
#[verifier::external_body]
fn put_string(tag: u32, value: &String, out: &mut Vec<u8>)
    requires
        1 <= tag < 0x2000_0000,
    ensures
        final(out)@ == old(out)@ + bytes_field(tag as nat, encode_utf8(value@)),
{
    prost::encoding::string::encode(tag, value, out);
}

/// Calls `prost::encoding::fixed64::encode`. The contract claims that it appends the
/// field's key and the eight bytes of the number, lowest first.
#[verifier::external_body]
fn put_fixed64(tag: u32, value: u64, out: &mut Vec<u8>)
    requires
        1 <= tag < 0x2000_0000,
    ensures
        final(out)@ == old(out)@ + fixed64_field(tag as nat, value),
{
    prost::encoding::fixed64::encode(tag, &value, out);
}

/// A field with a text, left out where the text is empty.
pub open spec fn text_part(tag: nat, text: Seq<char>) -> Seq<u8> {
    if text.len() == 0 {
        Seq::empty()
    } else {
        bytes_field(tag, encode_utf8(text))
    }
}

/// A field with a time, left out where the time is zero.
pub open spec fn time_part(tag: nat, time: u64) -> Seq<u8> {
    if time == 0 {
        Seq::empty()
    } else {
        fixed64_field(tag, time)
    }
}

/// A field with a key, left out where the key is empty.
pub open spec fn key_part(key: Seq<u8>) -> Seq<u8> {
    if key.len() == 0 {
        Seq::empty()
    } else {
        bytes_field(1, key)
    }
}

/// The encoding of a stamp.
pub open spec fn encoded_stamp(s: StampView) -> Seq<u8> {
    text_part(1, s.node_id) + time_part(2, s.arrival) + time_part(3, s.departure)
}

/// The encoding of stamps, one field each.
pub open spec fn encoded_stamps(stamps: Seq<StampView>) -> Seq<u8>
    decreases stamps.len(),
{
    if stamps.len() == 0 {
        Seq::empty()
    } else {
        encoded_stamps(stamps.drop_last()) + bytes_field(2, encoded_stamp(stamps.last()))
    }
}

/// The encoding of an event's metadata.
pub open spec fn encoded_meta(m: MetaView) -> Seq<u8> {
    key_part(m.key) + encoded_stamps(m.stamps)
}

fn encode_stamp(s: &HopStamp) -> (bytes: Vec<u8>)
    ensures
        bytes@ == encoded_stamp(s@),
{
    let mut out: Vec<u8> = Vec::new();
    if !s.node_id.as_str().is_empty() {
        put_string(1, &s.node_id, &mut out);
    }
    assert(out@ =~= text_part(1, s@.node_id));
    if s.arrival_unix_nano != 0 {
        put_fixed64(2, s.arrival_unix_nano, &mut out);
    }
    assert(out@ =~= text_part(1, s@.node_id) + time_part(2, s@.arrival));
    if s.departure_unix_nano != 0 {
        put_fixed64(3, s.departure_unix_nano, &mut out);
    }
    assert(out@ =~= encoded_stamp(s@));
    out
}

/// Encodes an event's metadata.
pub fn encode_meta(m: &LtpMeta) -> (bytes: Vec<u8>)
    ensures
        bytes@ == encoded_meta(m@),
{
    let mut out: Vec<u8> = Vec::new();
    if m.key.len() > 0 {
        put_bytes(1, &m.key, &mut out);
    }
    assert(out@ =~= key_part(m@.key));
    let ghost views = m@.stamps;
    let n: usize = m.stamps.len();
    let mut i: usize = 0;
    assert(out@ =~= key_part(m@.key) + encoded_stamps(views.take(0)));
    while i < n
        invariant
            i <= n,
            n == m.stamps@.len(),
            views == m@.stamps,
            out@ == key_part(m@.key) + encoded_stamps(views.take(i as int)),
        decreases n - i,
    {
        let stamp = encode_stamp(&m.stamps[i]);
        let ghost before = out@;
        put_bytes(2, &stamp, &mut out);
        proof {
            let next = views.take(i + 1);
            assert(next.drop_last() =~= views.take(i as int));
            assert(next.last() == m.stamps@[i as int]@);
            assert(out@ =~= key_part(m@.key) + encoded_stamps(next));
        }
        i = i + 1;
    }
    assert(views.take(n as int) =~= views);
    out
}

/// Encodes the hello that begins a connection.
pub fn encode_hello(node_id: &str) -> (bytes: Vec<u8>)
    ensures
        bytes@ == text_part(1, node_id@),
{
    let mut out: Vec<u8> = Vec::new();
    if !node_id.is_empty() {
        put_string(1, &node_id.to_owned(), &mut out);
    }
    assert(out@ =~= text_part(1, node_id@));
    out
}

/// The metadata that are encoded as these bytes.
pub open spec fn decoded_meta(bytes: Seq<u8>) -> MetaView {
    choose|m: MetaView| #[trigger] encoded_meta(m) == bytes
}

proof fn lemma_varint(a: nat, x: Seq<u8>, b: nat, y: Seq<u8>)
    requires
        varint(a) + x == varint(b) + y,
    ensures
        a == b,
        x == y,
    decreases a,
{
    let p = varint(a) + x;
    let q = varint(b) + y;
    assert(p[0] == varint(a)[0]);
    assert(q[0] == varint(b)[0]);
    if a < 128 {
        assert(b < 128);
        assert(x =~= p.skip(1));
        assert(y =~= q.skip(1));
    } else {
        assert(b >= 128);
        assert(a % 128 == b % 128);
        assert(varint(a / 128) + x =~= p.skip(1));
        assert(varint(b / 128) + y =~= q.skip(1));
        lemma_varint(a / 128, x, b / 128, y);
    }
}

proof fn lemma_bytes_field(tag: nat, a: Seq<u8>, x: Seq<u8>, b: Seq<u8>, y: Seq<u8>)
    requires
        bytes_field(tag, a) + x == bytes_field(tag, b) + y,
    ensures
        a == b,
        x == y,
{
    let key = varint(tag * 8 + 2);
    let p = bytes_field(tag, a) + x;
    let q = bytes_field(tag, b) + y;
    assert(p =~= key + (varint(a.len()) + (a + x)));
    assert(q =~= key + (varint(b.len()) + (b + y)));
    lemma_varint(
        tag * 8 + 2,
        varint(a.len()) + (a + x),
        tag * 8 + 2,
        varint(b.len()) + (b + y),
    );
    lemma_varint(a.len(), a + x, b.len(), b + y);
    assert(a =~= (a + x).take(a.len() as int));
    assert(b =~= (b + y).take(b.len() as int));
    assert(x =~= (a + x).skip(a.len() as int));
    assert(y =~= (b + y).skip(b.len() as int));
}

// A field begins with its key, which tells one field from another.
proof fn lemma_first_byte(value: Seq<u8>, time: u64)
    ensures
        bytes_field(1, value).len() > 0 && bytes_field(1, value)[0] == 10,
        bytes_field(2, value).len() > 0 && bytes_field(2, value)[0] == 18,
        fixed64_field(2, time).len() == 9 && fixed64_field(2, time)[0] == 17,
        fixed64_field(3, time).len() == 9 && fixed64_field(3, time)[0] == 25,
{
    vstd::bytes::lemma_auto_spec_u64_to_from_le_bytes();
}

proof fn lemma_time_part(a: u64, x: Seq<u8>, b: u64, y: Seq<u8>, tag: nat)
    requires
        tag == 2 || tag == 3,
        time_part(tag, a) + x == time_part(tag, b) + y,
        x.len() > 0 ==> x[0] != tag * 8 + 1,
        y.len() > 0 ==> y[0] != tag * 8 + 1,
    ensures
        a == b,
        x == y,
{
    vstd::bytes::lemma_auto_spec_u64_to_from_le_bytes();
    lemma_first_byte(Seq::empty(), a);
    lemma_first_byte(Seq::empty(), b);
    let p = time_part(tag, a) + x;
    let q = time_part(tag, b) + y;
    if a != 0 && b != 0 {
        assert(spec_u64_to_le_bytes(a) =~= p.subrange(1, 9));
        assert(spec_u64_to_le_bytes(b) =~= q.subrange(1, 9));
        assert(x =~= p.skip(9));
        assert(y =~= q.skip(9));
    } else if a != 0 {
        assert(p[0] == fixed64_field(tag, a)[0]);
        assert(q =~= y);
    } else if b != 0 {
        assert(q[0] == fixed64_field(tag, b)[0]);
        assert(p =~= x);
    } else {
        assert(p =~= x);
        assert(q =~= y);
    }
}

proof fn lemma_stamp(a: StampView, b: StampView)
    requires
        encoded_stamp(a) == encoded_stamp(b),
    ensures
        a == b,
{
    vstd::utf8::encode_utf8_decode_utf8(a.node_id);
    vstd::utf8::encode_utf8_decode_utf8(b.node_id);
    let ad = time_part(3, a.departure);
    let bd = time_part(3, b.departure);
    let at = time_part(2, a.arrival) + ad;
    let bt = time_part(2, b.arrival) + bd;
    lemma_first_byte(encode_utf8(a.node_id), a.departure);
    lemma_first_byte(encode_utf8(b.node_id), b.departure);
    lemma_first_byte(encode_utf8(a.node_id), a.arrival);
    lemma_first_byte(encode_utf8(b.node_id), b.arrival);
    let p = encoded_stamp(a);
    let q = encoded_stamp(b);
    assert(p =~= text_part(1, a.node_id) + at);
    assert(q =~= text_part(1, b.node_id) + bt);
    assert(at.len() > 0 ==> at[0] == 17 || at[0] == 25);
    assert(bt.len() > 0 ==> bt[0] == 17 || bt[0] == 25);
    if a.node_id.len() > 0 && b.node_id.len() > 0 {
        lemma_bytes_field(1, encode_utf8(a.node_id), at, encode_utf8(b.node_id), bt);
    } else if a.node_id.len() > 0 {
        assert(p[0] == 10);
        assert(q =~= bt);
    } else if b.node_id.len() > 0 {
        assert(q[0] == 10);
        assert(p =~= at);
    } else {
        assert(p =~= at);
        assert(q =~= bt);
        assert(a.node_id =~= b.node_id);
    }
    assert(a.node_id == b.node_id);
    assert(at == bt);
    lemma_time_part(a.arrival, ad, b.arrival, bd, 2);
    assert(ad + Seq::<u8>::empty() =~= ad);
    assert(bd + Seq::<u8>::empty() =~= bd);
    lemma_time_part(a.departure, Seq::empty(), b.departure, Seq::empty(), 3);
}

proof fn lemma_stamps_from_the_front(stamps: Seq<StampView>)
    requires
        stamps.len() > 0,
    ensures
        encoded_stamps(stamps) == bytes_field(2, encoded_stamp(stamps[0])) + encoded_stamps(
            stamps.skip(1),
        ),
    decreases stamps.len(),
{
    let first = bytes_field(2, encoded_stamp(stamps[0]));
    if stamps.len() == 1 {
        assert(stamps.drop_last() =~= Seq::empty());
        assert(stamps.skip(1) =~= Seq::empty());
        assert(encoded_stamps(stamps) =~= first + encoded_stamps(stamps.skip(1)));
    } else {
        lemma_stamps_from_the_front(stamps.drop_last());
        assert(stamps.drop_last().skip(1) =~= stamps.skip(1).drop_last());
        assert(encoded_stamps(stamps) =~= first + encoded_stamps(stamps.skip(1)));
    }
}

proof fn lemma_stamps(a: Seq<StampView>, b: Seq<StampView>)
    requires
        encoded_stamps(a) == encoded_stamps(b),
    ensures
        a == b,
    decreases a.len(),
{
    if a.len() > 0 {
        lemma_stamps_from_the_front(a);
        lemma_first_byte(encoded_stamp(a[0]), 0);
    }
    if b.len() > 0 {
        lemma_stamps_from_the_front(b);
        lemma_first_byte(encoded_stamp(b[0]), 0);
    }
    if a.len() > 0 && b.len() > 0 {
        lemma_bytes_field(
            2,
            encoded_stamp(a[0]),
            encoded_stamps(a.skip(1)),
            encoded_stamp(b[0]),
            encoded_stamps(b.skip(1)),
        );
        lemma_stamp(a[0], b[0]);
        lemma_stamps(a.skip(1), b.skip(1));
        assert(a =~= seq![a[0]] + a.skip(1));
        assert(b =~= seq![b[0]] + b.skip(1));
    } else {
        assert(a.len() == 0 && b.len() == 0);
        assert(a =~= b);
    }
}

/// The encoding tells metadata apart: no two are encoded as the same bytes.
pub proof fn law_encoding_tells_metadata_apart(a: MetaView, b: MetaView)
    requires
        encoded_meta(a) == encoded_meta(b),
    ensures
        a == b,
{
    let p = encoded_meta(a);
    let q = encoded_meta(b);
    let x = encoded_stamps(a.stamps);
    let y = encoded_stamps(b.stamps);
    lemma_first_byte(a.key, 0);
    lemma_first_byte(b.key, 0);
    if a.stamps.len() > 0 {
        lemma_stamps_from_the_front(a.stamps);
        lemma_first_byte(encoded_stamp(a.stamps[0]), 0);
    }
    if b.stamps.len() > 0 {
        lemma_stamps_from_the_front(b.stamps);
        lemma_first_byte(encoded_stamp(b.stamps[0]), 0);
    }
    if a.key.len() > 0 && b.key.len() > 0 {
        lemma_bytes_field(1, a.key, x, b.key, y);
    } else if a.key.len() > 0 {
        assert(p[0] == 10);
        assert(q =~= y);
    } else if b.key.len() > 0 {
        assert(q[0] == 10);
        assert(p =~= x);
    } else {
        assert(p =~= x);
        assert(q =~= y);
        assert(a.key =~= b.key);
    }
    lemma_stamps(a.stamps, b.stamps);
}

proof fn lemma_varint_grows(a: nat, b: nat)
    requires
        a <= b,
    ensures
        varint(a).len() <= varint(b).len(),
    decreases a,
{
    if a >= 128 {
        lemma_varint_grows(a / 128, b / 128);
    }
}

/// No event that begins at a node has longer metadata than those by which the node's
/// name was judged: a name that was accepted never makes such metadata too long.
pub proof fn law_own_metadata_are_within(
    node_id: Seq<char>,
    key: Seq<u8>,
    arrival: u64,
    departure: u64,
)
    requires
        key.len() == 16,
    ensures
        encoded_meta(
            MetaView { key, stamps: seq![StampView { node_id, arrival, departure }] },
        ).len() <= encoded_meta(own_meta(node_id)).len(),
{
    let stamp = StampView { node_id, arrival, departure };
    let longest = StampView { node_id, arrival: 1, departure: 1 };
    lemma_first_byte(Seq::empty(), arrival);
    lemma_first_byte(Seq::empty(), departure);
    lemma_first_byte(Seq::empty(), 1);
    assert(encoded_stamp(stamp).len() <= encoded_stamp(longest).len());
    lemma_varint_grows(encoded_stamp(stamp).len(), encoded_stamp(longest).len());
    lemma_stamps_from_the_front(seq![stamp]);
    lemma_stamps_from_the_front(seq![longest]);
    assert(seq![stamp].skip(1) =~= Seq::empty());
    assert(seq![longest].skip(1) =~= Seq::empty());
}

/// Whoever decodes what was encoded gets the metadata back.
pub proof fn law_encoded_metadata_decode(m: MetaView)
    ensures
        decoded_meta(encoded_meta(m)) == m,
{
    law_encoding_tells_metadata_apart(decoded_meta(encoded_meta(m)), m);
}

} // verus!
