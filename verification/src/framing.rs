//! Framing of messages on a byte stream.
use crate::text::{decimal, digit_char};
use vstd::prelude::*;

verus! {

/// The line feed that ends a frame.
pub const LINE_FEED: u8 = 10;

/// The space between the length and the message.
pub const SPACE: u8 = 32;

/// Appends the frame terminator to a payload.
pub fn frame_with_newline(payload: &[u8]) -> (frame: Vec<u8>)
    ensures
        frame@ == payload@.push(LINE_FEED),
{
    let mut frame: Vec<u8> = Vec::new();
    frame.extend_from_slice(payload);
    frame.push(LINE_FEED);
    assert(frame@ =~= payload@.push(LINE_FEED));
    frame
}

/// The decimal notation of a number as ASCII bytes.
pub open spec fn decimal_bytes(n: nat) -> Seq<u8> {
    decimal(n).map_values(|c: char| c as u8)
}

/// A message preceded by its length in decimal and a space.
pub open spec fn counted_frame(payload: Seq<u8>) -> Seq<u8> {
    decimal_bytes(payload.len()).push(SPACE) + payload
}

/// A message followed by a line feed.
pub open spec fn terminated_frame(payload: Seq<u8>) -> Seq<u8> {
    payload.push(LINE_FEED)
}

fn push_decimal(out: &mut Vec<u8>, n: usize)
    ensures
        final(out)@ == old(out)@ + decimal_bytes(n as nat),
    decreases n,
{
    if n < 10 {
        out.push(48 + n as u8);
        assert(decimal(n as nat) =~= seq![digit_char(n as nat)]);
        assert(out@ =~= old(out)@ + decimal_bytes(n as nat));
    } else {
        push_decimal(out, n / 10);
        out.push(48 + (n % 10) as u8);
        assert(out@ =~= old(out)@ + decimal_bytes(n as nat));
    }
}

/// Frames a message with its length in front.
pub fn frame_counted(payload: &[u8]) -> (frame: Vec<u8>)
    ensures
        frame@ == counted_frame(payload@),
{
    let mut frame: Vec<u8> = Vec::new();
    push_decimal(&mut frame, payload.len());
    frame.push(SPACE);
    frame.extend_from_slice(payload);
    assert(frame@ =~= counted_frame(payload@));
    frame
}

proof fn lemma_decimal_digits(n: nat)
    ensures
        decimal(n).len() > 0,
        forall|i: int|
            0 <= i < decimal(n).len() ==> '0' <= #[trigger] decimal(n)[i] && decimal(n)[i] <= '9',
    decreases n,
{
    if n >= 10 {
        lemma_decimal_digits(n / 10);
    }
}

proof fn lemma_decimal_injective(m: nat, n: nat)
    requires
        decimal(m) == decimal(n),
    ensures
        m == n,
    decreases m,
{
    lemma_decimal_digits(m);
    lemma_decimal_digits(n);
    let dm = decimal(m);
    let dn = decimal(n);
    if m < 10 && n < 10 {
        assert(dm[0] == digit_char(m) && dn[0] == digit_char(n));
    } else if m < 10 {
        lemma_decimal_digits(n / 10);
        assert(dn.len() == decimal(n / 10).len() + 1);
    } else if n < 10 {
        lemma_decimal_digits(m / 10);
        assert(dm.len() == decimal(m / 10).len() + 1);
    } else {
        assert(dm.last() == digit_char(m % 10) && dn.last() == digit_char(n % 10));
        assert(m % 10 == n % 10);
        assert(dm.drop_last() =~= decimal(m / 10));
        assert(dn.drop_last() =~= decimal(n / 10));
        lemma_decimal_injective(m / 10, n / 10);
    }
}

/// The place of the first space in a stream that begins with a counted frame is
/// right behind the length.
proof fn lemma_counted_header(payload: Seq<u8>, rest: Seq<u8>)
    ensures
        (counted_frame(payload) + rest)[decimal(payload.len()).len() as int] == SPACE,
        forall|i: int|
            0 <= i < decimal(payload.len()).len() ==> {
                &&& #[trigger] (counted_frame(payload) + rest)[i] == decimal(payload.len())[i] as u8
                &&& (counted_frame(payload) + rest)[i] != SPACE
            },
{
    lemma_decimal_digits(payload.len());
}

/// A stream of counted frames can be read in one way only, whatever bytes the
/// messages hold: two streams that begin with a frame and are equal begin with
/// the same message, and go on equally.
pub proof fn law_counted_frames_read_one_way(
    a: Seq<u8>,
    after_a: Seq<u8>,
    b: Seq<u8>,
    after_b: Seq<u8>,
)
    requires
        counted_frame(a) + after_a == counted_frame(b) + after_b,
    ensures
        a == b,
        after_a == after_b,
{
    let da = decimal(a.len());
    let db = decimal(b.len());
    let stream = counted_frame(a) + after_a;
    lemma_counted_header(a, after_a);
    lemma_counted_header(b, after_b);
    lemma_decimal_digits(a.len());
    lemma_decimal_digits(b.len());
    if da.len() < db.len() {
        assert(stream[da.len() as int] != SPACE);
    }
    if db.len() < da.len() {
        assert(stream[db.len() as int] != SPACE);
    }
    assert(da =~= db) by {
        assert forall|i: int| 0 <= i < da.len() implies da[i] == db[i] by {
            assert(stream[i] == da[i] as u8 && stream[i] == db[i] as u8);
        }
    }
    lemma_decimal_injective(a.len(), b.len());
    let head = da.len() as int + 1;
    assert forall|i: int| 0 <= i < a.len() implies a[i] == b[i] by {
        assert(stream[head + i] == a[i]);
        assert((counted_frame(b) + after_b)[head + i] == b[i]);
    }
    assert(a =~= b);
    let end = counted_frame(a).len() as int;
    assert(after_a =~= stream.subrange(end, stream.len() as int));
    assert(after_b =~= stream.subrange(end, stream.len() as int));
}

/// A stream of terminated frames can be read in one way as long as no message
/// holds a line feed.
pub proof fn law_terminated_frames_read_one_way(
    a: Seq<u8>,
    after_a: Seq<u8>,
    b: Seq<u8>,
    after_b: Seq<u8>,
)
    requires
        !a.contains(LINE_FEED),
        !b.contains(LINE_FEED),
        terminated_frame(a) + after_a == terminated_frame(b) + after_b,
    ensures
        a == b,
        after_a == after_b,
{
    let stream = terminated_frame(a) + after_a;
    let other = terminated_frame(b) + after_b;
    assert(stream[a.len() as int] == LINE_FEED);
    assert(other[b.len() as int] == LINE_FEED);
    if a.len() < b.len() {
        assert(other[a.len() as int] == b[a.len() as int]);
    }
    if b.len() < a.len() {
        assert(stream[b.len() as int] == a[b.len() as int]);
    }
    assert forall|i: int| 0 <= i < a.len() implies a[i] == b[i] by {
        assert(stream[i] == a[i] && other[i] == b[i]);
    }
    assert(a =~= b);
    let end = a.len() + 1;
    assert(after_a =~= stream.subrange(end as int, stream.len() as int));
    assert(after_b =~= stream.subrange(end as int, stream.len() as int));
}

} // verus!
