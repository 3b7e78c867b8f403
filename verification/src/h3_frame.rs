//! HTTP/3 DATA frames: a type byte, the payload length as a QUIC variable-length integer, and
//! the payload.

use vstd::prelude::*;

verus! {

/// The frame type of DATA.
pub const H3_DATA_FRAME_TYPE: u8 = 0x00;

/// The largest value that a QUIC variable-length integer can hold.
pub const MAX_VARINT: u64 = 0x3fff_ffff_ffff_ffff;

/// The least stream capacity into which a DATA frame with a payload fits.
pub const MIN_USABLE_QUIC_STREAM_CAPACITY: usize = 3;

/// How many bytes the shortest variable-length form of `value` takes.
pub open spec fn varint_len(value: int) -> int {
    if value < 0x40 {
        1
    } else if value < 0x4000 {
        2
    } else if value < 0x4000_0000 {
        4
    } else {
        8
    }
}

/// The `width` low bytes of `value`, most significant first.
pub open spec fn big_endian(value: int, width: nat) -> Seq<u8>
    decreases width,
{
    if width == 0 {
        Seq::empty()
    } else {
        big_endian(value / 256, (width - 1) as nat).push((value % 256) as u8)
    }
}

/// The shortest QUIC variable-length form of `value`: its two top bits tell the length, the rest
/// is the value, most significant byte first.
pub open spec fn varint(value: int) -> Seq<u8> {
    if value < 0x40 {
        big_endian(value, 1)
    } else if value < 0x4000 {
        big_endian(value + 0x4000, 2)
    } else if value < 0x4000_0000 {
        big_endian(value + 0x8000_0000, 4)
    } else {
        big_endian(value + 0xc000_0000_0000_0000, 8)
    }
}

/// The DATA frame that carries `payload`.
pub open spec fn data_frame(payload: Seq<u8>) -> Seq<u8> {
    seq![H3_DATA_FRAME_TYPE] + varint(payload.len() as int) + payload
}

/// How long the DATA frame for a payload of `payload` bytes is.
pub open spec fn data_frame_len(payload: int) -> int {
    1 + varint_len(payload) + payload
}

/// `payload` is the largest payload whose DATA frame fits into `capacity`, or 0 where no frame
/// with a payload does.
pub open spec fn is_max_payload(payload: int, capacity: int) -> bool {
    &&& 0 <= payload <= MAX_VARINT
    &&& payload > 0 ==> data_frame_len(payload) <= capacity
    &&& forall|more: int|
        payload < more <= MAX_VARINT ==> #[trigger] data_frame_len(more) > capacity
}

proof fn lemma_big_endian_len(value: int, width: nat)
    ensures
        big_endian(value, width).len() == width,
    decreases width,
{
    if width > 0 {
        lemma_big_endian_len(value / 256, (width - 1) as nat);
    }
}

/// The frame is as long as `data_frame_len` says.
pub proof fn lemma_data_frame_len(payload: Seq<u8>)
    ensures
        data_frame(payload).len() == data_frame_len(payload.len() as int),
{
    let n = payload.len() as int;
    lemma_big_endian_len(n, 1);
    lemma_big_endian_len(n + 0x4000, 2);
    lemma_big_endian_len(n + 0x8000_0000, 4);
    lemma_big_endian_len(n + 0xc000_0000_0000_0000, 8);
}

/// A longer payload makes a longer frame.
pub proof fn lemma_data_frame_len_monotonic(shorter: int, longer: int)
    requires
        0 <= shorter <= longer,
    ensures
        data_frame_len(shorter) <= data_frame_len(longer),
{
}

/// The payloads, one behind the other.
pub open spec fn joined(payloads: Seq<Seq<u8>>) -> Seq<u8>
    decreases payloads.len(),
{
    if payloads.len() == 0 {
        Seq::empty()
    } else {
        joined(payloads.drop_last()) + payloads.last()
    }
}

/// The DATA frames that carry the payloads, one behind the other.
pub open spec fn framed(payloads: Seq<Seq<u8>>) -> Seq<u8>
    decreases payloads.len(),
{
    if payloads.len() == 0 {
        Seq::empty()
    } else {
        framed(payloads.drop_last()) + data_frame(payloads.last())
    }
}

/// `value` can be told from its `width` low bytes.
spec fn fits(value: int, width: nat) -> bool
    decreases width,
{
    if width == 0 {
        value == 0
    } else {
        value >= 0 && fits(value / 256, (width - 1) as nat)
    }
}

proof fn lemma_big_endian_injective(a: int, b: int, width: nat)
    requires
        fits(a, width),
        fits(b, width),
        big_endian(a, width) == big_endian(b, width),
    ensures
        a == b,
    decreases width,
{
    if width > 0 {
        let less = (width - 1) as nat;
        let (x, y) = (big_endian(a, width), big_endian(b, width));
        lemma_big_endian_len(a / 256, less);
        lemma_big_endian_len(b / 256, less);
        assert(x.drop_last() =~= big_endian(a / 256, less));
        assert(y.drop_last() =~= big_endian(b / 256, less));
        assert(x.last() == (a % 256) as u8);
        assert(y.last() == (b % 256) as u8);
        lemma_big_endian_injective(a / 256, b / 256, less);
    }
}

/// What follows from the form of a variable-length integer: its first byte tells its length.
proof fn lemma_varint(value: int)
    requires
        0 <= value <= MAX_VARINT,
    ensures
        varint(value).len() == varint_len(value),
        varint_len(value) == if varint(value)[0] < 0x40 {
            1int
        } else if varint(value)[0] < 0x80 {
            2
        } else if varint(value)[0] < 0xc0 {
            4
        } else {
            8
        },
{
    reveal_with_fuel(big_endian, 9);
    lemma_big_endian_len(value, 1);
    lemma_big_endian_len(value + 0x4000, 2);
    lemma_big_endian_len(value + 0x8000_0000, 4);
    lemma_big_endian_len(value + 0xc000_0000_0000_0000, 8);
    if value < 0x40 {
    } else if value < 0x4000 {
        assert(varint(value)[0] == ((value + 0x4000) / 256 % 256) as u8);
    } else if value < 0x4000_0000 {
        assert(varint(value)[0] == ((value + 0x8000_0000) / 256 / 256 / 256 % 256) as u8);
    } else {
        let v = value + 0xc000_0000_0000_0000;
        assert(varint(value)[0] == (v / 256 / 256 / 256 / 256 / 256 / 256 / 256 % 256) as u8);
    }
}

/// The shortest variable-length form delimits itself.
proof fn lemma_varint_delimits_itself(a: int, b: int, x: Seq<u8>, y: Seq<u8>)
    requires
        0 <= a <= MAX_VARINT,
        0 <= b <= MAX_VARINT,
        varint(a) + x == varint(b) + y,
    ensures
        a == b,
        x == y,
{
    lemma_varint(a);
    lemma_varint(b);
    assert((varint(a) + x)[0] == varint(a)[0]);
    assert((varint(b) + y)[0] == varint(b)[0]);
    assert(varint_len(a) == varint_len(b));
    assert((varint(a) + x).take(varint_len(a)) =~= varint(a));
    assert((varint(b) + y).take(varint_len(b)) =~= varint(b));
    assert((varint(a) + x).skip(varint_len(a)) =~= x);
    assert((varint(b) + y).skip(varint_len(b)) =~= y);
    reveal_with_fuel(fits, 9);
    if varint_len(a) == 1 {
        lemma_big_endian_injective(a, b, 1);
    } else if varint_len(a) == 2 {
        lemma_big_endian_injective(a + 0x4000, b + 0x4000, 2);
    } else if varint_len(a) == 4 {
        lemma_big_endian_injective(a + 0x8000_0000, b + 0x8000_0000, 4);
    } else {
        lemma_big_endian_injective(
            a + 0xc000_0000_0000_0000,
            b + 0xc000_0000_0000_0000,
            8,
        );
    }
}

/// A DATA frame delimits itself: whatever follows it, it can be read in one way only.
pub proof fn law_data_frame_delimits_itself(
    payload: Seq<u8>,
    rest: Seq<u8>,
    other_payload: Seq<u8>,
    other_rest: Seq<u8>,
)
    requires
        payload.len() <= MAX_VARINT,
        other_payload.len() <= MAX_VARINT,
        data_frame(payload) + rest == data_frame(other_payload) + other_rest,
    ensures
        payload == other_payload,
        rest == other_rest,
{
    let stream = data_frame(payload) + rest;
    let other = data_frame(other_payload) + other_rest;
    let (n, m) = (payload.len() as int, other_payload.len() as int);
    assert(stream.skip(1) =~= varint(n) + (payload + rest));
    assert(other.skip(1) =~= varint(m) + (other_payload + other_rest));
    lemma_varint_delimits_itself(n, m, payload + rest, other_payload + other_rest);
    assert((payload + rest).take(n) =~= payload);
    assert((other_payload + other_rest).take(n) =~= other_payload);
    assert((payload + rest).skip(n) =~= rest);
    assert((other_payload + other_rest).skip(n) =~= other_rest);
}

proof fn lemma_framed_first(payloads: Seq<Seq<u8>>)
    requires
        payloads.len() > 0,
    ensures
        framed(payloads) == data_frame(payloads[0]) + framed(payloads.skip(1)),
    decreases payloads.len(),
{
    if payloads.len() == 1 {
        assert(payloads.drop_last() =~= Seq::empty());
        assert(payloads.skip(1) =~= Seq::empty());
        assert(framed(payloads) =~= data_frame(payloads[0]) + framed(payloads.skip(1)));
    } else {
        let shorter = payloads.drop_last();
        lemma_framed_first(shorter);
        assert(payloads.skip(1).drop_last() =~= shorter.skip(1));
        assert(framed(payloads) =~= data_frame(payloads[0]) + framed(payloads.skip(1)));
    }
}

/// A stream of complete DATA frames can be read in one way only.
pub proof fn law_framed_stream_can_be_read_in_one_way(
    payloads: Seq<Seq<u8>>,
    others: Seq<Seq<u8>>,
)
    requires
        forall|i: int| 0 <= i < payloads.len() ==> (#[trigger] payloads[i]).len() <= MAX_VARINT,
        forall|i: int| 0 <= i < others.len() ==> (#[trigger] others[i]).len() <= MAX_VARINT,
        framed(payloads) == framed(others),
    ensures
        payloads == others,
    decreases payloads.len(),
{
    if payloads.len() > 0 {
        lemma_framed_first(payloads);
        lemma_data_frame_len(payloads[0]);
    }
    if others.len() > 0 {
        lemma_framed_first(others);
        lemma_data_frame_len(others[0]);
    }
    if payloads.len() > 0 && others.len() > 0 {
        law_data_frame_delimits_itself(
            payloads[0],
            framed(payloads.skip(1)),
            others[0],
            framed(others.skip(1)),
        );
        law_framed_stream_can_be_read_in_one_way(payloads.skip(1), others.skip(1));
        assert(payloads =~= seq![payloads[0]] + payloads.skip(1));
        assert(others =~= seq![others[0]] + others.skip(1));
    } else {
        assert(payloads =~= others);
    }
}

/// The largest payload that one DATA frame can carry into `capacity` bytes of a stream.
pub fn max_h3_data_payload_for_capacity(capacity: usize) -> (payload: usize)
    ensures
        is_max_payload(payload as int, capacity as int),
        payload == 0 <==> capacity < MIN_USABLE_QUIC_STREAM_CAPACITY,
{
    if capacity < 3 {
        0
    } else if capacity < 2 + 0x40 {
        capacity - 2
    } else if capacity < 3 + 0x40 {
        0x3f
    } else if capacity < 3 + 0x4000 {
        capacity - 3
    } else if capacity < 5 + 0x4000 {
        0x3fff
    } else if capacity < 5 + 0x4000_0000 {
        capacity - 5
    } else if capacity < 9 + 0x4000_0000 {
        0x3fff_ffff
    } else {
        let room: usize = capacity - 9;
        if (room as u64) < MAX_VARINT {
            room
        } else {
            MAX_VARINT as usize
        }
    }
}

/// Appends the `width` low bytes of `value`, most significant first.
fn push_big_endian(out: &mut Vec<u8>, value: u64, width: usize)
    requires
        width <= 8,
    ensures
        final(out)@ == old(out)@ + big_endian(value as int, width as nat),
    decreases width,
{
    if width > 0 {
        push_big_endian(out, value / 256, width - 1);
        out.push((value % 256) as u8);
    }
    proof {
        assert(out@ =~= old(out)@ + big_endian(value as int, width as nat));
    }
}

/// The complete DATA frame for `payload`.
pub fn encode_h3_data_frame(payload: &[u8]) -> (frame: Vec<u8>)
    requires
        payload@.len() <= MAX_VARINT,
    ensures
        frame@ == data_frame(payload@),
        frame@.len() == data_frame_len(payload@.len() as int),
{
    let len: u64 = payload.len() as u64;
    let mut frame: Vec<u8> = Vec::new();
    frame.push(H3_DATA_FRAME_TYPE);
    if len < 0x40 {
        push_big_endian(&mut frame, len, 1);
    } else if len < 0x4000 {
        push_big_endian(&mut frame, len + 0x4000, 2);
    } else if len < 0x4000_0000 {
        push_big_endian(&mut frame, len + 0x8000_0000, 4);
    } else {
        push_big_endian(&mut frame, len + 0xc000_0000_0000_0000, 8);
    }
    assert(frame@ =~= seq![H3_DATA_FRAME_TYPE] + varint(payload@.len() as int));
    frame.extend_from_slice(payload);
    proof {
        assert(frame@ =~= data_frame(payload@));
        lemma_data_frame_len(payload@);
    }
    frame
}

} // verus!
