//! What a DATA frame holds, byte by byte, and how much of a body goes into one.

use crate::failure::{Failure, FailureKind, QuicError};
use crate::quic_multiplexer::socket::H3DataFrame;
use bytes::Bytes;
use vstd::prelude::*;

verus! {

/// The number that bytes make up, most significant first.
pub open spec fn value_of(bytes: Seq<u8>) -> int
    decreases bytes.len(),
{
    if bytes.len() == 0 {
        0
    } else {
        256 * value_of(bytes.drop_last()) + bytes.last()
    }
}

/// Any power of 256.
spec fn power(width: nat) -> int
    decreases width,
{
    if width == 0 {
        1
    } else {
        256 * power((width - 1) as nat)
    }
}

proof fn lemma_big_endian_reads_back(value: int, width: nat)
    requires
        0 <= value < power(width),
    ensures
        crate::h3_frame::big_endian(value, width).len() == width,
        value_of(crate::h3_frame::big_endian(value, width)) == value,
    decreases width,
{
    if width > 0 {
        let less = (width - 1) as nat;
        lemma_big_endian_reads_back(value / 256, less);
        let bytes = crate::h3_frame::big_endian(value, width);
        assert(bytes.drop_last() =~= crate::h3_frame::big_endian(value / 256, less));
        assert(bytes.last() == (value % 256) as u8);
    }
}

/// What a DATA frame holds: a zero for its type; then the length of the payload, most significant
/// byte first, in the least of 1, 2, 4 and 8 bytes of which all but two bits can hold it, these
/// two telling which; and then the payload.
pub proof fn law_layout_of_a_data_frame(payload: Seq<u8>)
    requires
        payload.len() <= 0x3fff_ffff_ffff_ffff,
    ensures
        ({
            let frame = crate::h3_frame::data_frame(payload);
            let n = payload.len();
            let (width, mark): (int, int) = if n < 0x40 {
                (1, 0)
            } else if n < 0x4000 {
                (2, 0x4000)
            } else if n < 0x4000_0000 {
                (4, 0x8000_0000)
            } else {
                (8, 0xc000_0000_0000_0000)
            };
            &&& frame.len() == 1 + width + n
            &&& frame[0] == 0
            &&& value_of(frame.subrange(1, 1 + width)) == mark + n
            &&& frame.skip(1 + width) == payload
        }),
{
    let n = payload.len() as int;
    reveal_with_fuel(power, 9);
    assert(power(1) == 0x100 && power(2) == 0x1_0000 && power(4) == 0x1_0000_0000 && power(8)
        == 0x1_0000_0000_0000_0000);
    let (width, mark): (int, int) = if n < 0x40 {
        (1, 0)
    } else if n < 0x4000 {
        (2, 0x4000)
    } else if n < 0x4000_0000 {
        (4, 0x8000_0000)
    } else {
        (8, 0xc000_0000_0000_0000)
    };
    lemma_big_endian_reads_back(mark + n, width as nat);
    let frame = crate::h3_frame::data_frame(payload);
    assert(frame.subrange(1, 1 + width) =~= crate::h3_frame::big_endian(mark + n, width as nat));
    assert(frame.skip(1 + width) =~= payload);
}

/// The largest payload for a capacity: its frame fits, unless there is no such payload, and the
/// frame of any longer one does not.
pub proof fn law_largest_payload_for_a_capacity(largest: int, capacity: int, payload: Seq<u8>)
    requires
        crate::h3_frame::is_max_payload(largest, capacity),
        payload.len() <= 0x3fff_ffff_ffff_ffff,
    ensures
        0 <= largest <= 0x3fff_ffff_ffff_ffff,
        0 < payload.len() <= largest ==> crate::h3_frame::data_frame(payload).len() <= capacity,
        payload.len() > largest ==> crate::h3_frame::data_frame(payload).len() > capacity,
        largest == 0 <==> capacity < 3,
{
    crate::h3_frame::lemma_data_frame_len(payload);
    if payload.len() <= largest {
        crate::h3_frame::lemma_data_frame_len_monotonic(payload.len() as int, largest);
    }
    assert(crate::h3_frame::data_frame_len(1) == 3);
    if largest > 0 {
        crate::h3_frame::lemma_data_frame_len_monotonic(1, largest);
    }
}

/// What a frame for a part of a body is: it carries the front of the body, and at least one byte;
/// it fits into the capacity; one that would carry more does not; and the stream ends with it
/// exactly where that was asked for and it carries all of the body.
pub proof fn law_frame_for_a_capacity(
    frame: H3DataFrame,
    data: Seq<u8>,
    fin: bool,
    capacity: usize,
    more: int,
)
    requires
        crate::quic_multiplexer::socket::is_frame_for(frame, data, fin, capacity),
        data.len() <= 0x3fff_ffff_ffff_ffff,
    ensures
        0 < frame.payload_len <= data.len(),
        frame.bytes@.len() <= capacity,
        frame.bytes@[0] == 0,
        frame.bytes@.skip(frame.bytes@.len() - frame.payload_len) == data.take(
            frame.payload_len as int,
        ),
        frame.bytes@ == crate::h3_frame::data_frame(data.take(frame.payload_len as int)),
        frame.payload_len < more <= data.len() ==> crate::h3_frame::data_frame(
            data.take(more),
        ).len() > capacity,
        frame.fin <==> fin && frame.payload_len == data.len(),
{
    law_layout_of_a_data_frame(data.take(frame.payload_len as int));
    if frame.payload_len < more <= data.len() {
        law_largest_payload_for_a_capacity(
            frame.payload_len as int,
            capacity as int,
            data.take(more),
        );
    }
}

/// What a write hands back: what lies behind the bytes that were accepted; all of the body where
/// there was no room; and a failure where nothing more can be written, which names the stream, or
/// where the connection reported something else, in its words.
pub proof fn law_what_a_write_hands_back(
    result: Result<Bytes, Failure>,
    stream_id: u64,
    data: Seq<u8>,
    sent: Result<usize, QuicError>,
)
    requires
        crate::quic_multiplexer::socket::is_written(result, stream_id, data, sent),
        sent matches Ok(n) ==> n <= data.len(),
    ensures
        match sent {
            Ok(n) => {
                &&& result matches Ok(rest)
                &&& crate::buffers::bytes_content(rest).len() == data.len() - n
                &&& forall|i: int|
                    0 <= i < data.len() - n ==> #[trigger] crate::buffers::bytes_content(rest)[i]
                        == data[n + i]
            },
            Err(QuicError::Done) => result matches Ok(rest) && crate::buffers::bytes_content(rest)
                == data,
            Err(QuicError::Other(words)) => {
                &&& result matches Err(failure)
                &&& failure.kind == FailureKind::Other
                &&& failure.message matches Some(text)
                &&& text@ == words@
            },
            Err(_) => {
                &&& result matches Err(failure)
                &&& failure.kind == FailureKind::BrokenPipe
                &&& failure.message matches Some(text)
                &&& text@ == "H3 stream "@ + crate::failure::decimal(stream_id as nat)
                    + " write retired"@
            },
        },
{
}

/// Payloads, one behind the other, are as long as they are together; the frame of each follows
/// those of the ones before it.
pub proof fn law_one_behind_the_other(payloads: Seq<Seq<u8>>, next: Seq<u8>)
    ensures
        crate::h3_frame::joined(Seq::empty()).len() == 0,
        crate::h3_frame::framed(Seq::empty()).len() == 0,
        crate::h3_frame::joined(payloads.push(next)) == crate::h3_frame::joined(payloads) + next,
        crate::h3_frame::framed(payloads.push(next)) == crate::h3_frame::framed(payloads)
            + crate::h3_frame::data_frame(next),
{
    assert(payloads.push(next).drop_last() =~= payloads);
}

} // verus!
