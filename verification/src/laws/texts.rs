//! What numbers, errors and failures read as.

use crate::failure::{Failure, FailureKind, H3Error, QuicError};
use vstd::prelude::*;

verus! {

/// The number that decimal digits make up, read from the left.
pub open spec fn number(digits: Seq<char>) -> int
    decreases digits.len(),
{
    if digits.len() == 0 {
        0
    } else {
        10 * number(digits.drop_last()) + (digits.last() as int - '0' as int)
    }
}

/// A number in decimal can be read back. It has only digits, at least one, and no zero in front
/// but that of zero itself.
pub proof fn law_decimal_can_be_read_back(value: nat)
    ensures
        number(crate::failure::decimal(value)) == value,
        crate::failure::decimal(value).len() > 0,
        forall|i: int|
            0 <= i < crate::failure::decimal(value).len() ==> '0' <= #[trigger]
                crate::failure::decimal(value)[i] <= '9',
        crate::failure::decimal(value).len() > 1 ==> crate::failure::decimal(value)[0] != '0',
        value > 0 ==> crate::failure::decimal(value)[0] != '0',
    decreases value,
{
    let text = crate::failure::decimal(value);
    reveal_with_fuel(number, 2);
    if value < 10 {
        assert(text.drop_last() =~= Seq::empty());
    } else {
        law_decimal_can_be_read_back(value / 10);
        assert(text.drop_last() =~= crate::failure::decimal(value / 10));
        assert(text[0] == crate::failure::decimal(value / 10)[0]);
        assert forall|i: int| 0 <= i < text.len() implies '0' <= #[trigger] text[i] <= '9' by {
            if i < text.len() - 1 {
                assert(text[i] == crate::failure::decimal(value / 10)[i]);
            }
        }
    }
}

/// The decimal digits of a number are the only ones, without a zero in front, that can be read as
/// it.
pub proof fn law_decimal_is_the_only_one(value: nat, digits: Seq<char>)
    requires
        digits.len() > 0,
        forall|i: int| 0 <= i < digits.len() ==> '0' <= #[trigger] digits[i] <= '9',
        digits.len() > 1 ==> digits[0] != '0',
        number(digits) == value,
    ensures
        digits == crate::failure::decimal(value),
    decreases digits.len(),
{
    reveal_with_fuel(number, 2);
    let last = digits.last();
    let front = digits.drop_last();
    assert('0' <= digits[digits.len() - 1] <= '9');
    if digits.len() == 1 {
        assert(front =~= Seq::empty());
        assert(digits =~= crate::failure::decimal(value));
    } else {
        assert forall|i: int| 0 <= i < front.len() implies '0' <= #[trigger] front[i] <= '9' by {
            assert(digits[i] == front[i]);
        }
        assert(front[0] == digits[0]);
        lemma_number_grows(front);
        assert(value / 10 == number(front));
        law_decimal_is_the_only_one(value / 10, front);
        assert(digits =~= crate::failure::decimal(value));
    }
}

proof fn lemma_number_grows(digits: Seq<char>)
    requires
        digits.len() > 0,
        forall|i: int| 0 <= i < digits.len() ==> '0' <= #[trigger] digits[i] <= '9',
        digits[0] != '0',
    ensures
        number(digits) > 0,
    decreases digits.len(),
{
    reveal_with_fuel(number, 2);
    assert('0' <= digits[digits.len() - 1] <= '9');
    let front = digits.drop_last();
    if digits.len() == 1 {
        assert(front =~= Seq::empty());
    } else {
        assert forall|i: int| 0 <= i < front.len() implies '0' <= #[trigger] front[i] <= '9' by {
            assert(digits[i] == front[i]);
        }
        lemma_number_grows(front);
    }
}

/// A message about a stream names it, by its number, and then says what it is about.
pub proof fn law_stream_messages_name_their_stream(stream_id: u64, what: Seq<char>)
    ensures
        ({
            let text = crate::failure::stream_text(stream_id, what);
            let end = text.len() - what.len();
            &&& 10 < end
            &&& text.take(10) == "H3 stream "@
            &&& text.subrange(10, end) == crate::failure::decimal(stream_id as nat)
            &&& number(text.subrange(10, end)) == stream_id
            &&& text.skip(end) == what
        }),
{
    reveal_strlit("H3 stream ");
    let text = crate::failure::stream_text(stream_id, what);
    let end = text.len() - what.len();
    law_decimal_can_be_read_back(stream_id as nat);
    assert(text.take(10) =~= "H3 stream "@);
    assert(text.subrange(10, end) =~= crate::failure::decimal(stream_id as nat));
    assert(text.skip(end) =~= what);
}

/// Errors are worded by their names; those that come with a number give it in brackets, and those
/// that come with words keep them.
pub proof fn law_errors_are_worded_by_their_names(error: QuicError, h3_error: H3Error)
    ensures
        match error {
            QuicError::Done => crate::failure::quic_error_text(error) == "Done"@,
            QuicError::FinalSize => crate::failure::quic_error_text(error) == "FinalSize"@,
            QuicError::StreamStopped(code) => {
                let text = crate::failure::quic_error_text(error);
                &&& text.len() > 15
                &&& text.take(14) == "StreamStopped("@
                &&& text.subrange(14, text.len() - 1) == crate::failure::decimal(code as nat)
                &&& number(text.subrange(14, text.len() - 1)) == code
                &&& text.last() == ')'
            },
            QuicError::InvalidStreamState(id) => {
                let text = crate::failure::quic_error_text(error);
                &&& text.len() > 20
                &&& text.take(19) == "InvalidStreamState("@
                &&& text.subrange(19, text.len() - 1) == crate::failure::decimal(id as nat)
                &&& number(text.subrange(19, text.len() - 1)) == id
                &&& text.last() == ')'
            },
            QuicError::Other(words) => crate::failure::quic_error_text(error) == words@,
        },
        match h3_error {
            H3Error::Done => crate::failure::h3_error_text(h3_error) == "Done"@,
            H3Error::StreamBlocked => crate::failure::h3_error_text(h3_error) == "StreamBlocked"@,
            H3Error::Other(words) => crate::failure::h3_error_text(h3_error) == words@,
        },
{
    reveal_strlit("StreamStopped(");
    reveal_strlit("InvalidStreamState(");
    reveal_strlit(")");
    let text = crate::failure::quic_error_text(error);
    match error {
        QuicError::StreamStopped(code) => {
            law_decimal_can_be_read_back(code as nat);
            assert(text.take(14) =~= "StreamStopped("@);
            assert(text.subrange(14, text.len() - 1) =~= crate::failure::decimal(code as nat));
        },
        QuicError::InvalidStreamState(id) => {
            law_decimal_can_be_read_back(id as nat);
            assert(text.take(19) =~= "InvalidStreamState("@);
            assert(text.subrange(19, text.len() - 1) =~= crate::failure::decimal(id as nat));
        },
        _ => {},
    }
}

/// What is said of a failure is its kind and its message, where it has one.
pub proof fn law_failures_are_known_by_kind_and_message(
    failure: Failure,
    kind: FailureKind,
    message: Seq<char>,
)
    ensures
        failure@ == crate::failure::failure_text(kind, message) <==> failure.kind == kind && (
        failure.message matches Some(text) && text@ == message),
        failure@.kind == failure.kind,
        failure@.message is None <==> failure.message is None,
{
}

/// The transport error codes of QUIC, up to 0xc, go by their names; what lies beyond has none.
pub proof fn law_transport_errors_have_their_names(code: u64)
    ensures
        code == 0 ==> crate::quic_multiplexer::events::transport_error(code) == "NO_ERROR"@,
        code == 1 ==> crate::quic_multiplexer::events::transport_error(code) == "INTERNAL_ERROR"@,
        code == 2 ==> crate::quic_multiplexer::events::transport_error(code)
            == "CONNECTION_REFUSED"@,
        code == 3 ==> crate::quic_multiplexer::events::transport_error(code)
            == "FLOW_CONTROL_ERROR"@,
        code == 4 ==> crate::quic_multiplexer::events::transport_error(code)
            == "STREAM_LIMIT_ERROR"@,
        code == 5 ==> crate::quic_multiplexer::events::transport_error(code)
            == "STREAM_STATE_ERROR"@,
        code == 6 ==> crate::quic_multiplexer::events::transport_error(code) == "FINAL_SIZE_ERROR"@,
        code == 7 ==> crate::quic_multiplexer::events::transport_error(code)
            == "FRAME_ENCODING_ERROR"@,
        code == 8 ==> crate::quic_multiplexer::events::transport_error(code)
            == "TRANSPORT_PARAMETER_ERROR"@,
        code == 9 ==> crate::quic_multiplexer::events::transport_error(code)
            == "CONNECTION_ID_LIMIT_ERROR"@,
        code == 10 ==> crate::quic_multiplexer::events::transport_error(code)
            == "PROTOCOL_VIOLATION"@,
        code == 11 ==> crate::quic_multiplexer::events::transport_error(code) == "INVALID_TOKEN"@,
        code == 12 ==> crate::quic_multiplexer::events::transport_error(code)
            == "APPLICATION_ERROR"@,
        code > 12 ==> crate::quic_multiplexer::events::transport_error(code) == "other"@,
{
}

} // verus!
