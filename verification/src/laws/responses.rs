//! What a response has to do with the header fields that it is sent as.

use crate::http_message::{HeaderField, ResponseHead};
use vstd::prelude::*;

verus! {

/// A response is sent as its status, in decimal, and then all of its header fields, each with its
/// name and its value, in their order, and nothing else.
pub proof fn law_no_field_of_a_response_is_lost(response: ResponseHead, fields: Seq<HeaderField>)
    requires
        crate::http_message::field_list(fields)
            == crate::quic_multiplexer::socket::response_fields(response),
    ensures
        ({
            let others = crate::http_message::header_fields(response.headers);
            &&& fields.len() == 1 + others.len()
            &&& fields[0].name@ == crate::ascii::ascii(":status"@)
            &&& fields[0].value@ == crate::ascii::ascii(
                crate::failure::decimal(response.status as nat),
            )
            &&& forall|i: int|
                #![trigger others[i]]
                0 <= i < others.len() ==> {
                    &&& fields[i + 1].name@ == others[i].0
                    &&& fields[i + 1].value@ == others[i].1
                }
        }),
{
    let others = crate::http_message::header_fields(response.headers);
    let sent = crate::http_message::field_list(fields);
    assert(sent.len() == fields.len());
    assert(sent[0] == fields[0]@);
    assert forall|i: int|
        #![trigger others[i]]
        0 <= i < others.len() implies {
        &&& fields[i + 1].name@ == others[i].0
        &&& fields[i + 1].value@ == others[i].1
    } by {
        assert(sent[i + 1] == others[i]);
        assert(sent[i + 1] == fields[i + 1]@);
    }
}

/// The status that a response is sent with can be read back.
pub proof fn law_status_can_be_read_back(response: ResponseHead)
    ensures
        ({
            let digits = crate::failure::decimal(response.status as nat);
            let sent = crate::quic_multiplexer::socket::response_fields(response)[0].1;
            &&& sent.len() == digits.len()
            &&& forall|i: int|
                0 <= i < sent.len() ==> 48 <= #[trigger] sent[i] <= 57 && sent[i] == digits[i] as u8
            &&& crate::laws::texts::number(digits) == response.status
        }),
{
    crate::laws::texts::law_decimal_can_be_read_back(response.status as nat);
}

} // verus!
