//! The answer to a file offer.

use vstd::prelude::*;
use vstd::utf8::encode_utf8;

use crate::protocol::{frame, write_packet, PacketType};

verus! {

/// The frame that accepts an offer (`accepted` as payload) or rejects it
/// (`rejected` as payload).
pub open spec fn file_response_spec(accept: bool) -> Seq<u8> {
    if accept {
        frame(PacketType::FileAccept, encode_utf8("accepted"@))
    } else {
        frame(PacketType::FileReject, encode_utf8("rejected"@))
    }
}

/// The frame that answers a file offer.
pub fn file_response_frame(accept: bool) -> (out: Vec<u8>)
    ensures
        out@ == file_response_spec(accept),
{
    let mut out: Vec<u8> = Vec::new();
    if accept {
        write_packet(&mut out, PacketType::FileAccept, "accepted".as_bytes());
    } else {
        write_packet(&mut out, PacketType::FileReject, "rejected".as_bytes());
    }
    assert(out@ =~= file_response_spec(accept));
    out
}

} // verus!
