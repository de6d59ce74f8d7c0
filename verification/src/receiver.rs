//! What the receiving side reports for each packet it reads.

use vstd::prelude::*;

use crate::file_receiver::{file_offer_event, handle_file_offer};
use crate::file_sender::offer_text;
use crate::protocol::{Packet, PacketType};
use crate::text::{
    chars_of, decimal, decode_utf8_lossy, lemma_decimal_has_no_bar, lemma_parse_decimal,
    lemma_split_three, parse_u64, parse_u64_spec, split_on, split_on_char,
    string_of, string_from, utf8_lossy,
};

verus! {

/// The fields of an offer text: transfer id, file name, and the size, which
/// counts as zero when it is not a number.
pub open spec fn parse_offer_spec(text: Seq<char>) -> Option<(Seq<char>, Seq<char>, u64)> {
    let parts = split_on(text, '|');
    if parts.len() == 3 {
        Some(
            (
                parts[0],
                parts[1],
                match parse_u64_spec(parts[2]) {
                    Some(n) => n,
                    None => 0,
                },
            ),
        )
    } else {
        None
    }
}

/// The fields of a received offer.
pub struct OfferFields {
    pub transfer_id: String,
    pub file_name: String,
    pub file_size: u64,
}

/// Splits an offer text into its fields; a text that is not exactly three
/// `|`-separated fields is no offer.
pub fn parse_file_offer(text: &str) -> (res: Option<OfferFields>)
    ensures
        match parse_offer_spec(text@) {
            Some((id, name, size)) => res matches Some(f) && f.transfer_id@ == id && f.file_name@
                == name && f.file_size == size,
            None => res is None,
        },
{
    let chars = chars_of(text);
    let parts = split_on_char(&chars, '|');
    if parts.len() != 3 {
        return None;
    }
    assert(parts[2]@ == split_on(text@, '|')[2]);
    let file_size = match parse_u64(&parts[2]) {
        Some(n) => n,
        None => 0,
    };
    Some(
        OfferFields {
            transfer_id: string_of(&parts[0]),
            file_name: string_of(&parts[1]),
            file_size,
        },
    )
}

/// An event to show to the user: its name and its payload.
pub struct AppEvent {
    pub name: String,
    pub payload: String,
}

/// What the receiver reports for a packet of type `t` whose payload reads
/// as `text`: the event name and payload, or nothing.
pub open spec fn receiver_event_spec(t: PacketType, text: Seq<char>) -> Option<
    (Seq<char>, Seq<char>),
> {
    match t {
        PacketType::Message => Some(("message-received"@, text)),
        PacketType::FileOffer => match parse_offer_spec(text) {
            Some((id, name, size)) => Some(("incoming-file-offer"@, file_offer_event(name, size))),
            None => None,
        },
        PacketType::FileData => None,
        PacketType::FileAccept => Some(("file-accepted"@, "accepted"@)),
        PacketType::FileReject => Some(("file-rejected"@, "rejected"@)),
    }
}

/// The plain values of an optional event.
pub open spec fn event_view(e: Option<AppEvent>) -> Option<(Seq<char>, Seq<char>)> {
    match e {
        Some(ev) => Some((ev.name@, ev.payload@)),
        None => None,
    }
}

/// The event the receiver shows for `packet`. The payload is read as UTF-8
/// with invalid sequences replaced.
pub fn receiver_event(packet: &Packet) -> (res: Option<AppEvent>)
    ensures
        event_view(res) == receiver_event_spec(packet.packet_type, utf8_lossy(packet.payload@)),
        vstd::utf8::valid_utf8(packet.payload@) ==> event_view(res) == receiver_event_spec(
            packet.packet_type,
            vstd::utf8::decode_utf8(packet.payload@),
        ),
        packet.packet_type == PacketType::Message ==> (res matches Some(e) && e.name@
            == "message-received"@ && e.payload@ == utf8_lossy(packet.payload@)),
        packet.packet_type == PacketType::Message && vstd::utf8::valid_utf8(packet.payload@)
            ==> (res matches Some(e) && e.payload@ == vstd::utf8::decode_utf8(packet.payload@)),
{
    match packet.packet_type {
        PacketType::Message => {
            let text = decode_utf8_lossy(packet.payload.as_slice());
            Some(AppEvent { name: string_from("message-received"), payload: text })
        },
        PacketType::FileOffer => {
            let text = decode_utf8_lossy(packet.payload.as_slice());
            match parse_file_offer(text.as_str()) {
                Some(f) => Some(
                    AppEvent {
                        name: string_from("incoming-file-offer"),
                        payload: handle_file_offer(f.file_name.as_str(), f.file_size),
                    },
                ),
                None => None,
            }
        },
        PacketType::FileData => None,
        PacketType::FileAccept => Some(
            AppEvent { name: string_from("file-accepted"), payload: string_from("accepted") },
        ),
        PacketType::FileReject => Some(
            AppEvent { name: string_from("file-rejected"), payload: string_from("rejected") },
        ),
    }
}

/// A message is reported whole: the event carries the entire text, line
/// breaks and all, whatever the text. An accept and a reject are reported
/// as such, and file data is not reported.
pub proof fn lemma_message_reported_whole(text: Seq<char>)
    ensures
        receiver_event_spec(PacketType::Message, text) == Some(("message-received"@, text)),
        receiver_event_spec(PacketType::FileAccept, text) == Some(
            ("file-accepted"@, "accepted"@),
        ),
        receiver_event_spec(PacketType::FileReject, text) == Some(
            ("file-rejected"@, "rejected"@),
        ),
        receiver_event_spec(PacketType::FileData, text) is None,
{
}

/// An offer that the sender wrote is read back by the receiver with the
/// same id, name and size, provided the id and the name hold no `|`.
pub proof fn lemma_offer_roundtrip(id: Seq<char>, name: Seq<char>, size: u64)
    requires
        !id.contains('|'),
        !name.contains('|'),
    ensures
        parse_offer_spec(offer_text(id, name, size)) == Some((id, name, size)),
        receiver_event_spec(PacketType::FileOffer, offer_text(id, name, size)) == Some(
            ("incoming-file-offer"@, file_offer_event(name, size)),
        ),
{
    lemma_decimal_has_no_bar(size as nat);
    lemma_parse_decimal(size);
    lemma_split_three(id, name, decimal(size as nat), '|');
    assert(offer_text(id, name, size) =~= id.push('|') + name.push('|') + decimal(size as nat));
}

} // verus!
