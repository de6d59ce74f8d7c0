//! Finding peers on the local network: the announcement a device
//! broadcasts, and what a device makes of an announcement it hears.

use vstd::prelude::*;

use crate::text::{
    chars_eq, chars_eq_str, chars_of, decode_utf8_lossy, lemma_split_four, push_char, push_chars,
    push_str, split_on, split_on_char, utf8_lossy,
};

verus! {

/// UDP port that announcements are broadcast to.
pub const DISCOVERY_PORT: u16 = 7879;

/// TCP port that packets are sent to.
pub const TRANSFER_PORT: u16 = 7878;

/// The first field of every announcement.
pub const DISCOVERY_MAGIC: &'static str = "MESHDROP_DISCOVERY_V1";

/// The transfer port as it appears in an announcement.
pub const TRANSFER_PORT_TEXT: &'static str = "7878";

/// An announcement: magic, device id, device name and transfer port,
/// separated by `|`.
pub open spec fn announcement_text(device_id: Seq<char>, name: Seq<char>) -> Seq<char> {
    DISCOVERY_MAGIC@ + seq!['|'] + device_id + seq!['|'] + name + seq!['|'] + TRANSFER_PORT_TEXT@
}

/// The announcement this device broadcasts.
pub fn discovery_announcement(device_id: &str, name: &str) -> (s: String)
    ensures
        s@ == announcement_text(device_id@, name@),
{
    let mut s = String::new();
    push_str(&mut s, DISCOVERY_MAGIC);
    push_char(&mut s, '|');
    push_str(&mut s, device_id);
    push_char(&mut s, '|');
    push_str(&mut s, name);
    push_char(&mut s, '|');
    push_str(&mut s, TRANSFER_PORT_TEXT);
    assert(s@ =~= announcement_text(device_id@, name@));
    s
}

/// What a device reports for a message heard from `peer_ip`: the message
/// must be four `|`-separated fields starting with the magic, and must come
/// from another device; the report is the sender's id, name, address and
/// port, separated by `|`.
pub open spec fn discovered_peer_spec(message: Seq<char>, own_id: Seq<char>, peer_ip: Seq<char>) -> Option<
    Seq<char>,
> {
    let parts = split_on(message, '|');
    if parts.len() != 4 || parts[0] != DISCOVERY_MAGIC@ || parts[1] == own_id {
        None
    } else {
        Some(parts[1] + seq!['|'] + parts[2] + seq!['|'] + peer_ip + seq!['|'] + parts[3])
    }
}

/// The plain value of an optional string.
pub open spec fn opt_string_view(o: Option<String>) -> Option<Seq<char>> {
    match o {
        Some(s) => Some(s@),
        None => None,
    }
}

/// What this device reports for the datagram `message` heard from
/// `peer_ip`, read as UTF-8 with invalid sequences replaced.
pub fn discovered_peer(message: &[u8], own_id: &str, peer_ip: &str) -> (res: Option<String>)
    ensures
        opt_string_view(res) == discovered_peer_spec(utf8_lossy(message@), own_id@, peer_ip@),
        vstd::utf8::valid_utf8(message@) ==> opt_string_view(res) == discovered_peer_spec(
            vstd::utf8::decode_utf8(message@),
            own_id@,
            peer_ip@,
        ),
{
    let text = decode_utf8_lossy(message);
    let chars = chars_of(text.as_str());
    let parts = split_on_char(&chars, '|');
    if parts.len() != 4 {
        return None;
    }
    assert(parts[0]@ == split_on(text@, '|')[0]);
    assert(parts[1]@ == split_on(text@, '|')[1]);
    assert(parts[2]@ == split_on(text@, '|')[2]);
    assert(parts[3]@ == split_on(text@, '|')[3]);
    if !chars_eq_str(&parts[0], DISCOVERY_MAGIC) {
        return None;
    }
    let own = chars_of(own_id);
    if chars_eq(&parts[1], &own) {
        return None;
    }
    let mut s = String::new();
    push_chars(&mut s, &parts[1]);
    push_char(&mut s, '|');
    push_chars(&mut s, &parts[2]);
    push_char(&mut s, '|');
    push_str(&mut s, peer_ip);
    push_char(&mut s, '|');
    push_chars(&mut s, &parts[3]);
    assert(s@ =~= parts[1]@ + seq!['|'] + parts[2]@ + seq!['|'] + peer_ip@ + seq!['|']
        + parts[3]@);
    Some(s)
}

proof fn lemma_literals_have_no_bar()
    ensures
        !DISCOVERY_MAGIC@.contains('|'),
        !TRANSFER_PORT_TEXT@.contains('|'),
{
    reveal_strlit("MESHDROP_DISCOVERY_V1");
    reveal_strlit("7878");
    if DISCOVERY_MAGIC@.contains('|') {
        let i = choose|i: int| 0 <= i < DISCOVERY_MAGIC@.len() && DISCOVERY_MAGIC@[i] == '|';
        assert(DISCOVERY_MAGIC@[i] == '|');
    }
    if TRANSFER_PORT_TEXT@.contains('|') {
        let i = choose|i: int| 0 <= i < TRANSFER_PORT_TEXT@.len() && TRANSFER_PORT_TEXT@[i] == '|';
        assert(TRANSFER_PORT_TEXT@[i] == '|');
    }
}

/// A device ignores its own announcement, and reports another device's
/// announcement as that device's id, name, address and transfer port,
/// provided the id and the name hold no `|`.
pub proof fn lemma_announcement_heard(
    device_id: Seq<char>,
    name: Seq<char>,
    own_id: Seq<char>,
    peer_ip: Seq<char>,
)
    requires
        !device_id.contains('|'),
        !name.contains('|'),
    ensures
        device_id == own_id ==> discovered_peer_spec(announcement_text(device_id, name), own_id, peer_ip)
            is None,
        device_id != own_id ==> discovered_peer_spec(announcement_text(device_id, name), own_id, peer_ip)
            == Some(device_id + seq!['|'] + name + seq!['|'] + peer_ip + seq!['|'] + TRANSFER_PORT_TEXT@),
{
    lemma_literals_have_no_bar();
    lemma_split_four(DISCOVERY_MAGIC@, device_id, name, TRANSFER_PORT_TEXT@, '|');
    assert(announcement_text(device_id, name) =~= DISCOVERY_MAGIC@.push('|') + device_id.push('|')
        + name.push('|') + TRANSFER_PORT_TEXT@);
}

} // verus!
