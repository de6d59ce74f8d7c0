use meshdrop::discovery::{discovered_peer, discovery_announcement, DISCOVERY_PORT, TRANSFER_PORT};
use meshdrop::file_receiver::{
    handle_file_offer, parse_file_data, requested_receive_folder, FileDataError, ReceiveFolder,
    ReceiveFolderError,
};
use meshdrop::paths::{choose_file_name, safe_file_name, FALLBACK_FILE_NAME};
use meshdrop::protocol::{Packet, PacketType};
use meshdrop::receiver::{parse_file_offer, receiver_event};

fn event(t: PacketType, payload: &[u8]) -> Option<(String, String)> {
    receiver_event(&Packet { packet_type: t, payload: payload.to_vec() }).map(|e| (e.name, e.payload))
}

#[test]
fn receive_folder_setting() {
    let mut f = ReceiveFolder::new("/home/u/Downloads/MeshDrop".to_string());
    assert_eq!(f.get_receive_folder(), "/home/u/Downloads/MeshDrop");
    let req = requested_receive_folder("  /tmp/in box \t\n").unwrap();
    assert_eq!(req, "/tmp/in box");
    assert_eq!(f.set_receive_folder(req), "/tmp/in box");
    assert_eq!(f.get_receive_folder(), "/tmp/in box");
    assert_eq!(requested_receive_folder("   ").err(), Some(ReceiveFolderError::Empty));
    assert_eq!(requested_receive_folder("").err(), Some(ReceiveFolderError::Empty));
}

#[test]
fn offer_report() {
    assert_eq!(handle_file_offer("a.txt", 10), "a.txt|10");
    assert_eq!(handle_file_offer("", 0), "|0");
}

#[test]
fn file_data_layout_and_errors() {
    assert_eq!(parse_file_data(&[]).err(), Some(FileDataError::MissingFilenameLength));
    assert_eq!(parse_file_data(&[0]).err(), Some(FileDataError::MissingFilenameLength));
    assert_eq!(parse_file_data(&[0, 5, b'a']).err(), Some(FileDataError::MissingFilename));
    let ok = parse_file_data(&[0, 3, b'a', b'b', b'c', 9, 9]).unwrap();
    assert_eq!(ok.file_name, "abc");
    assert_eq!(ok.data_start, 5);
    let mut p = vec![1, 0];
    p.extend_from_slice(&vec![b'z'; 256]);
    let big = parse_file_data(&p).unwrap();
    assert_eq!(big.data_start, 258);
}

#[test]
fn file_data_names_are_made_safe() {
    let mut p = vec![0, 11];
    p.extend_from_slice(b"../evil.txt");
    p.push(1);
    assert_eq!(parse_file_data(&p).unwrap().file_name, "evil.txt");
    assert_eq!(parse_file_data(&[0, 0]).unwrap().file_name, FALLBACK_FILE_NAME);
    assert_eq!(parse_file_data(&[0, 2, b'.', b'.']).unwrap().file_name, "meshdrop-file");
    assert_eq!(parse_file_data(&[0, 1, b'/']).unwrap().file_name, "meshdrop-file");
    let bad = parse_file_data(&[0, 2, 0xff, b'a']).unwrap();
    assert_eq!(bad.file_name, "\u{FFFD}a");
}

#[test]
fn file_name_choice() {
    assert_eq!(safe_file_name("dir/sub/file.tar.gz"), "file.tar.gz");
    assert_eq!(safe_file_name("file/"), "file");
    assert_eq!(safe_file_name(".."), "meshdrop-file");
    assert_eq!(choose_file_name(Some("x".to_string())), "x");
    assert_eq!(choose_file_name(Some(String::new())), "meshdrop-file");
    assert_eq!(choose_file_name(None), "meshdrop-file");
}

#[test]
fn offer_parsing() {
    let f = parse_file_offer("id-1|photo.jpg|12345").unwrap();
    assert_eq!((f.transfer_id.as_str(), f.file_name.as_str(), f.file_size), ("id-1", "photo.jpg", 12345));
    assert_eq!(parse_file_offer("a|b|not-a-number").unwrap().file_size, 0);
    assert_eq!(parse_file_offer("a|b|").unwrap().file_size, 0);
    assert!(parse_file_offer("a|b").is_none());
    assert!(parse_file_offer("a|b|1|2").is_none());
}

#[test]
fn receiver_events_per_packet_type() {
    assert_eq!(event(PacketType::Message, b"hello"), Some(("message-received".into(), "hello".into())));
    assert_eq!(event(PacketType::Message, &[0x66, 0xff]), Some(("message-received".into(), "f\u{FFFD}".into())));
    assert_eq!(
        event(PacketType::FileOffer, b"t|song.mp3|99"),
        Some(("incoming-file-offer".into(), "song.mp3|99".into()))
    );
    assert_eq!(event(PacketType::FileOffer, b"t|song.mp3"), None);
    assert_eq!(event(PacketType::FileData, b"x"), None);
    assert_eq!(event(PacketType::FileAccept, b""), Some(("file-accepted".into(), "accepted".into())));
    assert_eq!(event(PacketType::FileReject, b"zz"), Some(("file-rejected".into(), "rejected".into())));
}

#[test]
fn offer_round_trip_through_receiver() {
    let mut store = meshdrop::session::SessionStore::new();
    let offer = meshdrop::file_sender::prepare_file_offer(&mut store, "notes.md".to_string(), 77);
    let f = parse_file_offer(&offer.payload).unwrap();
    assert_eq!(f.transfer_id, offer.transfer_id);
    assert_eq!(f.file_name, "notes.md");
    assert_eq!(f.file_size, 77);
    assert_eq!(
        event(PacketType::FileOffer, offer.payload.as_bytes()),
        Some(("incoming-file-offer".into(), "notes.md|77".into()))
    );
}

#[test]
fn discovery_announcement_and_hearing() {
    assert_eq!(DISCOVERY_PORT, 7879);
    assert_eq!(TRANSFER_PORT, 7878);
    let a = discovery_announcement("dev-1", "Laptop");
    assert_eq!(a, "MESHDROP_DISCOVERY_V1|dev-1|Laptop|7878");
    assert_eq!(discovered_peer(a.as_bytes(), "dev-1", "10.0.0.2"), None);
    assert_eq!(
        discovered_peer(a.as_bytes(), "dev-2", "10.0.0.2"),
        Some("dev-1|Laptop|10.0.0.2|7878".to_string())
    );
    assert_eq!(discovered_peer(b"OTHER|a|b|c", "x", "1.1.1.1"), None);
    assert_eq!(discovered_peer(b"MESHDROP_DISCOVERY_V1|a|b", "x", "1.1.1.1"), None);
    assert_eq!(
        discovered_peer(b"MESHDROP_DISCOVERY_V1|a|b\xffc|9", "x", "1.1.1.1"),
        Some("a|b\u{FFFD}c|1.1.1.1|9".to_string())
    );
}

#[test]
fn plain_file_names_are_kept() {
    for name in ["report.pdf", "a", "my song.mp3", "..hidden", "x.."] {
        let mut p = vec![0, name.len() as u8];
        p.extend_from_slice(name.as_bytes());
        assert_eq!(parse_file_data(&p).unwrap().file_name, name);
        assert_eq!(safe_file_name(name), name);
    }
    assert_eq!(parse_file_data(&[0, 1, b'.']).unwrap().file_name, "meshdrop-file");
    let mut p = vec![0, 16];
    p.extend_from_slice(b"../../etc/passwd");
    assert_eq!(parse_file_data(&p).unwrap().file_name, "passwd");
}
