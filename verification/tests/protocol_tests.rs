use meshdrop::file_response_sender::file_response_frame;
use meshdrop::protocol::{read_packet, write_packet, PacketError, PacketType, PROTOCOL_VERSION};

fn frame_of(t: PacketType, payload: &[u8]) -> Vec<u8> {
    let mut out = Vec::new();
    write_packet(&mut out, t, payload);
    out
}

#[test]
fn from_u8_known_and_unknown_codes() {
    assert_eq!(PacketType::from_u8(1), Some(PacketType::Message));
    assert_eq!(PacketType::from_u8(2), Some(PacketType::FileOffer));
    assert_eq!(PacketType::from_u8(3), Some(PacketType::FileAccept));
    assert_eq!(PacketType::from_u8(4), Some(PacketType::FileReject));
    assert_eq!(PacketType::from_u8(5), Some(PacketType::FileData));
    assert_eq!(PacketType::from_u8(0), None);
    assert_eq!(PacketType::from_u8(6), None);
    assert_eq!(PacketType::from_u8(255), None);
}

#[test]
fn type_codes_round_trip() {
    for t in [
        PacketType::Message,
        PacketType::FileOffer,
        PacketType::FileAccept,
        PacketType::FileReject,
        PacketType::FileData,
    ] {
        assert_eq!(PacketType::from_u8(t.to_u8()), Some(t));
    }
}

#[test]
fn write_packet_layout() {
    let f = frame_of(PacketType::Message, b"hi");
    assert_eq!(f, vec![1, 1, 0, 0, 0, 0, 0, 0, 0, 2, b'h', b'i']);
    assert_eq!(PROTOCOL_VERSION, 1);
}

#[test]
fn write_packet_appends_and_encodes_length_big_endian() {
    let mut out = vec![9u8];
    let payload = vec![7u8; 300];
    write_packet(&mut out, PacketType::FileData, &payload);
    assert_eq!(out.len(), 1 + 10 + 300);
    assert_eq!(&out[..11], &[9, 1, 5, 0, 0, 0, 0, 0, 0, 1, 44]);
}

#[test]
fn read_after_write_gives_back_packet() {
    for t in [
        PacketType::Message,
        PacketType::FileOffer,
        PacketType::FileAccept,
        PacketType::FileReject,
        PacketType::FileData,
    ] {
        let mut f = frame_of(t, b"payload bytes");
        f.extend_from_slice(b"next frame");
        match read_packet(&f) {
            Ok((p, used)) => {
                assert_eq!(p.packet_type, t);
                assert_eq!(p.payload, b"payload bytes".to_vec());
                assert_eq!(used, 10 + 13);
            }
            Err(e) => panic!("unexpected {:?}", e),
        }
    }
}

#[test]
fn read_empty_payload() {
    let f = frame_of(PacketType::FileAccept, b"");
    match read_packet(&f) {
        Ok((p, used)) => {
            assert_eq!(p.packet_type, PacketType::FileAccept);
            assert!(p.payload.is_empty());
            assert_eq!(used, 10);
        }
        Err(e) => panic!("unexpected {:?}", e),
    }
}

#[test]
fn partial_frames_ask_for_exactly_what_is_missing() {
    let f = frame_of(PacketType::Message, b"abc");
    assert_eq!(read_packet(&f[..0]).err(), Some(PacketError::NeedMore(1)));
    assert_eq!(read_packet(&f[..1]).err(), Some(PacketError::NeedMore(1)));
    assert_eq!(read_packet(&f[..2]).err(), Some(PacketError::NeedMore(8)));
    assert_eq!(read_packet(&f[..5]).err(), Some(PacketError::NeedMore(5)));
    assert_eq!(read_packet(&f[..10]).err(), Some(PacketError::NeedMore(3)));
    assert_eq!(read_packet(&f[..12]).err(), Some(PacketError::NeedMore(1)));
    for k in 0..f.len() {
        match read_packet(&f[..k]) {
            Err(PacketError::NeedMore(m)) => assert!(m > 0 && k as u64 + m <= f.len() as u64),
            _ => panic!("prefix {} should need more", k),
        }
    }
}

#[test]
fn bad_version_is_rejected_at_the_first_byte() {
    assert_eq!(read_packet(&[2]).err(), Some(PacketError::UnsupportedVersion));
    assert_eq!(read_packet(&[0, 1, 0]).err(), Some(PacketError::UnsupportedVersion));
}

#[test]
fn unknown_type_is_rejected_at_the_second_byte() {
    assert_eq!(read_packet(&[1, 0]).err(), Some(PacketError::UnknownPacketType));
    assert_eq!(read_packet(&[1, 6, 0, 0]).err(), Some(PacketError::UnknownPacketType));
}

#[test]
fn huge_declared_length_needs_more() {
    let f = [1u8, 1, 0xff, 0xff, 0xff, 0xff, 0xff, 0xff, 0xff, 0xff, 1];
    assert_eq!(read_packet(&f).err(), Some(PacketError::NeedMore(u64::MAX - 1)));
}

#[test]
fn file_response_frames() {
    assert_eq!(
        file_response_frame(true),
        vec![1, 3, 0, 0, 0, 0, 0, 0, 0, 8, b'a', b'c', b'c', b'e', b'p', b't', b'e', b'd']
    );
    assert_eq!(
        file_response_frame(false),
        vec![1, 4, 0, 0, 0, 0, 0, 0, 0, 8, b'r', b'e', b'j', b'e', b'c', b't', b'e', b'd']
    );
}
