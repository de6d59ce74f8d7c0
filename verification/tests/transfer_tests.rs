use meshdrop::file_sender::{
    check_chunk_fields, encode_file_chunk, file_data_payload, prepare_file_offer, ChunkError,
    FileSender,
};
use meshdrop::session::{sessions, SessionStore, TransferSession};

fn session(id: &str, name: &str, size: u64) -> TransferSession {
    TransferSession {
        id: id.to_string(),
        file_name: name.to_string(),
        file_size: size,
        file_path: String::new(),
    }
}

#[test]
fn session_store_insert_replaces_like_a_map() {
    let mut store = sessions();
    assert_eq!(store.len(), 0);
    assert!(store.insert("a".to_string(), session("a", "x.txt", 1)).is_none());
    assert!(store.insert("b".to_string(), session("b", "y.txt", 2)).is_none());
    assert_eq!(store.len(), 2);
    let old = store.insert("a".to_string(), session("a", "z.txt", 3));
    assert_eq!(old.map(|s| s.file_name), Some("x.txt".to_string()));
    assert_eq!(store.len(), 2);
    let again = store.insert("a".to_string(), session("a", "w.txt", 4));
    assert_eq!(again.map(|s| s.file_size), Some(3));
}

#[test]
fn file_offer_is_recorded_and_formatted() {
    let mut store = SessionStore::new();
    let offer = prepare_file_offer(&mut store, "report.pdf".to_string(), 2048);
    assert_eq!(offer.transfer_id.len(), 36);
    assert_eq!(offer.payload, format!("{}|report.pdf|2048", offer.transfer_id));
    assert_eq!(store.len(), 1);
    let second = prepare_file_offer(&mut store, "b".to_string(), 0);
    assert_ne!(second.transfer_id, offer.transfer_id);
    assert_eq!(store.len(), 2);
    let replaced = store.insert(offer.transfer_id.clone(), session("x", "y", 9));
    let old = replaced.unwrap();
    assert_eq!(old.id, offer.transfer_id);
    assert_eq!(old.file_name, "report.pdf");
    assert_eq!(old.file_size, 2048);
    assert_eq!(old.file_path, "");
}

#[test]
fn chunk_layout_exact_bytes() {
    let bytes = encode_file_chunk("ab", "f.txt", 3, 258, &[1, 2, 3]).unwrap();
    let mut want = b"MDC1".to_vec();
    want.extend_from_slice(&[0, 2]);
    want.extend_from_slice(b"ab");
    want.extend_from_slice(&[0, 5]);
    want.extend_from_slice(b"f.txt");
    want.extend_from_slice(&3u64.to_be_bytes());
    want.extend_from_slice(&258u64.to_be_bytes());
    want.extend_from_slice(&[1, 2, 3]);
    assert_eq!(bytes, want);
}

#[test]
fn chunk_lengths_count_utf8_bytes() {
    let bytes = encode_file_chunk("é", "ü", 0, 0, &[]).unwrap();
    assert_eq!(&bytes[4..6], &[0, 2]);
    assert_eq!(bytes.len(), 4 + 2 + 2 + 2 + 2 + 16);
}

#[test]
fn whole_file_payload_has_its_length_and_offset_zero() {
    let p = file_data_payload("id", "n", &[9, 9]).unwrap();
    assert_eq!(p, encode_file_chunk("id", "n", 2, 0, &[9, 9]).unwrap());
}

#[test]
fn chunk_length_errors_in_order() {
    let long = "x".repeat(65536);
    let edge = "x".repeat(65535);
    assert_eq!(check_chunk_fields("id", &edge), Ok(()));
    assert_eq!(encode_file_chunk("id", &long, 0, 0, &[]).err(), Some(ChunkError::FilenameTooLong));
    assert_eq!(encode_file_chunk(&long, "n", 0, 0, &[]).err(), Some(ChunkError::TransferIdTooLong));
    assert_eq!(encode_file_chunk(&long, &long, 0, 0, &[]).err(), Some(ChunkError::FilenameTooLong));
    assert_eq!(file_data_payload(&long, "n", &[]).err(), Some(ChunkError::TransferIdTooLong));
}

#[test]
fn file_sender_names_and_chunks() {
    let mut s = FileSender::new("/home/me/dir/movie.mkv", "tid".to_string()).unwrap();
    assert_eq!(s.file_name(), "movie.mkv");
    assert_eq!(s.offset(), 0);
    s.set_total_size(5);
    let c1 = s.next_chunk(&[1, 2, 3]);
    assert_eq!(c1, encode_file_chunk("tid", "movie.mkv", 5, 0, &[1, 2, 3]).unwrap());
    assert_eq!(s.offset(), 3);
    assert_eq!(s.progress_event(60), "tid|movie.mkv|3|5|60");
    let c2 = s.next_chunk(&[4, 5]);
    assert_eq!(c2, encode_file_chunk("tid", "movie.mkv", 5, 3, &[4, 5]).unwrap());
    assert_eq!(s.offset(), 5);
    assert_eq!(s.total_size(), 5);
}

#[test]
fn file_sender_refuses_bad_paths_and_long_fields() {
    assert_eq!(FileSender::new("", "t".to_string()).err(), Some(ChunkError::InvalidPath));
    assert_eq!(FileSender::new("/", "t".to_string()).err(), Some(ChunkError::InvalidPath));
    assert_eq!(FileSender::new("a/..", "t".to_string()).err(), Some(ChunkError::InvalidPath));
    let long = "y".repeat(70000);
    assert_eq!(FileSender::new("ok.bin", long.clone()).err(), Some(ChunkError::TransferIdTooLong));
    assert_eq!(FileSender::new(&long, "t".to_string()).err(), Some(ChunkError::FilenameTooLong));
    assert_eq!(FileSender::with_name(String::new(), "t".to_string()).err(), Some(ChunkError::InvalidPath));
}

#[test]
fn file_sender_takes_the_path_file_name() {
    let s = FileSender::new("notes.txt", "t".to_string()).unwrap();
    assert_eq!(s.file_name(), "notes.txt");
    let s2 = FileSender::new("dir/sub/.", "t".to_string()).unwrap();
    assert_eq!(s2.file_name(), "sub");
    assert_eq!(FileSender::new(".", "t".to_string()).err(), Some(ChunkError::InvalidPath));
}
