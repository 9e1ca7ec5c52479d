use msy::streaming::messages::read_frame_header;
use bytes::Bytes;
use msy::streaming::messages::DecodeError;
use msy::streaming::protocol::{
    check_frame_len, check_frame_type, FrameError, MAX_FRAME_SIZE,
};
use msy::streaming::{
    is_legacy_protocol, is_streaming_protocol, negotiate_version, BlockChecksum, Data, DataEnd,
    DataFlags, Delete, DeleteEnd, DestFileEnd, DestFileEntry, DestFileFlags, Done, Error,
    ErrorCode, Fatal, FileEnd, FileEntry, FileFlags, Hello, HelloFlags, MessageType, Mkdir,
    Progress, Symlink, VersionNegotiationResult, Xattr, XattrEntry, PROTOCOL_VERSION,
    PROTOCOL_VERSION_MAX, PROTOCOL_VERSION_MIN,
};

fn payload_of(frame: &Bytes) -> Bytes {
    Bytes::copy_from_slice(&frame[5..])
}

#[test]
fn test_hello_roundtrip() {
    let hello = Hello::new(HelloFlags::pull().union(HelloFlags::delete()), "/tmp/dest".to_string());
    let encoded = hello.encode();

    // Skip frame header (4 bytes len + 1 byte type)
    let payload = Bytes::copy_from_slice(&encoded[5..]);
    let decoded = Hello::decode(payload).unwrap();

    assert_eq!(decoded.version, PROTOCOL_VERSION);
    assert!(decoded.is_pull());
    assert!(decoded.flags.contains(HelloFlags::delete()));
    assert_eq!(decoded.root_path, "/tmp/dest");
}

#[test]
fn test_file_entry_roundtrip() {
    let entry = FileEntry {
        path: "test/file.txt".to_string(),
        size: 1024,
        mtime: 1234567890,
        mode: 0o644,
        inode: 12345,
        flags: FileFlags::empty(),
        symlink_target: None,
        link_target: None,
    };
    let encoded = entry.encode();
    let payload = Bytes::copy_from_slice(&encoded[5..]);
    let decoded = FileEntry::decode(payload).unwrap();

    assert_eq!(decoded.path, "test/file.txt");
    assert_eq!(decoded.size, 1024);
    assert_eq!(decoded.mtime, 1234567890);
    assert_eq!(decoded.mode, 0o644);
    assert_eq!(decoded.inode, 12345);
}

#[test]
fn test_file_entry_symlink() {
    let entry = FileEntry {
        path: "link".to_string(),
        size: 0,
        mtime: 1234567890,
        mode: 0o777,
        inode: 0,
        flags: FileFlags::symlink(),
        symlink_target: Some("target.txt".to_string()),
        link_target: None,
    };
    let encoded = entry.encode();
    let payload = Bytes::copy_from_slice(&encoded[5..]);
    let decoded = FileEntry::decode(payload).unwrap();

    assert!(decoded.is_symlink());
    assert_eq!(decoded.symlink_target, Some("target.txt".to_string()));
}

#[test]
fn test_file_entry_hardlink() {
    let entry = FileEntry {
        path: "hardlink".to_string(),
        size: 1024,
        mtime: 1234567890,
        mode: 0o644,
        inode: 12345,
        flags: FileFlags::hardlink(),
        symlink_target: None,
        link_target: Some("original.txt".to_string()),
    };
    let encoded = entry.encode();
    let payload = Bytes::copy_from_slice(&encoded[5..]);
    let decoded = FileEntry::decode(payload).unwrap();

    assert!(decoded.is_hardlink());
    assert_eq!(decoded.link_target, Some("original.txt".to_string()));
}

#[test]
fn test_dest_file_entry_with_checksums() {
    let entry = DestFileEntry {
        path: "large.bin".to_string(),
        size: 1024 * 1024,
        mtime: 1234567890,
        mode: 0o644,
        flags: DestFileFlags::has_checksums(),
        block_size: 4096,
        checksums: vec![
            BlockChecksum { offset: 0, weak: 0xDEADBEEF, strong: 0x123456789ABCDEF0 },
            BlockChecksum { offset: 4096, weak: 0xCAFEBABE, strong: 0x0FEDCBA987654321 },
        ],
    };
    let encoded = entry.encode();
    let payload = Bytes::copy_from_slice(&encoded[5..]);
    let decoded = DestFileEntry::decode(payload).unwrap();

    assert_eq!(decoded.path, "large.bin");
    assert!(decoded.flags.contains(DestFileFlags::has_checksums()));
    assert_eq!(decoded.block_size, 4096);
    assert_eq!(decoded.checksums.len(), 2);
    assert_eq!(decoded.checksums[0].weak, 0xDEADBEEF);
    assert_eq!(decoded.checksums[1].strong, 0x0FEDCBA987654321);
}

#[test]
fn test_data_roundtrip() {
    let data = Data {
        path: "file.txt".to_string(),
        offset: 1024,
        flags: DataFlags::compressed(),
        data: Bytes::from(vec![1, 2, 3, 4, 5]),
    };
    let encoded = data.encode();
    let payload = Bytes::copy_from_slice(&encoded[5..]);
    let decoded = Data::decode(payload).unwrap();

    assert_eq!(decoded.path, "file.txt");
    assert_eq!(decoded.offset, 1024);
    assert!(decoded.flags.contains(DataFlags::compressed()));
    assert_eq!(decoded.data.as_ref(), &[1, 2, 3, 4, 5]);
}

#[test]
fn test_progress_roundtrip() {
    let progress = Progress { files: 100, bytes: 1024 * 1024, files_total: 1000, bytes_total: 1024 * 1024 * 100 };
    let encoded = progress.encode();
    let payload = Bytes::copy_from_slice(&encoded[5..]);
    let decoded = Progress::decode(payload).unwrap();

    assert_eq!(decoded.files, 100);
    assert_eq!(decoded.bytes, 1024 * 1024);
    assert_eq!(decoded.files_total, 1000);
}

#[test]
fn test_xattr_roundtrip() {
    let xattr = Xattr {
        path: "file.txt".to_string(),
        entries: vec![
            XattrEntry { name: "user.comment".to_string(), value: Bytes::from("test comment") },
            XattrEntry { name: "user.author".to_string(), value: Bytes::from("test") },
        ],
    };
    let encoded = xattr.encode();
    let payload = Bytes::copy_from_slice(&encoded[5..]);
    let decoded = Xattr::decode(payload).unwrap();

    assert_eq!(decoded.path, "file.txt");
    assert_eq!(decoded.entries.len(), 2);
    assert_eq!(decoded.entries[0].name, "user.comment");
}

#[test]
fn test_done_roundtrip() {
    let done = Done { files_ok: 100, files_err: 2, bytes: 1024 * 1024 * 50, duration_ms: 5000 };
    let encoded = done.encode();
    let payload = Bytes::copy_from_slice(&encoded[5..]);
    let decoded = Done::decode(payload).unwrap();

    assert_eq!(decoded.files_ok, 100);
    assert_eq!(decoded.files_err, 2);
    assert_eq!(decoded.bytes, 1024 * 1024 * 50);
    assert_eq!(decoded.duration_ms, 5000);
}

#[test]
fn test_message_type_from_u8() {
    assert_eq!(MessageType::from_u8(0x01), Some(MessageType::Hello));
    assert_eq!(MessageType::from_u8(0x06), Some(MessageType::Data));
    assert_eq!(MessageType::from_u8(0x10), Some(MessageType::Done));
    assert_eq!(MessageType::from_u8(0xFF), None);
}

#[test]
fn test_version_negotiation_supported() {
    let result = negotiate_version(2);
    assert_eq!(result, VersionNegotiationResult::Supported(2));
}

#[test]
fn test_version_negotiation_too_old() {
    let result = negotiate_version(1);
    match result {
        VersionNegotiationResult::TooOld { client, min_supported } => {
            assert_eq!(client, 1);
            assert_eq!(min_supported, PROTOCOL_VERSION_MIN);
        }
        _ => panic!("Expected TooOld result"),
    }
}

#[test]
fn test_version_negotiation_too_new() {
    let result = negotiate_version(99);
    match result {
        VersionNegotiationResult::TooNew { client, max_supported } => {
            assert_eq!(client, 99);
            assert_eq!(max_supported, PROTOCOL_VERSION_MAX);
        }
        _ => panic!("Expected TooNew result"),
    }
}

#[test]
fn test_is_streaming_protocol() {
    assert!(!is_streaming_protocol(1));
    assert!(is_streaming_protocol(2));
    assert!(is_streaming_protocol(3));
}

#[test]
fn test_is_legacy_protocol() {
    assert!(is_legacy_protocol(1));
    assert!(!is_legacy_protocol(2));
    assert!(!is_legacy_protocol(0));
}

// ---------------------------------------------------------------------------
// Frames, codes and flags
// ---------------------------------------------------------------------------

#[test]
fn frame_header_carries_length_and_type() {
    let done = Done { files_ok: 1, files_err: 0, bytes: 2, duration_ms: 3 };
    let encoded = done.encode();
    assert_eq!(encoded.len(), 5 + 32);
    assert_eq!(&encoded[0..4], &[0, 0, 0, 32]);
    assert_eq!(encoded[4], 0x10);
    assert_eq!(&encoded[5..13], &[0, 0, 0, 0, 0, 0, 0, 1]);
}

#[test]
fn every_message_code_round_trips() {
    for b in 0u8..=255 {
        match MessageType::from_u8(b) {
            Some(t) => {
                assert!((0x01..=0x10).contains(&b));
                assert_eq!(t.to_u8(), b);
            }
            None => assert!(b == 0 || b > 0x10),
        }
    }
    assert_eq!(MessageType::from_u8(0x00), None);
    assert_eq!(MessageType::from_u8(0x11), None);
}

#[test]
fn message_type_names() {
    assert_eq!(MessageType::Hello.name(), "Hello");
    assert_eq!(MessageType::DestFileEntry.name(), "DestFileEntry");
    assert_eq!(MessageType::Done.name(), "Done");
    assert_eq!(MessageType::Data.name(), format!("{:?}", MessageType::Data));
}

#[test]
fn frame_length_limit() {
    assert_eq!(check_frame_len(0), Ok(0));
    assert_eq!(check_frame_len(MAX_FRAME_SIZE), Ok(MAX_FRAME_SIZE as usize));
    assert_eq!(
        check_frame_len(MAX_FRAME_SIZE + 1),
        Err(FrameError::TooLarge { size: MAX_FRAME_SIZE + 1, max: MAX_FRAME_SIZE })
    );
    assert_eq!(MAX_FRAME_SIZE, 64 * 1024 * 1024);
}

#[test]
fn frame_type_byte() {
    assert_eq!(check_frame_type(0x0E), Ok(MessageType::Fatal));
    assert_eq!(check_frame_type(0x42), Err(FrameError::UnknownMessageType(0x42)));
}

#[test]
fn error_codes_round_trip() {
    for v in 0u16..10 {
        if let Some(c) = ErrorCode::from_u16(v) {
            assert_eq!(c.to_u16(), v);
        }
    }
    assert_eq!(ErrorCode::from_u16(0xFFFF), None);
}

#[test]
fn hello_flag_bits() {
    assert_eq!(HelloFlags::pull().bits(), 0x01);
    assert_eq!(HelloFlags::delete().bits(), 0x02);
    assert_eq!(HelloFlags::checksum().bits(), 0x04);
    assert_eq!(HelloFlags::compression().bits(), 0x08);
    assert_eq!(HelloFlags::xattrs().bits(), 0x10);
    assert_eq!(HelloFlags::acls().bits(), 0x20);
    assert_eq!(HelloFlags::all().bits(), 0x3F);
    assert_eq!(HelloFlags::from_bits_truncate(0xFF).bits(), 0x3F);
    let f = HelloFlags::pull().union(HelloFlags::compression());
    assert!(f.contains(HelloFlags::pull()));
    assert!(!f.contains(HelloFlags::delete()));
    assert!(f.contains(HelloFlags::empty()));
}

#[test]
fn file_and_data_flag_bits() {
    assert_eq!(FileFlags::dir().bits(), 0x01);
    assert_eq!(FileFlags::symlink().bits(), 0x02);
    assert_eq!(FileFlags::hardlink().bits(), 0x04);
    assert_eq!(FileFlags::has_xattrs().bits(), 0x08);
    assert_eq!(FileFlags::sparse().bits(), 0x10);
    assert_eq!(FileFlags::from_bits_truncate(0xFF).bits(), 0x1F);
    assert_eq!(DestFileFlags::dir().bits(), 0x01);
    assert_eq!(DestFileFlags::has_checksums().bits(), 0x02);
    assert_eq!(DestFileFlags::all().bits(), 0x03);
    assert_eq!(DataFlags::compressed().bits(), 0x01);
    assert_eq!(DataFlags::delta().bits(), 0x02);
    assert_eq!(DataFlags::final_chunk().bits(), 0x04);
    assert_eq!(DataFlags::from_bits_truncate(0xF8).bits(), 0);
}

#[test]
fn decoded_hello_drops_unknown_flag_bits() {
    let mut raw = vec![0u8, 2, 0, 0, 0, 0xC1, 0, 1];
    raw.push(b'x');
    let h = Hello::decode(Bytes::from(raw)).unwrap();
    assert_eq!(h.flags.bits(), 0x01);
    assert_eq!(h.root_path, "x");
}

#[test]
fn short_payloads_are_refused() {
    assert_eq!(Hello::decode(Bytes::from(vec![0u8; 7])).unwrap_err(), DecodeError::TooShort(MessageType::Hello));
    assert_eq!(Done::decode(Bytes::from(vec![0u8; 31])).unwrap_err(), DecodeError::TooShort(MessageType::Done));
    assert_eq!(FileEnd::decode(Bytes::from(vec![0u8; 15])).unwrap_err(), DecodeError::TooShort(MessageType::FileEnd));
    assert_eq!(DeleteEnd::decode(Bytes::from(vec![0u8; 7])).unwrap_err(), DecodeError::TooShort(MessageType::DeleteEnd));
    assert_eq!(Progress::decode(Bytes::from(vec![0u8; 31])).unwrap_err(), DecodeError::TooShort(MessageType::Progress));
    assert_eq!(DestFileEnd::decode(Bytes::from(vec![0u8; 15])).unwrap_err(), DecodeError::TooShort(MessageType::DestFileEnd));
}

#[test]
fn truncated_path_is_refused() {
    // HELLO announcing a 5-byte path with only 2 bytes present.
    let raw = vec![0u8, 2, 0, 0, 0, 0, 0, 5, b'a', b'b'];
    assert!(matches!(Hello::decode(Bytes::from(raw)), Err(DecodeError::Truncated(MessageType::Hello, _))));
}

#[test]
fn invalid_utf8_path_is_refused() {
    let raw = vec![0u8, 2, 0, 0, 0, 0, 0, 2, 0xC3, 0x28];
    assert!(matches!(Hello::decode(Bytes::from(raw)), Err(DecodeError::InvalidUtf8(MessageType::Hello, _))));
}

#[test]
fn transfer_messages_round_trip() {
    let end = DataEnd { path: "a/b".to_string(), status: DataEnd::STATUS_ERROR };
    let d = DataEnd::decode(payload_of(&end.encode())).unwrap();
    assert_eq!(d.path, "a/b");
    assert_eq!(d.status, 1);
    assert!(!d.is_ok());
    assert!(DataEnd { path: String::new(), status: DataEnd::STATUS_OK }.is_ok());

    let del = Delete { path: "gone".to_string(), is_dir: true };
    let d = Delete::decode(payload_of(&del.encode())).unwrap();
    assert_eq!(d.path, "gone");
    assert!(d.is_dir);

    let mk = Mkdir { path: "dir".to_string(), mode: 0o755 };
    let d = Mkdir::decode(payload_of(&mk.encode())).unwrap();
    assert_eq!(d.path, "dir");
    assert_eq!(d.mode, 0o755);

    let sl = Symlink { path: "l".to_string(), target: "t/x".to_string() };
    let d = Symlink::decode(payload_of(&sl.encode())).unwrap();
    assert_eq!(d.path, "l");
    assert_eq!(d.target, "t/x");

    let er = Error { code: 3, path: "p".to_string(), message: "boom".to_string() };
    let d = Error::decode(payload_of(&er.encode())).unwrap();
    assert_eq!(d.code, 3);
    assert_eq!(d.path, "p");
    assert_eq!(d.message, "boom");

    let fa = Fatal { code: 1, message: "stop".to_string() };
    let d = Fatal::decode(payload_of(&fa.encode())).unwrap();
    assert_eq!(d.code, 1);
    assert_eq!(d.message, "stop");

    let fe = FileEnd { total_files: 7, total_bytes: 700 };
    let d = FileEnd::decode(payload_of(&fe.encode())).unwrap();
    assert_eq!((d.total_files, d.total_bytes), (7, 700));

    let de = DeleteEnd { count: 9 };
    assert_eq!(DeleteEnd::decode(payload_of(&de.encode())).unwrap().count, 9);

    let dfe = DestFileEnd { total_files: 3, total_bytes: 30 };
    let d = DestFileEnd::decode(payload_of(&dfe.encode())).unwrap();
    assert_eq!((d.total_files, d.total_bytes), (3, 30));
}

#[test]
fn frame_types_match_messages() {
    assert_eq!(Mkdir { path: "d".to_string(), mode: 1 }.encode()[4], 0x0A);
    assert_eq!(Symlink { path: "s".to_string(), target: "t".to_string() }.encode()[4], 0x0B);
    assert_eq!(Delete { path: "x".to_string(), is_dir: false }.encode()[4], 0x08);
    assert_eq!(Fatal { code: 0, message: String::new() }.encode()[4], 0x0E);
    assert_eq!(Hello::new(HelloFlags::empty(), String::new()).encode()[4], 0x01);
}

#[test]
fn frame_header_reads_back_written_frames() {
    let done = Done { files_ok: 100, files_err: 2, bytes: 52428800, duration_ms: 5000 };
    let f = done.encode();
    let (t, n) = read_frame_header(&f[..5]).unwrap();
    assert_eq!((t, n), (MessageType::Done, f.len() - 5));
    let back = Done::decode(Bytes::copy_from_slice(&f[5..5 + n])).unwrap();
    assert_eq!((back.files_ok, back.files_err, back.bytes, back.duration_ms), (100, 2, 52428800, 5000));
    let h = Hello::new(HelloFlags::pull(), "/x".to_string()).encode();
    let mut two = f.to_vec();
    two.extend_from_slice(&h);
    let (_, n1) = read_frame_header(&two[..5]).unwrap();
    let (t2, n2) = read_frame_header(&two[5 + n1..10 + n1]).unwrap();
    assert_eq!((t2, n2), (MessageType::Hello, h.len() - 5));
}

#[test]
fn frame_header_refusals() {
    assert_eq!(
        read_frame_header(&[0x04, 0, 0, 1, 0x01]),
        Err(FrameError::TooLarge { size: 0x0400_0001, max: MAX_FRAME_SIZE })
    );
    assert_eq!(read_frame_header(&[0, 0, 0, 0, 0x11]), Err(FrameError::UnknownMessageType(0x11)));
    // The length is checked before the type.
    assert_eq!(
        read_frame_header(&[0xFF, 0, 0, 0, 0x00]),
        Err(FrameError::TooLarge { size: 0xFF00_0000, max: MAX_FRAME_SIZE })
    );
}
