use msy::streaming::sender::data_frame_of;
use msy::streaming::receiver::DestAnnouncer;
use msy::streaming::DestFileEnd;
use bytes::Bytes;
use msy::streaming::receiver::{decode_received, is_delta_candidate, EntryBatch, ReceivedMessage, DEST_ENTRY_BATCH_SIZE};
use msy::streaming::{
    Data, DataEnd, DataFlags, DeltaInfo, DestFileEntry, FileEntry, FileJob, GeneratorMessage,
    MessageType, ReceiverConfig, Sender, SenderConfig, BlockChecksum, DELTA_MIN_SIZE,
};
use std::path::PathBuf;

fn sender(compress: bool) -> Sender {
    Sender::new(SenderConfig { root: PathBuf::from("/src"), compress })
}

fn payload_of(frame: &Bytes) -> Bytes {
    Bytes::copy_from_slice(&frame[5..])
}

fn job(need_delta: bool, checksums: Option<DeltaInfo>) -> FileJob {
    FileJob { path: "test.txt".to_string(), size: 11, mtime: 3, mode: 0o644, inode: 9, need_delta, checksums }
}

#[test]
fn file_entry_frame_has_job_metadata() {
    let f = sender(false).file_entry_frame(&job(false, None));
    assert_eq!(f[4], 0x02);
    let e = FileEntry::decode(payload_of(&f)).unwrap();
    assert_eq!((e.path.as_str(), e.size, e.mtime, e.mode, e.inode), ("test.txt", 11, 3, 0o644, 9));
    assert_eq!(e.flags.bits(), 0);
    assert!(e.symlink_target.is_none() && e.link_target.is_none());
}

#[test]
fn full_data_frames_carry_offset_and_compressed_data() {
    let chunk = b"abcabcabcabcabcabcabcabcabcabcabcabc".to_vec();
    let f = sender(true).full_data_frame(&"f".to_string(), 256, &chunk);
    let d = Data::decode(payload_of(&f)).unwrap();
    assert_eq!(d.offset, 256);
    assert!(d.flags.contains(DataFlags::compressed()));
    assert_eq!(zstd::stream::decode_all(d.data.as_ref()).unwrap(), chunk);
    assert_eq!(d.content().unwrap(), chunk);
    assert!(!d.flags.contains(DataFlags::delta()));
    let f = sender(false).full_data_frame(&"f".to_string(), 0, b"");
    assert_eq!(Data::decode(payload_of(&f)).unwrap().flags.bits(), 0);
}

#[test]
fn delta_frames_use_offset_zero() {
    let f = sender(false).delta_data_frame(&"large.txt".to_string(), vec![1, 0, 0, 0, 1, 7]);
    let d = Data::decode(payload_of(&f)).unwrap();
    assert_eq!(d.offset, 0, "Delta Data message should always use offset 0");
    assert!(d.flags.contains(DataFlags::delta()));
    let f = sender(true).delta_data_frame(&"large.txt".to_string(), vec![]);
    let d = Data::decode(payload_of(&f)).unwrap();
    assert_eq!(d.flags.bits(), DataFlags::delta().bits() | DataFlags::compressed().bits());
    assert!(d.is_delta());
    assert_eq!(d.content().unwrap(), Vec::<u8>::new());
    let f = sender(true).delta_data_frame(&"large.txt".to_string(), vec![1, 0, 0, 0, 1, 7]);
    assert_eq!(Data::decode(payload_of(&f)).unwrap().content().unwrap(), vec![1, 0, 0, 0, 1, 7]);
}

#[test]
fn data_end_frame_is_ok_status() {
    let f = Sender::data_end_frame("x".to_string());
    let e = DataEnd::decode(payload_of(&f)).unwrap();
    assert_eq!(e.path, "x");
    assert_eq!(e.status, DataEnd::STATUS_OK);
}

#[test]
fn generator_messages_become_frames() {
    let s = sender(false);
    assert!(s.message_frame(&GeneratorMessage::File(job(false, None))).is_none());
    let f = s.message_frame(&GeneratorMessage::Mkdir { path: "d".to_string(), mode: 0o755 }).unwrap();
    assert_eq!(f[4], 0x0A);
    let f = s.message_frame(&GeneratorMessage::FileEnd { total_files: 1, total_bytes: 11 }).unwrap();
    assert_eq!(f[4], 0x03);
    let f = s.message_frame(&GeneratorMessage::DeleteEnd { count: 0 }).unwrap();
    assert_eq!(f[4], 0x09);
}

#[test]
fn delta_only_with_checksums() {
    let info = DeltaInfo { block_size: 16, file_size: 32, checksums: vec![] };
    assert!(Sender::delta_source(&job(true, Some(info.clone()))).is_some());
    assert!(Sender::delta_source(&job(true, None)).is_none());
    assert!(Sender::delta_source(&job(false, Some(info))).is_none());
}

#[test]
fn engine_checksums_size_last_block_by_remaining_bytes() {
    let info = DeltaInfo {
        block_size: 16,
        file_size: 40,
        checksums: vec![
            BlockChecksum { offset: 0, weak: 0xDEADBEEF, strong: 0 },
            BlockChecksum { offset: 16, weak: 0xCAFEBABE, strong: 1 },
            BlockChecksum { offset: 32, weak: 3, strong: 2 },
        ],
    };
    let cs = Sender::engine_checksums(&info);
    assert_eq!(cs.len(), 3);
    assert_eq!((cs[0].index, cs[0].size, cs[0].weak), (0, 16, 0xDEADBEEF));
    assert_eq!((cs[1].index, cs[1].size, cs[1].offset), (1, 16, 16));
    assert_eq!((cs[2].index, cs[2].size, cs[2].strong), (2, 8, 2));
    let past = DeltaInfo { block_size: 16, file_size: 8, checksums: vec![BlockChecksum { offset: 20, weak: 0, strong: 0 }] };
    assert_eq!(Sender::engine_checksums(&past)[0].size, 0);
}

#[test]
fn receiver_decodes_by_type() {
    let d = Data { path: "p".to_string(), offset: 1, flags: DataFlags::empty(), data: Bytes::from_static(b"z") };
    match decode_received(MessageType::Data, payload_of(&d.encode())).unwrap() {
        ReceivedMessage::Data(x) => assert_eq!(x.path, "p"),
        other => panic!("unexpected {:?}", other),
    }
    assert!(decode_received(MessageType::Data, Bytes::from(vec![0u8; 3])).is_err());
    assert!(matches!(
        decode_received(MessageType::Hello, Bytes::new()).unwrap(),
        ReceivedMessage::Ignored(MessageType::Hello)
    ));
}

#[test]
fn dest_entries_for_initial_exchange() {
    let cfg = ReceiverConfig::new(PathBuf::from("/dst"), 4096);
    let e = cfg.dest_entry("big.bin".to_string(), 100_000, 5, false, Some(vec![BlockChecksum { offset: 0, weak: 1, strong: 2 }]));
    assert_eq!((e.mode, e.block_size, e.flags.bits(), e.checksums.len()), (0o644, 4096, 0x02, 1));
    let e = cfg.dest_entry("dir".to_string(), 0, 5, true, None);
    assert_eq!((e.mode, e.block_size, e.flags.bits(), e.checksums.len()), (0o755, 0, 0x01, 0));
    let back = DestFileEntry::decode(payload_of(&e.encode())).unwrap();
    assert_eq!(back.path, "dir");
    assert!(is_delta_candidate(false, DELTA_MIN_SIZE + 1));
    assert!(!is_delta_candidate(false, DELTA_MIN_SIZE));
    assert!(!is_delta_candidate(true, DELTA_MIN_SIZE * 2));
}

#[test]
fn entry_batches_flush_at_threshold() {
    let mut b = EntryBatch::new();
    assert!(b.push(&vec![1u8; DEST_ENTRY_BATCH_SIZE - 1]).is_none());
    let out = b.push(&[2u8, 3]).unwrap();
    assert_eq!(out.len(), DEST_ENTRY_BATCH_SIZE + 1);
    assert_eq!(out[DEST_ENTRY_BATCH_SIZE], 3);
    assert!(b.finish().is_none());
    let mut b = EntryBatch::new();
    b.push(&[9u8]);
    assert_eq!(b.finish().unwrap(), vec![9u8]);
}

#[test]
fn announcer_counts_entries_and_closes_with_totals() {
    let cfg = ReceiverConfig::new(PathBuf::from("/dst"), 4096);
    let mut a = DestAnnouncer::new();
    let root = cfg.dest_entry(String::new(), 0, 0, true, None);
    assert!(a.announce(&root).is_none());
    assert_eq!(a.totals(), (0, 0));
    let e1 = cfg.dest_entry("a".to_string(), 10, 1, false, None);
    let e2 = cfg.dest_entry("b".to_string(), 32, 1, false, None);
    assert!(a.announce(&e1).is_none());
    assert!(a.announce(&e2).is_none());
    assert_eq!(a.totals(), (2, 42));
    let (rest, end) = a.finish();
    let mut expected = e1.encode().to_vec();
    expected.extend_from_slice(&e2.encode());
    assert_eq!(rest.unwrap(), expected);
    let end = DestFileEnd::decode(payload_of(&end)).unwrap();
    assert_eq!((end.total_files, end.total_bytes), (2, 42));
}

#[test]
fn announcer_with_nothing_sends_only_the_end() {
    let (rest, end) = DestAnnouncer::new().finish();
    assert!(rest.is_none());
    assert_eq!(end[4], 0x05);
    assert_eq!(end.len(), 5 + 16);
}

#[test]
fn uncompressed_frames_carry_raw_data() {
    let f = sender(false).full_data_frame(&"f".to_string(), 3, b"xyz");
    let d = Data::decode(payload_of(&f)).unwrap();
    assert_eq!(d.flags.bits(), 0);
    assert_eq!(d.data.as_ref(), b"xyz");
    assert_eq!(d.content().unwrap(), b"xyz".to_vec());
}

#[test]
fn corrupt_compressed_data_has_no_content() {
    let d = Data { path: "p".to_string(), offset: 0, flags: DataFlags::compressed(), data: Bytes::from_static(b"not zstd") };
    assert!(d.content().is_none());
}

#[test]
fn full_transfer_offsets_follow_each_other() {
    let mut offset = 0u64;
    let mut seen = Vec::new();
    for chunk in [&b"abc"[..], b"", b"de"] {
        seen.push(offset);
        offset = msy::streaming::sender::next_offset(offset, chunk.len());
    }
    assert_eq!(seen, vec![0, 3, 3]);
    assert_eq!(offset, 5);
}

#[test]
fn frame_follows_the_compressor_result() {
    let path = "f".to_string();
    let f = data_frame_of(&path, 7, false, b"raw", Some(vec![9, 9]));
    let d = Data::decode(payload_of(&f)).unwrap();
    assert_eq!((d.offset, d.flags.bits(), d.data.as_ref()), (7, 1, &[9u8, 9][..]));
    let f = data_frame_of(&path, 7, false, b"raw", None);
    let d = Data::decode(payload_of(&f)).unwrap();
    assert_eq!((d.flags.bits(), d.data.as_ref()), (0, &b"raw"[..]));
    let f = data_frame_of(&path, 0, true, b"ops", Some(vec![1]));
    assert_eq!(Data::decode(payload_of(&f)).unwrap().flags.bits(), 3);
    let f = data_frame_of(&path, 0, true, b"ops", None);
    assert_eq!(Data::decode(payload_of(&f)).unwrap().flags.bits(), 2);
}
