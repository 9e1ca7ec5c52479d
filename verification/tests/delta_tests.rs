use msy::delta::ops::{encode_delta_op, next_delta_op, DeltaChunker, DeltaError, DELTA_CHUNK_SIZE};
use msy::delta::{calculate_block_size, DeltaOp, MAX_DELTA_COPY_SIZE};

#[test]
fn test_block_size_calculation() {
    assert_eq!(calculate_block_size(1024), 512); // Min size
    assert_eq!(calculate_block_size(1_000_000), 1000); // sqrt(1M) = 1000
    assert_eq!(calculate_block_size(100_000_000), 10000); // sqrt(100M) = 10000
    assert_eq!(calculate_block_size(100_000_000_000), 128 * 1024); // Capped at 128KB
}

#[test]
fn block_size_is_floor_square_root_between_bounds() {
    assert_eq!(calculate_block_size(0), 512);
    assert_eq!(calculate_block_size(512 * 512), 512);
    assert_eq!(calculate_block_size(513 * 513 - 1), 512);
    assert_eq!(calculate_block_size(513 * 513), 513);
    assert_eq!(calculate_block_size(1_000_001), 1000);
    assert_eq!(calculate_block_size(999_999), 999);
    assert_eq!(calculate_block_size(131072 * 131072 - 1), 131071);
    assert_eq!(calculate_block_size(u64::MAX), 131072);
    for n in [600u64 * 600, 12345 * 12345 + 7, 70000 * 70000 - 1] {
        let r = calculate_block_size(n) as u64;
        assert!(r * r <= n && (r + 1) * (r + 1) > n);
    }
}

fn op_bytes(op: &DeltaOp) -> Vec<u8> {
    encode_delta_op(op)
}

#[test]
fn copy_op_encoding() {
    let b = op_bytes(&DeltaOp::Copy { offset: 0x0102, size: 0x0304 });
    assert_eq!(b, vec![0x00, 0, 0, 0, 0, 0, 0, 0x01, 0x02, 0, 0, 0x03, 0x04]);
}

#[test]
fn literal_op_encoding() {
    let b = op_bytes(&DeltaOp::Data(vec![9, 8, 7]));
    assert_eq!(b, vec![0x01, 0, 0, 0, 3, 9, 8, 7]);
}

#[test]
fn decoding_reads_back_encoded_ops() {
    let ops = vec![
        DeltaOp::Copy { offset: 10, size: 20 },
        DeltaOp::Data(b"hello".to_vec()),
        DeltaOp::Copy { offset: 0, size: 30 },
    ];
    let mut stream = Vec::new();
    for op in &ops {
        stream.extend(encode_delta_op(op));
    }
    let mut pos = 0;
    let mut seen = Vec::new();
    while let Some((op, next)) = next_delta_op(&stream, pos, 30).unwrap() {
        assert!(next > pos);
        seen.push(op);
        pos = next;
    }
    assert_eq!(pos, stream.len());
    assert_eq!(seen.len(), 3);
    assert!(matches!(seen[0], DeltaOp::Copy { offset: 10, size: 20 }));
    assert!(matches!(&seen[1], DeltaOp::Data(d) if d.as_slice() == b"hello"));
    assert!(matches!(seen[2], DeltaOp::Copy { offset: 0, size: 30 }));
}

#[test]
fn delta_decode_errors() {
    // Copy with fewer than 12 bytes behind the tag.
    assert_eq!(next_delta_op(&[0x00, 1, 2], 0, 100).unwrap_err(), DeltaError::CopyTruncated);
    // Copy larger than the limit.
    let big = op_bytes(&DeltaOp::Copy { offset: 0, size: MAX_DELTA_COPY_SIZE + 1 });
    assert_eq!(
        next_delta_op(&big, 0, u64::MAX).unwrap_err(),
        DeltaError::CopyTooLarge { size: MAX_DELTA_COPY_SIZE + 1 }
    );
    // Copy starting past the end of the old file.
    let past = op_bytes(&DeltaOp::Copy { offset: 101, size: 0 });
    assert_eq!(
        next_delta_op(&past, 0, 100).unwrap_err(),
        DeltaError::CopyOffsetOutOfRange { offset: 101, file_size: 100 }
    );
    // Copy running past the end of the old file.
    let over = op_bytes(&DeltaOp::Copy { offset: 90, size: 11 });
    assert_eq!(
        next_delta_op(&over, 0, 100).unwrap_err(),
        DeltaError::CopyRangeOutOfRange { offset: 90, size: 11, file_size: 100 }
    );
    // Copy whose end passes u64::MAX saturates instead of wrapping, and is refused.
    let wrap = op_bytes(&DeltaOp::Copy { offset: u64::MAX - 1, size: 5 });
    assert_eq!(
        next_delta_op(&wrap, 0, u64::MAX - 1).unwrap_err(),
        DeltaError::CopyRangeOutOfRange { offset: u64::MAX - 1, size: 5, file_size: u64::MAX - 1 }
    );
    // Literal with a truncated length.
    assert_eq!(next_delta_op(&[0x01, 0, 0], 0, 0).unwrap_err(), DeltaError::InsertTruncated);
    // Literal longer than the limit.
    let mut huge = vec![0x01];
    huge.extend_from_slice(&((MAX_DELTA_COPY_SIZE as u32) + 1).to_be_bytes());
    assert_eq!(
        next_delta_op(&huge, 0, 0).unwrap_err(),
        DeltaError::InsertTooLarge { len: MAX_DELTA_COPY_SIZE + 1 }
    );
    // Literal whose data is cut short.
    assert_eq!(next_delta_op(&[0x01, 0, 0, 0, 4, 1, 2], 0, 0).unwrap_err(), DeltaError::InsertDataTruncated);
    // Unknown tag.
    assert_eq!(next_delta_op(&[0x07], 0, 0).unwrap_err(), DeltaError::UnknownOp(7));
    // End of the stream.
    assert!(next_delta_op(&[0x07], 1, 0).unwrap().is_none());
}

#[test]
fn copy_exactly_to_end_of_file_is_accepted() {
    let exact = op_bytes(&DeltaOp::Copy { offset: 90, size: 10 });
    let (op, next) = next_delta_op(&exact, 0, 100).unwrap().unwrap();
    assert!(matches!(op, DeltaOp::Copy { offset: 90, size: 10 }));
    assert_eq!(next, 13);
}

#[test]
fn chunker_keeps_small_ops_together() {
    let mut c = DeltaChunker::new();
    assert!(c.push_op(&DeltaOp::Copy { offset: 0, size: 4 }).is_none());
    assert!(c.push_op(&DeltaOp::Data(vec![1, 2])).is_none());
    let last = c.finish().unwrap();
    let mut expected = op_bytes(&DeltaOp::Copy { offset: 0, size: 4 });
    expected.extend(op_bytes(&DeltaOp::Data(vec![1, 2])));
    assert_eq!(last, expected);
}

#[test]
fn chunker_flushes_before_exceeding_limit() {
    let mut c = DeltaChunker::new();
    let first = DeltaOp::Data(vec![0xAA; DELTA_CHUNK_SIZE - 10]);
    assert!(c.push_op(&first).is_none());
    let second = DeltaOp::Data(vec![0xBB; 20]);
    let flushed = c.push_op(&second).unwrap();
    assert_eq!(flushed, op_bytes(&first));
    assert_eq!(c.finish().unwrap(), op_bytes(&second));
}

#[test]
fn empty_chunker_sends_nothing() {
    assert!(DeltaChunker::new().finish().is_none());
}

#[test]
fn delta_chunks_concatenate_to_the_encoding() {
    let ops = vec![
        DeltaOp::Data(vec![0xAA; DELTA_CHUNK_SIZE - 10]),
        DeltaOp::Copy { offset: 3, size: 4 },
        DeltaOp::Data(vec![0xBB; 20]),
    ];
    let chunks = msy::delta::ops::delta_chunks(&ops);
    let mut all = Vec::new();
    for op in &ops {
        all.extend(encode_delta_op(op));
    }
    assert_eq!(chunks.concat(), all);
    assert_eq!(chunks.len(), 2);
    assert!(chunks.iter().all(|c| !c.is_empty() && c.len() <= DELTA_CHUNK_SIZE));
    assert!(msy::delta::ops::delta_chunks(&[]).is_empty());
}
