use bloop::framing::{
    decode_chunk, encode_message, FramingError, Reassembler, HEADER_LENGTH, MAX_MESSAGE_SIZE,
    MESSAGE_IDLE_TIMEOUT_NANOS, MESSAGE_IDLE_TIMEOUT_SECS,
};

#[test]
fn round_trips_at_common_mtu_payload_sizes() {
    let message = (0..4096).map(|index| (index % 251) as u8).collect::<Vec<_>>();

    for maximum_value_length in [20, 182, 514] {
        let chunks = encode_message(&message, 42, maximum_value_length).unwrap();
        let mut reassembler = Reassembler::default();
        let mut result = None;
        for chunk in chunks {
            result = reassembler.push(&chunk).unwrap().or(result);
        }
        assert_eq!(result.as_deref(), Some(message.as_slice()));
    }
}

#[test]
fn round_trips_empty_and_one_megabyte_messages() {
    for message in [Vec::new(), vec![0xa5; 1024 * 1024]] {
        let mut reassembler = Reassembler::default();
        let chunks = encode_message(&message, 7, 182).unwrap();
        let mut result = None;
        for chunk in chunks {
            result = reassembler.push(&chunk).unwrap().or(result);
        }
        assert_eq!(result, Some(message));
    }
}

#[test]
fn accepts_shuffled_and_identical_duplicate_chunks() {
    let message = vec![0x5a; 1024];
    let mut chunks = encode_message(&message, 9, 64).unwrap();
    chunks.reverse();
    chunks.insert(1, chunks[0].clone());
    let mut reassembler = Reassembler::default();
    let mut result = None;

    for chunk in chunks {
        result = reassembler.push(&chunk).unwrap().or(result);
    }

    assert_eq!(result, Some(message));
}

#[test]
fn rejects_conflicting_duplicate_chunks() {
    let message = vec![0x5a; 128];
    let chunks = encode_message(&message, 9, 64).unwrap();
    let mut conflicting = chunks[0].clone();
    *conflicting.last_mut().unwrap() ^= 0xff;
    let mut reassembler = Reassembler::default();

    assert!(reassembler.push(&chunks[0]).unwrap().is_none());
    assert!(reassembler.push(&conflicting).is_err());
}

#[test]
fn rejects_invalid_headers_and_oversized_messages() {
    let mut invalid_version = encode_message(b"hello", 1, 20).unwrap().remove(0);
    invalid_version[0] = 2;
    assert!(Reassembler::default().push(&invalid_version).is_err());
    assert!(encode_message(&vec![0; MAX_MESSAGE_SIZE + 1], 1, 64).is_err());
}

#[test]
fn abandons_an_idle_incomplete_message() {
    let first = encode_message(&vec![1; 100], 1, 64).unwrap().remove(0);
    let replacement = encode_message(b"replacement", 2, 64).unwrap().remove(0);
    let mut reassembler = Reassembler::default();
    let started: u128 = 1_000;
    assert!(reassembler.push_at(&first, started).unwrap().is_none());
    let later = started + MESSAGE_IDLE_TIMEOUT_NANOS;

    assert_eq!(reassembler.push_at(&replacement, later).unwrap(), Some(b"replacement".to_vec()));
}

#[test]
fn interleaved_message_is_refused_before_the_idle_timeout() {
    let first = encode_message(&vec![1; 100], 1, 64).unwrap().remove(0);
    let other = encode_message(b"other", 2, 64).unwrap().remove(0);
    let mut reassembler = Reassembler::default();
    let started: u128 = 1_000;
    assert!(reassembler.push_at(&first, started).unwrap().is_none());
    let soon = started + MESSAGE_IDLE_TIMEOUT_NANOS - 1;
    assert_eq!(reassembler.push_at(&other, soon), Err(FramingError::Interleaved));
}

#[test]
fn frames_carry_little_endian_headers() {
    let frames = encode_message(&[10, 11, 12, 13, 14], 0x0102, HEADER_LENGTH + 2).unwrap();
    assert_eq!(frames.len(), 3);
    assert_eq!(frames[1], vec![1, 0x02, 0x01, 1, 0, 0, 0, 3, 0, 0, 0, 12, 13]);
    assert_eq!(frames[2], vec![1, 0x02, 0x01, 2, 0, 0, 0, 3, 0, 0, 0, 14]);
    let decoded = decode_chunk(&frames[2]).unwrap();
    assert_eq!(decoded.message_id, 0x0102);
    assert_eq!(decoded.chunk_index, 2);
    assert_eq!(decoded.chunk_count, 3);
    assert_eq!(decoded.payload, &[14]);
}

#[test]
fn empty_message_takes_one_frame() {
    let frames = encode_message(&[], 5, 20).unwrap();
    assert_eq!(frames, vec![vec![1, 5, 0, 0, 0, 0, 0, 1, 0, 0, 0]]);
}

#[test]
fn encode_errors() {
    assert_eq!(encode_message(b"x", 1, HEADER_LENGTH), Err(FramingError::ValueLengthTooSmall));
    assert_eq!(encode_message(&vec![0; 262_145], 1, HEADER_LENGTH + 1), Err(FramingError::TooManyChunks));
}

#[test]
fn decode_errors() {
    assert_eq!(decode_chunk(&[1, 0, 0]).err(), Some(FramingError::FrameTooShort));
    assert_eq!(decode_chunk(&[3, 0, 0, 0, 0, 0, 0, 1, 0, 0, 0]).err(), Some(FramingError::UnsupportedVersion(3)));
    assert_eq!(decode_chunk(&[1, 0, 0, 0, 0, 0, 0, 0, 0, 0, 0]).err(), Some(FramingError::InvalidChunkCount(0)));
    assert_eq!(decode_chunk(&[1, 0, 0, 0, 0, 0, 0, 1, 0, 4, 0]).err(), Some(FramingError::InvalidChunkCount(262_144 + 1)));
    assert_eq!(
        decode_chunk(&[1, 0, 0, 2, 0, 0, 0, 2, 0, 0, 0]).err(),
        Some(FramingError::ChunkIndexOutOfRange(2, 2))
    );
}

#[test]
fn reset_abandons_the_pending_message() {
    let frames = encode_message(&vec![7; 100], 3, 64).unwrap();
    let mut reassembler = Reassembler::default();
    assert!(reassembler.push(&frames[0]).unwrap().is_none());
    reassembler.reset();
    let other = encode_message(b"hi", 4, 64).unwrap();
    assert_eq!(reassembler.push(&other[0]).unwrap(), Some(b"hi".to_vec()));
}

#[test]
fn oversized_pending_message_is_refused() {
    // A first chunk announcing many chunks, followed by chunks whose
    // payloads together pass the size limit.
    let payload_len = 1 << 20;
    let mut reassembler = Reassembler::default();
    let mut refused = None;
    for index in 0..17u32 {
        let mut frame = vec![1, 9, 0];
        frame.extend_from_slice(&index.to_le_bytes());
        frame.extend_from_slice(&20u32.to_le_bytes());
        frame.extend(std::iter::repeat(0u8).take(payload_len));
        match reassembler.push(&frame) {
            Ok(_) => {}
            Err(error) => {
                refused = Some((index, error));
                break;
            }
        }
    }
    assert_eq!(refused, Some((16, FramingError::MessageTooLarge)));
}

#[test]
fn a_message_idle_for_the_timeout_is_dropped_and_a_shorter_wait_keeps_it() {
    assert_eq!(MESSAGE_IDLE_TIMEOUT_NANOS, MESSAGE_IDLE_TIMEOUT_SECS as u128 * 1_000_000_000);
    let chunks = encode_message(&vec![7; 100], 3, 64).unwrap();
    assert_eq!(chunks.len(), 2);
    let mut reassembler = Reassembler::default();
    assert!(reassembler.push_at(&chunks[0], 0).unwrap().is_none());
    assert!(reassembler.push_at(&chunks[0], 10_000_000_000).unwrap().is_none());
    // The duplicate renewed the stamp: 20 s after the start is 10 s idle.
    assert_eq!(reassembler.push_at(&chunks[1], 20_000_000_000).unwrap(), Some(vec![7; 100]));

    assert!(reassembler.push_at(&chunks[0], 0).unwrap().is_none());
    reassembler.expire_idle_message(MESSAGE_IDLE_TIMEOUT_NANOS - 1);
    assert_eq!(reassembler.push_chunk(&chunks[1], MESSAGE_IDLE_TIMEOUT_NANOS - 1).unwrap(), Some(vec![7; 100]));

    assert!(reassembler.push_at(&chunks[0], 0).unwrap().is_none());
    reassembler.expire_idle_message(MESSAGE_IDLE_TIMEOUT_NANOS);
    assert!(reassembler.push_chunk(&chunks[1], MESSAGE_IDLE_TIMEOUT_NANOS).unwrap().is_none());
}

#[test]
fn shuffled_frames_pushed_within_the_timeout_come_back_whole() {
    let message = vec![0x5a; 1024];
    let mut chunks = encode_message(&message, 9, 64).unwrap();
    chunks.reverse();
    chunks.insert(1, chunks[0].clone());
    let mut reassembler = Reassembler::default();
    let last = chunks.len() - 1;
    for (i, chunk) in chunks.iter().enumerate() {
        let now = 1_000_000_000 + (i as u128) * 100_000_000;
        let result = reassembler.push_at(chunk, now).unwrap();
        if i < last {
            assert!(result.is_none());
        } else {
            assert_eq!(result, Some(message.clone()));
        }
    }
}
