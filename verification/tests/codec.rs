use event_broker::io::{
    compute_crc16, encode_frame, encode_header, parse_object, parse_stream, validate_header,
    CodecError, Header, HEADER_SIZE,
};

#[test]
fn crc16_of_empty_input_is_zero() {
    assert_eq!(compute_crc16(&[]), 0x0000);
}

#[test]
fn crc16_known_values() {
    assert_eq!(compute_crc16(b"123456789"), 0x906e);
    assert_eq!(compute_crc16(b"abc"), 0x9e25);
    assert_eq!(compute_crc16(&[0u8; 14]), 0xa96a);
}

#[test]
fn crc16_depends_on_byte_order() {
    assert_ne!(compute_crc16(b"ab"), compute_crc16(b"ba"));
}

#[test]
fn encoded_header_checksum_is_crc_of_non_checksum_bytes() {
    let enc = encode_header(4, 1, 2, 3);
    assert_eq!(enc.len(), HEADER_SIZE);
    let checksum = ((enc[0] as u16) << 8) | enc[1] as u16;
    assert_eq!(checksum, compute_crc16(&enc[2..HEADER_SIZE]));
    assert_eq!(checksum, 0xd630);
}

#[test]
fn encoded_header_validates() {
    let enc = encode_header(0x1234, 7, 42, 99);
    assert!(validate_header(&enc).is_ok());
}

#[test]
fn corrupted_header_does_not_validate() {
    let mut enc = encode_header(0x1234, 7, 42, 99);
    enc[5] ^= 0xff;
    assert_eq!(validate_header(&enc), Err(CodecError::FrameSyncError));
}

#[test]
fn short_buffer_does_not_validate() {
    let enc = encode_header(1, 2, 3, 4);
    assert_eq!(validate_header(&enc[..10]), Err(CodecError::FrameTruncated));
}

#[test]
fn header_fields_read_back() {
    let enc = encode_header(0x0102, 0x03040506, 0x0708090a, 0x0b0c0d0e);
    let h = Header::new(&enc).unwrap();
    assert_eq!(h.size, 0x0102);
    assert_eq!(h.event_type, 0x03040506);
    assert_eq!(h.source_id, 0x0708090a);
    assert_eq!(h.destination_id, 0x0b0c0d0e);
    assert_eq!(h.checksum, compute_crc16(&enc[2..HEADER_SIZE]));
}

#[test]
fn header_new_rejects_short_input() {
    assert_eq!(Header::new(&[0u8; 15]), Err(CodecError::FrameTruncated));
}

#[test]
fn round_trip_single_frame() {
    let payload = [10u8, 20, 30, 40, 50];
    let buf = encode_frame(1, 2, 3, &payload);
    assert_eq!(parse_stream(&buf).unwrap(), payload.to_vec());
}

#[test]
fn round_trip_largest_payload() {
    // the largest size below the continuation sentinel
    let payload: Vec<u8> = (0..0xFFFEusize).map(|i| (i % 251) as u8).collect();
    let buf = encode_frame(1, 2, 3, &payload);
    assert_eq!(parse_stream(&buf).unwrap(), payload);
}

#[test]
fn round_trip_empty_payload() {
    let buf = encode_frame(1, 2, 3, &[]);
    assert_eq!(parse_stream(&buf).unwrap(), Vec::<u8>::new());
}

#[test]
fn resync_recovers_after_garbage() {
    let payload = [9u8, 8, 7, 6];
    let frame = encode_frame(5, 6, 7, &payload);
    for k in [0usize, 1, 5, 100] {
        let mut buf: Vec<u8> = (0..k).map(|i| ((i * 37 + 11) % 256) as u8).collect();
        buf.extend_from_slice(&frame);
        let mut out = Vec::new();
        let mut offset = 0usize;
        assert_eq!(parse_object(&buf, &mut out, &mut offset), Ok(()));
        assert_eq!(out, payload.to_vec());
        // the cursor advanced by exactly k bytes before locking onto the header
        assert_eq!(offset, k + HEADER_SIZE + payload.len());
    }
}

#[test]
fn continuation_frame_carries_next_frames_payload() {
    let mut buf = encode_header(0xFFFF, 1, 2, 3);
    buf.extend_from_slice(&encode_frame(4, 5, 6, &[1, 2, 3, 4]));
    assert_eq!(parse_stream(&buf).unwrap(), vec![1, 2, 3, 4]);
}

#[test]
fn chained_continuations_resolve_to_final_payload() {
    let mut buf = encode_header(0xFFFF, 1, 2, 3);
    buf.extend_from_slice(&encode_header(0xFFFF, 1, 2, 3));
    buf.extend_from_slice(&encode_frame(4, 5, 6, &[42, 43]));
    assert_eq!(parse_stream(&buf).unwrap(), vec![42, 43]);
}

#[test]
fn unrecoverable_stream_is_a_sync_error() {
    assert_eq!(parse_stream(&[0u8; 40]), Err(CodecError::FrameSyncError));
    assert_eq!(parse_stream(&[0u8; 10]), Err(CodecError::FrameSyncError));
    assert_eq!(parse_stream(&[]), Err(CodecError::FrameSyncError));
}

#[test]
fn truncated_payload_is_an_error() {
    let frame = encode_frame(1, 2, 3, &[1, 2, 3, 4, 5, 6, 7, 8]);
    // cut the declared payload short
    let cut = &frame[..frame.len() - 3];
    assert_eq!(parse_stream(cut), Err(CodecError::FrameTruncated));
}

#[test]
fn out_of_range_cursor_is_an_error() {
    let frame = encode_frame(1, 2, 3, &[1]);
    let mut out = Vec::new();
    let mut offset = frame.len() + 1;
    assert_eq!(
        parse_object(&frame, &mut out, &mut offset),
        Err(CodecError::InvalidFrameSize)
    );
    assert_eq!(offset, frame.len() + 1);
    assert!(out.is_empty());
}

#[test]
fn errors_leave_accumulator_and_cursor_alone() {
    let mut out = vec![0xEEu8];
    let mut offset = 0usize;
    assert_eq!(
        parse_object(&[0u8; 20], &mut out, &mut offset),
        Err(CodecError::FrameSyncError)
    );
    assert_eq!(out, vec![0xEE]);
    assert_eq!(offset, 0);
}

#[test]
fn parse_object_appends_behind_existing_output() {
    let payload = [1u8, 2, 3];
    let frame = encode_frame(1, 2, 3, &payload);
    let mut out = vec![9u8];
    let mut offset = 0usize;
    assert_eq!(parse_object(&frame, &mut out, &mut offset), Ok(()));
    assert_eq!(out, vec![9, 1, 2, 3]);
}

#[test]
fn repeated_decode_walks_consecutive_frames() {
    let mut buf = encode_frame(1, 2, 3, &[11, 12]);
    buf.extend_from_slice(&encode_frame(4, 5, 6, &[13]));
    let mut out = Vec::new();
    let mut offset = 0usize;
    assert_eq!(parse_object(&buf, &mut out, &mut offset), Ok(()));
    assert_eq!(out, vec![11, 12]);
    assert_eq!(parse_object(&buf, &mut out, &mut offset), Ok(()));
    assert_eq!(out, vec![11, 12, 13]);
    assert_eq!(offset, buf.len());
}
