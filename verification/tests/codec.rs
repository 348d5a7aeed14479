use adcs_link::codec::{encode_attitude, FrameDecoder, PushResult, TelemetryRecord};

fn telemetry_chunk() -> Vec<u8> {
    vec![
        0x01, 0x00, 0x0A, 0x00, 0x01, 0x00, 0x14, 0x00, 0x02, 0xFF, 0xEC, 0x00, 0x03,
    ]
}

fn expected_record() -> TelemetryRecord {
    TelemetryRecord {
        x_angle: 10,
        x_acc: 1,
        y_angle: 20,
        y_acc: 2,
        z_angle: -20,
        z_acc: 3,
    }
}

#[test]
fn encode_attitude_exact_bytes() {
    let bytes = encode_attitude(100, -200, 300);
    assert_eq!(bytes, vec![0x02, 0x00, 0x64, 0xFF, 0x38, 0x01, 0x2C]);
}

#[test]
fn encode_attitude_extremes() {
    let bytes = encode_attitude(i16::MIN, -1, i16::MAX);
    assert_eq!(bytes, vec![0x02, 0x80, 0x00, 0xFF, 0xFF, 0x7F, 0xFF]);
}

#[test]
fn valid_frame_byte_by_byte_yields_one_record() {
    let mut dec = FrameDecoder::new();
    let chunk = telemetry_chunk();
    let mut completed = Vec::new();
    for (i, b) in chunk.iter().enumerate() {
        match dec.push_byte(*b) {
            PushResult::AwaitingMore => assert!(i < chunk.len() - 1),
            PushResult::FrameComplete(rec) => {
                assert_eq!(i, chunk.len() - 1);
                completed.push(rec);
            }
            PushResult::Skipped => panic!("no byte of a valid frame may be skipped"),
        }
    }
    assert_eq!(completed, vec![expected_record()]);
}

#[test]
fn resynchronizes_after_leading_junk() {
    let mut dec = FrameDecoder::new();
    assert_eq!(dec.push_byte(0xFF), PushResult::Skipped);
    let mut chunk = telemetry_chunk();
    let last = chunk.pop().unwrap();
    for b in chunk {
        assert_eq!(dec.push_byte(b), PushResult::AwaitingMore);
    }
    assert_eq!(dec.push_byte(last), PushResult::FrameComplete(expected_record()));
}

#[test]
fn alert_tag_is_skipped_without_payload() {
    let mut dec = FrameDecoder::new();
    assert_eq!(dec.push_byte(0x03), PushResult::Skipped);
    // The very next byte is read as a fresh kind tag.
    let records = dec.push_chunk(&telemetry_chunk());
    assert_eq!(records, vec![expected_record()]);
}

#[test]
fn junk_alone_never_completes_a_frame() {
    let mut dec = FrameDecoder::new();
    for b in [0x00u8, 0x02, 0x03, 0x7F, 0xFF, 0xAB] {
        assert_eq!(dec.push_byte(b), PushResult::Skipped);
    }
}

#[test]
fn two_frames_in_one_chunk_in_order() {
    let mut chunk = telemetry_chunk();
    chunk.extend_from_slice(&[
        0x01, 0xFF, 0x38, 0x00, 0x04, 0x00, 0x64, 0x00, 0x05, 0x01, 0x2C, 0x00, 0x06,
    ]);
    let mut dec = FrameDecoder::new();
    let records = dec.push_chunk(&chunk);
    let second = TelemetryRecord {
        x_angle: -200,
        x_acc: 4,
        y_angle: 100,
        y_acc: 5,
        z_angle: 300,
        z_acc: 6,
    };
    assert_eq!(records, vec![expected_record(), second]);
}

#[test]
fn frame_split_across_chunks() {
    let whole = telemetry_chunk();
    let (head, tail) = whole.split_at(7);
    let mut dec = FrameDecoder::new();
    assert_eq!(dec.push_chunk(&head.to_vec()), vec![]);
    assert_eq!(dec.push_chunk(&tail.to_vec()), vec![expected_record()]);
}

#[test]
fn interleaved_junk_between_frames() {
    let mut chunk = vec![0xEE, 0x42];
    chunk.extend_from_slice(&telemetry_chunk());
    chunk.push(0x99);
    chunk.extend_from_slice(&telemetry_chunk());
    let mut dec = FrameDecoder::new();
    let records = dec.push_chunk(&chunk);
    assert_eq!(records, vec![expected_record(), expected_record()]);
}
