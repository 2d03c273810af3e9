//! Stream frame parsing.

use create_oi::protocol::stream::{FnSink, FrameResult, StreamParser, STREAM_HEADER};


/// Build a stream frame: [19][nbytes][payload...][checksum]
fn make_frame(payload: &[u8]) -> Vec<u8> {
    let nbytes = payload.len() as u8;
    let mut frame = vec![STREAM_HEADER, nbytes];
    frame.extend_from_slice(payload);
    let sum: u8 = frame.iter().fold(0u8, |acc, &b| acc.wrapping_add(b));
    frame.push(0u8.wrapping_sub(sum));
    frame
}

#[test]
fn parse_single_frame_wall() {
    let mut parser = StreamParser::<256>::new();
    let payload = [8, 1];
    let frame = make_frame(&payload);

    let results = parser.feed(&frame);
    assert_eq!(results.len(), 1);
    let sd = results[0].as_ref().unwrap();
    assert_eq!(sd.wall, Some(true));
}

#[test]
fn parse_single_frame_voltage() {
    let mut parser = StreamParser::<256>::new();
    let payload = [22, 0x30, 0xD4];
    let frame = make_frame(&payload);

    let results = parser.feed(&frame);
    assert_eq!(results.len(), 1);
    let sd = results[0].as_ref().unwrap();
    assert_eq!(sd.voltage, Some(12500));
}

#[test]
fn parse_two_packets_in_one_frame() {
    let mut parser = StreamParser::<256>::new();
    let payload = [8, 1, 22, 0x30, 0xD4];
    let frame = make_frame(&payload);

    let results = parser.feed(&frame);
    assert_eq!(results.len(), 1);
    let sd = results[0].as_ref().unwrap();
    assert_eq!(sd.wall, Some(true));
    assert_eq!(sd.voltage, Some(12500));
}

#[test]
fn parse_split_across_feeds() {
    let mut parser = StreamParser::<256>::new();
    let payload = [8, 1];
    let frame = make_frame(&payload);

    for &byte in &frame[..frame.len() - 1] {
        let results = parser.feed(&[byte]);
        assert!(results.is_empty(), "no frame should be emitted yet");
    }
    let results = parser.feed(&[*frame.last().unwrap()]);
    assert_eq!(results.len(), 1);
    assert!(results[0].is_ok());
}

#[test]
fn bad_checksum_returns_error_with_correct_bytes() {
    let mut parser = StreamParser::<256>::new();
    let payload = [8, 1];
    let mut frame = make_frame(&payload);
    // Corrupt checksum by +1
    let orig_cs = *frame.last().unwrap();
    *frame.last_mut().unwrap() = orig_cs.wrapping_add(1);

    let results = parser.feed(&frame);
    assert_eq!(results.len(), 1);
    let err = results[0].as_ref().unwrap_err();
    if let create_oi::protocol::error::ProtocolError::Checksum { expected, actual } = *err {
        // actual = received (corrupted) byte
        assert_eq!(actual, orig_cs.wrapping_add(1));
        // expected = the byte that would have made the sum zero
        assert_eq!(expected, orig_cs);
    } else {
        panic!("expected Checksum error, got: {err:?}");
    }
}

#[test]
fn oversized_frame_is_rejected_and_next_frame_parses() {
    // Use a tiny buffer (size 8) to exercise the overflow guard.
    // Buffer holds 8 bytes; a frame needs nbytes+3, so max nbytes = 5.
    // Feed nbytes=6 (too large) followed by a valid frame.
    let mut parser = StreamParser::<8>::new();
    let valid_frame = make_frame(&[8, 1]); // nbytes=2, fits in 8

    // An oversized "frame": [19][6][...] — 6 > 8-3=5, should be rejected.
    let mut data = vec![STREAM_HEADER, 6, 0, 0, 0, 0, 0, 0, 0];
    data.extend_from_slice(&valid_frame);

    let results = parser.feed(&data);
    assert_eq!(results.len(), 1, "only the valid frame should be parsed");
    assert!(results[0].is_ok());
}

#[test]
fn garbage_before_header_is_skipped() {
    let mut parser = StreamParser::<256>::new();
    let payload = [8, 0];
    let frame = make_frame(&payload);

    let mut data = vec![0xFF, 0xAA, 0x00, 0x55];
    data.extend_from_slice(&frame);

    let results = parser.feed(&data);
    assert_eq!(results.len(), 1);
    let sd = results[0].as_ref().unwrap();
    assert_eq!(sd.wall, Some(false));
}

#[test]
fn two_frames_in_one_feed() {
    let mut parser = StreamParser::<256>::new();
    let f1 = make_frame(&[8, 1]);
    let f2 = make_frame(&[35, 2]);

    let mut data = f1;
    data.extend_from_slice(&f2);

    let results = parser.feed(&data);
    assert_eq!(results.len(), 2);
    assert_eq!(results[0].as_ref().unwrap().wall, Some(true));
    assert_eq!(
        results[1].as_ref().unwrap().oi_mode,
        Some(create_oi::protocol::types::OiMode::Safe)
    );
}

#[test]
fn reset_discards_partial() {
    let mut parser = StreamParser::<256>::new();
    let frame = make_frame(&[8, 1]);
    parser.feed(&frame[..2]);
    parser.reset();
    let results = parser.feed(&frame);
    assert_eq!(results.len(), 1);
    assert!(results[0].is_ok());
}

#[test]
fn feed_with_callback() {
    let mut parser = StreamParser::<256>::new();
    let frame = make_frame(&[8, 1]);
    let mut count = 0;
    {
        let mut sink = FnSink::new(|result: FrameResult| {
            assert!(result.is_ok());
            assert_eq!(result.unwrap().wall, Some(true));
            count += 1;
        });
        parser.feed_with(&frame, &mut sink);
    }
    assert_eq!(count, 1);
}
