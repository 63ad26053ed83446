//! Framing.

use ezrama::frame::{encode, Decoder, FrameError, HEADER_LEN, MAX_PAYLOAD, MAX_RESYNC_BYTES};

#[test]
fn encode_writes_magic_and_little_endian_length() {
    let frame = encode(b"ab").unwrap();
    assert_eq!(frame, b"TRYX\x02\x00\x00\x00ab");
}

#[test]
fn encode_accepts_empty_and_maximum_payloads() {
    assert_eq!(encode(&[]).unwrap(), b"TRYX\x00\x00\x00\x00");
    let max = vec![0x5a; MAX_PAYLOAD];
    let frame = encode(&max).unwrap();
    assert_eq!(frame.len(), HEADER_LEN + MAX_PAYLOAD);
    assert_eq!(&frame[4..8], &(MAX_PAYLOAD as u32).to_le_bytes());
}

#[test]
fn encode_rejects_oversize_payload() {
    let too_big = vec![0; MAX_PAYLOAD + 1];
    assert_eq!(encode(&too_big), Err(FrameError::Oversize(MAX_PAYLOAD + 1)));
}

#[test]
fn round_trip() {
    let payload = b"\x0a\x02\x08\x01\xa2\x06\x04\x0a\x02NA";
    let mut decoder = Decoder::new();
    decoder.push(&encode(payload).unwrap());
    assert_eq!(decoder.take_frame(), Ok(Some(payload.to_vec())));
    assert_eq!(decoder.take_frame(), Ok(None));
    assert_eq!(decoder.buffered(), 0);
}

#[test]
fn frame_split_across_reads() {
    let frame = encode(b"hello?").unwrap();
    let mut decoder = Decoder::new();
    decoder.push(&frame[..3]);
    assert_eq!(decoder.take_frame(), Ok(None));
    decoder.push(&frame[3..6]);
    assert_eq!(decoder.take_frame(), Ok(None));
    decoder.push(&frame[6..10]);
    assert_eq!(decoder.take_frame(), Ok(None));
    decoder.push(&frame[10..]);
    assert_eq!(decoder.take_frame(), Ok(Some(b"hello?".to_vec())));
}

#[test]
fn two_frames_in_one_read() {
    let mut bytes = encode(b"first").unwrap();
    bytes.extend(encode(b"second").unwrap());
    let mut decoder = Decoder::new();
    decoder.push(&bytes);
    assert_eq!(decoder.take_frame(), Ok(Some(b"first".to_vec())));
    assert_eq!(decoder.take_frame(), Ok(Some(b"second".to_vec())));
    assert_eq!(decoder.take_frame(), Ok(None));
}

#[test]
fn empty_payload_frame() {
    let mut decoder = Decoder::new();
    decoder.push(b"TRYX\x00\x00\x00\x00");
    assert_eq!(decoder.take_frame(), Ok(Some(Vec::new())));
}

#[test]
fn oversize_length_is_malformed_and_clears_buffer() {
    let mut decoder = Decoder::new();
    let len = (MAX_PAYLOAD as u32 + 1).to_le_bytes();
    decoder.push(b"TRYX");
    decoder.push(&len);
    decoder.push(b"trailing");
    assert_eq!(decoder.take_frame(), Err(FrameError::Oversize(MAX_PAYLOAD + 1)));
    assert_eq!(decoder.buffered(), 0);
}

#[test]
fn wrong_magic_is_malformed_and_clears_buffer() {
    let mut decoder = Decoder::new();
    decoder.push(b"TRY");
    assert_eq!(decoder.take_frame(), Ok(None));
    decoder.push(b"Z\x01\x00\x00\x00x");
    assert_eq!(decoder.take_frame(), Err(FrameError::BadMagic));
    assert_eq!(decoder.buffered(), 0);
}

#[test]
fn clear_discards_partial_frame() {
    let mut decoder = Decoder::new();
    decoder.push(b"TRYX\x05\x00");
    decoder.clear();
    assert_eq!(decoder.buffered(), 0);
    assert_eq!(decoder.take_frame(), Ok(None));
}

#[test]
fn garbage_before_a_frame_is_skipped_and_counted() {
    let mut decoder = Decoder::new();
    decoder.push(b"xyTRzTR");
    let mut discarded = 0;
    assert_eq!(decoder.resync_and_take_frame(&mut discarded), Ok(None));
    assert_eq!(discarded, 5);
    decoder.push(b"YX\x02\x00\x00\x00ab");
    assert_eq!(decoder.resync_and_take_frame(&mut discarded), Ok(Some(b"ab".to_vec())));
    assert_eq!(discarded, 5);
    assert_eq!(decoder.buffered(), 0);
}

#[test]
fn endless_garbage_exhausts_the_resync() {
    let mut decoder = Decoder::new();
    let mut discarded = 0;
    decoder.push(&vec![b'x'; MAX_RESYNC_BYTES + 1]);
    assert_eq!(decoder.resync_and_take_frame(&mut discarded), Err(FrameError::ResyncExhausted));
}

#[test]
fn frame_errors_render() {
    assert!(FrameError::BadMagic.describe().len() > 0);
    assert!(FrameError::Oversize(7).describe().contains('7'));
    assert_ne!(FrameError::ResyncExhausted.describe(), FrameError::BadMagic.describe());
}

#[test]
fn any_way_of_splitting_reads_gives_the_same_frames() {
    let mut bytes = encode(b"first").unwrap();
    bytes.extend(encode(b"").unwrap());
    bytes.extend(encode(b"third").unwrap());
    for cut in 0..=bytes.len() {
        let mut decoder = Decoder::new();
        let mut frames = Vec::new();
        for part in [&bytes[..cut], &bytes[cut..]] {
            decoder.push(part);
            while let Some(frame) = decoder.take_frame().unwrap() {
                frames.push(frame);
            }
        }
        assert_eq!(frames, vec![b"first".to_vec(), Vec::new(), b"third".to_vec()], "cut at {cut}");
    }
}
