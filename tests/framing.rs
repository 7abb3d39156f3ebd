use pea2pea::framing::{decode_len_prefixed, prefix_with_len, DecodeOutcome, FramingBuffer, ReadAction};
use pea2pea::NodeError;

#[test]
fn prefix_with_two_byte_length() {
    assert_eq!(prefix_with_len(2, &[7, 8, 9]), vec![3, 0, 7, 8, 9]);
    assert_eq!(prefix_with_len(1, &[5]), vec![1, 5]);
    let long = vec![1u8; 300];
    let framed = prefix_with_len(2, &long);
    assert_eq!(&framed[..2], &[44, 1]);
    assert_eq!(framed.len(), 302);
}

#[test]
fn round_trip_len_prefixed() {
    let payload = b"this won't get through, as there was no handshake";
    let framed = prefix_with_len(2, payload);
    assert_eq!(decode_len_prefixed(2, &framed), Ok(Some(framed.len())));
    assert_eq!(&framed[2..], &payload[..]);
}

#[test]
fn truncated_stream_is_incomplete() {
    let framed = prefix_with_len(2, &[1, 2, 3, 4]);
    for m in 0..framed.len() {
        assert_eq!(decode_len_prefixed(2, &framed[..m]), Ok(None));
    }
}

#[test]
fn decoder_finds_first_frame_only() {
    let mut stream = prefix_with_len(2, &[0]);
    stream.extend_from_slice(&prefix_with_len(2, &[1]));
    assert_eq!(decode_len_prefixed(2, &stream), Ok(Some(3)));
    assert_eq!(decode_len_prefixed(2, &stream[3..]), Ok(Some(3)));
}

#[test]
fn empty_payload_is_rejected() {
    let framed = prefix_with_len(2, &[]);
    assert_eq!(framed, vec![0, 0]);
    assert_eq!(decode_len_prefixed(2, &framed), Err(NodeError::DecodeError));
}

#[test]
fn empty_payload_closes_connection() {
    let mut buf = FramingBuffer::new(65536);
    buf.fill(&prefix_with_len(2, &[]));
    assert_eq!(buf.advance_len_prefixed(2), ReadAction::Close(NodeError::DecodeError));
}

#[test]
fn message_filling_the_buffer_is_decoded() {
    let mut buf = FramingBuffer::new(10);
    let framed = prefix_with_len(2, &[0u8; 8]);
    assert_eq!(framed.len(), 10);
    buf.fill(&framed);
    assert_eq!(buf.free_space(), 0);
    assert_eq!(buf.advance_len_prefixed(2), ReadAction::Dispatch(10));
    assert_eq!(buf.len(), 0);
}

#[test]
fn oversized_message_closes_connection() {
    // a 10-byte payload with a 2-byte prefix does not fit a 10-byte buffer
    let mut buf = FramingBuffer::new(10);
    let framed = prefix_with_len(2, &[0u8; 10]);
    assert_eq!(framed.len(), 12);
    let space = buf.free_space();
    buf.fill(&framed[..space]);
    assert_eq!(buf.advance_len_prefixed(2), ReadAction::Close(NodeError::OversizedMessage));
}

#[test]
fn one_byte_over_the_limit_is_oversized() {
    let mut buf = FramingBuffer::new(10);
    let framed = prefix_with_len(2, &[0u8; 9]);
    assert_eq!(framed.len(), 11);
    buf.fill(&framed[..10]);
    assert_eq!(buf.advance_len_prefixed(2), ReadAction::Close(NodeError::OversizedMessage));
}

#[test]
fn incomplete_message_asks_for_more() {
    let mut buf = FramingBuffer::new(16);
    buf.fill(&[5, 0, 1]);
    assert_eq!(buf.advance_len_prefixed(2), ReadAction::ReadMore(13));
    assert_eq!(buf.contents(), &[5, 0, 1]);
}

#[test]
fn dispatch_drops_consumed_bytes() {
    let mut buf = FramingBuffer::new(16);
    buf.fill(&[1, 0, 9, 2, 0]);
    assert_eq!(buf.advance_len_prefixed(2), ReadAction::Dispatch(3));
    assert_eq!(buf.contents(), &[2, 0]);
    assert_eq!(buf.capacity(), 16);
}

#[test]
fn decoder_outcomes_map_to_actions() {
    let mut buf = FramingBuffer::new(4);
    buf.fill(&[1, 2]);
    assert_eq!(buf.advance(DecodeOutcome::Complete(0)), ReadAction::Close(NodeError::DecodeError));
    assert_eq!(buf.advance(DecodeOutcome::Complete(3)), ReadAction::Close(NodeError::DecodeError));
    assert_eq!(buf.advance(DecodeOutcome::Invalid), ReadAction::Close(NodeError::DecodeError));
    assert_eq!(buf.advance(DecodeOutcome::Incomplete), ReadAction::ReadMore(2));
    assert_eq!(buf.advance(DecodeOutcome::Complete(1)), ReadAction::Dispatch(1));
    assert_eq!(buf.contents(), &[2]);
}

#[test]
fn zero_capacity_buffer_is_always_full() {
    let mut buf = FramingBuffer::new(0);
    assert_eq!(buf.free_space(), 0);
    assert_eq!(buf.advance(DecodeOutcome::Incomplete), ReadAction::Close(NodeError::OversizedMessage));
}

#[test]
fn eight_byte_prefix() {
    let framed = prefix_with_len(8, &[42]);
    assert_eq!(framed, vec![1, 0, 0, 0, 0, 0, 0, 0, 42]);
    assert_eq!(decode_len_prefixed(8, &framed), Ok(Some(9)));
}
