use secure_link::communication::CommunicationError;
use secure_link::framing::{
    decode_frame, encode_frame, frame_progress, FRAME_HEADER_LEN, MAX_FRAME_PAYLOAD,
};

#[test]
fn encode_puts_big_endian_length_first() {
    assert_eq!(encode_frame(&[1, 2, 3]), Ok(vec![0, 3, 1, 2, 3]));
    let long = vec![7u8; 300];
    let frame = encode_frame(&long).unwrap();
    assert_eq!(frame.len(), 302);
    assert_eq!(&frame[..2], &[1, 44]);
    assert_eq!(&frame[2..], &long[..]);
}

#[test]
fn encode_empty_payload() {
    assert_eq!(encode_frame(&[]), Ok(vec![0, 0]));
}

#[test]
fn encode_at_and_over_the_maximum() {
    let at = vec![0xabu8; MAX_FRAME_PAYLOAD];
    let frame = encode_frame(&at).unwrap();
    assert_eq!(frame.len(), MAX_FRAME_PAYLOAD + FRAME_HEADER_LEN);
    assert_eq!(&frame[..2], &[4, 0]);
    let over = vec![0xabu8; MAX_FRAME_PAYLOAD + 1];
    assert_eq!(encode_frame(&over), Err(CommunicationError::SendError));
}

#[test]
fn decode_gives_the_payload_and_keeps_the_rest() {
    let mut dest = [9u8; 6];
    assert_eq!(decode_frame(&[0, 3, 1, 2, 3], &mut dest), Ok(3));
    assert_eq!(dest, [1, 2, 3, 9, 9, 9]);
}

#[test]
fn decode_round_trip_for_many_lengths() {
    for len in [0usize, 1, 2, 255, 256, 257, 1023, 1024] {
        let payload: Vec<u8> = (0..len).map(|i| (i % 251) as u8).collect();
        let frame = encode_frame(&payload).unwrap();
        let mut dest = vec![0u8; len];
        assert_eq!(decode_frame(&frame, &mut dest), Ok(len));
        assert_eq!(dest, payload);
    }
}

#[test]
fn decode_refuses_undersized_destination() {
    let mut dest = [9u8; 2];
    assert_eq!(
        decode_frame(&[0, 3, 1, 2, 3], &mut dest),
        Err(CommunicationError::RecvError)
    );
    assert_eq!(dest, [9, 9]);
}

#[test]
fn decode_refuses_malformed_streams() {
    let mut dest = [9u8; 8];
    // no length field
    assert_eq!(decode_frame(&[], &mut dest), Err(CommunicationError::RecvError));
    assert_eq!(decode_frame(&[0], &mut dest), Err(CommunicationError::RecvError));
    // fewer bytes than declared
    assert_eq!(decode_frame(&[0, 3, 1, 2], &mut dest), Err(CommunicationError::RecvError));
    // more bytes than declared
    assert_eq!(
        decode_frame(&[0, 1, 1, 2], &mut dest),
        Err(CommunicationError::RecvError)
    );
    assert_eq!(dest, [9u8; 8]);
}

#[test]
fn decode_refuses_length_over_the_maximum() {
    let mut stream = vec![4u8, 1];
    stream.extend(vec![0u8; 1025]);
    let mut dest = vec![9u8; 2000];
    assert_eq!(decode_frame(&stream, &mut dest), Err(CommunicationError::RecvError));
    assert_eq!(dest, vec![9u8; 2000]);
}

#[test]
fn progress_counts_what_is_missing() {
    assert_eq!(frame_progress(&[]), Ok(2));
    assert_eq!(frame_progress(&[0]), Ok(1));
    assert_eq!(frame_progress(&[0, 3]), Ok(3));
    assert_eq!(frame_progress(&[0, 3, 1]), Ok(2));
    assert_eq!(frame_progress(&[0, 3, 1, 2, 3]), Ok(0));
    assert_eq!(frame_progress(&[0, 0]), Ok(0));
    assert_eq!(frame_progress(&[4, 0]), Ok(1024));
    assert_eq!(frame_progress(&[1, 2]), Ok(258));
}

#[test]
fn progress_refuses_what_cannot_become_a_frame() {
    assert_eq!(frame_progress(&[4, 1]), Err(CommunicationError::RecvError));
    assert_eq!(frame_progress(&[255, 255]), Err(CommunicationError::RecvError));
    assert_eq!(frame_progress(&[0, 1, 5, 6]), Err(CommunicationError::RecvError));
}

#[test]
fn progress_along_a_frame_ends_at_its_end() {
    let payload: Vec<u8> = (0..40u8).collect();
    let frame = encode_frame(&payload).unwrap();
    for k in 0..=frame.len() {
        let expected = if k < 2 { 2 - k } else { frame.len() - k };
        assert_eq!(frame_progress(&frame[..k]), Ok(expected));
    }
}
