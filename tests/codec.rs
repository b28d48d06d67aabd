use comacode::codec::{MessageCodec, MAX_MESSAGE_SIZE};
use comacode::CoreError;

#[test]
fn test_encode_decode_roundtrip() {
    let payload = vec![11u8];
    let encoded = MessageCodec::encode(&payload).unwrap();
    let decoded = MessageCodec::decode(&encoded).unwrap();
    assert_eq!(payload, decoded);
}

#[test]
fn test_stream_decode() {
    let first = vec![11u8];
    let second = vec![4u8, 0x80, 0x01];
    let enc1 = MessageCodec::encode(&first).unwrap();
    let enc2 = MessageCodec::encode(&second).unwrap();
    let mut stream = Vec::new();
    stream.extend_from_slice(&enc1);
    stream.extend_from_slice(&enc2);
    let (frames, used) = MessageCodec::decode_stream(&stream).unwrap();
    assert_eq!(frames.len(), 2);
    assert_eq!(frames[0], first);
    assert_eq!(frames[1], second);
    assert_eq!(used, enc1.len() + enc2.len());
}

#[test]
fn test_invalid_buffer() {
    let result = MessageCodec::decode(&[1, 2, 3]);
    assert!(result.is_err());
}

#[test]
fn test_message_size_validation() {
    assert!(MAX_MESSAGE_SIZE == 16 * 1024 * 1024);
}

#[test]
fn encode_writes_big_endian_length() {
    let payload = vec![0xaa; 300];
    let encoded = MessageCodec::encode(&payload).unwrap();
    assert_eq!(&encoded[..4], &[0, 0, 1, 44]);
    assert_eq!(&encoded[4..], &payload[..]);
}

#[test]
fn encode_rejects_oversized_payload() {
    let payload = vec![0u8; MAX_MESSAGE_SIZE + 1];
    match MessageCodec::encode(&payload) {
        Err(CoreError::MessageTooLarge { size, max }) => {
            assert_eq!(size, MAX_MESSAGE_SIZE + 1);
            assert_eq!(max, MAX_MESSAGE_SIZE);
        }
        other => panic!("unexpected {:?}", other),
    }
}

#[test]
fn oversized_header_is_rejected_before_payload_arrives() {
    let header = [0x01u8, 0x00, 0x00, 0x01];
    match MessageCodec::try_decode(&header) {
        Err(CoreError::MessageTooLarge { size, .. }) => assert_eq!(size, 16 * 1024 * 1024 + 1),
        other => panic!("unexpected {:?}", other),
    }
    assert!(matches!(MessageCodec::decode(&header), Err(CoreError::MessageTooLarge { .. })));
}

#[test]
fn partial_frames_wait() {
    let enc = MessageCodec::encode(&[1, 2, 3, 4, 5]).unwrap();
    for k in 0..enc.len() {
        assert_eq!(MessageCodec::try_decode(&enc[..k]).unwrap(), None);
    }
    let (payload, used) = MessageCodec::try_decode(&enc).unwrap().unwrap();
    assert_eq!(payload, vec![1, 2, 3, 4, 5]);
    assert_eq!(used, 9);
}

#[test]
fn stream_decode_leaves_partial_suffix() {
    let enc1 = MessageCodec::encode(&[9]).unwrap();
    let enc2 = MessageCodec::encode(&[8, 7]).unwrap();
    let enc3 = MessageCodec::encode(&[6, 5, 4]).unwrap();
    let mut stream = Vec::new();
    stream.extend_from_slice(&enc1);
    stream.extend_from_slice(&enc2);
    stream.extend_from_slice(&enc3[..5]);
    let (frames, used) = MessageCodec::decode_stream(&stream).unwrap();
    assert_eq!(frames, vec![vec![9], vec![8, 7]]);
    assert_eq!(used, enc1.len() + enc2.len());
}

#[test]
fn decode_short_payload_is_format_error() {
    assert!(matches!(
        MessageCodec::decode(&[0, 0, 0, 5, 1]),
        Err(CoreError::InvalidMessageFormat(_))
    ));
}

#[test]
fn empty_payload_frame() {
    let enc = MessageCodec::encode(&[]).unwrap();
    assert_eq!(enc, vec![0, 0, 0, 0]);
    assert_eq!(MessageCodec::decode(&enc).unwrap(), Vec::<u8>::new());
}
