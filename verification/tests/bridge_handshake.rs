use tunneld::bridge::decide_first_event;
use tunneld::bridge::frame_chunk;
use tunneld::bridge::frames_for_chunks;
use tunneld::bridge::must_raise_remove;
use tunneld::bridge::BridgeData;
use tunneld::bridge::FirstEvent;
use tunneld::bridge::HandshakeOutcome;

#[test]
fn first_sender_frame_completes_handshake() {
    let r = decide_first_event(FirstEvent::Frame(BridgeData::Sender(42)));
    assert!(matches!(r, HandshakeOutcome::Ready(42)));
    assert!(!must_raise_remove(&r));
}

#[test]
fn first_data_frame_is_protocol_violation() {
    // A bridge never consumes a non-Sender frame as its first message.
    let r = decide_first_event(FirstEvent::Frame(BridgeData::Data(vec![1, 2, 3])));
    assert!(matches!(r, HandshakeOutcome::ProtocolViolation));
    assert!(must_raise_remove(&r));
}

#[test]
fn cancel_before_handshake_aborts_silently() {
    let r = decide_first_event(FirstEvent::Cancelled);
    assert!(matches!(r, HandshakeOutcome::CancelledByClient));
    assert!(must_raise_remove(&r));
}

#[test]
fn frame_chunk_keeps_stream_id_and_payload() {
    let f = frame_chunk(7, b"PING\n".to_vec());
    assert_eq!(f.stream_id, 7);
    assert_eq!(f.payload, b"PING\n".to_vec());
}

#[test]
fn pump_emits_one_frame_per_chunk_in_read_order() {
    let chunks = vec![vec![1u8, 2], vec![3u8], vec![], vec![4u8, 5, 6]];
    let frames = frames_for_chunks(9, &chunks);
    assert_eq!(frames.len(), 4);
    let mut delivered: Vec<u8> = Vec::new();
    for f in &frames {
        assert_eq!(f.stream_id, 9);
        delivered.extend_from_slice(&f.payload);
    }
    assert_eq!(delivered, vec![1u8, 2, 3, 4, 5, 6]);
}
