use pytron::transport::{
    encode_frame, pipe_endpoint_names, ChromeIPC, ConnStatus, FrameReader, ReadStep,
    TransportError,
};

#[test]
fn send_produces_header_then_payload() {
    // The 11-byte text framed as [11,0,0,0] then the bytes themselves.
    let mut ipc = ChromeIPC::new();
    ipc.listen("t1");
    ipc.connection_established();
    let frame = ipc.send("hello world").unwrap();
    let mut expected = vec![11u8, 0, 0, 0];
    expected.extend_from_slice(b"hello world");
    assert_eq!(frame, expected);
}

#[test]
fn send_requires_connection() {
    let mut ipc = ChromeIPC::new();
    assert_eq!(ipc.send("x"), Err(TransportError::NotConnected));
    ipc.listen("t2");
    assert_eq!(ipc.send("x"), Err(TransportError::NotConnected));
    ipc.connection_established();
    assert!(ipc.send("x").is_ok());
    ipc.connection_lost();
    assert_eq!(ipc.send("x"), Err(TransportError::NotConnected));
}

#[test]
fn connection_lifecycle() {
    let mut ipc = ChromeIPC::new();
    assert_eq!(ipc.status, ConnStatus::Unbound);
    assert!(!ipc.is_connected());
    let path = ipc.listen("sess42");
    assert_eq!(path, "/tmp/pytron-sess42.sock");
    assert_eq!(ipc.pipe_path, "/tmp/pytron-sess42.sock");
    assert_eq!(ipc.status, ConnStatus::Listening);
    ipc.connection_established();
    assert!(ipc.is_connected());
    ipc.connection_lost();
    assert_eq!(ipc.status, ConnStatus::Closed);
    assert!(!ipc.is_connected());
}

#[test]
fn pipe_names_follow_session_id() {
    let (base, pin, pout) = pipe_endpoint_names("sess42");
    assert_eq!(base, r"\\.\pipe\pytron-sess42");
    assert_eq!(pin, r"\\.\pipe\pytron-sess42-in");
    assert_eq!(pout, r"\\.\pipe\pytron-sess42-out");
}

#[test]
fn frame_round_trip_reproduces_bytes() {
    let payload: Vec<u8> = (0u8..=255).collect();
    let frame = encode_frame(&payload);
    assert_eq!(frame.len(), 4 + payload.len());
    let mut reader = FrameReader::new();
    reader.push_bytes(&frame);
    assert_eq!(reader.next_frame().unwrap(), payload);
    assert_eq!(reader.next_frame(), None);
}

#[test]
fn empty_payload_frame() {
    let frame = encode_frame(b"");
    assert_eq!(frame, vec![0u8, 0, 0, 0]);
    let mut reader = FrameReader::new();
    reader.push_bytes(&frame);
    assert_eq!(reader.next_frame().unwrap(), Vec::<u8>::new());
}

#[test]
fn consecutive_frames_keep_boundaries() {
    // Two sends are never coalesced or split by the reader.
    let a = b"first message".to_vec();
    let b = b"second".to_vec();
    let mut wire = encode_frame(&a);
    wire.extend_from_slice(&encode_frame(&b));
    let mut reader = FrameReader::new();
    reader.push_bytes(&wire);
    assert_eq!(reader.next_frame().unwrap(), a);
    assert_eq!(reader.next_frame().unwrap(), b);
    assert_eq!(reader.next_frame(), None);
}

#[test]
fn reader_waits_for_complete_frames() {
    let frame = encode_frame(b"hi");
    let mut reader = FrameReader::new();
    // Header arrives one byte at a time: nothing is delivered early.
    for i in 0..5 {
        assert_eq!(reader.next_text_frame(), ReadStep::NeedMore);
        reader.push_bytes(&frame[i..i + 1]);
    }
    assert_eq!(reader.next_text_frame(), ReadStep::NeedMore);
    reader.push_bytes(&frame[5..]);
    assert_eq!(reader.next_text_frame(), ReadStep::Frame("hi".to_string()));
    assert_eq!(reader.next_text_frame(), ReadStep::NeedMore);
}

#[test]
fn reader_rejects_non_utf8_frame() {
    let frame = encode_frame(&[0xffu8, 0xfe, 0x00]);
    let mut reader = FrameReader::new();
    reader.push_bytes(&frame);
    assert_eq!(reader.next_text_frame(), ReadStep::Corrupt);
}
