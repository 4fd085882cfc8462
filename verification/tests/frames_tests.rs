use xiaoshi::frames::{classify_frame, sse_body_payloads, FrameBuffer, FrameEvent};

// A frame split across two arbitrarily sized chunks is reassembled.
#[test]
fn test_frame_split_across_chunks() {
    let mut buf = FrameBuffer::new();
    let frames = buf.feed(b"data: {\"id\"");
    assert!(frames.is_empty());
    let frames = buf.feed(b":1}\n\ndata: next");
    assert_eq!(frames.len(), 1);
    assert_eq!(frames[0], b"data: {\"id\":1}".to_vec());
    // the unterminated remainder stays buffered until its delimiter arrives
    let frames = buf.feed(b"\n\n");
    assert_eq!(frames.len(), 1);
    assert_eq!(frames[0], b"data: next".to_vec());
}

// The delimiter itself may be split across the chunk boundary.
#[test]
fn test_delimiter_split_across_chunks() {
    let mut buf = FrameBuffer::new();
    assert!(buf.feed(b"data: x\n").is_empty());
    let frames = buf.feed(b"\n");
    assert_eq!(frames.len(), 1);
    assert_eq!(frames[0], b"data: x".to_vec());
}

#[test]
fn test_two_frames_in_one_chunk() {
    let mut buf = FrameBuffer::new();
    let frames = buf.feed(b"data: a\n\ndata: b\n\n");
    assert_eq!(frames.len(), 2);
    assert_eq!(frames[0], b"data: a".to_vec());
    assert_eq!(frames[1], b"data: b".to_vec());
}

// An empty frame is handed out but means nothing to the transport.
#[test]
fn test_empty_frame_is_ignored() {
    let mut buf = FrameBuffer::new();
    let frames = buf.feed(b"\n\n");
    assert_eq!(frames.len(), 1);
    assert!(frames[0].is_empty());
    assert!(matches!(classify_frame(&frames[0]), FrameEvent::Ignored));
}

#[test]
fn test_classify_data_frame() {
    match classify_frame(b"data: {\"id\":1}") {
        FrameEvent::Data(p) => assert_eq!(p, b"{\"id\":1}".to_vec()),
        _ => panic!("expected a data frame"),
    }
}

#[test]
fn test_classify_session_frame() {
    match classify_frame(b"event: session\ndata:  sess-42 \n") {
        FrameEvent::Session(sid) => assert_eq!(sid, b"sess-42".to_vec()),
        _ => panic!("expected a session frame"),
    }
}

#[test]
fn test_classify_unknown_frame() {
    assert!(matches!(classify_frame(b"event: ping"), FrameEvent::Ignored));
}

#[test]
fn test_body_payload_single_json_frame() {
    let payloads = sse_body_payloads(b"event: message\ndata: {\"id\":3}\n\n");
    assert_eq!(payloads, vec![b"{\"id\":3}".to_vec()]);
}

#[test]
fn test_body_payload_joins_data_lines() {
    let payloads = sse_body_payloads(b"data: part one\ndata:part two\n\n");
    assert_eq!(payloads, vec![b"part one\npart two".to_vec()]);
}

#[test]
fn test_body_payload_skips_events_without_data() {
    let payloads = sse_body_payloads(b"event: ping\n\ndata: real\n\n: comment only");
    assert_eq!(payloads, vec![b"real".to_vec()]);
}

#[test]
fn test_body_payload_strips_carriage_returns() {
    let payloads = sse_body_payloads(b"data: crlf\r\n\ndone");
    assert_eq!(payloads, vec![b"crlf".to_vec()]);
}
