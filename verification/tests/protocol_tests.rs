use xiaoshi::errors::McpError;
use xiaoshi::ids::RequestIdGenerator;
use xiaoshi::jsonrpc::{decode_response, encode_request, response_outcome, u64_to_bytes, LATEST_PROTOCOL_VERSION};
use xiaoshi::pending::PendingTable;
use xiaoshi::transport::{declares_event_stream, sse_post_url, FrameOutcome, SessionState, TransportCore};

#[test]
fn test_request_id_sequence() {
    let mut ids = RequestIdGenerator::new();
    assert_eq!(ids.next_request_id(), 1);
    assert_eq!(ids.next_request_id(), 2);
    assert_eq!(ids.next_request_id(), 3);
}

#[test]
fn test_protocol_version() {
    assert_eq!(LATEST_PROTOCOL_VERSION, "2024-11-05");
}

#[test]
fn test_encode_request_with_id() {
    let bytes = encode_request(Some(7), "tools/list", None);
    assert_eq!(bytes, b"{\"jsonrpc\":\"2.0\",\"id\":7,\"method\":\"tools/list\"}".to_vec());
}

#[test]
fn test_encode_notification() {
    let bytes = encode_request(None, "notifications/initialized", None);
    assert_eq!(
        bytes,
        b"{\"jsonrpc\":\"2.0\",\"method\":\"notifications/initialized\"}".to_vec()
    );
}

#[test]
fn test_encode_request_with_params() {
    let params = b"{\"name\":\"t\"}".to_vec();
    let bytes = encode_request(Some(12), "tools/call", Some(&params));
    assert_eq!(
        bytes,
        b"{\"jsonrpc\":\"2.0\",\"id\":12,\"method\":\"tools/call\",\"params\":{\"name\":\"t\"}}".to_vec()
    );
}

#[test]
fn test_encode_request_escapes_method() {
    let bytes = encode_request(None, "a\"b\\c\nd", None);
    assert_eq!(
        bytes,
        b"{\"jsonrpc\":\"2.0\",\"method\":\"a\\\"b\\\\c\\nd\"}".to_vec()
    );
}

#[test]
fn test_u64_to_bytes() {
    assert_eq!(u64_to_bytes(0), b"0".to_vec());
    assert_eq!(u64_to_bytes(90210), b"90210".to_vec());
    assert_eq!(u64_to_bytes(u64::MAX), b"18446744073709551615".to_vec());
}

// Out-of-order responses wake the right waiters, each exactly once.
#[test]
fn test_out_of_order_resolution() {
    let mut table: PendingTable<&str> = PendingTable::new();
    table.register(1, "first waiter");
    table.register(2, "second waiter");
    assert!(table.contains(1) && table.contains(2) && !table.contains(3));
    // the response to request 2 arrives first
    assert_eq!(table.resolve(2), Some("second waiter"));
    assert!(!table.contains(2));
    assert_eq!(table.resolve(1), Some("first waiter"));
    // no slot can be resolved twice
    assert_eq!(table.resolve(2), None);
    assert_eq!(table.resolve(1), None);
    assert_eq!(table.len(), 0);
}

// Timing-out requests release their slots: the table does not grow.
#[test]
fn test_timeout_releases_slots() {
    let mut ids = RequestIdGenerator::new();
    let mut core: TransportCore<u32> = TransportCore::new();
    for round in 0..100u32 {
        let (id, _bytes) = core.prepare_request(&mut ids, round, "tools/call", None);
        // no response arrives: the timeout path takes the waiter out
        assert_eq!(core.take_waiter(id), Some(round));
    }
    assert_eq!(core.in_flight(), 0);
}

// One process-owned generator serves every transport, so ids of
// concurrently in-flight requests never collide across transports.
#[test]
fn test_shared_generator_across_transports() {
    let mut ids = RequestIdGenerator::new();
    let mut core_a: TransportCore<&str> = TransportCore::new();
    let mut core_b: TransportCore<&str> = TransportCore::new();
    let (id1, _) = core_a.prepare_request(&mut ids, "a", "tools/call", None);
    let (id2, _) = core_b.prepare_request(&mut ids, "b", "tools/call", None);
    let (id3, _) = core_a.prepare_request(&mut ids, "c", "tools/call", None);
    assert!(id1 < id2 && id2 < id3);
    assert!(ids.current_id() > id3);
    assert!(core_a.watermark_value() == id3 + 1 && core_b.watermark_value() == id2 + 1);
}

#[test]
fn test_decode_response_result() {
    let env = decode_response(b"{\"jsonrpc\":\"2.0\",\"id\":5,\"result\":{\"ok\":true}}").unwrap();
    assert_eq!(env.id, Some(5));
    assert!(env.error.is_none());
    match response_outcome(env) {
        Ok(Some(v)) => assert_eq!(v, b"{\"ok\":true}".to_vec()),
        _ => panic!("expected a result payload"),
    }
}

#[test]
fn test_decode_response_error() {
    let env =
        decode_response(b"{\"jsonrpc\":\"2.0\",\"id\":5,\"error\":{\"code\":-32600,\"message\":\"bad\"}}")
            .unwrap();
    assert_eq!(env.id, Some(5));
    match response_outcome(env) {
        Err(e) => assert_eq!(e.describe(), "MCP 错误: bad (code: -32600)"),
        Ok(_) => panic!("expected a protocol error"),
    }
}

#[test]
fn test_decode_response_rejects_malformed() {
    assert!(decode_response(b"this is not json").is_none());
    assert!(decode_response(b"").is_none());
}

#[test]
fn test_correlation_end_to_end() {
    let mut ids = RequestIdGenerator::new();
    let mut core: TransportCore<&str> = TransportCore::new();
    let (id, wire) = core.prepare_request(&mut ids, "the waiter", "tools/list", None);
    assert!(String::from_utf8(wire).unwrap().contains(&format!("\"id\":{}", id)));
    let response = format!("{{\"jsonrpc\":\"2.0\",\"id\":{},\"result\":{{}}}}", id);
    match core.handle_payload(response.as_bytes()) {
        Some((w, Ok(Some(_)))) => assert_eq!(w, "the waiter"),
        _ => panic!("expected the registered waiter with its result"),
    }
    // a duplicate of the same response finds the slot gone
    assert!(core.handle_payload(response.as_bytes()).is_none());
    // a response nobody waits for is discarded
    assert!(core.handle_payload(b"{\"jsonrpc\":\"2.0\",\"id\":9999,\"result\":{}}").is_none());
    // a malformed line is skipped
    assert!(core.handle_payload(b"garbage").is_none());
}

#[test]
fn test_transport_error_texts() {
    assert_eq!(McpError::Timeout.describe(), "MCP 请求超时");
    assert_eq!(
        McpError::Transport("连接断开".to_string()).describe(),
        "传输错误: 连接断开"
    );
    assert_eq!(
        McpError::NotFound("weather".to_string()).describe(),
        "找不到工具 weather 对应的 MCP 服务器"
    );
}

#[test]
fn test_sse_post_url() {
    assert_eq!(sse_post_url("http://localhost:3000/sse"), "http://localhost:3000/message");
    assert_eq!(sse_post_url("http://h/mcp"), "http://h/mcp");
}

#[test]
fn test_declares_event_stream() {
    assert!(declares_event_stream("text/event-stream; charset=utf-8"));
    assert!(!declares_event_stream("application/json"));
}

// A data frame of the event stream resolves its pending request through
// the same correlation path.
#[test]
fn test_frame_resolves_pending_request() {
    let mut ids = RequestIdGenerator::new();
    let mut core: TransportCore<&str> = TransportCore::new();
    let (id, _wire) = core.prepare_request(&mut ids, "stream waiter", "tools/list", None);
    let frame = format!("data: {{\"jsonrpc\":\"2.0\",\"id\":{},\"result\":{{}}}}", id);
    match core.handle_frame(frame.as_bytes()) {
        FrameOutcome::Resolved(w, Ok(Some(body))) => {
            assert_eq!(w, "stream waiter");
            assert_eq!(body, b"{}".to_vec());
        },
        _ => panic!("expected the stream frame to resolve the request"),
    }
    match core.handle_frame(b"event: session\ndata: s-1\n") {
        FrameOutcome::NewSession(sid) => assert_eq!(sid, b"s-1".to_vec()),
        _ => panic!("expected a session announcement"),
    }
    assert!(matches!(core.handle_frame(b""), FrameOutcome::Nothing));
}

#[test]
fn test_session_state() {
    let mut s = SessionState::new();
    assert!(s.current().is_none());
    s.observe_header(None);
    assert!(s.current().is_none());
    s.observe_header(Some(b"abc".to_vec()));
    assert_eq!(s.current().unwrap(), &b"abc".to_vec());
    // absent header on a later response keeps the old identifier
    s.observe_header(None);
    assert_eq!(s.current().unwrap(), &b"abc".to_vec());
    s.set(b"xyz".to_vec());
    assert_eq!(s.current().unwrap(), &b"xyz".to_vec());
}
