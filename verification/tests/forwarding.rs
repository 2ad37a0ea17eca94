use sse_gateway::forwarder::bad_gateway;
use sse_gateway::forwarder::buffered_response;
use sse_gateway::forwarder::build_outbound;
use sse_gateway::forwarder::forward_plan;
use sse_gateway::forwarder::media_type;
use sse_gateway::forwarder::method_name;
use sse_gateway::forwarder::parse_method;
use sse_gateway::forwarder::relay_step;
use sse_gateway::forwarder::select_mode;
use sse_gateway::forwarder::BodyRead;
use sse_gateway::forwarder::ChunkEvent;
use sse_gateway::forwarder::DeliveryMode;
use sse_gateway::forwarder::ForwardPlan;
use sse_gateway::forwarder::HeaderField;
use sse_gateway::forwarder::InboundRequest;
use sse_gateway::forwarder::Method;
use sse_gateway::forwarder::RelayStep;
use sse_gateway::forwarder::UpstreamHead;

#[test]
fn media_type_splits_and_trims() {
    assert_eq!(media_type("text/event-stream"), "text/event-stream");
    assert_eq!(media_type("text/event-stream; charset=utf-8"), "text/event-stream");
    assert_eq!(media_type("  text/plain  "), "text/plain");
    assert_eq!(media_type("application/json;x=y;z=w"), "application/json");
    assert_eq!(media_type(""), "");
    assert_eq!(media_type(" ; charset=utf-8"), "");
}

#[test]
fn event_stream_media_type_selects_streaming() {
    let ct = Some(String::from("text/event-stream; charset=utf-8"));
    assert_eq!(select_mode(&ct), DeliveryMode::Streaming);
    let plain = Some(String::from("text/event-stream"));
    assert_eq!(select_mode(&plain), DeliveryMode::Streaming);
}

#[test]
fn other_media_types_select_buffering() {
    assert_eq!(select_mode(&Some(String::from("text/plain"))), DeliveryMode::Buffered);
    assert_eq!(select_mode(&Some(String::from("application/json"))), DeliveryMode::Buffered);
    assert_eq!(select_mode(&None), DeliveryMode::Buffered);
    assert_eq!(
        select_mode(&Some(String::from("text/event-streamx"))),
        DeliveryMode::Buffered
    );
}

#[test]
fn streaming_plan_preserves_header_verbatim() {
    let head = UpstreamHead {
        status: 200,
        content_type: Some(String::from("text/event-stream; charset=utf-8")),
    };
    match forward_plan(Some(head)) {
        ForwardPlan::Stream { content_type } => {
            assert_eq!(content_type.unwrap(), "text/event-stream; charset=utf-8");
        },
        _ => panic!("an event-stream response must stream"),
    }
}

#[test]
fn buffered_plan_reuses_valid_status() {
    let head = UpstreamHead { status: 404, content_type: Some(String::from("text/plain")) };
    match forward_plan(Some(head)) {
        ForwardPlan::Buffer { status, content_type } => {
            assert_eq!(status, 404);
            assert_eq!(content_type.unwrap(), "text/plain");
        },
        _ => panic!("a plain response must buffer"),
    }
}

#[test]
fn buffered_plan_replaces_invalid_status() {
    let head = UpstreamHead { status: 1000, content_type: None };
    match forward_plan(Some(head)) {
        ForwardPlan::Buffer { status, content_type } => {
            assert_eq!(status, 500);
            assert!(content_type.is_none());
        },
        _ => panic!("an absent content type must buffer"),
    }
    let head = UpstreamHead { status: 99, content_type: None };
    match forward_plan(Some(head)) {
        ForwardPlan::Buffer { status, .. } => assert_eq!(status, 500),
        _ => panic!("an absent content type must buffer"),
    }
}

#[test]
fn unreachable_upstream_becomes_fixed_502() {
    assert!(matches!(forward_plan(None), ForwardPlan::BadGateway));
    let r = bad_gateway();
    assert_eq!(r.status, 502);
    assert!(r.content_type.is_none());
    assert_eq!(r.body, b"upstream unreachable".to_vec());
}

#[test]
fn proxied_404_keeps_status_and_body() {
    let head = UpstreamHead { status: 404, content_type: Some(String::from("text/plain")) };
    let plan = forward_plan(Some(head));
    let (status, content_type) = match plan {
        ForwardPlan::Buffer { status, content_type } => (status, content_type),
        _ => panic!("a plain 404 must buffer"),
    };
    let body = b"not found here".to_vec();
    let resp = buffered_response(status, content_type, BodyRead::Complete(body.clone()));
    assert_eq!(resp.status, 404);
    assert_eq!(resp.content_type.unwrap(), "text/plain");
    assert_eq!(resp.body, body);
}

#[test]
fn failed_body_read_degrades_to_empty() {
    let resp = buffered_response(200, Some(String::from("text/html")), BodyRead::Failed);
    assert_eq!(resp.status, 200);
    assert!(resp.body.is_empty());
}

#[test]
fn relay_forwards_chunks_unmodified_and_terminates_on_fault() {
    let chunk = vec![0u8, 1, 2, 255];
    match relay_step(ChunkEvent::Chunk(chunk.clone())) {
        RelayStep::Forward(b) => assert_eq!(b, chunk),
        RelayStep::Terminate => panic!("a chunk must be forwarded"),
    }
    assert!(matches!(relay_step(ChunkEvent::Fault), RelayStep::Terminate));
    assert!(matches!(relay_step(ChunkEvent::End), RelayStep::Terminate));
}

#[test]
fn method_parse_recognizes_and_falls_back() {
    assert_eq!(parse_method("GET"), Method::Get);
    assert_eq!(parse_method("POST"), Method::Post);
    assert_eq!(parse_method("PATCH"), Method::Patch);
    assert_eq!(parse_method("DELETE"), Method::Delete);
    assert_eq!(parse_method("FETCH"), Method::Get);
    assert_eq!(parse_method("get"), Method::Get);
    assert_eq!(parse_method(""), Method::Get);
    assert_eq!(method_name(&Method::Options), "OPTIONS");
}

#[test]
fn outbound_request_copies_request_faithfully() {
    let req = InboundRequest {
        method: String::from("POST"),
        target: String::from("/somewhere?x=1"),
        headers: vec![
            HeaderField { name: String::from("x-plain"), value: b"visible value".to_vec() },
            HeaderField { name: String::from("x-binary"), value: vec![0xff, 0x00, 0x80] },
        ],
        body: vec![1, 2, 3, 4],
    };
    let out = build_outbound(&req, "127.0.0.1:9000");
    assert_eq!(out.method, Method::Post);
    assert_eq!(out.origin, "127.0.0.1:9000");
    assert_eq!(out.target, "/somewhere?x=1");
    assert_eq!(out.headers.len(), 2);
    assert_eq!(out.headers[0].name, "x-plain");
    assert_eq!(out.headers[0].value, "visible value");
    assert_eq!(out.headers[1].name, "x-binary");
    assert_eq!(out.headers[1].value, "");
    assert_eq!(out.body, vec![1, 2, 3, 4]);
}
