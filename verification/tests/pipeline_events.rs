use sse_gateway::pipeline::next_stage;
use sse_gateway::router::goto_of_query;
use sse_gateway::sse::parse_frame;
use sse_gateway::pipeline::parse_stage_payload;
use sse_gateway::pipeline::pipeline_events;
use sse_gateway::pipeline::stage_payload;
use sse_gateway::pipeline::Stage;
use sse_gateway::sse::frame;

#[test]
fn stage_payload_is_goto_json() {
    assert_eq!(stage_payload(2), "{\"goto\":2}");
    assert_eq!(stage_payload(3), "{\"goto\":3}");
    assert_eq!(stage_payload(12345), "{\"goto\":12345}");
}

#[test]
fn stage_payload_round_trip() {
    for g in [0u64, 2, 3, 7, 42, u64::MAX] {
        let s = stage_payload(g);
        let back = parse_stage_payload(&s).unwrap();
        assert_eq!(back.goto_value, g);
    }
}

#[test]
fn stage_parse_rejects_malformed() {
    assert!(parse_stage_payload("").is_none());
    assert!(parse_stage_payload("{\"goto\":}").is_none());
    assert!(parse_stage_payload("{\"goto\":2").is_none());
    assert!(parse_stage_payload("{\"goto\":2x}").is_none());
    assert!(parse_stage_payload("{\"go\":2}").is_none());
    assert!(parse_stage_payload("{\"goto\":99999999999999999999999}").is_none());
}

#[test]
fn stage_routing_is_total() {
    assert_eq!(next_stage(2), Stage::FunctionTwo);
    assert_eq!(next_stage(3), Stage::FunctionThree);
    assert_eq!(next_stage(0), Stage::Invalid);
    assert_eq!(next_stage(4), Stage::Invalid);
    assert_eq!(next_stage(u64::MAX), Stage::Invalid);
}

#[test]
fn pipeline_goto_2_grows_and_ends_with_marker() {
    let evs = pipeline_events(2);
    let payload = "{\"goto\":2}";
    assert_eq!(evs.len(), payload.len() + 1);
    for (i, e) in evs.iter().take(payload.len()).enumerate() {
        assert_eq!(e.event, "message");
        assert_eq!(e.content, payload[..i + 1].to_string());
    }
    let last = evs.last().unwrap();
    assert_eq!(last.event, "message");
    assert_eq!(last.content, "This is function 2");
}

#[test]
fn pipeline_goto_3_ends_with_marker() {
    let evs = pipeline_events(3);
    let last = evs.last().unwrap();
    assert_eq!(last.event, "message");
    assert_eq!(last.content, "This is function 3");
}

#[test]
fn pipeline_unknown_goto_ends_with_single_invalid_event() {
    let evs = pipeline_events(7);
    let payload = "{\"goto\":7}";
    assert_eq!(evs.len(), payload.len() + 1);
    let last = evs.last().unwrap();
    assert_eq!(last.event, "error");
    assert_eq!(last.content, "invalid route");
    for e in evs.iter().take(payload.len()) {
        assert_eq!(e.event, "message");
    }
}

#[test]
fn stream_shape_for_goto_2() {
    let evs = pipeline_events(2);
    let mut wire: Vec<u8> = Vec::new();
    for e in &evs {
        wire.extend_from_slice(&frame(e));
    }
    let text = String::from_utf8(wire).unwrap();
    let pieces: Vec<&str> = text.split("\n\n").collect();
    assert_eq!(pieces.last(), Some(&""));
    let frames = &pieces[..pieces.len() - 1];
    assert_eq!(frames.len(), evs.len());
    for p in frames {
        assert!(p.starts_with("data: "));
    }
    assert_eq!(
        frames[frames.len() - 2],
        "data: {\"event\":\"message\",\"content\":\"{\\\"goto\\\":2}\"}"
    );
    assert_eq!(
        frames[frames.len() - 1],
        "data: {\"event\":\"message\",\"content\":\"This is function 2\"}"
    );
}

#[test]
fn scenario_query_to_stream() {
    let goto_value = goto_of_query("goto=2");
    let evs = pipeline_events(goto_value);
    let mut parsed = Vec::new();
    for e in &evs {
        let wire = String::from_utf8(frame(e)).unwrap();
        parsed.push(parse_frame(&wire).unwrap());
    }
    for w in parsed.windows(2).take(parsed.len() - 2) {
        assert_eq!(w[0].event, "message");
        assert!(w[1].content.starts_with(&w[0].content));
        assert_eq!(w[1].content.len(), w[0].content.len() + 1);
    }
    let complete = &parsed[parsed.len() - 2];
    assert_eq!(complete.content, "{\"goto\":2}");
    let last = &parsed[parsed.len() - 1];
    assert_eq!(last.content, "This is function 2");
}
