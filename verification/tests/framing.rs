use sse_gateway::greet;
use sse_gateway::sse::frame;
use sse_gateway::sse::frame_string;
use sse_gateway::sse::parse_frame;
use sse_gateway::sse::Event;

fn ev(name: &str, content: &str) -> Event {
    Event { event: String::from(name), content: String::from(content) }
}

#[test]
fn frame_exact_bytes() {
    let e = ev("message", "hi");
    let b = frame(&e);
    assert_eq!(b, b"data: {\"event\":\"message\",\"content\":\"hi\"}\n\n".to_vec());
}

#[test]
fn frame_escapes_specials() {
    let e = ev("message", "a\"b\\c\nd\te\rf");
    let s = frame_string(&e);
    assert_eq!(
        s,
        "data: {\"event\":\"message\",\"content\":\"a\\\"b\\\\c\\nd\\te\\rf\"}\n\n"
    );
}

#[test]
fn frame_escapes_control_chars() {
    let e = ev("message", "\u{1}\u{1f}");
    let s = frame_string(&e);
    assert_eq!(s, "data: {\"event\":\"message\",\"content\":\"\\u0001\\u001f\"}\n\n");
}

#[test]
fn frame_idempotent_on_equal_events() {
    let a = ev("message", "same payload");
    let b = ev("message", "same payload");
    assert_eq!(frame(&a), frame(&b));
    assert_eq!(frame(&a), frame(&a));
}

#[test]
fn frame_parse_round_trip_plain() {
    let e = ev("message", "hello world");
    let s = String::from_utf8(frame(&e)).unwrap();
    let back = parse_frame(&s).unwrap();
    assert_eq!(back.event, e.event);
    assert_eq!(back.content, e.content);
}

#[test]
fn frame_parse_round_trip_specials() {
    let cases = [
        ("message", "quote \" backslash \\ newline \n tab \t"),
        ("error", "control \u{1} bell \u{7} unit \u{1f}"),
        ("message", "unicode héllo ☃ 日本"),
        ("", ""),
        ("a\"b", "data: {\"event\":\"x\"}"),
    ];
    for (name, content) in cases {
        let e = ev(name, content);
        let s = String::from_utf8(frame(&e)).unwrap();
        let back = parse_frame(&s).unwrap();
        assert_eq!(back.event, e.event);
        assert_eq!(back.content, e.content);
    }
}

#[test]
fn parse_rejects_malformed() {
    assert!(parse_frame("").is_none());
    assert!(parse_frame("data: {\"event\":\"a\"}\n\n").is_none());
    assert!(parse_frame("data: {\"event\":\"a\",\"content\":\"b\"}").is_none());
    assert!(parse_frame("data: {\"event\":\"a\",\"content\":\"b\"}\n\nx").is_none());
    assert!(parse_frame("{\"event\":\"a\",\"content\":\"b\"}\n\n").is_none());
    assert!(parse_frame("data: {\"event\":\"a\",\"content\":\"unterminated}\n\n").is_none());
    assert!(parse_frame("data: {\"event\":\"a\",\"content\":\"bad\\escape\"}\n\n").is_none());
}

#[test]
fn parse_rejects_raw_control_in_string() {
    assert!(parse_frame("data: {\"event\":\"a\",\"content\":\"\u{1}\"}\n\n").is_none());
}

#[test]
fn greet_builds_canonical_greeting() {
    assert_eq!(greet("World"), "Hello, World! from core");
    assert_eq!(greet(""), "Hello, ! from core");
}
