use agentgateway::streaming_guardrails::evaluators::{
    evaluate_window, Action, FailureMode, RegexEvaluator, RegexRule, RegexRules,
};
use agentgateway::websocket::accumulator::{
    encode_ws_text_frame, encode_ws_text_frame_masked, WsCompletedFrame, WsFrameAccumulator,
};
use agentgateway::websocket::realtime::{
    client_verdict, guardrail_blocked_ws_event_bytes, on_client_frame, response_cancel_event_bytes,
    Actions, ClientStep, ResponseWindowGuard, ServerStep,
};
use agentgateway::websocket::usage::{
    emit, mentions_response_done, Parser, RealtimeUsage, ResponseDoneEvent, ResponseResource,
};
use bytes::Bytes;

fn frames_of(data: &[u8]) -> Vec<WsCompletedFrame> {
    let mut accum = WsFrameAccumulator::new();
    accum.push(data);
    accum.drain_frames()
}

fn payload_of(frame: &WsCompletedFrame) -> Vec<u8> {
    match frame {
        WsCompletedFrame::Text { payload, .. } => payload.to_vec(),
        WsCompletedFrame::Other { .. } => panic!("expected text frame"),
    }
}

fn text_frame_of(text: &str) -> WsCompletedFrame {
    frames_of(&encode_ws_text_frame(text.as_bytes())).remove(0)
}

#[test]
fn record_text_payload_disables_after_limit() {
    let mut parser = Parser::new(4);

    assert!(parser.record_text_payload(b"abc"));
    assert_eq!(&parser.buf[..], b"abc");
    parser.buf.reserve(1024);
    assert!(!parser.record_text_payload(b"de"));
    assert!(parser.disabled);
    assert!(parser.buf.is_empty());
    assert_eq!(parser.buf.capacity(), 0);
}

#[test]
fn response_cancel_includes_response_id() {
    let bytes = response_cancel_event_bytes("resp_X", [0, 0, 0, 0]);
    let frames = frames_of(&bytes);
    let WsCompletedFrame::Text { payload, .. } = &frames[0] else {
        panic!("expected text frame");
    };
    let json: serde_json::Value = serde_json::from_slice(payload).unwrap();
    assert_eq!(
        json.get("response_id").and_then(|v| v.as_str()),
        Some("resp_X"),
        "response.cancel must carry response_id to target the correct response; got: {json}"
    );
}

fn delta_event(event: &str, response: &str, item: &str, delta: &str) -> String {
    format!(
        r#"{{"type":"response.output_text.delta","event_id":"{event}","response_id":"{response}","item_id":"{item}","output_index":0,"content_index":0,"delta":"{delta}"}}"#
    )
}

fn done_event(event: &str, response: &str, item: &str, text: &str) -> String {
    format!(
        r#"{{"type":"response.output_text.done","event_id":"{event}","response_id":"{response}","item_id":"{item}","output_index":0,"content_index":0,"text":"{text}"}}"#
    )
}

/// A session whose server is watched for a pattern.
struct Session {
    accum: WsFrameAccumulator,
    guard: ResponseWindowGuard,
    evaluator: RegexEvaluator,
    to_client: Vec<u8>,
    to_server: Vec<u8>,
    usage: Vec<u64>,
}

impl Session {
    fn new(pattern: &str) -> Session {
        Session {
            accum: WsFrameAccumulator::new(),
            guard: ResponseWindowGuard::new(),
            evaluator: RegexEvaluator {
                rules: RegexRules {
                    action: Action::Reject,
                    rules: vec![RegexRule::Regex {
                        pattern: regex::Regex::new(pattern).unwrap(),
                    }],
                },
            },
            to_client: Vec::new(),
            to_server: Vec::new(),
            usage: Vec::new(),
        }
    }

    fn send(&mut self, actions: Actions) {
        for frame in actions.to_client {
            self.to_client.extend_from_slice(&frame);
        }
        for frame in actions.to_server {
            self.to_server.extend_from_slice(&frame);
        }
        if let Some(usage) = actions.usage {
            self.usage.push(usage.total_tokens.unwrap());
        }
    }

    fn from_server(&mut self, data: &[u8]) {
        self.accum.push(data);
        for frame in self.accum.drain_frames() {
            match self.guard.server_frame(frame) {
                ServerStep::Send(actions) => self.send(actions),
                ServerStep::Evaluate(window) => {
                    let blocked = evaluate_window(&vec![(
                        Ok(self.evaluator.evaluate(&window, &vec![])),
                        FailureMode::FailClosed,
                    )]);
                    let actions = self.guard.verdict(blocked);
                    self.send(actions);
                }
            }
        }
    }

    fn text_from_server(&mut self, text: &str) {
        self.from_server(&encode_ws_text_frame(text.as_bytes()));
    }

    fn client_events(&self) -> Vec<serde_json::Value> {
        frames_of(&self.to_client)
            .iter()
            .map(|f| serde_json::from_slice(&payload_of(f)).unwrap())
            .collect()
    }
}

fn is_delta_of(event: &serde_json::Value, response: &str) -> bool {
    event.get("type").and_then(|t| t.as_str()) == Some("response.output_text.delta")
        && event.get("response_id").and_then(|r| r.as_str()) == Some(response)
}

#[test]
fn blocked_response_does_not_suppress_concurrent_response() {
    let mut session = Session::new("BLOCK_THIS");

    let padding = "x".repeat(1020);
    session.text_from_server(&delta_event(
        "e1",
        "resp_A",
        "i1",
        &format!("{padding}BLOCK_THIS"),
    ));
    session.text_from_server(&delta_event("e2", "resp_B", "i2", "clean content from B"));
    session.text_from_server(&done_event("e3", "resp_B", "i2", "clean content from B"));

    let events = session.client_events();
    assert!(
        events.iter().any(|e| is_delta_of(e, "resp_B")),
        "resp_B delta must reach the client; received events: {events:?}"
    );
    assert!(!events.iter().any(|e| is_delta_of(e, "resp_A")));
    assert_eq!(
        session.to_server,
        response_cancel_event_bytes("resp_A", [0, 0, 0, 0])
    );
}

#[test]
fn a_blocked_response_stays_silent_until_it_is_done() {
    let mut session = Session::new("BLOCK");
    session.text_from_server(&delta_event("e1", "r", "i", &"BLOCK".repeat(300)));
    assert_eq!(session.to_client, guardrail_blocked_ws_event_bytes());
    session.text_from_server(&delta_event("e2", "r", "i", "more"));
    session.text_from_server(&done_event("e3", "r", "i", "all"));
    assert_eq!(session.to_client, guardrail_blocked_ws_event_bytes());
    assert!(session.guard.blocked_responses.is_empty());
    session.text_from_server(&delta_event("e4", "r", "i", "fine"));
    session.text_from_server(&done_event("e5", "r", "i", "fine"));
    let events = session.client_events();
    assert_eq!(events.len(), 3);
    assert!(is_delta_of(&events[1], "r"));
}

#[test]
fn short_text_waits_for_the_end() {
    let mut session = Session::new("BLOCK");
    session.text_from_server(&delta_event("e1", "r", "i", "hello "));
    session.text_from_server(&delta_event("e2", "r", "i", "world"));
    assert!(session.to_client.is_empty());
    session.text_from_server(&done_event("e3", "r", "i", "hello world"));
    assert_eq!(session.client_events().len(), 3);
    assert!(session.to_server.is_empty());
}

#[test]
fn text_may_be_blocked_at_its_end() {
    let mut session = Session::new("BLOCK");
    session.text_from_server(&delta_event("e1", "r", "i", "BL"));
    session.text_from_server(&delta_event("e2", "r", "i", "OCK"));
    session.text_from_server(&done_event("e3", "r", "i", "BLOCK"));
    assert_eq!(session.to_client, guardrail_blocked_ws_event_bytes());
    assert_eq!(session.guard.blocked_responses, vec!["r".to_string()]);
}

#[test]
fn other_frames_pass_at_once() {
    let mut session = Session::new("BLOCK");
    session.text_from_server(&delta_event("e1", "r", "i", "held"));
    let ping = [0x89u8, 0x01, 0x2a];
    session.from_server(&ping);
    assert_eq!(session.to_client, ping);
    session.text_from_server(r#"{"type":"BLOCK"}"#);
    session.text_from_server("BLOCK, and not JSON");
    let frames = frames_of(&session.to_client);
    assert_eq!(frames.len(), 3);
}

#[test]
fn usage_is_logged_and_passed_on() {
    let mut session = Session::new("BLOCK");
    let done = r#"{"type":"response.done","event_id":"e","response":{"id":"r","object":"realtime.response","status":"completed","status_details":null,"output":[],"output_modalities":["text"],"max_output_tokens":"inf","audio":null,"conversation_id":null,"metadata":null,"usage":{"total_tokens":30,"input_tokens":10,"output_tokens":20,"input_token_details":null,"output_token_details":null}}}"#;
    session.text_from_server(done);
    assert_eq!(session.client_events().len(), 1);
    assert_eq!(session.usage, vec![30]);
}

#[test]
fn emit_reports_usage_of_done_responses() {
    let usage = RealtimeUsage {
        input_tokens: 10,
        output_tokens: 20,
        total_tokens: 30,
        cached_tokens: Some(4),
    };
    let event = |usage| {
        Some(ResponseDoneEvent {
            response: ResponseResource { usage },
        })
    };
    let data = br#"{"type":"response.done"}"#;
    let report = emit(data, event(Some(usage))).unwrap();
    assert_eq!(report.input_tokens, Some(10));
    assert_eq!(report.output_tokens, Some(20));
    assert_eq!(report.total_tokens, Some(30));
    assert_eq!(report.cached_input_tokens, Some(4));
    assert!(emit(data, event(None)).is_none());
    assert!(emit(data, None).is_none());
    assert!(emit(b"response.started", event(Some(usage))).is_none());
    assert!(emit(b"response.done\xff", event(Some(usage))).is_none());
    assert!(mentions_response_done(b"...response.done..."));
}

#[test]
fn the_parser_hands_out_text_messages() {
    let mut parser = Parser::new(1024);
    let mut stream = Vec::new();
    stream.extend_from_slice(&encode_ws_text_frame(b"one"));
    stream.extend_from_slice(&[0x82, 0x01, 0x00]);
    stream.extend_from_slice(&encode_ws_text_frame(b"two"));
    let whole = parser.observe(&stream);
    assert_eq!(whole, vec![Bytes::from_static(b"one"), Bytes::from_static(b"two")]);
    let mut pieces = Parser::new(1024);
    let mut got = Vec::new();
    for b in &stream {
        got.extend(pieces.observe(&[*b]));
    }
    assert_eq!(got, whole);
}

#[test]
fn the_parser_gives_up_on_long_messages() {
    let mut parser = Parser::new(4);
    assert!(parser.observe(&encode_ws_text_frame(b"abcde")).is_empty());
    assert!(parser.disabled);
    assert!(parser.observe(&encode_ws_text_frame(b"ok")).is_empty());
}

#[test]
fn frames_are_written_as_the_protocol_says() {
    assert_eq!(&encode_ws_text_frame(b"Hello")[..], b"\x81\x05Hello");
    assert_eq!(
        &encode_ws_text_frame_masked(b"Hello", [0x37, 0xfa, 0x21, 0x3d])[..],
        &[0x81, 0x85, 0x37, 0xfa, 0x21, 0x3d, 0x7f, 0x9f, 0x4d, 0x51, 0x58]
    );
    assert_eq!(&encode_ws_text_frame(&[b'x'; 126])[..4], &[0x81, 126, 0, 126]);
    assert_eq!(
        &encode_ws_text_frame(&[b'x'; 65536])[..10],
        &[0x81, 127, 0, 0, 0, 0, 0, 1, 0, 0]
    );
}

#[test]
fn frames_are_read_back() {
    for n in [0usize, 1, 125, 126, 252, 253, 300, 70000] {
        let payload: Vec<u8> = (0..n).map(|i| (i % 251) as u8).collect();
        let plain = encode_ws_text_frame(&payload);
        let masked = encode_ws_text_frame_masked(&payload, [1, 2, 3, 4]);
        let mut data = plain.to_vec();
        data.extend_from_slice(&masked);
        let frames = frames_of(&data);
        assert_eq!(frames.len(), 2);
        assert_eq!(payload_of(&frames[0]), payload);
        assert_eq!(payload_of(&frames[1]), payload);
        let WsCompletedFrame::Text { raw, .. } = &frames[1] else {
            panic!("expected text frame");
        };
        assert_eq!(raw, &masked);
    }
}

#[test]
fn frames_may_come_in_pieces() {
    let data = encode_ws_text_frame(b"in pieces");
    let mut accum = WsFrameAccumulator::new();
    for b in &data[..data.len() - 1] {
        accum.push(&[*b]);
        assert!(accum.drain_frames().is_empty());
    }
    accum.push(&data[data.len() - 1..]);
    let frames = accum.drain_frames();
    assert_eq!(frames.len(), 1);
    assert_eq!(payload_of(&frames[0]), b"in pieces");
}

#[test]
fn a_message_may_be_split_into_frames() {
    let mut data = vec![0x01u8, 0x03];
    data.extend_from_slice(b"Hel");
    data.extend_from_slice(&[0x80, 0x02]);
    data.extend_from_slice(b"lo");
    let frames = frames_of(&data);
    let whole: Vec<u8> = frames
        .iter()
        .flat_map(|f| match f {
            WsCompletedFrame::Text { raw, .. } => raw.to_vec(),
            WsCompletedFrame::Other { raw } => raw.to_vec(),
        })
        .collect();
    assert_eq!(whole, data);
}

fn item_create(content: &str) -> String {
    format!(
        r#"{{"type":"conversation.item.create","item":{{"type":"message","role":"user","content":[{content}]}}}}"#
    )
}

#[test]
fn the_texts_of_a_new_item_are_looked_at() {
    let event = item_create(
        r#"{"type":"input_text","text":" one"},{"type":"input_text","text":"two"}"#,
    );
    let ClientStep::Evaluate { text, raw } = on_client_frame(text_frame_of(&event)) else {
        panic!("expected an evaluation");
    };
    assert_eq!(text, "one two");
    assert_eq!(raw, encode_ws_text_frame(event.as_bytes()));

    let passed = client_verdict(raw.clone(), false);
    assert_eq!(passed.to_server, vec![raw.clone()]);
    assert!(passed.to_client.is_empty());
    let blocked = client_verdict(raw, true);
    assert!(blocked.to_server.is_empty());
    assert_eq!(blocked.to_client, vec![guardrail_blocked_ws_event_bytes()]);
}

#[test]
fn other_client_frames_are_forwarded() {
    for text in ["not json", r#"{"type":"response.create"}"#, &item_create("")] {
        let ClientStep::Forward(raw) = on_client_frame(text_frame_of(text)) else {
            panic!("expected the frame to be forwarded");
        };
        assert_eq!(raw, encode_ws_text_frame(text.as_bytes()));
    }
    let ClientStep::Forward(raw) = on_client_frame(WsCompletedFrame::Other {
        raw: Bytes::from_static(b"\x8a\x00"),
    }) else {
        panic!("expected the frame to be forwarded");
    };
    assert_eq!(&raw[..], b"\x8a\x00");
}

#[test]
fn the_blocked_event_tells_the_client() {
    let frames = frames_of(&guardrail_blocked_ws_event_bytes());
    let json: serde_json::Value = serde_json::from_slice(&payload_of(&frames[0])).unwrap();
    assert_eq!(
        json.pointer("/error/type").and_then(|v| v.as_str()),
        Some("guardrail_blocked")
    );
    assert_eq!(
        json.pointer("/error/message").and_then(|v| v.as_str()),
        Some("Content blocked by guardrail policy")
    );
}

#[test]
fn cancelling_is_masked() {
    let bytes = response_cancel_event_bytes("r", [9, 8, 7, 6]);
    assert_eq!(bytes[1] & 0x80, 0x80);
    assert_eq!(&bytes[2..6], &[9, 8, 7, 6]);
    let frames = frames_of(&bytes);
    assert_eq!(
        payload_of(&frames[0]),
        br#"{"type":"response.cancel","response_id":"r"}"#
    );
}

#[test]
fn the_end_of_a_blocked_response_keeps_what_others_hold() {
    let mut session = Session::new("BLOCK_THIS");
    let padding = "x".repeat(1020);
    session.text_from_server(&delta_event(
        "e1",
        "resp_A",
        "i1",
        &format!("{padding}BLOCK_THIS"),
    ));
    session.text_from_server(&delta_event("e2", "resp_B", "i2", "clean content from B"));
    session.text_from_server(&done_event("e3", "resp_A", "i1", "blocked"));
    session.text_from_server(&done_event("e4", "resp_B", "i2", "clean content from B"));

    let events = session.client_events();
    assert_eq!(events.len(), 3);
    assert!(is_delta_of(&events[1], "resp_B"));
    assert_eq!(
        events[2].get("type").and_then(|t| t.as_str()),
        Some("response.output_text.done")
    );
    assert!(session.guard.blocked_responses.is_empty());
    assert!(session.guard.apart.is_empty());
    assert!(session.guard.shared.delta_hold.is_empty());
}

#[test]
fn a_blocked_window_keeps_what_others_hold() {
    let mut session = Session::new("BLOCK");
    session.text_from_server(&delta_event("e1", "b", "i2", "held before"));
    session.text_from_server(&delta_event("e2", "a", "i1", &"BLOCK".repeat(300)));
    assert_eq!(session.to_client, guardrail_blocked_ws_event_bytes());
    session.text_from_server(&delta_event("e3", "b", "i2", " and after"));
    session.text_from_server(&done_event("e4", "b", "i2", "held before and after"));
    let events = session.client_events();
    assert_eq!(events.len(), 4);
    assert!(is_delta_of(&events[1], "b"));
    assert!(is_delta_of(&events[2], "b"));
    assert_eq!(session.to_server, response_cancel_event_bytes("a", [0, 0, 0, 0]));
}

#[test]
fn windows_span_responses() {
    let mut session = Session::new("BLOCK");
    session.text_from_server(&delta_event("e1", "a", "i1", &"x".repeat(600)));
    assert!(session.to_client.is_empty());
    session.text_from_server(&delta_event("e2", "b", "i2", &"y".repeat(600)));
    let events = session.client_events();
    assert_eq!(events.len(), 2);
    assert!(is_delta_of(&events[0], "a"));
    assert!(is_delta_of(&events[1], "b"));
}

#[test]
fn the_response_that_completes_a_window_is_blocked() {
    let mut session = Session::new("BLOCK");
    session.text_from_server(&delta_event("e1", "a", "i1", "BL"));
    session.text_from_server(&delta_event("e2", "b", "i2", "OCK"));
    session.text_from_server(&done_event("e3", "a", "i1", "BL"));
    assert_eq!(session.to_client, guardrail_blocked_ws_event_bytes());
    assert_eq!(session.to_server, response_cancel_event_bytes("a", [0, 0, 0, 0]));
    session.text_from_server(&done_event("e4", "b", "i2", "OCK"));
    let events = session.client_events();
    assert_eq!(events.len(), 3);
    assert!(is_delta_of(&events[1], "b"));
}

#[test]
fn text_that_is_held_apart_blocks_its_own_response_alone() {
    let mut session = Session::new("BLOCK");
    session.text_from_server(&delta_event("e1", "b", "i2", "BLOCK"));
    session.text_from_server(&delta_event("e2", "a", "i1", "fine"));
    session.text_from_server(&done_event("e3", "a", "i1", "fine"));
    assert_eq!(session.guard.blocked_responses, vec!["a".to_string()]);
    assert_eq!(session.guard.apart.len(), 1);

    session.text_from_server(&delta_event("e4", "c", "i3", "fine"));
    session.text_from_server(&done_event("e5", "c", "i3", "fine"));
    let events = session.client_events();
    assert_eq!(events.len(), 3);
    assert!(is_delta_of(&events[1], "c"));

    session.text_from_server(&done_event("e6", "b", "i2", "BLOCK"));
    assert_eq!(session.client_events().len(), 4);
    assert_eq!(
        session.guard.blocked_responses,
        vec!["a".to_string(), "b".to_string()]
    );
    assert!(session.guard.apart.is_empty());
}

#[test]
fn a_pattern_on_the_border_of_two_windows_is_seen() {
    let mut session = Session::new("BLOCK");
    session.text_from_server(&delta_event("e1", "r", "i", &format!("{}BL", "x".repeat(1022))));
    assert_eq!(session.client_events().len(), 1);
    session.text_from_server(&delta_event("e2", "r", "i", "OCK"));
    session.text_from_server(&done_event("e3", "r", "i", "..."));
    assert_eq!(session.client_events().len(), 2);
    assert_eq!(session.guard.blocked_responses, vec!["r".to_string()]);
}
