use agentgateway::streaming_guardrails::body::{
    extract_text_delta, guardrail_blocked_sse_bytes, GuardedSseBody, GuardedStep,
};
use agentgateway::streaming_guardrails::evaluators::{
    evaluate_window, evaluator_step, make_evaluator, Action, Builtin, CloudEvaluator, CloudService,
    EvaluatorStep, FailureMode, RegexEvaluator, RegexRule, RegexRules, ResponseAction,
    ResponseGuard, ResponseGuardKind, StreamingEvaluator, StreamingGuardrailOutcome,
    WebhookEvaluator,
};
use agentgateway::streaming_guardrails::window::{tail_chars, DEFAULT_EVAL_THRESHOLD};
use bytes::Bytes;

fn sse_bytes(content: &str) -> Bytes {
    Bytes::from(format!("data: {}\n\n", content))
}

fn delta_bytes(text: &str) -> Bytes {
    sse_bytes(&format!(
        "{{\"choices\":[{{\"delta\":{{\"content\":\"{}\"}}}}]}}",
        text
    ))
}

fn contains(haystack: &[u8], needle: &[u8]) -> bool {
    haystack.windows(needle.len()).any(|w| w == needle)
}

/// Sends chunks through a body, and lets `blocks` judge each window.
fn collect(
    mut body: GuardedSseBody,
    chunks: Vec<Bytes>,
    mut blocks: impl FnMut(&str) -> bool,
) -> Vec<u8> {
    let mut upstream = chunks.into_iter();
    let mut out = Vec::new();
    loop {
        match body.poll_frame() {
            GuardedStep::Frame(frame) => out.extend_from_slice(&frame),
            GuardedStep::End => return out,
            GuardedStep::Wait => panic!("a verdict was given"),
            GuardedStep::Read => {
                let window = match upstream.next() {
                    Some(chunk) => body.on_data(chunk),
                    None => body.on_end(),
                };
                if let Some(window) = window {
                    let blocked = blocks(&window);
                    body.on_verdict(blocked);
                }
            }
        }
    }
}

fn regex_evaluator(pattern: &str) -> RegexEvaluator {
    RegexEvaluator {
        rules: RegexRules {
            action: Action::Reject,
            rules: vec![RegexRule::Regex {
                pattern: regex::Regex::new(pattern).unwrap(),
            }],
        },
    }
}

fn judged_by(pattern: &str) -> impl FnMut(&str) -> bool {
    let evaluator = regex_evaluator(pattern);
    move |window: &str| {
        evaluate_window(&vec![(
            Ok(evaluator.evaluate(window, &vec![])),
            FailureMode::FailClosed,
        )])
    }
}

#[test]
fn test_pass_through() {
    let chunk = delta_bytes("hello");
    let done = sse_bytes("[DONE]");
    let bytes = collect(
        GuardedSseBody::new(1024 * 1024),
        vec![chunk.clone(), done.clone()],
        |_| false,
    );
    assert!(bytes.starts_with(&chunk));
    assert_eq!(bytes, [&chunk[..], &done[..]].concat());
}

#[test]
fn test_block() {
    let chunk = delta_bytes("bad content");
    let done = sse_bytes("[DONE]");
    let bytes = collect(GuardedSseBody::new(1024 * 1024), vec![chunk, done], |_| true);
    assert!(contains(&bytes, b"guardrail_blocked"));
    assert!(!contains(&bytes, b"bad content"));
    assert_eq!(bytes, guardrail_blocked_sse_bytes());
}

#[test]
fn test_regex_blocks_matching_response() {
    let chunk = delta_bytes("my SSN is 123-45-6789");
    let done = sse_bytes("[DONE]");
    let bytes = collect(
        GuardedSseBody::new(1024 * 1024),
        vec![chunk, done],
        judged_by("SSN"),
    );
    assert!(contains(&bytes, b"guardrail_blocked"));
    assert!(!contains(&bytes, b"SSN"));
}

#[test]
fn test_regex_passes_non_matching_response() {
    let chunk = delta_bytes("hello world");
    let done = sse_bytes("[DONE]");
    let bytes = collect(
        GuardedSseBody::new(1024 * 1024),
        vec![chunk.clone(), done],
        judged_by("SSN"),
    );
    assert!(bytes.starts_with(&chunk));
    assert!(!contains(&bytes, b"guardrail_blocked"));
}

#[test]
fn test_regex_accumulates_within_batch() {
    let chunk1 = delta_bytes("my credit");
    let chunk2 = delta_bytes(" card");
    let done = sse_bytes("[DONE]");
    let bytes = collect(
        GuardedSseBody::new(1024 * 1024),
        vec![chunk1, chunk2, done],
        judged_by("credit card"),
    );
    assert!(contains(&bytes, b"guardrail_blocked"));
    assert!(!contains(&bytes, b"credit"));
}

#[test]
fn test_windowed_incremental_flush_then_block() {
    let chunk1 = delta_bytes("this part is fine");
    let chunk2 = delta_bytes("forbidden words here");
    let done = sse_bytes("[DONE]");
    let bytes = collect(
        GuardedSseBody::with_threshold(1024 * 1024, 4),
        vec![chunk1.clone(), chunk2, done],
        judged_by("forbidden"),
    );
    assert!(contains(&bytes, b"this part is fine"));
    assert!(!contains(&bytes, b"forbidden"));
    assert!(contains(&bytes, b"guardrail_blocked"));
}

#[test]
fn test_overlap_catches_boundary_spanning_pattern() {
    let chunk1 = delta_bytes("my credit");
    let chunk2 = delta_bytes(" card number");
    let done = sse_bytes("[DONE]");
    let bytes = collect(
        GuardedSseBody::with_threshold(1024 * 1024, 4),
        vec![chunk1, chunk2, done],
        judged_by("credit card"),
    );
    assert!(contains(&bytes, b"guardrail_blocked"));
    assert!(!contains(&bytes, b"card number"));
}

#[test]
fn test_tail_chars_respects_utf8_boundaries() {
    let s = "héllo wörld";
    let t = tail_chars(s, 4);
    assert!(t.len() <= 4);
    assert!(s.ends_with(t));
    let s2 = "aé";
    assert_eq!(tail_chars(s2, 1), "");
    assert_eq!(tail_chars(s2, 2), "é");
    assert_eq!(tail_chars(s2, 3), "aé");
    assert_eq!(tail_chars("", 0), "");
}

#[test]
fn evaluate_window_fail_closed_blocks_on_error() {
    let evaluations = vec![(
        Err("simulated evaluator error".to_string()),
        FailureMode::FailClosed,
    )];
    assert!(evaluate_window(&evaluations));
}

#[test]
fn evaluate_window_fail_open_passes_on_error() {
    let evaluations = vec![(
        Err("simulated evaluator error".to_string()),
        FailureMode::FailOpen,
    )];
    assert!(!evaluate_window(&evaluations));
}

#[test]
fn one_evaluator_is_enough_to_block() {
    let pass = || (Ok(None), FailureMode::FailClosed);
    let block = || {
        (
            Ok(Some(StreamingGuardrailOutcome::Blocked("no".to_string()))),
            FailureMode::FailOpen,
        )
    };
    assert!(!evaluate_window(&vec![pass(), pass()]));
    assert!(evaluate_window(&vec![pass(), block()]));
    assert!(evaluate_window(&vec![block(), pass()]));
    assert!(!evaluate_window(&vec![]));
}

#[test]
fn windows_overlap_by_the_end_of_the_text() {
    let mut windows: Vec<String> = Vec::new();
    let first = "a".repeat(300);
    collect(
        GuardedSseBody::with_threshold(1024 * 1024, 4),
        vec![delta_bytes(&first), delta_bytes("bbbb"), delta_bytes("c")],
        |w| {
            windows.push(w.to_string());
            false
        },
    );
    assert_eq!(windows.len(), 3);
    assert_eq!(windows[0], first);
    assert_eq!(windows[1], format!("{}bbbb", "a".repeat(256)));
    assert_eq!(windows[2], format!("{}bbbbc", "a".repeat(252)));
}

#[test]
fn text_below_the_threshold_is_looked_at_once() {
    let mut windows = 0;
    let bytes = collect(
        GuardedSseBody::new(1024 * 1024),
        vec![delta_bytes("a"), delta_bytes("b"), delta_bytes("c")],
        |w| {
            windows += 1;
            assert_eq!(w, "abc");
            false
        },
    );
    assert_eq!(windows, 1);
    assert!(DEFAULT_EVAL_THRESHOLD > 3);
    assert_eq!(
        bytes,
        [&delta_bytes("a")[..], &delta_bytes("b")[..], &delta_bytes("c")[..]].concat()
    );
}

#[test]
fn a_full_buffer_without_text_is_let_go() {
    let ping = Bytes::from_static(b": ping\n\n");
    let bytes = collect(
        GuardedSseBody::new(8),
        vec![ping.clone(), ping.clone()],
        |_| panic!("there is no text"),
    );
    assert_eq!(bytes, b": ping\n\n: ping\n\n");
}

#[test]
fn an_event_may_come_in_pieces() {
    let whole = delta_bytes("secret");
    let bytes = collect(
        GuardedSseBody::new(1024 * 1024),
        vec![whole.slice(0..20), whole.slice(20..)],
        judged_by("secret"),
    );
    assert_eq!(bytes, guardrail_blocked_sse_bytes());
}

#[test]
fn an_event_that_is_not_closed_has_no_text() {
    let chunk = Bytes::from_static(b"data: {\"delta\":{\"text\":\"open\"}}\n");
    let bytes = collect(GuardedSseBody::new(1024 * 1024), vec![chunk.clone()], |_| {
        panic!("there is no text")
    });
    assert_eq!(bytes, chunk);
}

#[test]
fn text_is_found_in_both_formats() {
    assert_eq!(
        extract_text_delta(br#"{"choices":[{"delta":{"content":"one"}}]}"#).as_deref(),
        Some("one")
    );
    assert_eq!(
        extract_text_delta(br#"{"delta":{"text":"two"}}"#).as_deref(),
        Some("two")
    );
    assert_eq!(extract_text_delta(b"[DONE]"), None);
    assert_eq!(extract_text_delta(b"not json"), None);
    assert_eq!(extract_text_delta(br#"{"choices":[]}"#), None);
    assert_eq!(extract_text_delta(br#"{"delta":{"text":3}}"#), None);
    assert_eq!(
        extract_text_delta(br#"{"choices":[{"delta":{"content":null}}],"delta":{"text":"x"}}"#)
            .as_deref(),
        Some("x")
    );
}

#[test]
fn the_blocked_event_is_one_frame() {
    assert_eq!(
        &guardrail_blocked_sse_bytes()[..],
        &b"data: {\"error\":{\"type\":\"guardrail_blocked\",\"code\":\"guardrail_intervention\",\"message\":\"Content blocked by guardrail policy\"}}\n\n"[..]
    );
}

#[test]
fn masking_rules_do_not_block() {
    let mut evaluator = regex_evaluator("x");
    assert!(matches!(
        evaluator.evaluate("axb", &vec![]),
        Some(StreamingGuardrailOutcome::Blocked(r)) if r == "regex guardrail blocked content"
    ));
    assert!(evaluator.evaluate("ab", &vec![]).is_none());
    evaluator.rules.action = Action::Mask;
    assert!(evaluator.evaluate("axb", &vec![]).is_none());
}

#[test]
fn builtin_rules_go_by_what_was_recognized() {
    let evaluator = RegexEvaluator {
        rules: RegexRules {
            action: Action::Reject,
            rules: vec![RegexRule::Builtin {
                builtin: Builtin::Email,
            }],
        },
    };
    assert!(evaluator.evaluate("text", &vec![Builtin::Ssn]).is_none());
    assert!(evaluator
        .evaluate("text", &vec![Builtin::Ssn, Builtin::Email])
        .is_some());
}

#[test]
fn webhooks_reject_with_their_reason() {
    let webhook = WebhookEvaluator {
        failure_mode: FailureMode::FailOpen,
    };
    let reject = |reason: Option<&str>| {
        webhook.outcome(ResponseAction::Reject {
            reason: reason.map(str::to_string),
        })
    };
    assert!(matches!(
        reject(Some("rude")),
        Some(StreamingGuardrailOutcome::Blocked(r)) if r == "webhook rejected response: rude"
    ));
    assert!(matches!(
        reject(None),
        Some(StreamingGuardrailOutcome::Blocked(r)) if r == "webhook rejected response: "
    ));
    assert!(webhook.outcome(ResponseAction::Pass).is_none());
    assert!(webhook.outcome(ResponseAction::Mask).is_none());
}

#[test]
fn evaluators_are_made_for_their_guards() {
    let webhook = make_evaluator(ResponseGuard {
        kind: ResponseGuardKind::Webhook {
            failure_mode: FailureMode::FailOpen,
        },
    });
    assert!(matches!(webhook, StreamingEvaluator::Webhook(_)));
    assert_eq!(
        webhook.failure_mode(FailureMode::FailClosed),
        FailureMode::FailOpen
    );
    let azure = make_evaluator(ResponseGuard {
        kind: ResponseGuardKind::AzureContentSafety {
            analyze_text: Some(None),
        },
    });
    let StreamingEvaluator::Cloud(azure) = azure else {
        panic!("expected a cloud evaluator");
    };
    assert!(azure.asks("text"));
    assert!(!azure.asks(""));
    assert_eq!(azure.threshold(), 2);
    assert!(matches!(
        azure.outcome(true),
        Some(StreamingGuardrailOutcome::Blocked(r))
            if r == "Azure Content Safety blocked streaming response content"
    ));
    assert!(azure.outcome(false).is_none());
    let off = make_evaluator(ResponseGuard {
        kind: ResponseGuardKind::AzureContentSafety { analyze_text: None },
    });
    let StreamingEvaluator::Cloud(off) = off else {
        panic!("expected a cloud evaluator");
    };
    assert!(!off.asks("text"));
    let strict = CloudEvaluator {
        service: CloudService::AzureContentSafety,
        enabled: true,
        severity_threshold: Some(4),
    };
    assert_eq!(strict.threshold(), 4);
    let bedrock = make_evaluator(ResponseGuard {
        kind: ResponseGuardKind::BedrockGuardrails,
    });
    assert_eq!(
        bedrock.failure_mode(FailureMode::FailClosed),
        FailureMode::FailClosed
    );
    let StreamingEvaluator::Cloud(bedrock) = bedrock else {
        panic!("expected a cloud evaluator");
    };
    assert!(matches!(
        bedrock.outcome(true),
        Some(StreamingGuardrailOutcome::Blocked(r))
            if r == "Bedrock guardrail blocked streaming response content"
    ));
    let armor = make_evaluator(ResponseGuard {
        kind: ResponseGuardKind::GoogleModelArmor,
    });
    let StreamingEvaluator::Cloud(armor) = armor else {
        panic!("expected a cloud evaluator");
    };
    assert!(matches!(
        armor.outcome(true),
        Some(StreamingGuardrailOutcome::Blocked(r))
            if r == "Google Model Armor blocked streaming response content"
    ));
    let regex = make_evaluator(ResponseGuard {
        kind: ResponseGuardKind::Regex(RegexRules {
            action: Action::Reject,
            rules: vec![],
        }),
    });
    assert!(matches!(regex, StreamingEvaluator::Regex(_)));
}

#[test]
fn a_short_text_is_in_some_window_wherever_it_stands() {
    let needle = "n".repeat(254);
    for lead in [0usize, 1, 500, 900, 1023, 1024, 1100, 2000] {
        let text = format!("{}{}{}", "x".repeat(lead), needle, "y".repeat(3000 - lead));
        let mut chunks: Vec<Bytes> = Vec::new();
        for piece in text.as_bytes().chunks(97) {
            chunks.push(delta_bytes(std::str::from_utf8(piece).unwrap()));
        }
        let mut windows: Vec<String> = Vec::new();
        collect(GuardedSseBody::new(1024 * 1024), chunks, |window| {
            windows.push(window.to_string());
            false
        });
        assert!(windows.len() > 1);
        assert!(windows.iter().any(|window| window.contains(&needle)), "{lead}");
    }
}

#[test]
fn evaluators_are_asked_up_to_the_first_that_blocks() {
    let pass = Ok(None);
    let block = Ok(Some(StreamingGuardrailOutcome::Blocked("no".to_string())));
    let failed = Err("down".to_string());
    let closed = FailureMode::FailClosed;
    let open = FailureMode::FailOpen;
    assert_eq!(evaluator_step(0, 3, &pass, closed), EvaluatorStep::Ask(1));
    assert_eq!(evaluator_step(1, 3, &failed, open), EvaluatorStep::Ask(2));
    assert_eq!(evaluator_step(2, 3, &pass, closed), EvaluatorStep::Passed);
    assert_eq!(evaluator_step(0, 3, &block, open), EvaluatorStep::Blocked);
    assert_eq!(evaluator_step(1, 3, &failed, closed), EvaluatorStep::Blocked);
}
