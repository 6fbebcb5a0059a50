use agentgateway::bufferbody::BufferRequestBodyError;
use agentgateway::ext_proc::flow::{RequestFlowFsm, RequestPhase, ResponseFlowFsm, ResponsePhase};
use agentgateway::ext_proc::headers::{
    apply_header_mutations, req_to_header_map, resp_to_header_map, to_header_map, HeaderMutation,
    HeaderOp, HeaderValue, HeaderValueOption,
};
use agentgateway::ext_proc::inference::{
    header_text, message_attributes, served_destination_metadata, ExtProc, InferencePoolRouter,
    InferenceRouting, InferenceRoutingDestinationMode,
};
use agentgateway::ext_proc::instance::{
    is_headers_answer, route, BodyFrame, BodyStreamer, ExtProcInstance, Route,
};
use agentgateway::ext_proc::messages::{
    check_http_status, handle_response_for_request_mutation, handle_response_for_response_mutation,
    merge_dynamic_metadata, to_immediate_response, BodyMutation, CommonResponse, Error,
    ExtProcDynamicMetadata, ImmediateResponse, Mutation, PolicyResponse, ProcessingRequest,
    ProcessingResponse, RequestKind, ResponseKind, ResponseLoopMessage,
};
use agentgateway::ext_proc::modes::{
    BodySendMode, EnvoyBodySendMode, FailureMode, HeaderPhase, HeaderSendMode, ModeStateMachine,
    ProcessingMode, ProcessingOptions, TrailerSendMode, WireHeaderMode,
};
use agentgateway::ext_proc::request::{
    BodySource, BufferFailure, RequestAction, RequestOutcome, RequestStep,
};
use agentgateway::ext_proc::response::{ResponseAction, ResponseOutcome, ResponseStep};
use agentgateway::json::{parse_json, Json};

fn options(body: BodySendMode) -> ProcessingOptions {
    ProcessingOptions {
        request_body_mode: body,
        response_body_mode: body,
        ..ProcessingOptions::default()
    }
}

fn message(response: ResponseKind) -> ProcessingResponse {
    ProcessingResponse {
        response: Some(response),
        mode_override: None,
        dynamic_metadata: None,
    }
}

fn no_override() -> ProcessingMode {
    ProcessingMode {
        request_header_mode: Some(WireHeaderMode::Default),
        response_header_mode: Some(WireHeaderMode::Default),
        request_body_mode: None,
        response_body_mode: None,
        request_trailer_mode: Some(WireHeaderMode::Default),
        response_trailer_mode: Some(WireHeaderMode::Default),
    }
}

fn common(mutation: Option<Mutation>) -> Option<CommonResponse> {
    Some(CommonResponse {
        header_mutation: None,
        body_mutation: Some(BodyMutation { mutation }),
    })
}

fn streamed(body: &[u8], end_of_stream: bool) -> Option<CommonResponse> {
    common(Some(Mutation::StreamedResponse {
        body: body.to_vec(),
        end_of_stream,
    }))
}

fn immediate(status: Option<i32>) -> ProcessingResponse {
    message(ResponseKind::ImmediateResponse(ImmediateResponse {
        status,
        headers: None,
        body: "stop".to_string(),
    }))
}

fn sends_headers(step: RequestStep) -> ProcessingRequest {
    match step {
        RequestStep::SendHeaders(m) => m,
        other => panic!("expected headers to be sent: {other:?}"),
    }
}

fn finished(action: RequestAction) -> RequestOutcome {
    match action.step {
        RequestStep::Finish(outcome) => outcome,
        other => panic!("expected the end: {other:?}"),
    }
}

fn response_finished(action: ResponseAction) -> ResponseOutcome {
    match action.step {
        ResponseStep::Finish(outcome) => outcome,
        other => panic!("expected the end: {other:?}"),
    }
}

#[test]
fn overrides_change_modes() {
    let mut modes = ModeStateMachine::from(options(BodySendMode::NotSent));
    modes.apply_envoy_mode_override(&ProcessingMode {
        response_header_mode: Some(WireHeaderMode::Skip),
        request_body_mode: Some(EnvoyBodySendMode::Buffered),
        response_body_mode: Some(EnvoyBodySendMode::FullDuplexStreamed),
        request_trailer_mode: Some(WireHeaderMode::Send),
        response_trailer_mode: Some(WireHeaderMode::Send),
        ..no_override()
    });
    assert_eq!(modes.response_header_mode, HeaderSendMode::Skip);
    assert_eq!(modes.request_body_mode, BodySendMode::Buffered);
    assert_eq!(modes.response_body_mode, BodySendMode::FullDuplexStreamed);
    assert_eq!(modes.request_trailer_mode, TrailerSendMode::Send);
    assert_eq!(modes.response_trailer_mode, TrailerSendMode::Send);
    assert_eq!(modes.request_header_mode, HeaderSendMode::Send);
    let before = modes;
    modes.apply_envoy_mode_override(&ProcessingMode {
        request_body_mode: Some(EnvoyBodySendMode::Streamed),
        response_body_mode: Some(EnvoyBodySendMode::NotSent),
        ..no_override()
    });
    assert_eq!(modes, before);
    modes.mark_headers_processed(HeaderPhase::Response);
    modes.apply_envoy_mode_override(&ProcessingMode {
        response_header_mode: Some(WireHeaderMode::Send),
        ..no_override()
    });
    assert_eq!(modes.response_header_mode, HeaderSendMode::Skip);
}

#[test]
fn overrides_need_permission() {
    let with_override = |kind| ProcessingResponse {
        mode_override: Some(ProcessingMode {
            request_body_mode: Some(EnvoyBodySendMode::Buffered),
            ..no_override()
        }),
        ..message(kind)
    };
    let allowed = ProcessingOptions {
        allow_mode_override: true,
        ..options(BodySendMode::NotSent)
    };
    let mode_after = |options, phase, kind| {
        let mut instance = ExtProcInstance::new(FailureMode::FailClosed, options);
        instance.maybe_apply_mode_override(phase, &with_override(kind));
        instance.mode_state.request_body_mode
    };
    assert_eq!(
        mode_after(allowed, HeaderPhase::Request, ResponseKind::RequestHeaders(None)),
        BodySendMode::Buffered
    );
    assert_eq!(
        mode_after(allowed, HeaderPhase::Response, ResponseKind::RequestHeaders(None)),
        BodySendMode::NotSent
    );
    assert_eq!(
        mode_after(
            options(BodySendMode::NotSent),
            HeaderPhase::Request,
            ResponseKind::RequestHeaders(None)
        ),
        BodySendMode::NotSent
    );
    assert_eq!(
        mode_after(
            ProcessingOptions {
                send_body_without_waiting_for_header_response: true,
                ..allowed
            },
            HeaderPhase::Request,
            ResponseKind::RequestHeaders(None)
        ),
        BodySendMode::NotSent
    );
}

#[test]
fn flows_advance_past_the_headers_once() {
    let mut fsm = RequestFlowFsm::new(true, true, EnvoyBodySendMode::Buffered);
    assert!(fsm.is_awaiting_headers());
    assert!(!fsm.advance_after_response(false));
    assert!(fsm.advance_after_response(true));
    assert_eq!(fsm.phase, RequestPhase::AwaitingBody);
    assert!(fsm.strip_content_length());
    assert!(fsm.should_restore_original_buffered_body(true));
    assert!(fsm.should_fail_open_on_disconnect(FailureMode::FailOpen));
    assert!(!fsm.should_fail_open_on_disconnect(FailureMode::FailClosed));
    fsm.reconcile_headers_response(BodySendMode::NotSent);
    assert_eq!(fsm.phase, RequestPhase::Complete);
    let duplex = RequestFlowFsm::new(false, true, EnvoyBodySendMode::FullDuplexStreamed);
    assert_eq!(duplex.phase, RequestPhase::AwaitingBody);
    assert!(!duplex.should_fail_open_on_disconnect(FailureMode::FailOpen));
    assert!(!duplex.should_restore_original_buffered_body(true));
    let streamed = RequestFlowFsm::new(false, true, EnvoyBodySendMode::Streamed);
    assert_eq!(streamed.phase, RequestPhase::Complete);

    let mut fsm = ResponseFlowFsm::new(true, true, true);
    assert!(fsm.is_awaiting_headers());
    fsm.reconcile_headers_response(BodySendMode::NotSent);
    assert!(fsm.advance_after_response(true));
    assert_eq!(fsm.phase, ResponsePhase::Complete);
    assert!(!fsm.strip_content_length());
}

#[test]
fn messages_go_to_their_side() {
    assert_eq!(route(&message(ResponseKind::RequestHeaders(None))), Route::Request);
    assert_eq!(route(&message(ResponseKind::RequestTrailers)), Route::Request);
    assert_eq!(route(&message(ResponseKind::ResponseBody(None))), Route::Response);
    assert_eq!(route(&immediate(None)), Route::Both);
    assert_eq!(
        route(&ProcessingResponse {
            response: None,
            mode_override: None,
            dynamic_metadata: None
        }),
        Route::Dropped
    );
    assert!(is_headers_answer(
        HeaderPhase::Response,
        &message(ResponseKind::ResponseHeaders(None))
    ));
    assert!(!is_headers_answer(
        HeaderPhase::Request,
        &message(ResponseKind::ResponseHeaders(None))
    ));
}

#[test]
fn headers_only_requests_end_with_their_answer() {
    let mut instance =
        ExtProcInstance::new(FailureMode::FailClosed, options(BodySendMode::NotSent));
    let (mut ex, action) = instance.mutate_request(vec![], true);
    let sent = sends_headers(action.step);
    assert!(sent.attributes);
    let config = sent.protocol_config.unwrap();
    assert_eq!(config.request_body_mode, EnvoyBodySendMode::NotSent);
    assert!(matches!(
        sent.request,
        RequestKind::RequestHeaders { end_of_stream: false, .. }
    ));
    let action = instance.request_headers_sent(&mut ex, true);
    assert!(matches!(action.step, RequestStep::Receive));
    assert!(instance.protocol_config_sent);
    let action = instance.request_message(
        &mut ex,
        Some(message(ResponseKind::RequestHeaders(None))),
    );
    assert!(matches!(
        finished(action),
        RequestOutcome::Continue {
            body: BodySource::Original,
            strip_content_length: false,
            continuation: None
        }
    ));
}

#[test]
fn a_lost_service_fails_open_or_closed() {
    for (mode, opens) in [(FailureMode::FailOpen, true), (FailureMode::FailClosed, false)] {
        let mut instance = ExtProcInstance::new(mode, options(BodySendMode::NotSent));
        let (mut ex, _) = instance.mutate_request(vec![], false);
        let action = instance.request_headers_sent(&mut ex, false);
        match finished(action) {
            RequestOutcome::Continue { .. } => assert!(opens),
            RequestOutcome::Fail(Error::RequestSend) => assert!(!opens),
            other => panic!("unexpected: {other:?}"),
        }
        assert_eq!(instance.did_fail_open(), opens);

        let mut instance = ExtProcInstance::new(mode, options(BodySendMode::NotSent));
        let (mut ex, _) = instance.mutate_request(vec![], false);
        instance.request_headers_sent(&mut ex, true);
        let action = instance.request_message(&mut ex, None);
        match finished(action) {
            RequestOutcome::Continue { .. } => assert!(opens),
            RequestOutcome::Fail(Error::NoMoreResponses) => assert!(!opens),
            other => panic!("unexpected: {other:?}"),
        }
    }
}

#[test]
fn a_streamed_body_never_fails_open() {
    let mut instance = ExtProcInstance::new(
        FailureMode::FailOpen,
        options(BodySendMode::FullDuplexStreamed),
    );
    let (mut ex, _) = instance.mutate_request(vec![], true);
    let action = instance.request_headers_sent(&mut ex, true);
    assert!(action.stream.is_some());
    let action = instance.request_message(&mut ex, None);
    assert!(matches!(
        finished(action),
        RequestOutcome::Fail(Error::NoMoreResponses)
    ));
}

#[test]
fn a_buffered_body_is_sent_after_the_headers() {
    let mut instance =
        ExtProcInstance::new(FailureMode::FailClosed, options(BodySendMode::Buffered));
    let (mut ex, action) = instance.mutate_request(vec![], true);
    let buffer = action.buffer.unwrap();
    assert_eq!(buffer.max_request_bytes, 8192);
    assert!(!buffer.allow_partial_message);
    assert!(buffer.pack_as_bytes);
    sends_headers(action.step);
    instance.request_headers_sent(&mut ex, true);
    let action = instance.request_message(
        &mut ex,
        Some(message(ResponseKind::RequestHeaders(None))),
    );
    assert!(matches!(action.step, RequestStep::AwaitBuffer));
    let action = instance.request_body_buffered(&mut ex, Ok(b"body".to_vec()));
    let RequestStep::SendBody(sent) = action.step else {
        panic!("expected the body to be sent");
    };
    assert!(!sent.attributes);
    assert!(sent.protocol_config.is_none());
    assert!(matches!(
        sent.request,
        RequestKind::RequestBody { body, end_of_stream: true } if body == b"body"
    ));
    let action = instance.request_body_sent(&mut ex, true);
    assert!(matches!(action.step, RequestStep::Receive));
    let action =
        instance.request_message(&mut ex, Some(message(ResponseKind::RequestBody(None))));
    assert_eq!(action.effects.forward.as_deref(), Some(&b"body"[..]));
    assert!(matches!(
        finished(action),
        RequestOutcome::Continue {
            body: BodySource::Forwarded,
            strip_content_length: true,
            ..
        }
    ));
}

#[test]
fn a_body_that_cannot_be_buffered_fails_the_request() {
    let failed = |failure| {
        let mut instance =
            ExtProcInstance::new(FailureMode::FailOpen, options(BodySendMode::BufferedPartial));
        let (mut ex, action) = instance.mutate_request(vec![], true);
        assert!(action.buffer.unwrap().allow_partial_message);
        instance.request_headers_sent(&mut ex, true);
        instance.request_message(&mut ex, Some(message(ResponseKind::RequestHeaders(None))));
        match finished(instance.request_body_buffered(&mut ex, Err(failure))) {
            RequestOutcome::Fail(e) => e.message(),
            other => panic!("unexpected: {other:?}"),
        }
    };
    assert_eq!(
        failed(BufferFailure::Buffer(BufferRequestBodyError::TooLarge)),
        "failed to buffer body: body exceeded max buffer size of 8192 bytes"
    );
    assert_eq!(
        failed(BufferFailure::Buffer(BufferRequestBodyError::Read("gone".to_string()))),
        "failed to buffer body: failed to read body for buffering: gone"
    );
    assert_eq!(
        failed(BufferFailure::Panicked),
        "failed to buffer body: body buffer task panicked"
    );
}

#[test]
fn a_streamed_body_continues_in_the_background() {
    let mut instance = ExtProcInstance::new(
        FailureMode::FailClosed,
        options(BodySendMode::FullDuplexStreamed),
    );
    let (mut ex, _) = instance.mutate_request(vec![], true);
    instance.request_headers_sent(&mut ex, true);
    let action = instance.request_message(
        &mut ex,
        Some(message(ResponseKind::RequestHeaders(common(None)))),
    );
    let RequestOutcome::Continue {
        body: BodySource::Forwarded,
        strip_content_length: true,
        continuation: Some(continuation),
    } = finished(action)
    else {
        panic!("expected a continuation");
    };
    let chunk = |body: &[u8], eos| {
        continuation.on_message(message(ResponseKind::RequestBody(streamed(body, eos))))
    };
    assert_eq!(chunk(b"one", false), (Some(b"one".to_vec()), false));
    assert_eq!(chunk(b"two", true), (Some(b"two".to_vec()), true));
}

#[test]
fn an_immediate_answer_ends_the_exchange() {
    let mut instance =
        ExtProcInstance::new(FailureMode::FailClosed, options(BodySendMode::NotSent));
    let (mut ex, _) = instance.mutate_request(vec![], false);
    instance.request_headers_sent(&mut ex, true);
    let RequestOutcome::Respond(answer) =
        finished(instance.request_message(&mut ex, Some(immediate(Some(403)))))
    else {
        panic!("expected an answer");
    };
    let direct = answer.direct_response.unwrap();
    assert_eq!(direct.status, 403);
    assert_eq!(direct.body, "stop");
    assert!(check_http_status(&immediate(Some(599))));
    assert!(!check_http_status(&immediate(Some(42))));
    assert!(!check_http_status(&immediate(Some(1000))));
    let ResponseLoopMessage::Immediate(answer) = to_immediate_response(immediate(None)) else {
        panic!("expected an answer");
    };
    assert_eq!(answer.direct_response.unwrap().status, 200);
    assert!(matches!(
        to_immediate_response(message(ResponseKind::ResponseTrailers)),
        ResponseLoopMessage::Processing(_)
    ));
}

#[test]
fn responses_are_processed() {
    let mut instance = ExtProcInstance::new(
        FailureMode::FailClosed,
        options(BodySendMode::FullDuplexStreamed),
    );
    let (mut ex, action) = instance.mutate_response(vec![], true);
    assert!(matches!(action.step, ResponseStep::SendHeaders(_)));
    let action = instance.response_headers_sent(&mut ex, true);
    assert!(matches!(action.step, ResponseStep::Receive));
    assert!(action.stream.is_none());
    let action = instance.response_message(
        &mut ex,
        Some(message(ResponseKind::ResponseHeaders(common(None)))),
    );
    assert!(action.stream.is_some());
    let ResponseOutcome::Continue {
        body: BodySource::Forwarded,
        strip_content_length: true,
        continuation: Some(continuation),
    } = response_finished(action)
    else {
        panic!("expected a continuation");
    };
    assert_eq!(
        continuation.forward_response_stream_continuation(message(ResponseKind::ResponseBody(
            streamed(b"x", true)
        ))),
        (Some(b"x".to_vec()), true)
    );
}

#[test]
fn a_response_without_the_service_is_untouched() {
    let mut instance =
        ExtProcInstance::new(FailureMode::FailOpen, options(BodySendMode::NotSent));
    let (mut ex, _) = instance.mutate_request(vec![], false);
    instance.request_headers_sent(&mut ex, false);
    assert!(instance.skipped);
    let (_, action) = instance.mutate_response(vec![], true);
    assert!(matches!(
        response_finished(action),
        ResponseOutcome::Continue {
            body: BodySource::Original,
            strip_content_length: false,
            continuation: None
        }
    ));
}

#[test]
fn a_lost_service_fails_the_response() {
    let mut instance =
        ExtProcInstance::new(FailureMode::FailOpen, options(BodySendMode::NotSent));
    let (mut ex, _) = instance.mutate_response(vec![], false);
    assert!(matches!(
        response_finished(instance.response_headers_sent(&mut ex, false)),
        ResponseOutcome::Fail(Error::RequestSend)
    ));
    let mut instance =
        ExtProcInstance::new(FailureMode::FailOpen, options(BodySendMode::NotSent));
    let (mut ex, _) = instance.mutate_response(vec![], false);
    instance.response_headers_sent(&mut ex, true);
    assert!(matches!(
        response_finished(instance.response_message(&mut ex, None)),
        ResponseOutcome::Fail(Error::NoMoreResponses)
    ));
}

#[test]
fn request_answers_are_handled() {
    let handle = |had_body, kind| {
        let r = handle_response_for_request_mutation(had_body, true, true, message(kind));
        (r.effects.forward, r.headers_done, r.end_of_stream)
    };
    assert_eq!(
        handle(true, ResponseKind::RequestHeaders(None)),
        (None, true, false)
    );
    assert_eq!(
        handle(false, ResponseKind::RequestHeaders(None)),
        (None, true, true)
    );
    assert_eq!(
        handle(true, ResponseKind::RequestBody(None)),
        (None, false, true)
    );
    assert_eq!(
        handle(true, ResponseKind::RequestBody(streamed(b"a", false))),
        (Some(b"a".to_vec()), false, false)
    );
    assert_eq!(
        handle(true, ResponseKind::RequestBody(common(Some(Mutation::Body(b"b".to_vec()))))),
        (Some(b"b".to_vec()), true, true)
    );
    assert_eq!(
        handle(true, ResponseKind::RequestBody(common(Some(Mutation::ClearBody(true))))),
        (None, true, true)
    );
    assert_eq!(
        handle(false, ResponseKind::RequestBody(streamed(b"a", false))),
        (None, false, true)
    );
    assert_eq!(
        handle(true, ResponseKind::ResponseHeaders(None)),
        (None, false, false)
    );
}

#[test]
fn response_answers_are_handled() {
    let handle = |had_body, kind| {
        let r = handle_response_for_response_mutation(had_body, true, true, message(kind));
        (r.effects.forward, r.headers_done, r.end_of_stream)
    };
    assert_eq!(
        handle(false, ResponseKind::ResponseHeaders(None)),
        (None, true, false)
    );
    assert_eq!(
        handle(true, ResponseKind::ResponseBody(None)),
        (None, false, true)
    );
    assert_eq!(
        handle(true, ResponseKind::ResponseHeaders(streamed(b"a", true))),
        (Some(b"a".to_vec()), true, true)
    );
    assert_eq!(
        handle(true, ResponseKind::ResponseBody(common(Some(Mutation::ClearBody(false))))),
        (None, true, true)
    );
    assert_eq!(
        handle(true, ResponseKind::RequestHeaders(None)),
        (None, false, false)
    );
}

#[test]
fn header_changes_come_only_with_permission() {
    let mutation = || HeaderMutation {
        set_headers: vec![],
        remove_headers: vec!["x".to_string()],
    };
    let answer = || {
        message(ResponseKind::RequestHeaders(Some(CommonResponse {
            header_mutation: Some(mutation()),
            body_mutation: None,
        })))
    };
    let changed = |allow, attached| {
        handle_response_for_request_mutation(true, allow, attached, answer())
            .effects
            .header_mutation
            .is_some()
    };
    assert!(changed(true, true));
    assert!(!changed(false, true));
    assert!(!changed(true, false));

    let ops = apply_header_mutations(Some(HeaderMutation {
        set_headers: vec![HeaderValueOption {
            header: None,
            append_action: 2,
        }],
        remove_headers: vec!["a".to_string(), "b".to_string()],
    }));
    assert_eq!(ops.len(), 3);
    assert!(matches!(&ops[0], HeaderOp::Remove(n) if n == "a"));
    assert!(matches!(&ops[1], HeaderOp::Remove(n) if n == "b"));
    assert!(matches!(&ops[2], HeaderOp::Apply(o) if o.append_action == 2));
    assert!(apply_header_mutations(None).is_empty());
}

fn shown(headers: &[HeaderValue]) -> Vec<(String, String, Vec<u8>)> {
    headers
        .iter()
        .map(|h| (h.key.clone(), h.value.clone(), h.raw_value.clone()))
        .collect()
}

#[test]
fn headers_are_sent_raw_with_pseudo_headers_last() {
    let headers = vec![("a".to_string(), b"1".to_vec())];
    let path = vec![(":path".to_string(), "/".to_string())];
    let sent = shown(&req_to_header_map(headers.clone(), path));
    assert_eq!(
        sent,
        vec![
            ("a".to_string(), String::new(), b"1".to_vec()),
            (":path".to_string(), "/".to_string(), vec![]),
            (":scheme".to_string(), "http".to_string(), vec![]),
        ]
    );
    let scheme = vec![(":scheme".to_string(), "https".to_string())];
    let sent = shown(&req_to_header_map(vec![], scheme));
    assert_eq!(sent.len(), 1);
    assert_eq!(sent[0].1, "https");
    let sent = shown(&resp_to_header_map(headers.clone(), "204".to_string()));
    assert_eq!(sent[1], (":status".to_string(), "204".to_string(), vec![]));
    assert_eq!(to_header_map(headers).len(), 1);
}

#[test]
fn metadata_is_merged() {
    let mut held = None;
    merge_dynamic_metadata(&mut held, vec![]).unwrap();
    assert!(held.is_none());
    merge_dynamic_metadata(
        &mut held,
        vec![("a".to_string(), Ok(Json::Bool(true))), ("b".to_string(), Ok(Json::Null))],
    )
    .unwrap();
    merge_dynamic_metadata(
        &mut held,
        vec![("a".to_string(), Ok(Json::Str("new".to_string())))],
    )
    .unwrap();
    let Some(ExtProcDynamicMetadata(members)) = &held else {
        panic!("expected metadata");
    };
    let value = |key: &str| members.iter().rev().find(|m| m.0 == key).map(|m| &m.1);
    assert!(matches!(value("a"), Some(Json::Str(s)) if s == "new"));
    assert!(matches!(value("b"), Some(Json::Null)));
    let error = merge_dynamic_metadata(
        &mut held,
        vec![("c".to_string(), Err("bad".to_string()))],
    )
    .unwrap_err();
    assert_eq!(
        error.message(),
        "failed to convert metadata value: failed to convert key 'c': bad"
    );
}

#[test]
fn body_streams_announce_once() {
    let mut streamer = BodyStreamer {
        side: HeaderPhase::Request,
        send_trailers: false,
        first_attributes: true,
        first_protocol_config: None,
    };
    let sent = streamer.handle_body_stream(vec![
        BodyFrame::Data(b"1".to_vec()),
        BodyFrame::Trailers(vec![]),
        BodyFrame::Data(b"2".to_vec()),
    ]);
    assert_eq!(sent.len(), 3);
    assert!(sent[0].attributes);
    assert!(!sent[1].attributes);
    assert!(matches!(
        &sent[1].request,
        RequestKind::RequestBody { body, end_of_stream: false } if body == b"2"
    ));
    assert!(matches!(
        &sent[2].request,
        RequestKind::RequestBody { body, end_of_stream: true } if body.is_empty()
    ));
    let mut with_trailers = BodyStreamer {
        side: HeaderPhase::Response,
        send_trailers: true,
        first_attributes: false,
        first_protocol_config: None,
    };
    let sent = with_trailers.on_frame(BodyFrame::Trailers(vec![])).unwrap();
    assert!(matches!(sent.request, RequestKind::ResponseTrailers(_)));
    assert!(matches!(
        with_trailers.finish().request,
        RequestKind::ResponseBody { end_of_stream: true, .. }
    ));
}

#[test]
fn errors_have_texts() {
    assert_eq!(Error::RequestSend.message(), "failed to send request");
    assert_eq!(Error::NoMoreResponses.message(), "no more response messages");
    assert_eq!(Error::ResponseDropped.message(), "no more responses");
    assert_eq!(Error::InvalidHeaderName("n".to_string()).message(), "n");
    assert_eq!(Error::InvalidHeaderValue("v".to_string()).message(), "v");
}

#[test]
fn endpoint_pickers_stream_bodies() {
    let routing = InferenceRouting {
        destination_mode: InferenceRoutingDestinationMode::Passthrough,
        failure_mode: FailureMode::FailOpen,
    };
    let router = routing.build();
    assert_eq!(router.destination_mode, InferenceRoutingDestinationMode::Passthrough);
    let instance = router.ext_proc.unwrap();
    assert_eq!(instance.mode_state.request_body_mode, BodySendMode::FullDuplexStreamed);
    let result = router
        .request_result(Some(Ok("1.2.3.4:80".to_string())), None)
        .unwrap();
    assert_eq!(result.destination.as_deref(), Some("1.2.3.4:80"));
    assert!(!result.failed_open);
    assert!(result.policy_response.direct_response.is_none());
    assert_eq!(
        router
            .request_result(Some(Err("invalid socket address".to_string())), None)
            .unwrap_err(),
        "EPP returned invalid address: invalid socket address"
    );
    let none = InferencePoolRouter::default()
        .request_result(Some(Err("x".to_string())), Some(PolicyResponse::default()))
        .unwrap();
    assert!(none.destination.is_none());
}

#[test]
fn header_values_are_read_as_text() {
    assert_eq!(header_text(b"a b\t~").as_deref(), Some("a b\t~"));
    assert_eq!(header_text(b"\x7f"), None);
    assert_eq!(header_text(b"\xc3\xa9"), None);
    assert_eq!(header_text(b"").as_deref(), Some(""));
}

#[test]
fn configurations_list_their_expressions() {
    let named = |names: &[&str]| {
        names
            .iter()
            .map(|n| (n.to_string(), format!("expr.{n}")))
            .collect::<Vec<_>>()
    };
    let config = ExtProc {
        failure_mode: FailureMode::FailClosed,
        metadata_context: Some(vec![("ns".to_string(), named(&["m"]))]),
        request_attributes: Some(named(&["a", "b"])),
        response_attributes: Some(named(&["c"])),
        processing_options: ProcessingOptions::default(),
    };
    assert_eq!(
        config.expressions(),
        vec!["expr.m", "expr.a", "expr.b", "expr.c"]
    );
    let request = config.build();
    assert!(!request.ext_proc.unwrap().skipped);
    let attributes = message_attributes(Some(vec![
        ("x".to_string(), Ok(Json::Null)),
        ("y".to_string(), Err("e".to_string())),
    ]));
    assert_eq!(attributes.len(), 1);
    assert_eq!(attributes[0].0, "envoy.filters.http.ext_proc");
    assert_eq!(attributes[0].1.len(), 1);
    assert!(message_attributes(None).is_empty());
    let served = served_destination_metadata(false, Some("1.2.3.4:5".to_string())).unwrap();
    assert_eq!(served.0, "envoy.lb");
    assert_eq!(
        served
            .1
            .get("x-gateway-destination-endpoint-served")
            .and_then(|v| v.as_str()),
        Some("1.2.3.4:5")
    );
    assert!(served_destination_metadata(true, Some("x".to_string())).is_none());
    assert!(served_destination_metadata(false, None).is_none());
}

#[test]
fn documents_are_parsed() {
    let doc = parse_json(br#"{"a":[1,2.50,true,null,"x"],"b":{}}"#).unwrap();
    let a = doc.get("a").unwrap();
    assert!(matches!(a.get_index(0), Some(Json::Number(n)) if n == "1"));
    assert!(matches!(a.get_index(1), Some(Json::Number(n)) if n == "2.5"));
    assert!(matches!(a.get_index(2), Some(Json::Bool(true))));
    assert!(matches!(a.get_index(3), Some(Json::Null)));
    assert_eq!(a.get_index(4).and_then(|v| v.as_str()), Some("x"));
    assert!(a.get_index(5).is_none());
    assert!(doc.get("c").is_none());
    assert!(parse_json(b"{").is_none());
}

/// What goes upstream of the body `original`, given what was forwarded.
fn upstream_body(outcome: RequestOutcome, original: &[u8], forwarded: &[u8]) -> Vec<u8> {
    match outcome {
        RequestOutcome::Continue {
            body: BodySource::Original,
            strip_content_length: false,
            continuation: None,
        } => original.to_vec(),
        RequestOutcome::Continue {
            body: BodySource::Forwarded,
            ..
        } => forwarded.to_vec(),
        other => panic!("unexpected: {other:?}"),
    }
}

#[test]
fn failing_open_passes_a_buffered_body_on_as_it_came() {
    for mode in [BodySendMode::Buffered, BodySendMode::BufferedPartial] {
        // The headers cannot be sent.
        let mut instance = ExtProcInstance::new(FailureMode::FailOpen, options(mode));
        let (mut ex, _) = instance.mutate_request(vec![], true);
        let action = instance.request_headers_sent(&mut ex, false);
        assert!(action.effects.forward.is_none());
        assert_eq!(upstream_body(finished(action), b"hello", b""), b"hello");
        assert!(instance.did_fail_open());

        // The connection is lost before the headers are answered.
        let mut instance = ExtProcInstance::new(FailureMode::FailOpen, options(mode));
        let (mut ex, _) = instance.mutate_request(vec![], true);
        instance.request_headers_sent(&mut ex, true);
        let action = instance.request_message(&mut ex, None);
        assert!(action.effects.forward.is_none());
        assert_eq!(upstream_body(finished(action), b"hello", b""), b"hello");
        assert!(instance.did_fail_open());

        // The body cannot be sent, or it is sent and then the connection is lost.
        for sent in [false, true] {
            let mut instance = ExtProcInstance::new(FailureMode::FailOpen, options(mode));
            let (mut ex, _) = instance.mutate_request(vec![], true);
            instance.request_headers_sent(&mut ex, true);
            let answer = Some(message(ResponseKind::RequestHeaders(None)));
            let action = instance.request_message(&mut ex, answer);
            assert!(matches!(action.step, RequestStep::AwaitBuffer));
            instance.request_body_buffered(&mut ex, Ok(b"hello".to_vec()));
            let mut action = instance.request_body_sent(&mut ex, sent);
            if sent {
                assert!(matches!(action.step, RequestStep::Receive));
                action = instance.request_message(&mut ex, None);
            }
            assert!(action.effects.forward.is_none());
            assert_eq!(upstream_body(finished(action), b"hello", b""), b"hello");
            assert!(instance.did_fail_open());
        }
    }
}

#[test]
fn the_service_is_told_once() {
    // Request headers are skipped, so the body carries the announcement and the attributes.
    let mut skipped = options(BodySendMode::Buffered);
    skipped.request_header_mode = HeaderSendMode::Skip;
    let mut instance = ExtProcInstance::new(FailureMode::FailClosed, skipped);
    let (mut ex, action) = instance.mutate_request(vec![], true);
    assert!(matches!(action.step, RequestStep::AwaitBuffer));
    let action = instance.request_body_buffered(&mut ex, Ok(b"hello".to_vec()));
    let RequestStep::SendBody(first) = action.step else {
        panic!("expected the body to be sent");
    };
    assert!(first.attributes);
    assert!(first.protocol_config.is_some());
    instance.request_body_sent(&mut ex, true);
    let action =
        instance.request_message(&mut ex, Some(message(ResponseKind::RequestBody(None))));
    assert!(matches!(finished(action), RequestOutcome::Continue { .. }));

    let (_, action) = instance.mutate_response(vec![], false);
    let ResponseStep::SendHeaders(second) = action.step else {
        panic!("expected headers to be sent");
    };
    assert!(second.attributes);
    assert!(second.protocol_config.is_none());
}

#[test]
fn a_body_that_is_no_longer_to_be_sent_goes_upstream_as_it_came() {
    let answer = |request_body_mode| ProcessingResponse {
        mode_override: Some(ProcessingMode {
            request_body_mode,
            ..no_override()
        }),
        ..message(ResponseKind::RequestHeaders(common(None)))
    };
    let run = |allow_mode_override, mode| {
        let mut opts = options(BodySendMode::Buffered);
        opts.allow_mode_override = allow_mode_override;
        let mut instance = ExtProcInstance::new(FailureMode::FailClosed, opts);
        let (mut ex, action) = instance.mutate_request(vec![], true);
        assert!(action.buffer.is_some());
        instance.request_headers_sent(&mut ex, true);
        instance.request_message(&mut ex, Some(answer(mode)))
    };
    let action = run(true, Some(EnvoyBodySendMode::NotSent));
    assert!(action.effects.forward.is_none());
    assert_eq!(upstream_body(finished(action), b"hello", b""), b"hello");

    let action = run(false, Some(EnvoyBodySendMode::NotSent));
    assert!(matches!(action.step, RequestStep::AwaitBuffer));
    let action = run(true, Some(EnvoyBodySendMode::BufferedPartial));
    assert!(matches!(action.step, RequestStep::AwaitBuffer));
}
