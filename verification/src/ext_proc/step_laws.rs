//! What each step of an exchange does with what it is given.

use vstd::prelude::*;

#[allow(unused_imports)]
use crate::bufferbody::BufferRequestBodyError;
#[allow(unused_imports)]
use crate::ext_proc::flow::{body_path, BodyPath, RequestFlowFsm, RequestPhase, ResponsePhase};
#[allow(unused_imports)]
use crate::ext_proc::headers::HeaderValue;
#[allow(unused_imports)]
use crate::ext_proc::instance::{BodyStreamer, ExtProcInstance};
#[allow(unused_imports)]
use crate::ext_proc::messages::{
    handled_request, handled_response, no_effects, BodyMutation, CommonResponse, Error,
    HandledResponse, Mutation, ProcessingRequest, ProcessingResponse, RequestKind, ResponseKind,
};
#[allow(unused_imports)]
use crate::ext_proc::modes::{
    BodySendMode, FailureMode, HeaderPhase, HeaderSendMode, TrailerSendMode,
};
#[allow(unused_imports)]
use crate::ext_proc::request::{
    after_request_headers, follows_buffering, leaves_body_alone, request_advanced,
    request_begins, request_body_outcome, request_disconnected, request_headers_outcome,
    request_message_outcome, request_processed, request_reconciled, restores_body, BodySource,
    BufferFailure, RequestAction, RequestContinuation, RequestExchange, RequestOutcome,
    RequestStep,
};
#[allow(unused_imports)]
use crate::ext_proc::response::{
    after_response_headers, response_advanced, response_begins, response_headers_outcome,
    response_message_outcome, response_processed, response_reconciled, ResponseContinuation,
    ResponseExchange, ResponseOutcome, ResponseStep,
};

verus! {

/// A request begins with its headers, where they are sent: all of them, with the attributes and
/// the announcement, and with word whether a body follows. Otherwise nothing is sent for them.
pub proof fn law_request_headers_are_sent_first(
    inst: ExtProcInstance,
    headers: Vec<HeaderValue>,
    had_body: bool,
)
    ensures
        ({
            let action = request_begins(inst, headers, had_body).2;
            &&& inst.mode_state.request_header_mode == HeaderSendMode::Send <==> action.step
                is SendHeaders
            &&& action.step matches RequestStep::SendHeaders(m) ==> m.request == (
            RequestKind::RequestHeaders { headers, end_of_stream: !had_body }) && m.attributes
                && m.protocol_config == inst.pending_config() && request_begins(
                inst,
                headers,
                had_body,
            ).0 == inst && action.stream is None
            &&& action.effects == no_effects()
        }),
{
}

/// A body is buffered from the start exactly where there is one and its mode buffers it: up to the
/// limit, and in part only where the mode allows that.
pub proof fn law_request_bodies_are_buffered(
    inst: ExtProcInstance,
    headers: Vec<HeaderValue>,
    had_body: bool,
)
    ensures
        ({
            let (_, ex, action) = request_begins(inst, headers, had_body);
            let mode = inst.mode_state.request_body_mode;
            &&& action.buffer is Some <==> had_body && (mode == BodySendMode::Buffered || mode
                == BodySendMode::BufferedPartial)
            &&& action.buffer matches Some(options) ==> options.max_request_bytes
                == 8192 && options.pack_as_bytes && (
            options.allow_partial_message <==> mode == BodySendMode::BufferedPartial)
            &&& ex.had_body == had_body && ex.body_mode == mode
            &&& ex.send_headers == (inst.mode_state.request_header_mode == HeaderSendMode::Send)
            &&& ex.send_trailers == (inst.mode_state.request_trailer_mode == TrailerSendMode::Send)
            &&& ex.original_body is None
            &&& ex.fsm.body_path == body_path(mode)
        }),
{
}

/// What a request does once its headers are out of the way: a body that is streamed in full duplex
/// is streamed at once; a buffered one is waited for unless the answer to the headers comes first;
/// where the service is to say nothing, the request goes upstream as it is; and otherwise the
/// service is waited for.
pub proof fn law_request_goes_on_after_headers(inst: ExtProcInstance, ex: RequestExchange)
    ensures
        ({
            let (after, next, action) = after_request_headers(inst, ex);
            let streamed = ex.had_body && ex.body_mode == BodySendMode::FullDuplexStreamed;
            let quiet = !ex.send_headers && (!ex.had_body || ex.body_mode
                == BodySendMode::NotSent);
            &&& action.effects == no_effects()
            &&& action.buffer is None
            &&& action.stream is Some <==> streamed
            &&& action.stream matches Some(s) ==> s.side == HeaderPhase::Request
                && s.send_trailers == ex.send_trailers && s.first_attributes == ex.first_attributes
                && s.first_protocol_config == ex.first_protocol_config && action.step is Receive
            &&& quiet <==> action.step is Finish
            &&& action.step matches RequestStep::Finish(outcome) ==> outcome == (
            RequestOutcome::Continue {
                body: BodySource::Original,
                strip_content_length: false,
                continuation: None,
            }) && after == inst && next == ex
            &&& action.step is AwaitBuffer <==> !quiet && !streamed && ex.buffering && ex.fsm.phase
                != RequestPhase::AwaitingHeaders
            &&& action.step is AwaitBuffer ==> !next.buffering
            &&& !quiet ==> after.request_messages_taken
            &&& !(action.step is SendHeaders) && !(action.step is SendBody)
        }),
{
}

/// Headers that were sent have told the service all that goes with them, and the request goes on;
/// headers that could not be sent fail the request, unless it is configured to go on without the
/// service.
pub proof fn law_request_headers_must_be_sent(inst: ExtProcInstance, ex: RequestExchange)
    ensures
        request_headers_outcome(inst, ex, true) == after_request_headers(
            ExtProcInstance { protocol_config_sent: true, ..inst },
            ex,
        ),
        inst.failure_mode == FailureMode::FailClosed ==> request_headers_outcome(
            inst,
            ex,
            false,
        ).2.step == RequestStep::Finish(RequestOutcome::Fail(Error::RequestSend)),
        inst.failure_mode == FailureMode::FailOpen ==> request_headers_outcome(
            inst,
            ex,
            false,
        ).0.skipped,
{
}

/// A body that was buffered is sent whole, as the end of the body, with the attributes and the
/// announcement where they have not gone before, and is kept; one that could not be buffered fails
/// the request, with the reason.
pub proof fn law_buffered_bodies_are_sent(
    ex: RequestExchange,
    buffered: Result<Vec<u8>, BufferFailure>,
    next: RequestExchange,
    action: RequestAction,
)
    requires
        follows_buffering(ex, buffered, next, action),
    ensures
        action.effects == no_effects() && action.buffer is None && action.stream is None,
        buffered matches Ok(body) ==> (action.step matches RequestStep::SendBody(m) && (
        m.request matches RequestKind::RequestBody { body: sent, end_of_stream } && sent@ == body@
            && end_of_stream) && m.attributes == ex.first_attributes && m.protocol_config
            == ex.first_protocol_config) && next.original_body == Some(body)
            && !next.first_attributes && next.first_protocol_config is None
            && next.config_in_flight == (ex.first_protocol_config is Some) && next.fsm == ex.fsm
            && next.body_mode == ex.body_mode && next.had_body == ex.had_body,
        buffered matches Err(BufferFailure::Buffer(BufferRequestBodyError::Read(e))) ==> (
        action.step matches RequestStep::Finish(RequestOutcome::Fail(Error::BodyBuffer(text)))
            && text@ == "failed to read body for buffering: "@ + e@),
        buffered is Err ==> (action.step matches RequestStep::Finish(
            RequestOutcome::Fail(Error::BodyBuffer(_)),
        )) && next == ex,
{
}

/// Once the body is sent the service is waited for; a body that could not be sent fails the
/// request, unless it is configured to go on without the service.
pub proof fn law_request_bodies_must_be_sent(inst: ExtProcInstance, ex: RequestExchange)
    ensures
        ({
            let (after, next, action) = request_body_outcome(inst, ex, true);
            &&& action.step is Receive && action.effects == no_effects()
            &&& after.protocol_config_sent == (inst.protocol_config_sent || ex.config_in_flight)
            &&& !next.config_in_flight && next.original_body == ex.original_body && next.fsm
                == ex.fsm
        }),
        inst.failure_mode == FailureMode::FailClosed ==> request_body_outcome(
            inst,
            ex,
            false,
        ).2.step == RequestStep::Finish(RequestOutcome::Fail(Error::RequestSend)),
{
}

/// A service that is lost fails a request that is to fail closed.
pub proof fn law_lost_services_fail_requests(inst: ExtProcInstance, ex: RequestExchange)
    requires
        inst.failure_mode == FailureMode::FailClosed,
    ensures
        request_message_outcome(inst, ex, None).2.step == RequestStep::Finish(
            RequestOutcome::Fail(Error::NoMoreResponses),
        ),
        request_message_outcome(inst, ex, None).0 == inst,
{
}

proof fn lemma_request_effects(ex: RequestExchange, handled: HandledResponse, left_alone: bool)
    ensures
        ({
            let effects = request_advanced(ex, handled, left_alone).1.effects;
            &&& effects.header_mutation == handled.effects.header_mutation
            &&& effects.dynamic_metadata == handled.effects.dynamic_metadata
            &&& !left_alone ==> effects.forward == handled.effects.forward
        }),
{
}

/// What a message says is carried out on the request: its metadata are attached, and the changes
/// that it wants made to the headers are made, where the service was shown them, whatever the
/// request waits for next.
pub proof fn law_request_messages_are_carried_out(
    inst: ExtProcInstance,
    ex: RequestExchange,
    presp: ProcessingResponse,
    cr: CommonResponse,
)
    requires
        !(presp.response matches Some(ResponseKind::ImmediateResponse(_))),
    ensures
        ({
            let effects = request_message_outcome(inst, ex, Some(presp)).2.effects;
            &&& effects.dynamic_metadata == presp.dynamic_metadata
            &&& presp.response == Some(ResponseKind::RequestHeaders(Some(cr))) || presp.response
                == Some(ResponseKind::RequestBody(Some(cr))) ==> effects.header_mutation == if ex.send_headers {
                cr.header_mutation
            } else {
                None
            }
        }),
{
    let (i, e) = request_reconciled(inst, ex, presp);
    assert(e.send_headers == ex.send_headers);
    lemma_request_effects(
        e,
        handled_request(e.fsm.expect_body_response, e.send_headers, true, presp),
        leaves_body_alone(presp),
    );
}

/// Bytes that the service sends for a body that it was sent go upstream as they stand.
pub proof fn law_request_bytes_are_passed_on(
    inst: ExtProcInstance,
    ex: RequestExchange,
    presp: ProcessingResponse,
    cr: CommonResponse,
    bytes: Vec<u8>,
    last: bool,
)
    requires
        ex.fsm.expect_body_response,
        presp.response == Some(ResponseKind::RequestBody(Some(cr))),
        cr.body_mutation == Some(
            BodyMutation {
                mutation: Some(Mutation::StreamedResponse { body: bytes, end_of_stream: last }),
            },
        ) || cr.body_mutation == Some(BodyMutation { mutation: Some(Mutation::Body(bytes)) }),
    ensures
        request_message_outcome(inst, ex, Some(presp)).2.effects.forward == Some(bytes),
{
    lemma_request_effects(
        ex,
        handled_request(ex.fsm.expect_body_response, ex.send_headers, true, presp),
        leaves_body_alone(presp),
    );
}

/// The answer to the headers of a request whose body is being buffered makes the body the next
/// thing to wait for, unless its mode has changed so that it is not sent.
pub proof fn law_buffered_bodies_come_after_headers(
    inst: ExtProcInstance,
    ex: RequestExchange,
    presp: ProcessingResponse,
    answer: Option<CommonResponse>,
)
    requires
        ex.wf(),
        ex.buffering,
        presp.response == Some(ResponseKind::RequestHeaders(answer)),
        presp.mode_override is None,
        inst.mode_state.request_body_mode == ex.body_mode,
    ensures
        request_message_outcome(inst, ex, Some(presp)).2.step is AwaitBuffer,
        !request_message_outcome(inst, ex, Some(presp)).1.buffering,
{
    let (i, e) = request_reconciled(inst, ex, presp);
    assert(i.mode_state.request_body_mode == ex.body_mode);
    assert(e.fsm.expect_body_response);
    let handled = handled_request(e.fsm.expect_body_response, e.send_headers, true, presp);
    assert(handled.headers_done);
}

/// A request that the service is done with goes upstream with what the service sent for its body;
/// what is still to come of the body is passed on as it comes, and nothing is waited for where
/// nothing is to come.
pub proof fn law_request_is_released(
    ex: RequestExchange,
    handled: HandledResponse,
    left_alone: bool,
)
    requires
        ex.body_mode != BodySendMode::NotSent,
        !ex.buffering,
        handled.headers_done || ex.fsm.phase != RequestPhase::AwaitingHeaders,
    ensures
        ({
            let action = request_advanced(ex, handled, left_alone).1;
            &&& action.step matches RequestStep::Finish(
                RequestOutcome::Continue { body, strip_content_length, continuation },
            ) && body == BodySource::Forwarded && strip_content_length == ex.had_body && (
            continuation is None <==> handled.end_of_stream) && (continuation matches Some(c)
                ==> c.expect_body_response == ex.fsm.expect_body_response && c.send_headers
                == ex.send_headers)
        }),
{
}

/// Until the answer to the headers is there a request waits on: messages on trailers, messages for
/// the other side and those that leave the body alone do not end the wait.
pub proof fn law_requests_wait_for_the_headers_answer(
    inst: ExtProcInstance,
    ex: RequestExchange,
    presp: ProcessingResponse,
)
    requires
        ex.fsm.phase == RequestPhase::AwaitingHeaders,
        presp.response is None || presp.response->0 is RequestTrailers || presp.response->0
            is ResponseHeaders || presp.response->0 is ResponseBody || presp.response->0
            is ResponseTrailers || presp.response == Some(ResponseKind::RequestBody(None)),
    ensures
        request_message_outcome(inst, ex, Some(presp)).2.step is Receive,
{
}

/// A response begins with its headers, where they are sent: all of them, with the attributes and
/// the announcement, and with word whether a body follows.
pub proof fn law_response_headers_are_sent_first(
    inst: ExtProcInstance,
    headers: Vec<HeaderValue>,
    had_body: bool,
)
    requires
        !inst.skipped,
    ensures
        ({
            let (_, ex, action) = response_begins(inst, headers, had_body);
            &&& inst.mode_state.response_header_mode == HeaderSendMode::Send <==> action.step
                is SendHeaders
            &&& action.step matches ResponseStep::SendHeaders(m) ==> m.request == (
            RequestKind::ResponseHeaders { headers, end_of_stream: !had_body }) && m.attributes
                && m.protocol_config == inst.pending_config() && action.stream is None
            &&& action.effects == no_effects()
            &&& ex.send_body == (had_body && inst.mode_state.response_body_mode
                != BodySendMode::NotSent)
            &&& ex.send_headers == (inst.mode_state.response_header_mode == HeaderSendMode::Send)
            &&& ex.send_trailers == (inst.mode_state.response_trailer_mode == TrailerSendMode::Send)
        }),
{
}

/// What a response does once its headers are out of the way: the answer to them is waited for
/// where they were sent; otherwise its body is streamed at once, where it is sent; and where
/// neither is, the response goes to the client as it is.
pub proof fn law_response_goes_on_after_headers(inst: ExtProcInstance, ex: ResponseExchange)
    ensures
        ({
            let (after, next, action) = after_response_headers(inst, ex);
            &&& action.effects == no_effects()
            &&& ex.send_headers || ex.send_body <==> action.step is Receive
            &&& action.step is Receive ==> after.response_messages_taken
            &&& action.stream is Some <==> !ex.send_headers && ex.send_body
            &&& action.stream matches Some(s) ==> s.side == HeaderPhase::Response
                && s.send_trailers == ex.send_trailers && s.first_attributes == ex.first_attributes
                && s.first_protocol_config == ex.first_protocol_config && !next.body_pending
            &&& !ex.send_headers && !ex.send_body ==> action.step == ResponseStep::Finish(
                ResponseOutcome::Continue {
                    body: BodySource::Original,
                    strip_content_length: false,
                    continuation: None,
                },
            ) && after == inst && next == ex
        }),
{
}

/// Response headers that were sent have told the service all that goes with them; headers that
/// could not be sent fail the response, however the exchange is to fail.
pub proof fn law_response_headers_must_be_sent(inst: ExtProcInstance, ex: ResponseExchange)
    ensures
        response_headers_outcome(inst, ex, true) == after_response_headers(
            ExtProcInstance { protocol_config_sent: true, ..inst },
            ex,
        ),
        response_headers_outcome(inst, ex, false).2.step == ResponseStep::Finish(
            ResponseOutcome::Fail(Error::RequestSend),
        ),
        response_headers_outcome(inst, ex, false).0 == inst,
{
}

proof fn lemma_response_effects(
    inst: ExtProcInstance,
    ex: ResponseExchange,
    handled: HandledResponse,
)
    ensures
        response_advanced(inst, ex, handled).2.effects == handled.effects,
{
}

/// What a message says is carried out on the response: its metadata are attached, the changes that
/// it wants made to the headers are made, where the service was shown them, and its bytes are
/// passed on, where a body was sent.
pub proof fn law_response_messages_are_carried_out(
    inst: ExtProcInstance,
    ex: ResponseExchange,
    presp: ProcessingResponse,
    cr: CommonResponse,
)
    requires
        !(presp.response matches Some(ResponseKind::ImmediateResponse(_))),
    ensures
        ({
            let effects = response_message_outcome(inst, ex, Some(presp)).2.effects;
            &&& effects.dynamic_metadata == presp.dynamic_metadata
            &&& presp.response == Some(ResponseKind::ResponseHeaders(Some(cr))) || presp.response
                == Some(ResponseKind::ResponseBody(Some(cr))) ==> effects.header_mutation == if ex.send_headers {
                cr.header_mutation
            } else {
                None
            }
        }),
{
    let (i, e) = response_reconciled(inst, ex, presp);
    assert(e.send_headers == ex.send_headers);
    lemma_response_effects(
        i,
        e,
        handled_response(e.send_body && e.fsm.send_body, e.send_headers, true, presp),
    );
}

/// Bytes that the service sends for the body of a response that it was sent go to the client as
/// they stand.
pub proof fn law_response_bytes_are_passed_on(
    inst: ExtProcInstance,
    ex: ResponseExchange,
    presp: ProcessingResponse,
    cr: CommonResponse,
    bytes: Vec<u8>,
    last: bool,
)
    requires
        ex.send_body && ex.fsm.send_body,
        presp.response == Some(ResponseKind::ResponseBody(Some(cr))),
        cr.body_mutation == Some(
            BodyMutation {
                mutation: Some(Mutation::StreamedResponse { body: bytes, end_of_stream: last }),
            },
        ) || cr.body_mutation == Some(BodyMutation { mutation: Some(Mutation::Body(bytes)) }),
    ensures
        response_message_outcome(inst, ex, Some(presp)).2.effects.forward == Some(bytes),
{
    lemma_response_effects(inst, ex, handled_response(true, ex.send_headers, true, presp));
}

/// Once the answer to the headers is behind it, a response whose body is sent goes to the client
/// with what the service sends for the body. Where more is to come, the body is handed to a
/// stream, if it has not been, and what comes is passed on.
pub proof fn law_response_is_released(
    inst: ExtProcInstance,
    ex: ResponseExchange,
    handled: HandledResponse,
)
    requires
        ex.send_body,
        handled.headers_done || ex.fsm.phase != ResponsePhase::AwaitingHeaders,
    ensures
        ({
            let action = response_advanced(inst, ex, handled).2;
            let more = !handled.end_of_stream && ex.fsm.send_body;
            &&& action.step matches ResponseStep::Finish(
                ResponseOutcome::Continue { body, strip_content_length, continuation },
            ) && body == BodySource::Forwarded && strip_content_length && (continuation is Some
                <==> more) && (continuation matches Some(c) ==> c.send_headers == ex.send_headers)
            &&& action.stream is Some <==> more && ex.body_pending
            &&& action.stream matches Some(s) ==> s.side == HeaderPhase::Response
                && s.send_trailers == ex.send_trailers
        }),
{
}

/// Until the answer to the headers is there a response waits on: messages on trailers, messages
/// for the other side and those that leave the body alone do not end the wait.
pub proof fn law_responses_wait_for_the_headers_answer(
    inst: ExtProcInstance,
    ex: ResponseExchange,
    presp: ProcessingResponse,
)
    requires
        ex.fsm.phase == ResponsePhase::AwaitingHeaders,
        presp.response is None || presp.response->0 is ResponseTrailers || presp.response->0
            is RequestHeaders || presp.response->0 is RequestBody || presp.response->0
            is RequestTrailers || presp.response == Some(ResponseKind::ResponseBody(None)),
    ensures
        response_message_outcome(inst, ex, Some(presp)).2.step is Receive,
{
}

/// The answer to the headers of a response settles how its body goes on: the modes that the
/// service may change are changed before the answer is dealt with.
pub proof fn law_response_overrides_come_first(
    inst: ExtProcInstance,
    ex: ResponseExchange,
    presp: ProcessingResponse,
    answer: Option<CommonResponse>,
)
    requires
        ex.wf(),
        ex.send_body,
        presp.response == Some(ResponseKind::ResponseHeaders(answer)),
    ensures
        ({
            let after = response_message_outcome(inst, ex, Some(presp));
            let modes = inst.headers_answered(HeaderPhase::Response, presp).mode_state;
            &&& after.0.mode_state == modes
            &&& modes.response_body_mode == BodySendMode::NotSent ==> after.2.stream is None
                && after.2.effects.forward is None
        }),
{
    let (i, e) = response_reconciled(inst, ex, presp);
    let handled = handled_response(e.send_body && e.fsm.send_body, e.send_headers, true, presp);
    lemma_response_effects(i, e, handled);
    assert(response_advanced(i, e, handled).0.mode_state == i.mode_state);
}

/// A request without a body passes where the service is lost and the exchange fails open, whatever
/// mode bodies have; so does one whose body does not go through the service.
pub proof fn law_requests_without_bodies_fail_open(inst: ExtProcInstance, ex: RequestExchange)
    requires
        ex.wf(),
        inst.failure_mode == FailureMode::FailOpen,
        !ex.had_body || ex.body_mode == BodySendMode::NotSent && ex.fsm.body_path
            == BodyPath::Bypass,
    ensures
        request_message_outcome(inst, ex, None).0.skipped,
        request_message_outcome(inst, ex, None).2.step == RequestStep::Finish(
            RequestOutcome::Continue {
                body: BodySource::Original,
                strip_content_length: false,
                continuation: None,
            },
        ),
{
}

/// A buffered body that the service leaves alone goes upstream as it came in: once it has been
/// sent, the answer that changes nothing passes it on, byte for byte, and ends the wait for it.
pub proof fn law_bodies_left_alone_go_upstream(
    inst: ExtProcInstance,
    ex: RequestExchange,
    presp: ProcessingResponse,
    body: Vec<u8>,
)
    requires
        ex.wf(),
        ex.fsm.expect_body_response,
        ex.fsm.body_path == BodyPath::Buffered,
        ex.fsm.phase != RequestPhase::AwaitingHeaders,
        ex.original_body == Some(body),
        presp.response == Some(ResponseKind::RequestBody(None)),
    ensures
        ({
            let (_, next, action) = request_message_outcome(inst, ex, Some(presp));
            &&& action.effects.forward == Some(body)
            &&& next.original_body is None
            &&& action.step matches RequestStep::Finish(
                RequestOutcome::Continue { body, continuation, .. },
            ) && body == BodySource::Forwarded && continuation is None
        }),
{
}

/// A body that the service changes is not restored: what goes upstream for it is what the service
/// sent.
pub proof fn law_changed_bodies_are_not_restored(
    inst: ExtProcInstance,
    ex: RequestExchange,
    presp: ProcessingResponse,
    cr: CommonResponse,
)
    requires
        presp.response == Some(ResponseKind::RequestBody(Some(cr))),
        cr.body_mutation matches Some(BodyMutation { mutation: Some(m) }) && m is ClearBody,
    ensures
        request_message_outcome(inst, ex, Some(presp)).2.effects.forward is None,
{
    lemma_request_effects(
        ex,
        handled_request(ex.fsm.expect_body_response, ex.send_headers, true, presp),
        leaves_body_alone(presp),
    );
}

/// The body modes count as told once something that carries them is on its way for the response:
/// its headers, or the stream of its body where the announcement goes with that. Nothing else on
/// this side tells them.
pub proof fn law_response_announcement_counts(
    inst: ExtProcInstance,
    ex: ResponseExchange,
    handled: HandledResponse,
)
    ensures
        response_headers_outcome(inst, ex, true).0.protocol_config_sent,
        ({
            let (after, _, action) = after_response_headers(inst, ex);
            after.protocol_config_sent == (inst.protocol_config_sent || (
            action.stream matches Some(s) && s.first_protocol_config is Some))
        }),
        ({
            let (after, _, action) = response_advanced(inst, ex, handled);
            after.protocol_config_sent == (inst.protocol_config_sent || (
            action.stream matches Some(s) && s.first_protocol_config is Some))
        }),
{
}

/// The body modes count as told once the stream of a request body that carries them is on its way;
/// nothing else that follows the headers tells them.
pub proof fn law_request_stream_announces(inst: ExtProcInstance, ex: RequestExchange)
    ensures
        ({
            let (after, _, action) = after_request_headers(inst, ex);
            after.protocol_config_sent == (inst.protocol_config_sent || (
            action.stream matches Some(s) && s.first_protocol_config is Some))
        }),
{
}

/// A side that is released before its body is complete goes on in the background; one whose body
/// is complete stands where the answer to the headers left it.
pub proof fn law_released_sides_go_on_in_the_background(
    inst: ExtProcInstance,
    request: RequestExchange,
    response: ResponseExchange,
    handled: HandledResponse,
    left_alone: bool,
)
    requires
        request.body_mode != BodySendMode::NotSent,
        !request.buffering,
        request.fsm.phase != RequestPhase::AwaitingHeaders,
        response.send_body && response.fsm.send_body,
        response.fsm.phase != ResponsePhase::AwaitingHeaders,
        !handled.headers_done,
    ensures
        ({
            let after = request_advanced(request, handled, left_alone).0.fsm;
            &&& !handled.end_of_stream ==> after.phase == RequestPhase::StreamingContinuation
            &&& handled.end_of_stream ==> after == request.fsm
        }),
        ({
            let after = response_advanced(inst, response, handled).1.fsm;
            &&& !handled.end_of_stream ==> after.phase == ResponsePhase::StreamingContinuation
            &&& handled.end_of_stream ==> after == response.fsm
        }),
{
}

} // verus!
