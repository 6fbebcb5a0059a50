//! The request side of an exchange.
//!
//! [`ExtProcInstance::mutate_request`] begins it. Each action says what the caller does next, and
//! the caller hands back what came of it: [`ExtProcInstance::request_headers_sent`],
//! [`ExtProcInstance::request_body_buffered`], [`ExtProcInstance::request_body_sent`] and
//! [`ExtProcInstance::request_message`], until the step is [`RequestStep::Finish`].

use vstd::prelude::*;
use vstd::string::*;

use crate::bufferbody::BodyOptions;
#[allow(unused_imports)]
use crate::bufferbody::{BufferRequestBodyError, DEFAULT_MAX_REQUEST_BYTES};
#[allow(unused_imports)]
use crate::ext_proc::flow::{
    body_path, wire_body_path, BodyPath, RequestFlowFsm, RequestPhase,
};
use crate::ext_proc::headers::HeaderValue;
#[allow(unused_imports)]
use crate::ext_proc::instance::{
    answers_headers, is_headers_answer, BodyStreamer, ExtProcInstance,
};
#[allow(unused_imports)]
use crate::ext_proc::messages::{
    handle_response_for_request_mutation, handled_request, has_http_status, immediate,
    no_effects, to_immediate_response, Effects, Error, HandledResponse, PolicyResponse,
    ProcessingRequest, ProcessingResponse, ProtocolConfiguration, RequestKind, ResponseKind, ResponseLoopMessage,
};
#[allow(unused_imports)]
use crate::ext_proc::modes::{
    wire_body_mode, BodySendMode, FailureMode, HeaderPhase, HeaderSendMode, TrailerSendMode,
};

verus! {

/// The request side of an exchange, once it has begun.
#[derive(Debug)]
pub struct RequestExchange {
    pub fsm: RequestFlowFsm,
    /// The body mode at the start.
    pub body_mode: BodySendMode,
    pub had_body: bool,
    pub send_headers: bool,
    pub send_trailers: bool,
    /// Whether the body is being buffered and has not been asked for yet.
    pub buffering: bool,
    /// Whether the next body message carries the attributes.
    pub first_attributes: bool,
    /// The announcement that the next body message carries.
    pub first_protocol_config: Option<ProtocolConfiguration>,
    /// Whether the body message that is being sent carries the announcement.
    pub config_in_flight: bool,
    /// The body as it came, as long as it may have to be restored.
    pub original_body: Option<Vec<u8>>,
}

/// Where the body of the request that goes upstream comes from.
#[derive(Debug, Clone, Copy, PartialEq, Eq, Structural)]
pub enum BodySource {
    /// It is the body that came in, whole. A buffer only looks at the beginning of it and leaves
    /// it as it was.
    Original,
    /// It is what has been and will be forwarded.
    Forwarded,
}

/// The messages that come in once the request has gone upstream.
#[derive(Debug, Clone, Copy, PartialEq, Eq, Structural)]
pub struct RequestContinuation {
    pub expect_body_response: bool,
    pub send_headers: bool,
}

/// How the request side ends.
#[derive(Debug)]
pub enum RequestOutcome {
    /// The request goes upstream.
    Continue {
        body: BodySource,
        strip_content_length: bool,
        continuation: Option<RequestContinuation>,
    },
    /// The service answers in place of the upstream.
    Respond(PolicyResponse),
    /// The request fails.
    Fail(Error),
}

/// What the request side does next.
#[derive(Debug)]
pub enum RequestStep {
    /// Send the headers, then report with [`ExtProcInstance::request_headers_sent`].
    SendHeaders(ProcessingRequest),
    /// Wait for the buffer, then report with [`ExtProcInstance::request_body_buffered`].
    AwaitBuffer,
    /// Send the body, then report with [`ExtProcInstance::request_body_sent`].
    SendBody(ProcessingRequest),
    /// Wait for a message, then report with [`ExtProcInstance::request_message`].
    Receive,
    /// Nothing: this is how it ends.
    Finish(RequestOutcome),
}

/// What the request side does now and next.
#[derive(Debug)]
pub struct RequestAction {
    pub effects: Effects,
    /// A buffer to start filling with the body.
    pub buffer: Option<BodyOptions>,
    /// A stream to start sending the body through.
    pub stream: Option<BodyStreamer>,
    pub step: RequestStep,
}

/// An action that is nothing but a step.
pub open spec fn only_step(step: RequestStep) -> RequestAction {
    RequestAction { effects: no_effects(), buffer: None, stream: None, step }
}

fn just(step: RequestStep) -> (r: RequestAction)
    ensures
        r == only_step(step),
{
    RequestAction { effects: Effects::default(), buffer: None, stream: None, step }
}

/// The end in which the request goes upstream with the body that came in. That is also how a
/// request goes on without the service: what the service may have sent for the body does not
/// count then, and neither does what the buffer kept of it.
pub open spec fn untouched() -> RequestOutcome {
    RequestOutcome::Continue {
        body: BodySource::Original,
        strip_content_length: false,
        continuation: None,
    }
}

fn leave_untouched() -> (r: RequestOutcome)
    ensures
        r == untouched(),
{
    RequestOutcome::Continue {
        body: BodySource::Original,
        strip_content_length: false,
        continuation: None,
    }
}

/// Whether a body in the mode `mode` is buffered.
pub open spec fn is_buffered_mode(mode: BodySendMode) -> bool {
    mode == BodySendMode::Buffered || mode == BodySendMode::BufferedPartial
}

/// How a body in the mode `mode` is buffered.
pub open spec fn buffer_options(mode: BodySendMode) -> BodyOptions {
    BodyOptions {
        max_request_bytes: DEFAULT_MAX_REQUEST_BYTES,
        allow_partial_message: mode == BodySendMode::BufferedPartial,
        pack_as_bytes: true,
    }
}

/// The request side of an exchange at its start.
pub open spec fn begun_request(inst: ExtProcInstance, had_body: bool) -> RequestExchange {
    let modes = inst.mode_state;
    let send_headers = modes.request_header_mode == HeaderSendMode::Send;
    RequestExchange {
        fsm: RequestFlowFsm::start(
            send_headers,
            had_body,
            wire_body_path(wire_body_mode(modes.request_body_mode)),
        ),
        body_mode: modes.request_body_mode,
        had_body,
        send_headers,
        send_trailers: modes.request_trailer_mode == TrailerSendMode::Send,
        buffering: had_body && is_buffered_mode(modes.request_body_mode),
        first_attributes: !send_headers,
        first_protocol_config: if send_headers {
            None
        } else {
            inst.pending_config()
        },
        config_in_flight: false,
        original_body: None,
    }
}

/// Whether the request side waits for messages of the service, given that the headers were sent
/// where they are to be sent.
pub open spec fn awaits_messages(ex: RequestExchange) -> bool {
    ex.send_headers || (ex.body_mode != BodySendMode::NotSent && ex.had_body)
}

/// What follows the sending of the headers.
pub open spec fn after_request_headers(inst: ExtProcInstance, ex: RequestExchange) -> (
    ExtProcInstance,
    RequestExchange,
    RequestAction,
) {
    if !awaits_messages(ex) {
        (inst, ex, only_step(RequestStep::Finish(untouched())))
    } else if ex.body_mode == BodySendMode::FullDuplexStreamed && ex.had_body {
        (
            (if ex.first_protocol_config is Some {
                inst.configured()
            } else {
                inst
            }).request_claimed(),
            RequestExchange { first_attributes: false, first_protocol_config: None, ..ex },
            RequestAction {
                effects: no_effects(),
                buffer: None,
                stream: Some(
                    BodyStreamer {
                        side: HeaderPhase::Request,
                        send_trailers: ex.send_trailers,
                        first_attributes: ex.first_attributes,
                        first_protocol_config: ex.first_protocol_config,
                    },
                ),
                step: RequestStep::Receive,
            },
        )
    } else if ex.buffering && ex.fsm.phase != RequestPhase::AwaitingHeaders {
        (
            inst.request_claimed(),
            RequestExchange { buffering: false, ..ex },
            only_step(RequestStep::AwaitBuffer),
        )
    } else {
        (inst.request_claimed(), ex, only_step(RequestStep::Receive))
    }
}

/// `after` with the buffer started.
pub open spec fn with_buffer(
    after: (ExtProcInstance, RequestExchange, RequestAction),
    buffer: Option<BodyOptions>,
) -> (ExtProcInstance, RequestExchange, RequestAction) {
    (after.0, after.1, RequestAction { buffer, ..after.2 })
}

/// How the request side begins.
pub open spec fn request_begins(
    inst: ExtProcInstance,
    headers: Vec<HeaderValue>,
    had_body: bool,
) -> (ExtProcInstance, RequestExchange, RequestAction) {
    let ex = begun_request(inst, had_body);
    let buffer = if ex.buffering {
        Some(buffer_options(ex.body_mode))
    } else {
        None
    };
    let after = if ex.send_headers {
        (
            inst,
            ex,
            only_step(
                RequestStep::SendHeaders(
                    ProcessingRequest {
                        request: RequestKind::RequestHeaders { headers, end_of_stream: !had_body },
                        attributes: true,
                        protocol_config: inst.pending_config(),
                    },
                ),
            ),
        )
    } else {
        after_request_headers(inst, ex)
    };
    with_buffer(after, buffer)
}

/// What follows an attempt to send the headers.
pub open spec fn request_headers_outcome(
    inst: ExtProcInstance,
    ex: RequestExchange,
    sent: bool,
) -> (ExtProcInstance, RequestExchange, RequestAction) {
    if sent {
        after_request_headers(inst.configured(), ex)
    } else if inst.failure_mode == FailureMode::FailOpen {
        (inst.gave_up(), ex, only_step(RequestStep::Finish(untouched())))
    } else {
        (inst, ex, only_step(RequestStep::Finish(RequestOutcome::Fail(Error::RequestSend))))
    }
}

/// What follows an attempt to send the buffered body.
pub open spec fn request_body_outcome(
    inst: ExtProcInstance,
    ex: RequestExchange,
    sent: bool,
) -> (ExtProcInstance, RequestExchange, RequestAction) {
    if sent {
        (
            if ex.config_in_flight {
                inst.configured()
            } else {
                inst
            },
            RequestExchange { config_in_flight: false, ..ex },
            only_step(RequestStep::Receive),
        )
    } else if inst.failure_mode == FailureMode::FailOpen {
        (inst.gave_up(), ex, only_step(RequestStep::Finish(untouched())))
    } else {
        (inst, ex, only_step(RequestStep::Finish(RequestOutcome::Fail(Error::RequestSend))))
    }
}

/// Whether a lost connection lets the request pass.
pub open spec fn fails_open_on_disconnect(fsm: RequestFlowFsm, failure_mode: FailureMode) -> bool {
    failure_mode == FailureMode::FailOpen && (!fsm.had_body || fsm.body_path
        != BodyPath::FullDuplex)
}

/// Whether the body is being streamed to the service, so that it cannot go on without it.
pub open spec fn body_in_flight(ex: RequestExchange) -> bool {
    ex.had_body && ex.body_mode == BodySendMode::FullDuplexStreamed
}

/// What follows the loss of the connection.
pub open spec fn request_disconnected(inst: ExtProcInstance, ex: RequestExchange) -> (
    ExtProcInstance,
    RequestExchange,
    RequestAction,
) {
    if fails_open_on_disconnect(ex.fsm, inst.failure_mode) && !body_in_flight(ex) {
        (inst.gave_up(), ex, only_step(RequestStep::Finish(untouched())))
    } else {
        (inst, ex, only_step(RequestStep::Finish(RequestOutcome::Fail(Error::NoMoreResponses))))
    }
}

/// Whether a message says that the body is left alone.
pub open spec fn leaves_body_alone(presp: ProcessingResponse) -> bool {
    presp.response matches Some(ResponseKind::RequestBody(None))
}

/// Whether the body as it came is passed on after a message that leaves it alone, if
/// `left_alone`: it was buffered and sent, and nothing else has been passed on for it.
pub open spec fn restores_body(ex: RequestExchange, left_alone: bool) -> bool {
    &&& left_alone
    &&& ex.fsm.expect_body_response
    &&& ex.fsm.body_path != BodyPath::FullDuplex
    &&& ex.original_body is Some
}

/// The exchange once a message has changed what it may change of the modes.
pub open spec fn request_reconciled(
    inst: ExtProcInstance,
    ex: RequestExchange,
    presp: ProcessingResponse,
) -> (ExtProcInstance, RequestExchange) {
    if answers_headers(HeaderPhase::Request, presp) {
        let answered = inst.headers_answered(HeaderPhase::Request, presp);
        (
            answered,
            if ex.body_mode == BodySendMode::NotSent {
                ex
            } else {
                RequestExchange {
                    fsm: ex.fsm.synced(body_path(answered.mode_state.request_body_mode)),
                    ..ex
                }
            },
        )
    } else {
        (inst, ex)
    }
}

/// An action that carries out `effects` and goes on with `step`.
pub open spec fn effects_then(effects: Effects, step: RequestStep) -> RequestAction {
    RequestAction { effects, buffer: None, stream: None, step }
}

/// How the request goes upstream once the service is done with it.
pub open spec fn request_released(ex: RequestExchange, end_of_stream: bool) -> RequestOutcome {
    RequestOutcome::Continue {
        body: BodySource::Forwarded,
        strip_content_length: body_was_due(ex),
        continuation: if end_of_stream {
            None
        } else {
            Some(
                RequestContinuation {
                    expect_body_response: ex.fsm.expect_body_response,
                    send_headers: ex.send_headers,
                },
            )
        },
    }
}

/// What follows once a message has been dealt with. A body that is being buffered and is no longer
/// to be sent goes upstream as it came.
pub open spec fn request_advanced(
    ex: RequestExchange,
    handled: HandledResponse,
    left_alone: bool,
) -> (RequestExchange, RequestAction) {
    if ex.body_mode == BodySendMode::NotSent {
        let step = if handled.headers_done {
            RequestStep::Finish(untouched())
        } else {
            RequestStep::Receive
        };
        (ex, effects_then(handled.effects, step))
    } else {
        let restores = restores_body(ex, left_alone);
        let effects = if restores {
            Effects { forward: ex.original_body, ..handled.effects }
        } else {
            handled.effects
        };
        let ex = RequestExchange {
            fsm: if handled.headers_done {
                ex.fsm.headers_finished()
            } else {
                ex.fsm
            },
            original_body: if restores {
                None
            } else {
                ex.original_body
            },
            ..ex
        };
        if ex.fsm.phase == RequestPhase::AwaitingHeaders {
            (ex, effects_then(effects, RequestStep::Receive))
        } else if ex.buffering && !ex.fsm.expect_body_response {
            (ex, effects_then(effects, RequestStep::Finish(untouched())))
        } else if ex.buffering {
            (
                RequestExchange { buffering: false, ..ex },
                effects_then(effects, RequestStep::AwaitBuffer),
            )
        } else {
            (
                if handled.end_of_stream {
                    ex
                } else {
                    RequestExchange {
                        fsm: RequestFlowFsm {
                            phase: RequestPhase::StreamingContinuation,
                            ..ex.fsm
                        },
                        ..ex
                    }
                },
                effects_then(
                    effects,
                    RequestStep::Finish(request_released(ex, handled.end_of_stream)),
                ),
            )
        }
    }
}

/// What follows a message that is no immediate answer.
pub open spec fn request_processed(
    inst: ExtProcInstance,
    ex: RequestExchange,
    presp: ProcessingResponse,
) -> (ExtProcInstance, RequestExchange, RequestAction) {
    let (inst, ex) = request_reconciled(inst, ex, presp);
    let handled = handled_request(ex.fsm.expect_body_response, ex.send_headers, true, presp);
    let (ex, action) = request_advanced(ex, handled, leaves_body_alone(presp));
    (inst, ex, action)
}

/// Whether the body was to go through the service when the request side began.
pub open spec fn body_was_due(ex: RequestExchange) -> bool {
    ex.had_body && ex.body_mode != BodySendMode::NotSent
}

/// What follows a message, or the loss of the connection where there is none.
pub open spec fn request_message_outcome(
    inst: ExtProcInstance,
    ex: RequestExchange,
    message: Option<ProcessingResponse>,
) -> (ExtProcInstance, RequestExchange, RequestAction) {
    match message {
        None => request_disconnected(inst, ex),
        Some(presp) => match immediate(presp) {
            ResponseLoopMessage::Immediate(resp) => (
                inst,
                ex,
                only_step(RequestStep::Finish(RequestOutcome::Respond(resp))),
            ),
            ResponseLoopMessage::Processing(presp) => request_processed(inst, ex, presp),
        },
    }
}

/// Why a body could not be buffered.
#[derive(Debug)]
pub enum BufferFailure {
    /// Buffering reported this.
    Buffer(BufferRequestBodyError),
    /// Buffering did not come to an end.
    Panicked,
}

/// The text for a body that could not be buffered.
pub open spec fn buffer_failure_text(failure: BufferFailure) -> Seq<char> {
    match failure {
        BufferFailure::Buffer(BufferRequestBodyError::TooLarge) =>
            "body exceeded max buffer size of 8192 bytes"@,
        BufferFailure::Buffer(BufferRequestBodyError::Read(e)) =>
            "failed to read body for buffering: "@ + e@,
        BufferFailure::Panicked => "body buffer task panicked"@,
    }
}

/// Whether `next` and `action` are what follows the buffering of the body: it is sent, with the
/// attributes and the announcement where they are due, or the request fails.
pub open spec fn follows_buffering(
    ex: RequestExchange,
    buffered: Result<Vec<u8>, BufferFailure>,
    next: RequestExchange,
    action: RequestAction,
) -> bool {
    &&& action.effects == no_effects()
    &&& action.buffer is None
    &&& action.stream is None
    &&& match buffered {
        Ok(body) => {
            &&& action.step matches RequestStep::SendBody(request)
            &&& request.request matches RequestKind::RequestBody { body: b, end_of_stream }
            &&& b@ == body@
            &&& end_of_stream
            &&& request.attributes == ex.first_attributes
            &&& request.protocol_config == ex.first_protocol_config
            &&& next == RequestExchange {
                first_attributes: false,
                first_protocol_config: None,
                config_in_flight: ex.first_protocol_config is Some,
                original_body: Some(body),
                ..ex
            }
        },
        Err(failure) => {
            &&& action.step matches RequestStep::Finish(RequestOutcome::Fail(Error::BodyBuffer(e)))
            &&& e@ == buffer_failure_text(failure)
            &&& next == ex
        },
    }
}

fn buffer_failure_message(failure: BufferFailure) -> (r: String)
    ensures
        r@ == buffer_failure_text(failure),
{
    match failure {
        BufferFailure::Buffer(
            BufferRequestBodyError::TooLarge,
        ) => "body exceeded max buffer size of 8192 bytes".to_owned(),
        BufferFailure::Buffer(
            BufferRequestBodyError::Read(e),
        ) => "failed to read body for buffering: ".to_owned().concat(e.as_str()),
        BufferFailure::Panicked => "body buffer task panicked".to_owned(),
    }
}

impl ExtProcInstance {
    fn after_request_headers(&mut self, ex: &mut RequestExchange) -> (r: RequestAction)
        requires
            awaits_messages(*old(ex)) ==> !old(self).request_messages_taken,
        ensures
            (*final(self), *final(ex), r) == after_request_headers(*old(self), *old(ex)),
    {
        if ex.body_mode == BodySendMode::NotSent {
            if !ex.send_headers {
                return just(RequestStep::Finish(leave_untouched()));
            }
        } else if !ex.send_headers && !ex.had_body {
            return just(RequestStep::Finish(leave_untouched()));
        }
        self.request_messages_taken = true;
        if ex.body_mode == BodySendMode::FullDuplexStreamed && ex.had_body {
            if ex.first_protocol_config.is_some() {
                self.protocol_config_sent = true;
            }
            let stream = BodyStreamer {
                side: HeaderPhase::Request,
                send_trailers: ex.send_trailers,
                first_attributes: ex.first_attributes,
                first_protocol_config: ex.first_protocol_config,
            };
            ex.first_attributes = false;
            ex.first_protocol_config = None;
            return RequestAction {
                effects: Effects::default(),
                buffer: None,
                stream: Some(stream),
                step: RequestStep::Receive,
            };
        }
        if !ex.fsm.is_awaiting_headers() && ex.buffering {
            ex.buffering = false;
            return just(RequestStep::AwaitBuffer);
        }
        just(RequestStep::Receive)
    }

    /// Begins the request side. `headers` are the headers of the request on the wire, and
    /// `had_body` says whether it has a body.
    pub fn mutate_request(&mut self, headers: Vec<HeaderValue>, had_body: bool) -> (r: (
        RequestExchange,
        RequestAction,
    ))
        requires
            old(self).mode_state.request_header_mode == HeaderSendMode::Skip && had_body && old(
                self,
            ).mode_state.request_body_mode != BodySendMode::NotSent ==> !old(
                self,
            ).request_messages_taken,
        ensures
            (*final(self), r.0, r.1) == request_begins(*old(self), headers, had_body),
    {
        let send_headers = self.mode_state.request_header_mode == HeaderSendMode::Send;
        let body_mode = self.mode_state.request_body_mode;
        let buffering = had_body && (body_mode == BodySendMode::Buffered || body_mode
            == BodySendMode::BufferedPartial);
        let mut ex = RequestExchange {
            fsm: RequestFlowFsm::new(send_headers, had_body, body_mode.to_wire()),
            body_mode,
            had_body,
            send_headers,
            send_trailers: self.mode_state.request_trailer_mode == TrailerSendMode::Send,
            buffering,
            first_attributes: !send_headers,
            first_protocol_config: if send_headers {
                None
            } else {
                self.next_protocol_config()
            },
            config_in_flight: false,
            original_body: None,
        };
        let buffer = if buffering {
            let mut options = BodyOptions::default();
            options.allow_partial_message = body_mode == BodySendMode::BufferedPartial;
            options.pack_as_bytes = true;
            Some(options)
        } else {
            None
        };
        let mut action = if send_headers {
            just(
                RequestStep::SendHeaders(
                    ProcessingRequest {
                        request: RequestKind::RequestHeaders { headers, end_of_stream: !had_body },
                        attributes: true,
                        protocol_config: self.next_protocol_config(),
                    },
                ),
            )
        } else {
            self.after_request_headers(&mut ex)
        };
        action.buffer = buffer;
        (ex, action)
    }

    /// Goes on after the headers have been sent, or could not be sent.
    pub fn request_headers_sent(&mut self, ex: &mut RequestExchange, sent: bool) -> (r:
        RequestAction)
        requires
            sent && awaits_messages(*old(ex)) ==> !old(self).request_messages_taken,
        ensures
            (*final(self), *final(ex), r) == request_headers_outcome(*old(self), *old(ex), sent),
    {
        if sent {
            self.protocol_config_sent = true;
            return self.after_request_headers(ex);
        }
        if self.failure_mode == FailureMode::FailOpen {
            self.skipped = true;
            return just(RequestStep::Finish(leave_untouched()));
        }
        just(RequestStep::Finish(RequestOutcome::Fail(Error::RequestSend)))
    }

    /// Goes on after the body has been buffered, or could not be buffered.
    pub fn request_body_buffered(
        &mut self,
        ex: &mut RequestExchange,
        buffered: Result<Vec<u8>, BufferFailure>,
    ) -> (r: RequestAction)
        ensures
            *final(self) == *old(self),
            follows_buffering(*old(ex), buffered, *final(ex), r),
    {
        match buffered {
            Ok(buf) => {
                let body = buf.clone();
                ex.original_body = Some(buf);
                let attributes = ex.first_attributes;
                let protocol_config = ex.first_protocol_config;
                ex.first_attributes = false;
                ex.first_protocol_config = None;
                ex.config_in_flight = protocol_config.is_some();
                just(
                    RequestStep::SendBody(
                        ProcessingRequest {
                            request: RequestKind::RequestBody { body, end_of_stream: true },
                            attributes,
                            protocol_config,
                        },
                    ),
                )
            },
            Err(failure) => just(
                RequestStep::Finish(
                    RequestOutcome::Fail(Error::BodyBuffer(buffer_failure_message(failure))),
                ),
            ),
        }
    }

    /// Goes on after the buffered body has been sent, or could not be sent.
    pub fn request_body_sent(&mut self, ex: &mut RequestExchange, sent: bool) -> (r: RequestAction)
        ensures
            (*final(self), *final(ex), r) == request_body_outcome(*old(self), *old(ex), sent),
    {
        if sent {
            if ex.config_in_flight {
                self.protocol_config_sent = true;
            }
            ex.config_in_flight = false;
            return just(RequestStep::Receive);
        }
        if self.failure_mode == FailureMode::FailOpen {
            self.skipped = true;
            return just(RequestStep::Finish(leave_untouched()));
        }
        just(RequestStep::Finish(RequestOutcome::Fail(Error::RequestSend)))
    }

    /// Goes on after a message, or after the loss of the connection where there is none.
    pub fn request_message(
        &mut self,
        ex: &mut RequestExchange,
        message: Option<ProcessingResponse>,
    ) -> (r: RequestAction)
        requires
            message matches Some(presp) ==> has_http_status(presp),
        ensures
            (*final(self), *final(ex), r) == request_message_outcome(
                *old(self),
                *old(ex),
                message,
            ),
    {
        let presp = match message {
            Some(presp) => presp,
            None => {
                let in_flight = ex.had_body && ex.body_mode == BodySendMode::FullDuplexStreamed;
                if ex.fsm.should_fail_open_on_disconnect(self.failure_mode) && !in_flight {
                    self.skipped = true;
                    return just(RequestStep::Finish(leave_untouched()));
                }
                return just(RequestStep::Finish(RequestOutcome::Fail(Error::NoMoreResponses)));
            },
        };
        let presp = match to_immediate_response(presp) {
            ResponseLoopMessage::Immediate(resp) => {
                return just(RequestStep::Finish(RequestOutcome::Respond(resp)));
            },
            ResponseLoopMessage::Processing(presp) => presp,
        };
        self.reconcile_request(ex, &presp);
        let left_alone = match &presp.response {
            Some(ResponseKind::RequestBody(None)) => true,
            _ => false,
        };
        let handled = handle_response_for_request_mutation(
            ex.fsm.expect_body_response,
            ex.send_headers,
            true,
            presp,
        );
        ex.advance(handled, left_alone)
    }

    fn reconcile_request(&mut self, ex: &mut RequestExchange, presp: &ProcessingResponse)
        ensures
            (*final(self), *final(ex)) == request_reconciled(*old(self), *old(ex), *presp),
    {
        if is_headers_answer(HeaderPhase::Request, presp) {
            self.mode_state.mark_headers_processed(HeaderPhase::Request);
            self.maybe_apply_mode_override(HeaderPhase::Request, presp);
            if ex.body_mode != BodySendMode::NotSent {
                ex.fsm.reconcile_headers_response(self.mode_state.request_body_mode);
            }
        }
    }
}

impl RequestExchange {
    fn advance(&mut self, handled: HandledResponse, left_alone: bool) -> (r: RequestAction)
        ensures
            (*final(self), r) == request_advanced(*old(self), handled, left_alone),
    {
        let HandledResponse { effects, headers_done, end_of_stream } = handled;
        if self.body_mode == BodySendMode::NotSent {
            let step = if headers_done {
                RequestStep::Finish(leave_untouched())
            } else {
                RequestStep::Receive
            };
            return RequestAction { effects, buffer: None, stream: None, step };
        }
        let mut effects = effects;
        if self.fsm.should_restore_original_buffered_body(left_alone)
            && self.original_body.is_some() {
            effects.forward = self.original_body.take();
        }
        if !self.fsm.advance_after_response(headers_done) {
            return RequestAction {
                effects,
                buffer: None,
                stream: None,
                step: RequestStep::Receive,
            };
        }
        if self.buffering && !self.fsm.expect_body_response {
            return RequestAction {
                effects,
                buffer: None,
                stream: None,
                step: RequestStep::Finish(leave_untouched()),
            };
        }
        if self.buffering {
            self.buffering = false;
            return RequestAction {
                effects,
                buffer: None,
                stream: None,
                step: RequestStep::AwaitBuffer,
            };
        }
        let strip_content_length = self.had_body && self.body_mode != BodySendMode::NotSent;
        let continuation = if end_of_stream {
            None
        } else {
            self.fsm.enter_streaming_continuation();
            Some(
                RequestContinuation {
                    expect_body_response: self.fsm.expect_body_response,
                    send_headers: self.send_headers,
                },
            )
        };
        RequestAction {
            effects,
            buffer: None,
            stream: None,
            step: RequestStep::Finish(
                RequestOutcome::Continue {
                    body: BodySource::Forwarded,
                    strip_content_length,
                    continuation,
                },
            ),
        }
    }
}

impl RequestContinuation {
    /// Deals with a message that comes in once the request has gone upstream: the bytes to pass
    /// on, and whether this was the last message that counts.
    pub fn on_message(&self, presp: ProcessingResponse) -> (r: (Option<Vec<u8>>, bool))
        ensures
            r.0 == handled_request(
                self.expect_body_response,
                self.send_headers,
                false,
                presp,
            ).effects.forward,
            r.1 == (handled_request(
                self.expect_body_response,
                self.send_headers,
                false,
                presp,
            ).end_of_stream || !self.expect_body_response),
    {
        let handled = handle_response_for_request_mutation(
            self.expect_body_response,
            self.send_headers,
            false,
            presp,
        );
        (handled.effects.forward, handled.end_of_stream || !self.expect_body_response)
    }
}

impl RequestExchange {
    /// What every request exchange keeps: its flow is well formed and speaks of the same body; a
    /// body is buffered only in a buffered mode, and either is being buffered or has been.
    pub open spec fn wf(self) -> bool {
        &&& self.fsm.wf()
        &&& self.fsm.had_body == self.had_body
        &&& self.buffering ==> self.had_body && is_buffered_mode(self.body_mode)
            && self.original_body is None
        &&& self.original_body is Some ==> is_buffered_mode(self.body_mode)
    }
}

proof fn lemma_reconciled_stays_well_formed(
    inst: ExtProcInstance,
    ex: RequestExchange,
    presp: ProcessingResponse,
)
    requires
        ex.wf(),
    ensures
        request_reconciled(inst, ex, presp).1.wf(),
        request_reconciled(inst, ex, presp).1.send_headers == ex.send_headers,
{
}

proof fn lemma_advanced_stays_well_formed(
    ex: RequestExchange,
    handled: HandledResponse,
    left_alone: bool,
)
    requires
        ex.wf(),
    ensures
        request_advanced(ex, handled, left_alone).0.wf(),
{
}

/// The request side begins well formed and stays so, whatever comes in.
pub proof fn law_request_stays_well_formed(
    inst: ExtProcInstance,
    ex: RequestExchange,
    headers: Vec<HeaderValue>,
    had_body: bool,
    sent: bool,
    message: Option<ProcessingResponse>,
)
    requires
        ex.wf(),
    ensures
        request_begins(inst, headers, had_body).1.wf(),
        request_headers_outcome(inst, ex, sent).1.wf(),
        request_body_outcome(inst, ex, sent).1.wf(),
        request_message_outcome(inst, ex, message).1.wf(),
{
    if let Some(presp) = message {
        let reconciled = request_reconciled(inst, ex, presp).1;
        lemma_reconciled_stays_well_formed(inst, ex, presp);
        lemma_advanced_stays_well_formed(
            reconciled,
            handled_request(reconciled.fsm.expect_body_response, ex.send_headers, true, presp),
            leaves_body_alone(presp),
        );
    }
}

/// Whether an action carries an announcement of the body modes.
pub open spec fn announces(action: RequestAction) -> bool {
    ||| action.step matches RequestStep::SendHeaders(m) && m.protocol_config is Some
    ||| action.step matches RequestStep::SendBody(m) && m.protocol_config is Some
    ||| action.stream matches Some(stream) && stream.first_protocol_config is Some
}

/// Once the service has been told the body modes, the request side does not tell it again.
pub proof fn law_request_announces_once(
    inst: ExtProcInstance,
    headers: Vec<HeaderValue>,
    had_body: bool,
)
    requires
        inst.protocol_config_sent,
    ensures
        !announces(request_begins(inst, headers, had_body).2),
        request_begins(inst, headers, had_body).1.first_protocol_config is None,
{
}

/// Headers that were sent have told the service the body modes; so has a stream that carried the
/// announcement.
pub proof fn law_request_announcement_counts(
    inst: ExtProcInstance,
    ex: RequestExchange,
    headers: Vec<HeaderValue>,
    had_body: bool,
)
    ensures
        request_headers_outcome(inst, ex, true).0.protocol_config_sent,
        request_begins(inst, headers, had_body).2.stream is Some && announces(
            request_begins(inst, headers, had_body).2,
        ) ==> request_begins(inst, headers, had_body).0.protocol_config_sent,
        ex.config_in_flight ==> request_body_outcome(inst, ex, true).0.protocol_config_sent,
{
}

/// The attributes go with the headers where headers are sent, and otherwise with the first body
/// message: never with both.
pub proof fn law_request_attributes_go_once(
    inst: ExtProcInstance,
    headers: Vec<HeaderValue>,
    had_body: bool,
)
    ensures
        request_begins(inst, headers, had_body).2.step matches RequestStep::SendHeaders(m) ==> (
        m.attributes && !request_begins(inst, headers, had_body).1.first_attributes),
        request_begins(inst, headers, had_body).2.stream matches Some(stream) ==> (
        stream.first_attributes && !request_begins(inst, headers, had_body).1.first_attributes),
{
}

/// The service is given up only where the exchange is configured to fail open.
pub proof fn law_request_fails_open_only_if_configured(
    inst: ExtProcInstance,
    ex: RequestExchange,
    headers: Vec<HeaderValue>,
    had_body: bool,
    sent: bool,
    message: Option<ProcessingResponse>,
)
    requires
        !inst.skipped,
        inst.failure_mode == FailureMode::FailClosed,
    ensures
        !request_begins(inst, headers, had_body).0.skipped,
        !request_headers_outcome(inst, ex, sent).0.skipped,
        !request_body_outcome(inst, ex, sent).0.skipped,
        !request_message_outcome(inst, ex, message).0.skipped,
{
}

/// Going on without the service does not corrupt the request: whenever the service is given up,
/// the request goes upstream with the body that came in, and nothing else is done. A body that is
/// being streamed to the service is past that, so then the service is not given up.
pub proof fn law_failing_open_keeps_the_body(
    inst: ExtProcInstance,
    ex: RequestExchange,
    sent: bool,
    message: Option<ProcessingResponse>,
)
    requires
        !inst.skipped,
    ensures
        request_headers_outcome(inst, ex, sent).0.skipped ==> request_headers_outcome(
            inst,
            ex,
            sent,
        ).2 == only_step(RequestStep::Finish(untouched())),
        request_body_outcome(inst, ex, sent).0.skipped ==> request_body_outcome(inst, ex, sent).2
            == only_step(RequestStep::Finish(untouched())),
        request_message_outcome(inst, ex, message).0.skipped ==> request_message_outcome(
            inst,
            ex,
            message,
        ).2 == only_step(RequestStep::Finish(untouched())) && !body_in_flight(ex),
{
}

/// A lost service lets a request with a buffered body pass where the exchange fails open, whether
/// or not the buffer has been asked for the body, and passes it on as it came in.
pub proof fn law_buffered_body_survives_failing_open(inst: ExtProcInstance, ex: RequestExchange)
    requires
        ex.wf(),
        ex.had_body,
        is_buffered_mode(ex.body_mode),
        ex.fsm.body_path != BodyPath::FullDuplex,
        inst.failure_mode == FailureMode::FailOpen,
    ensures
        request_message_outcome(inst, ex, None).0 == inst.gave_up(),
        request_message_outcome(inst, ex, None).2 == only_step(RequestStep::Finish(untouched())),
        request_body_outcome(inst, ex, false).0 == inst.gave_up(),
        request_body_outcome(inst, ex, false).2 == only_step(RequestStep::Finish(untouched())),
        request_headers_outcome(inst, ex, false).0 == inst.gave_up(),
        request_headers_outcome(inst, ex, false).2 == only_step(RequestStep::Finish(untouched())),
{
}

/// A body that is streamed in full duplex is never cut short silently: losing the service then
/// fails the request, however it is configured.
pub proof fn law_full_duplex_body_never_fails_open(inst: ExtProcInstance, ex: RequestExchange)
    requires
        ex.fsm.had_body,
        ex.fsm.body_path == BodyPath::FullDuplex,
    ensures
        request_disconnected(inst, ex).2.step == RequestStep::Finish(
            RequestOutcome::Fail(Error::NoMoreResponses),
        ),
        request_disconnected(inst, ex).0 == inst,
{
}

/// Whether a message takes the body out of what is sent to the service: it answers the headers
/// while the body is being buffered, and afterwards bodies of requests are not to be sent.
pub open spec fn unsends_body(
    inst: ExtProcInstance,
    ex: RequestExchange,
    message: Option<ProcessingResponse>,
) -> bool {
    &&& message matches Some(presp)
    &&& answers_headers(HeaderPhase::Request, presp)
    &&& ex.buffering
    &&& inst.headers_answered(HeaderPhase::Request, presp).mode_state.request_body_mode
        == BodySendMode::NotSent
}

/// A body that is not sent to the service goes upstream as it came: no message puts bytes in its
/// place, none starts a buffer or a stream, and the `content-length` stays. That holds of a body
/// that was never to be sent, and of one that is being buffered when the service asks for none.
pub proof fn law_unsent_body_is_untouched(
    inst: ExtProcInstance,
    ex: RequestExchange,
    message: Option<ProcessingResponse>,
)
    requires
        ex.wf(),
        (ex.body_mode == BodySendMode::NotSent && ex.fsm.body_path == BodyPath::Bypass)
            || unsends_body(inst, ex, message),
    ensures
        ({
            let action = request_message_outcome(inst, ex, message).2;
            &&& action.effects.forward is None
            &&& action.buffer is None
            &&& action.stream is None
            &&& !(action.step is AwaitBuffer) && !(action.step is SendBody)
            &&& action.step matches RequestStep::Finish(
                RequestOutcome::Continue { body, strip_content_length, continuation },
            ) ==> body == BodySource::Original && !strip_content_length && continuation is None
            &&& ex.body_mode == BodySendMode::NotSent ==> request_message_outcome(
                inst,
                ex,
                message,
            ).1 == ex
            &&& unsends_body(inst, ex, message) ==> action.step == RequestStep::Finish(untouched())
        }),
{
}

/// The body as it came is restored at most once: once it has been, no message restores it.
pub proof fn law_body_is_restored_at_most_once(
    inst: ExtProcInstance,
    ex: RequestExchange,
    first: ProcessingResponse,
    second: bool,
)
    requires
        ex.body_mode != BodySendMode::NotSent,
        restores_body(ex, leaves_body_alone(first)),
        leaves_body_alone(first),
    ensures
        request_processed(inst, ex, first).2.effects.forward == ex.original_body,
        request_processed(inst, ex, first).1.original_body is None,
        !restores_body(request_processed(inst, ex, first).1, second),
{
}

/// No message brings a body to restore: only buffering does.
pub proof fn law_messages_keep_no_body(
    inst: ExtProcInstance,
    ex: RequestExchange,
    message: Option<ProcessingResponse>,
)
    requires
        ex.original_body is None,
    ensures
        request_message_outcome(inst, ex, message).1.original_body is None,
{
}

/// An immediate answer ends the request side at once and changes nothing else.
pub proof fn law_immediate_answer_ends_the_request(
    inst: ExtProcInstance,
    ex: RequestExchange,
    presp: ProcessingResponse,
)
    requires
        presp.response matches Some(ResponseKind::ImmediateResponse(_)),
    ensures
        request_message_outcome(inst, ex, Some(presp)).0 == inst,
        request_message_outcome(inst, ex, Some(presp)).1 == ex,
        request_message_outcome(inst, ex, Some(presp)).2.effects == no_effects(),
        request_message_outcome(inst, ex, Some(presp)).2.step matches RequestStep::Finish(
            RequestOutcome::Respond(_),
        ),
{
}

/// A request whose body went through the service leaves without its `content-length`; one that
/// leaves with the body that came in keeps it, and so does one that was not to send any.
pub proof fn law_content_length_is_stripped_with_the_body(
    inst: ExtProcInstance,
    ex: RequestExchange,
    presp: ProcessingResponse,
)
    ensures
        request_processed(inst, ex, presp).2.step matches RequestStep::Finish(
            RequestOutcome::Continue { body, strip_content_length, .. },
        ) ==> strip_content_length == (body_was_due(ex) && body == BodySource::Forwarded),
{
}

/// After the answer to the headers the request side never waits for another one.
pub proof fn law_request_headers_answer_ends_the_phase(
    inst: ExtProcInstance,
    ex: RequestExchange,
    presp: ProcessingResponse,
)
    requires
        ex.body_mode != BodySendMode::NotSent,
        answers_headers(HeaderPhase::Request, presp),
    ensures
        request_processed(inst, ex, presp).1.fsm.phase != RequestPhase::AwaitingHeaders,
        request_processed(inst, ex, presp).2.step !is Receive,
{
}

} // verus!
