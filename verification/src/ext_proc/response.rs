//! The response side of an exchange.
//!
//! [`ExtProcInstance::mutate_response`] begins it. Each action says what the caller does next, and
//! the caller hands back what came of it: [`ExtProcInstance::response_headers_sent`] and
//! [`ExtProcInstance::response_message`], until the step is [`ResponseStep::Finish`].

use vstd::prelude::*;

#[allow(unused_imports)]
use crate::ext_proc::flow::{ResponseFlowFsm, ResponsePhase};
use crate::ext_proc::headers::HeaderValue;
#[allow(unused_imports)]
use crate::ext_proc::instance::{
    answers_headers, is_headers_answer, BodyStreamer, ExtProcInstance,
};
#[allow(unused_imports)]
use crate::ext_proc::messages::{
    handle_response_for_response_mutation, handled_response, has_http_status, immediate, no_effects,
    to_immediate_response, Effects, Error, HandledResponse, PolicyResponse, ProcessingRequest,
    ProcessingResponse, ProtocolConfiguration, RequestKind, ResponseLoopMessage,
};
#[allow(unused_imports)]
use crate::ext_proc::modes::{BodySendMode, HeaderPhase, HeaderSendMode, TrailerSendMode};
use crate::ext_proc::request::BodySource;

verus! {

/// The response side of an exchange, once it has begun.
#[derive(Debug, Clone, Copy, PartialEq, Eq, Structural)]
pub struct ResponseExchange {
    pub fsm: ResponseFlowFsm,
    pub send_headers: bool,
    /// Whether the body was to go through the service at the start.
    pub send_body: bool,
    pub send_trailers: bool,
    /// Whether the body of the upstream has not been touched yet.
    pub body_pending: bool,
    /// Whether the first body message carries the attributes.
    pub first_attributes: bool,
    /// The announcement that the first body message carries.
    pub first_protocol_config: Option<ProtocolConfiguration>,
}

/// The messages that come in once the response is on its way.
#[derive(Debug, Clone, Copy, PartialEq, Eq, Structural)]
pub struct ResponseContinuation {
    pub send_headers: bool,
}

/// How the response side ends.
#[derive(Debug)]
pub enum ResponseOutcome {
    /// The response goes to the client.
    Continue {
        body: BodySource,
        strip_content_length: bool,
        continuation: Option<ResponseContinuation>,
    },
    /// The service answers in place of the upstream.
    Respond(PolicyResponse),
    /// The response fails.
    Fail(Error),
}

/// What the response side does next.
#[derive(Debug)]
pub enum ResponseStep {
    /// Send the headers, then report with [`ExtProcInstance::response_headers_sent`].
    SendHeaders(ProcessingRequest),
    /// Wait for a message, then report with [`ExtProcInstance::response_message`].
    Receive,
    /// Nothing: this is how it ends.
    Finish(ResponseOutcome),
}

/// What the response side does now and next.
#[derive(Debug)]
pub struct ResponseAction {
    pub effects: Effects,
    /// A stream to start sending the body through.
    pub stream: Option<BodyStreamer>,
    pub step: ResponseStep,
}

/// An action that is nothing but a step.
pub open spec fn only_step(step: ResponseStep) -> ResponseAction {
    ResponseAction { effects: no_effects(), stream: None, step }
}

fn just(step: ResponseStep) -> (r: ResponseAction)
    ensures
        r == only_step(step),
{
    ResponseAction { effects: Effects::default(), stream: None, step }
}

/// The end in which the response goes to the client as it came.
pub open spec fn untouched() -> ResponseOutcome {
    ResponseOutcome::Continue {
        body: BodySource::Original,
        strip_content_length: false,
        continuation: None,
    }
}

fn leave_untouched() -> (r: ResponseOutcome)
    ensures
        r == untouched(),
{
    ResponseOutcome::Continue {
        body: BodySource::Original,
        strip_content_length: false,
        continuation: None,
    }
}

impl ResponseExchange {
    /// What every response exchange keeps: its flow is well formed, a body that was to go through
    /// the service is there, and the attributes and the announcement wait for a body message only
    /// where headers are not sent.
    pub open spec fn wf(self) -> bool {
        &&& self.fsm.wf()
        &&& self.send_body ==> self.fsm.had_body
        &&& self.send_headers ==> !self.first_attributes && self.first_protocol_config is None
    }

    /// The stream that sends the body.
    pub open spec fn streamer(self) -> BodyStreamer {
        BodyStreamer {
            side: HeaderPhase::Response,
            send_trailers: self.send_trailers,
            first_attributes: self.first_attributes,
            first_protocol_config: self.first_protocol_config,
        }
    }

    /// The exchange once the stream that sends the body has been started.
    pub open spec fn streaming(self) -> ResponseExchange {
        ResponseExchange {
            body_pending: false,
            first_attributes: false,
            first_protocol_config: None,
            ..self
        }
    }

    fn start_stream(&mut self) -> (r: BodyStreamer)
        ensures
            r == old(self).streamer(),
            *final(self) == old(self).streaming(),
    {
        let stream = BodyStreamer {
            side: HeaderPhase::Response,
            send_trailers: self.send_trailers,
            first_attributes: self.first_attributes,
            first_protocol_config: self.first_protocol_config,
        };
        self.body_pending = false;
        self.first_attributes = false;
        self.first_protocol_config = None;
        stream
    }
}

/// The exchange once the body of a response has been handed to a stream that carries the
/// announcement, if there is one.
pub open spec fn announced(inst: ExtProcInstance, ex: ResponseExchange) -> ExtProcInstance {
    if ex.first_protocol_config is Some {
        inst.configured()
    } else {
        inst
    }
}

/// The response side of an exchange at its start.
pub open spec fn begun_response(inst: ExtProcInstance, had_body: bool) -> ResponseExchange {
    let modes = inst.mode_state;
    let send_headers = modes.response_header_mode == HeaderSendMode::Send;
    let send_body = modes.response_body_mode != BodySendMode::NotSent && had_body;
    ResponseExchange {
        fsm: ResponseFlowFsm::start(send_headers, send_body, had_body),
        send_headers,
        send_body,
        send_trailers: modes.response_trailer_mode == TrailerSendMode::Send,
        body_pending: true,
        first_attributes: !send_headers && send_body,
        first_protocol_config: if !send_headers && send_body {
            inst.pending_config()
        } else {
            None
        },
    }
}

/// What follows the sending of the headers.
pub open spec fn after_response_headers(inst: ExtProcInstance, ex: ResponseExchange) -> (
    ExtProcInstance,
    ResponseExchange,
    ResponseAction,
) {
    if !ex.send_headers && !ex.send_body {
        (inst, ex, only_step(ResponseStep::Finish(untouched())))
    } else if !ex.send_headers {
        (
            announced(inst, ex).response_claimed(),
            ex.streaming(),
            ResponseAction {
                effects: no_effects(),
                stream: Some(ex.streamer()),
                step: ResponseStep::Receive,
            },
        )
    } else {
        (inst.response_claimed(), ex, only_step(ResponseStep::Receive))
    }
}

/// How the response side begins. Where the service was given up, the response passes as it came.
pub open spec fn response_begins(
    inst: ExtProcInstance,
    headers: Vec<HeaderValue>,
    had_body: bool,
) -> (ExtProcInstance, ResponseExchange, ResponseAction) {
    let ex = begun_response(inst, had_body);
    if inst.skipped {
        (inst, ex, only_step(ResponseStep::Finish(untouched())))
    } else if ex.send_headers {
        (
            inst,
            ex,
            only_step(
                ResponseStep::SendHeaders(
                    ProcessingRequest {
                        request: RequestKind::ResponseHeaders { headers, end_of_stream: !had_body },
                        attributes: true,
                        protocol_config: inst.pending_config(),
                    },
                ),
            ),
        )
    } else {
        after_response_headers(inst, ex)
    }
}

/// What follows an attempt to send the headers. There is no failing open on this side.
pub open spec fn response_headers_outcome(
    inst: ExtProcInstance,
    ex: ResponseExchange,
    sent: bool,
) -> (ExtProcInstance, ResponseExchange, ResponseAction) {
    if sent {
        after_response_headers(inst.configured(), ex)
    } else {
        (inst, ex, only_step(ResponseStep::Finish(ResponseOutcome::Fail(Error::RequestSend))))
    }
}

/// The exchange once a message has changed what it may change of the modes.
pub open spec fn response_reconciled(
    inst: ExtProcInstance,
    ex: ResponseExchange,
    presp: ProcessingResponse,
) -> (ExtProcInstance, ResponseExchange) {
    if ex.send_body && answers_headers(HeaderPhase::Response, presp) {
        let answered = inst.headers_answered(HeaderPhase::Response, presp);
        (
            answered,
            ResponseExchange { fsm: ex.fsm.synced(answered.mode_state.response_body_mode), ..ex },
        )
    } else {
        (inst, ex)
    }
}

/// What follows once a message has been dealt with.
pub open spec fn response_advanced(
    inst: ExtProcInstance,
    ex: ResponseExchange,
    handled: HandledResponse,
) -> (ExtProcInstance, ResponseExchange, ResponseAction) {
    if !ex.send_body {
        let step = if handled.headers_done {
            ResponseStep::Finish(untouched())
        } else {
            ResponseStep::Receive
        };
        (inst, ex, ResponseAction { effects: handled.effects, stream: None, step })
    } else {
        let ex = ResponseExchange {
            fsm: if handled.headers_done {
                ex.fsm.headers_finished()
            } else {
                ex.fsm
            },
            ..ex
        };
        if ex.fsm.phase == ResponsePhase::AwaitingHeaders {
            (
                inst,
                ex,
                ResponseAction {
                    effects: handled.effects,
                    stream: None,
                    step: ResponseStep::Receive,
                },
            )
        } else {
            let more = !handled.end_of_stream && ex.fsm.send_body;
            let starts = more && ex.body_pending;
            let next = if starts {
                ex.streaming()
            } else {
                ex
            };
            (
                if starts {
                    announced(inst, ex)
                } else {
                    inst
                },
                if more {
                    ResponseExchange {
                        fsm: ResponseFlowFsm {
                            phase: ResponsePhase::StreamingContinuation,
                            ..next.fsm
                        },
                        ..next
                    }
                } else {
                    next
                },
                ResponseAction {
                    effects: handled.effects,
                    stream: if starts {
                        Some(ex.streamer())
                    } else {
                        None
                    },
                    step: ResponseStep::Finish(
                        ResponseOutcome::Continue {
                            body: BodySource::Forwarded,
                            strip_content_length: true,
                            continuation: if more {
                                Some(ResponseContinuation { send_headers: ex.send_headers })
                            } else {
                                None
                            },
                        },
                    ),
                },
            )
        }
    }
}

/// What follows a message that is no immediate answer.
pub open spec fn response_processed(
    inst: ExtProcInstance,
    ex: ResponseExchange,
    presp: ProcessingResponse,
) -> (ExtProcInstance, ResponseExchange, ResponseAction) {
    let (inst, ex) = response_reconciled(inst, ex, presp);
    let handled = handled_response(
        ex.send_body && ex.fsm.send_body,
        ex.send_headers,
        true,
        presp,
    );
    response_advanced(inst, ex, handled)
}

/// What follows a message, or the loss of the connection where there is none.
pub open spec fn response_message_outcome(
    inst: ExtProcInstance,
    ex: ResponseExchange,
    message: Option<ProcessingResponse>,
) -> (ExtProcInstance, ResponseExchange, ResponseAction) {
    match message {
        None => (
            inst,
            ex,
            only_step(ResponseStep::Finish(ResponseOutcome::Fail(Error::NoMoreResponses))),
        ),
        Some(presp) => match immediate(presp) {
            ResponseLoopMessage::Immediate(resp) => (
                inst,
                ex,
                only_step(ResponseStep::Finish(ResponseOutcome::Respond(resp))),
            ),
            ResponseLoopMessage::Processing(presp) => response_processed(inst, ex, presp),
        },
    }
}

/// Tells apart what came in on the response side: a message, an immediate answer, or nothing,
/// which is an error.
pub fn recv_response_loop_message(message: Option<ProcessingResponse>) -> (r: Result<
    ResponseLoopMessage,
    Error,
>)
    requires
        message matches Some(presp) ==> has_http_status(presp),
    ensures
        match message {
            Some(presp) => r == Ok::<ResponseLoopMessage, Error>(immediate(presp)),
            None => r == Err::<ResponseLoopMessage, Error>(Error::NoMoreResponses),
        },
{
    match message {
        Some(presp) => Ok(to_immediate_response(presp)),
        None => Err(Error::NoMoreResponses),
    }
}

impl ExtProcInstance {
    fn after_response_headers(&mut self, ex: &mut ResponseExchange) -> (r: ResponseAction)
        requires
            old(ex).send_headers || old(ex).send_body ==> !old(self).response_messages_taken,
        ensures
            (*final(self), *final(ex), r) == after_response_headers(*old(self), *old(ex)),
    {
        if !ex.send_body && !ex.send_headers {
            return just(ResponseStep::Finish(leave_untouched()));
        }
        self.response_messages_taken = true;
        if !ex.send_headers {
            if ex.first_protocol_config.is_some() {
                self.protocol_config_sent = true;
            }
            let stream = ex.start_stream();
            return ResponseAction {
                effects: Effects::default(),
                stream: Some(stream),
                step: ResponseStep::Receive,
            };
        }
        just(ResponseStep::Receive)
    }

    /// Begins the response side. `headers` are the headers of the response on the wire, and
    /// `had_body` says whether it has a body.
    pub fn mutate_response(&mut self, headers: Vec<HeaderValue>, had_body: bool) -> (r: (
        ResponseExchange,
        ResponseAction,
    ))
        requires
            !old(self).skipped && old(self).mode_state.response_header_mode == HeaderSendMode::Skip
                && had_body && old(self).mode_state.response_body_mode != BodySendMode::NotSent
                ==> !old(self).response_messages_taken,
        ensures
            (*final(self), r.0, r.1) == response_begins(*old(self), headers, had_body),
    {
        let send_headers = self.mode_state.response_header_mode == HeaderSendMode::Send;
        let send_body = self.mode_state.response_body_mode != BodySendMode::NotSent && had_body;
        let mut ex = ResponseExchange {
            fsm: ResponseFlowFsm::new(send_headers, send_body, had_body),
            send_headers,
            send_body,
            send_trailers: self.mode_state.response_trailer_mode == TrailerSendMode::Send,
            body_pending: true,
            first_attributes: !send_headers && send_body,
            first_protocol_config: if !send_headers && send_body {
                self.next_protocol_config()
            } else {
                None
            },
        };
        let action = if self.skipped {
            just(ResponseStep::Finish(leave_untouched()))
        } else if send_headers {
            just(
                ResponseStep::SendHeaders(
                    ProcessingRequest {
                        request: RequestKind::ResponseHeaders { headers, end_of_stream: !had_body },
                        attributes: true,
                        protocol_config: self.next_protocol_config(),
                    },
                ),
            )
        } else {
            self.after_response_headers(&mut ex)
        };
        (ex, action)
    }

    /// Goes on after the headers have been sent, or could not be sent.
    pub fn response_headers_sent(&mut self, ex: &mut ResponseExchange, sent: bool) -> (r:
        ResponseAction)
        requires
            sent && (old(ex).send_headers || old(ex).send_body) ==> !old(
                self,
            ).response_messages_taken,
        ensures
            (*final(self), *final(ex), r) == response_headers_outcome(*old(self), *old(ex), sent),
    {
        if !sent {
            return just(ResponseStep::Finish(ResponseOutcome::Fail(Error::RequestSend)));
        }
        self.protocol_config_sent = true;
        self.after_response_headers(ex)
    }

    /// Goes on after a message, or after the loss of the connection where there is none.
    pub fn response_message(
        &mut self,
        ex: &mut ResponseExchange,
        message: Option<ProcessingResponse>,
    ) -> (r: ResponseAction)
        requires
            message matches Some(presp) ==> has_http_status(presp),
        ensures
            (*final(self), *final(ex), r) == response_message_outcome(
                *old(self),
                *old(ex),
                message,
            ),
    {
        match recv_response_loop_message(message) {
            Err(e) => just(ResponseStep::Finish(ResponseOutcome::Fail(e))),
            Ok(ResponseLoopMessage::Immediate(resp)) => just(
                ResponseStep::Finish(ResponseOutcome::Respond(resp)),
            ),
            Ok(ResponseLoopMessage::Processing(presp)) => self.process_response_loop_message(
                ex,
                presp,
            ),
        }
    }

    /// Goes on after a message that is no immediate answer.
    pub fn process_response_loop_message(
        &mut self,
        ex: &mut ResponseExchange,
        presp: ProcessingResponse,
    ) -> (r: ResponseAction)
        ensures
            (*final(self), *final(ex), r) == response_processed(*old(self), *old(ex), presp),
    {
        if ex.send_body && is_headers_answer(HeaderPhase::Response, &presp) {
            self.mode_state.mark_headers_processed(HeaderPhase::Response);
            self.maybe_apply_mode_override(HeaderPhase::Response, &presp);
            ex.fsm.reconcile_headers_response(self.mode_state.response_body_mode);
        }
        let handled = handle_response_for_response_mutation(
            ex.send_body && ex.fsm.send_body,
            ex.send_headers,
            true,
            presp,
        );
        self.advance_response(ex, handled)
    }

    fn advance_response(&mut self, ex: &mut ResponseExchange, handled: HandledResponse) -> (r:
        ResponseAction)
        ensures
            (*final(self), *final(ex), r) == response_advanced(*old(self), *old(ex), handled),
    {
        let HandledResponse { effects, headers_done, end_of_stream } = handled;
        if !ex.send_body {
            let step = if headers_done {
                ResponseStep::Finish(leave_untouched())
            } else {
                ResponseStep::Receive
            };
            return ResponseAction { effects, stream: None, step };
        }
        if !ex.fsm.advance_after_response(headers_done) {
            return ResponseAction { effects, stream: None, step: ResponseStep::Receive };
        }
        let mut stream = None;
        let mut continuation = None;
        if !end_of_stream && ex.fsm.send_body {
            if ex.body_pending {
                if ex.first_protocol_config.is_some() {
                    self.protocol_config_sent = true;
                }
                stream = Some(ex.start_stream());
            }
            ex.fsm.enter_streaming_continuation();
            continuation = Some(ResponseContinuation { send_headers: ex.send_headers });
        }
        ResponseAction {
            effects,
            stream,
            step: ResponseStep::Finish(
                ResponseOutcome::Continue {
                    body: BodySource::Forwarded,
                    strip_content_length: true,
                    continuation,
                },
            ),
        }
    }
}

impl ResponseContinuation {
    /// Deals with a message that comes in once the response is on its way: the bytes to pass on,
    /// and whether this was the last message that counts.
    pub fn forward_response_stream_continuation(&self, presp: ProcessingResponse) -> (r: (
        Option<Vec<u8>>,
        bool,
    ))
        ensures
            r.0 == handled_response(true, self.send_headers, false, presp).effects.forward,
            r.1 == handled_response(true, self.send_headers, false, presp).end_of_stream,
    {
        let handled = handle_response_for_response_mutation(true, self.send_headers, false, presp);
        (handled.effects.forward, handled.end_of_stream)
    }
}

/// Where the service was given up on the request side, the response passes as it came and no
/// message is sent.
pub proof fn law_skipped_response_is_untouched(
    inst: ExtProcInstance,
    headers: Vec<HeaderValue>,
    had_body: bool,
)
    requires
        inst.skipped,
    ensures
        response_begins(inst, headers, had_body).0 == inst,
        response_begins(inst, headers, had_body).2 == only_step(ResponseStep::Finish(untouched())),
{
}

proof fn lemma_response_advanced_wf(
    inst: ExtProcInstance,
    ex: ResponseExchange,
    handled: HandledResponse,
)
    requires
        ex.wf(),
    ensures
        response_advanced(inst, ex, handled).1.wf(),
{
}

proof fn lemma_response_processed_keeps_skipped(
    inst: ExtProcInstance,
    ex: ResponseExchange,
    presp: ProcessingResponse,
)
    ensures
        response_processed(inst, ex, presp).0.skipped == inst.skipped,
{
    let (i, e) = response_reconciled(inst, ex, presp);
    assert(i.skipped == inst.skipped);
}

/// The response side begins well formed and stays so, whatever comes in.
pub proof fn law_response_stays_well_formed(
    inst: ExtProcInstance,
    ex: ResponseExchange,
    headers: Vec<HeaderValue>,
    had_body: bool,
    sent: bool,
    message: Option<ProcessingResponse>,
)
    requires
        ex.wf(),
    ensures
        response_begins(inst, headers, had_body).1.wf(),
        response_headers_outcome(inst, ex, sent).1.wf(),
        response_message_outcome(inst, ex, message).1.wf(),
{
    if let Some(presp) = message {
        let (i, e) = response_reconciled(inst, ex, presp);
        lemma_response_advanced_wf(
            i,
            e,
            handled_response(e.send_body && e.fsm.send_body, e.send_headers, true, presp),
        );
    }
}

/// Whether an action carries an announcement of the body modes.
pub open spec fn announces(action: ResponseAction) -> bool {
    ||| action.step matches ResponseStep::SendHeaders(m) && m.protocol_config is Some
    ||| action.stream matches Some(stream) && stream.first_protocol_config is Some
}

/// Once the service has been told the body modes, the response side does not tell it again.
pub proof fn law_response_announces_once(
    inst: ExtProcInstance,
    headers: Vec<HeaderValue>,
    had_body: bool,
)
    requires
        inst.protocol_config_sent,
    ensures
        !announces(response_begins(inst, headers, had_body).2),
        response_begins(inst, headers, had_body).1.first_protocol_config is None,
{
}

/// The response side never gives the service up: losing it is an error, and nothing else sets
/// the exchange to go on without it.
pub proof fn law_response_never_fails_open(
    inst: ExtProcInstance,
    ex: ResponseExchange,
    message: Option<ProcessingResponse>,
)
    ensures
        response_message_outcome(inst, ex, message).0.skipped == inst.skipped,
        message is None ==> response_message_outcome(inst, ex, message).2.step
            == ResponseStep::Finish(ResponseOutcome::Fail(Error::NoMoreResponses)),
{
    if let Some(presp) = message {
        lemma_response_processed_keeps_skipped(inst, ex, presp);
    }
}

/// Beginning the response side, and sending its headers or failing to, does not give the service
/// up either.
pub proof fn law_response_headers_never_fail_open(
    inst: ExtProcInstance,
    ex: ResponseExchange,
    headers: Vec<HeaderValue>,
    had_body: bool,
    sent: bool,
)
    ensures
        response_begins(inst, headers, had_body).0.skipped == inst.skipped,
        response_headers_outcome(inst, ex, sent).0.skipped == inst.skipped,
{
}

/// The body of the upstream is handed to a stream at most once.
pub proof fn law_response_body_is_streamed_at_most_once(
    inst: ExtProcInstance,
    ex: ResponseExchange,
    message: Option<ProcessingResponse>,
)
    ensures
        response_message_outcome(inst, ex, message).2.stream is Some ==> ex.body_pending
            && !response_message_outcome(inst, ex, message).1.body_pending,
        !ex.body_pending ==> !response_message_outcome(inst, ex, message).1.body_pending,
{
}

/// A response whose body was to go through the service leaves without its `content-length`; any
/// other keeps its body and its `content-length`.
pub proof fn law_response_content_length(
    inst: ExtProcInstance,
    ex: ResponseExchange,
    presp: ProcessingResponse,
)
    ensures
        response_processed(inst, ex, presp).2.step matches ResponseStep::Finish(
            ResponseOutcome::Continue { body, strip_content_length, .. },
        ) ==> strip_content_length == ex.send_body && (body == BodySource::Original
            <==> !ex.send_body),
{
}

} // verus!
