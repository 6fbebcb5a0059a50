//! One external processing exchange: what the two sides share.

use vstd::prelude::*;

use crate::ext_proc::headers::HeaderValue;
use crate::ext_proc::messages::{
    ProcessingRequest, ProcessingResponse, ProtocolConfiguration, RequestKind, ResponseKind,
};
#[allow(unused_imports)]
use crate::ext_proc::modes::{
    wire_body_mode, FailureMode, HeaderPhase, ModeStateMachine, ProcessingOptions,
};

verus! {

/// The state of an exchange that its request side and its response side share.
#[derive(Debug, Clone, Copy, PartialEq, Eq, Structural)]
pub struct ExtProcInstance {
    pub failure_mode: FailureMode,
    /// Whether the service was given up and the exchange goes on without it.
    pub skipped: bool,
    /// Whether the service has been told the body modes.
    pub protocol_config_sent: bool,
    pub mode_state: ModeStateMachine,
    /// Whether the messages for the request side have been claimed.
    pub request_messages_taken: bool,
    /// Whether the messages for the response side have been claimed.
    pub response_messages_taken: bool,
}

/// Where a message from the service goes.
#[derive(Debug, Clone, Copy, PartialEq, Eq, Structural)]
pub enum Route {
    /// To the request side.
    Request,
    /// To the response side.
    Response,
    /// To both sides: it is not known which of them is to deal with it.
    Both,
    /// Nowhere.
    Dropped,
}

/// Where a message from the service goes.
pub open spec fn routed(response: Option<ResponseKind>) -> Route {
    match response {
        Some(ResponseKind::ResponseBody(_)) => Route::Response,
        Some(ResponseKind::ResponseHeaders(_)) => Route::Response,
        Some(ResponseKind::ResponseTrailers) => Route::Response,
        Some(ResponseKind::RequestBody(_)) => Route::Request,
        Some(ResponseKind::RequestHeaders(_)) => Route::Request,
        Some(ResponseKind::RequestTrailers) => Route::Request,
        Some(ResponseKind::ImmediateResponse(_)) => Route::Both,
        None => Route::Dropped,
    }
}

/// Where a message from the service goes.
pub fn route(item: &ProcessingResponse) -> (r: Route)
    ensures
        r == routed(item.response),
{
    match &item.response {
        Some(ResponseKind::ResponseBody(_)) => Route::Response,
        Some(ResponseKind::ResponseHeaders(_)) => Route::Response,
        Some(ResponseKind::ResponseTrailers) => Route::Response,
        Some(ResponseKind::RequestBody(_)) => Route::Request,
        Some(ResponseKind::RequestHeaders(_)) => Route::Request,
        Some(ResponseKind::RequestTrailers) => Route::Request,
        Some(ResponseKind::ImmediateResponse(_)) => Route::Both,
        None => Route::Dropped,
    }
}

/// Whether a message answers to the headers of `phase`.
pub open spec fn answers_headers(phase: HeaderPhase, presp: ProcessingResponse) -> bool {
    match phase {
        HeaderPhase::Request => presp.response matches Some(ResponseKind::RequestHeaders(_)),
        HeaderPhase::Response => presp.response matches Some(ResponseKind::ResponseHeaders(_)),
    }
}

/// [`answers_headers`], computed.
pub fn is_headers_answer(phase: HeaderPhase, presp: &ProcessingResponse) -> (r: bool)
    ensures
        r == answers_headers(phase, *presp),
{
    match (phase, &presp.response) {
        (HeaderPhase::Request, Some(ResponseKind::RequestHeaders(_))) => true,
        (HeaderPhase::Response, Some(ResponseKind::ResponseHeaders(_))) => true,
        _ => false,
    }
}

impl ExtProcInstance {
    /// An exchange that has not begun.
    pub open spec fn fresh(
        failure_mode: FailureMode,
        processing_options: ProcessingOptions,
    ) -> ExtProcInstance {
        ExtProcInstance {
            failure_mode,
            skipped: false,
            protocol_config_sent: false,
            mode_state: ModeStateMachine::of_options(processing_options),
            request_messages_taken: false,
            response_messages_taken: false,
        }
    }

    /// The body modes as they are announced to the service.
    pub open spec fn config(self) -> ProtocolConfiguration {
        ProtocolConfiguration {
            request_body_mode: wire_body_mode(self.mode_state.request_body_mode),
            response_body_mode: wire_body_mode(self.mode_state.response_body_mode),
            send_body_without_waiting_for_header_response:
                self.mode_state.send_body_without_waiting_for_header_response,
        }
    }

    /// The announcement that goes with the next message: there is one as long as none has been
    /// sent.
    pub open spec fn pending_config(self) -> Option<ProtocolConfiguration> {
        if self.protocol_config_sent {
            None
        } else {
            Some(self.config())
        }
    }

    /// The exchange once the service has been told the body modes.
    pub open spec fn configured(self) -> ExtProcInstance {
        ExtProcInstance { protocol_config_sent: true, ..self }
    }

    /// The exchange once the service has been given up.
    pub open spec fn gave_up(self) -> ExtProcInstance {
        ExtProcInstance { skipped: true, ..self }
    }

    /// The exchange once the messages for the request side have been claimed.
    pub open spec fn request_claimed(self) -> ExtProcInstance {
        ExtProcInstance { request_messages_taken: true, ..self }
    }

    /// The exchange once the messages for the response side have been claimed.
    pub open spec fn response_claimed(self) -> ExtProcInstance {
        ExtProcInstance { response_messages_taken: true, ..self }
    }

    /// The exchange after a mode override in a message of `phase`, which counts only where
    /// overrides are allowed, bodies wait for the answer to the headers, and the message is such
    /// an answer.
    pub open spec fn maybe_overridden(
        self,
        phase: HeaderPhase,
        presp: ProcessingResponse,
    ) -> ExtProcInstance {
        match presp.mode_override {
            Some(mode) if answers_headers(phase, presp) && self.mode_state.allow_mode_override
                && !self.mode_state.send_body_without_waiting_for_header_response => {
                ExtProcInstance { mode_state: self.mode_state.overridden(mode), ..self }
            },
            _ => self,
        }
    }

    /// The exchange after the answer to the headers of `phase` has come in.
    pub open spec fn headers_answered(
        self,
        phase: HeaderPhase,
        presp: ProcessingResponse,
    ) -> ExtProcInstance {
        ExtProcInstance {
            mode_state: self.mode_state.processed(phase),
            ..self
        }.maybe_overridden(phase, presp)
    }

    /// An exchange that has not begun.
    pub fn new(failure_mode: FailureMode, processing_options: ProcessingOptions) -> (r: Self)
        ensures
            r == ExtProcInstance::fresh(failure_mode, processing_options),
    {
        ExtProcInstance {
            failure_mode,
            skipped: false,
            protocol_config_sent: false,
            mode_state: ModeStateMachine::from(processing_options),
            request_messages_taken: false,
            response_messages_taken: false,
        }
    }

    /// Whether the service was given up and the exchange goes on without it.
    pub fn did_fail_open(&self) -> (r: bool)
        ensures
            r == self.skipped,
    {
        self.skipped
    }

    /// The body modes as they are announced to the service.
    pub fn protocol_config(&self) -> (r: ProtocolConfiguration)
        ensures
            r == self.config(),
    {
        ProtocolConfiguration {
            request_body_mode: self.mode_state.request_body_mode.to_wire(),
            response_body_mode: self.mode_state.response_body_mode.to_wire(),
            send_body_without_waiting_for_header_response: self.mode_state.send_body_without_waiting_for_header_response(),
        }
    }

    /// The announcement that goes with the next message.
    pub fn next_protocol_config(&self) -> (r: Option<ProtocolConfiguration>)
        ensures
            r == self.pending_config(),
    {
        if self.protocol_config_sent {
            None
        } else {
            Some(self.protocol_config())
        }
    }

    /// Takes over the mode override of a message, where it counts.
    pub fn maybe_apply_mode_override(&mut self, phase: HeaderPhase, presp: &ProcessingResponse)
        ensures
            *final(self) == old(self).maybe_overridden(phase, *presp),
    {
        let mode_override = match presp.mode_override {
            Some(mode) => mode,
            None => {
                return;
            },
        };
        if !is_headers_answer(phase, presp) {
            return;
        }
        if !self.mode_state.allow_mode_override() {
            return;
        }
        if self.mode_state.send_body_without_waiting_for_header_response() {
            return;
        }
        self.mode_state.apply_envoy_mode_override(&mode_override);
    }
}

/// A frame of a body.
#[derive(Debug)]
pub enum BodyFrame {
    Data(Vec<u8>),
    Trailers(Vec<HeaderValue>),
}

/// A body on its way to the service, frame by frame.
#[derive(Debug, Clone, Copy, PartialEq, Eq, Structural)]
pub struct BodyStreamer {
    pub side: HeaderPhase,
    pub send_trailers: bool,
    /// Whether the next message carries the attributes.
    pub first_attributes: bool,
    /// The announcement that the next message carries.
    pub first_protocol_config: Option<ProtocolConfiguration>,
}

/// A piece of the body of one side.
pub open spec fn body_request(side: HeaderPhase, body: Vec<u8>, end_of_stream: bool) -> RequestKind {
    match side {
        HeaderPhase::Request => RequestKind::RequestBody { body, end_of_stream },
        HeaderPhase::Response => RequestKind::ResponseBody { body, end_of_stream },
    }
}

/// The trailers of one side.
pub open spec fn trailers_request(side: HeaderPhase, trailers: Vec<HeaderValue>) -> RequestKind {
    match side {
        HeaderPhase::Request => RequestKind::RequestTrailers(trailers),
        HeaderPhase::Response => RequestKind::ResponseTrailers(trailers),
    }
}

impl BodyStreamer {
    /// The body once a message has been sent.
    pub open spec fn begun(self) -> BodyStreamer {
        BodyStreamer { first_attributes: false, first_protocol_config: None, ..self }
    }

    /// Whether `r` is the message with `kind` that this body sends next.
    pub open spec fn sends(self, kind: RequestKind, r: ProcessingRequest) -> bool {
        &&& r.request == kind
        &&& r.attributes == self.first_attributes
        &&& r.protocol_config == self.first_protocol_config
    }

    fn wrap(&mut self, request: RequestKind) -> (r: ProcessingRequest)
        ensures
            old(self).sends(request, r),
            *final(self) == old(self).begun(),
    {
        let attributes = self.first_attributes;
        let protocol_config = self.first_protocol_config;
        self.first_attributes = false;
        self.first_protocol_config = None;
        ProcessingRequest { request, attributes, protocol_config }
    }

    /// The message for a frame. Trailers that are not to be sent give none.
    pub fn on_frame(&mut self, frame: BodyFrame) -> (r: Option<ProcessingRequest>)
        ensures
            match frame {
                BodyFrame::Data(body) => r matches Some(m) && old(self).sends(
                    body_request(old(self).side, body, false),
                    m,
                ) && *final(self) == old(self).begun(),
                BodyFrame::Trailers(trailers) => if old(self).send_trailers {
                    r matches Some(m) && old(self).sends(
                        trailers_request(old(self).side, trailers),
                        m,
                    ) && *final(self) == old(self).begun()
                } else {
                    r is None && *final(self) == *old(self)
                },
            },
    {
        match frame {
            BodyFrame::Data(body) => {
                let request = match self.side {
                    HeaderPhase::Request => RequestKind::RequestBody { body, end_of_stream: false },
                    HeaderPhase::Response => RequestKind::ResponseBody {
                        body,
                        end_of_stream: false,
                    },
                };
                Some(self.wrap(request))
            },
            BodyFrame::Trailers(trailers) => {
                if !self.send_trailers {
                    return None;
                }
                let request = match self.side {
                    HeaderPhase::Request => RequestKind::RequestTrailers(trailers),
                    HeaderPhase::Response => RequestKind::ResponseTrailers(trailers),
                };
                Some(self.wrap(request))
            },
        }
    }

    /// The message that ends the body.
    pub fn finish(&mut self) -> (r: ProcessingRequest)
        ensures
            r.attributes == old(self).first_attributes,
            r.protocol_config == old(self).first_protocol_config,
            is_end_of_body(old(self).side, r.request),
            *final(self) == old(self).begun(),
    {
        let body: Vec<u8> = Vec::new();
        let request = match self.side {
            HeaderPhase::Request => RequestKind::RequestBody { body, end_of_stream: true },
            HeaderPhase::Response => RequestKind::ResponseBody { body, end_of_stream: true },
        };
        self.wrap(request)
    }

    /// The messages for a whole body, in order. The attributes and the announcement go with the
    /// first of them and with no other, and the last one ends the body.
    pub fn handle_body_stream(&mut self, frames: Vec<BodyFrame>) -> (r: Vec<ProcessingRequest>)
        ensures
            r@.len() >= 1,
            r@.drop_last().map_values(|m: ProcessingRequest| m.request) == frame_requests(
                *old(self),
                frames@,
            ),
            r@[0].attributes == old(self).first_attributes,
            r@[0].protocol_config == old(self).first_protocol_config,
            forall|i: int|
                1 <= i < r@.len() ==> !(#[trigger] r@[i]).attributes
                    && r@[i].protocol_config is None,
            is_end_of_body(old(self).side, r@.last().request),
            *final(self) == old(self).begun(),
    {
        let mut out: Vec<ProcessingRequest> = Vec::new();
        let ghost start = *self;
        let ghost all = frames@;
        assert(all.take(0) =~= Seq::empty());
        assert(out@.map_values(|m: ProcessingRequest| m.request) =~= frame_requests(start, all.take(0)));
        for frame in it: frames
            invariant
                it.seq() == all,
                start.side == self.side,
                start.send_trailers == self.send_trailers,
                out@.map_values(|m: ProcessingRequest| m.request) == frame_requests(
                    start,
                    all.take(it.index()),
                ),
                out@.len() == 0 ==> *self == start,
                out@.len() > 0 ==> *self == start.begun() && out@[0].attributes
                    == start.first_attributes && out@[0].protocol_config
                    == start.first_protocol_config,
                forall|i: int|
                    1 <= i < out@.len() ==> !(#[trigger] out@[i]).attributes
                        && out@[i].protocol_config is None,
        {
            let ghost n = it.index();
            let ghost before = out@;
            assert(all.take(n + 1).drop_last() =~= all.take(n));
            if let Some(m) = self.on_frame(frame) {
                out.push(m);
                assert(out@.map_values(|m: ProcessingRequest| m.request) =~= before.map_values(
                    |m: ProcessingRequest| m.request,
                ).push(m.request));
            }
        }
        assert(all.take(all.len() as int) =~= all);
        let ghost before = out@;
        let last = self.finish();
        out.push(last);
        assert(out@.drop_last() =~= before);
        out
    }
}

/// The requests for the frames of a body, in order.
pub open spec fn frame_requests(stream: BodyStreamer, frames: Seq<BodyFrame>) -> Seq<RequestKind>
    decreases frames.len(),
{
    if frames.len() == 0 {
        Seq::empty()
    } else {
        let before = frame_requests(stream, frames.drop_last());
        match frames.last() {
            BodyFrame::Data(body) => before.push(body_request(stream.side, body, false)),
            BodyFrame::Trailers(trailers) => if stream.send_trailers {
                before.push(trailers_request(stream.side, trailers))
            } else {
                before
            },
        }
    }
}

/// Whether a request ends the body of a side: an empty piece that says so.
pub open spec fn is_end_of_body(side: HeaderPhase, request: RequestKind) -> bool {
    match side {
        HeaderPhase::Request => request matches RequestKind::RequestBody { body, end_of_stream }
            && body@.len() == 0 && end_of_stream,
        HeaderPhase::Response => request matches RequestKind::ResponseBody { body, end_of_stream }
            && body@.len() == 0 && end_of_stream,
    }
}

/// A mode override is ignored where overrides are not allowed, where bodies do not wait for the
/// answer to the headers, and in any message that is not the answer to the headers of the phase.
pub proof fn law_override_needs_permission(
    inst: ExtProcInstance,
    phase: HeaderPhase,
    presp: ProcessingResponse,
)
    requires
        !inst.mode_state.allow_mode_override
            || inst.mode_state.send_body_without_waiting_for_header_response || !answers_headers(
            phase,
            presp,
        ),
    ensures
        inst.maybe_overridden(phase, presp) == inst,
{
}

/// Every message that is not dropped reaches the side that it answers to, and only an immediate
/// answer reaches both.
pub proof fn law_routing(presp: ProcessingResponse)
    ensures
        answers_headers(HeaderPhase::Request, presp) ==> routed(presp.response) == Route::Request,
        answers_headers(HeaderPhase::Response, presp) ==> routed(presp.response) == Route::Response,
        routed(presp.response) == Route::Both <==> presp.response matches Some(
            ResponseKind::ImmediateResponse(_),
        ),
        routed(presp.response) == Route::Dropped <==> presp.response is None,
{
}

/// A message goes to the side that it speaks of: one about the headers, the body or the trailers
/// of a request to the request side, one about those of a response to the response side.
pub proof fn law_messages_go_to_their_side(kind: ResponseKind)
    ensures
        kind is RequestHeaders || kind is RequestBody || kind is RequestTrailers <==> routed(
            Some(kind),
        ) == Route::Request,
        kind is ResponseHeaders || kind is ResponseBody || kind is ResponseTrailers <==> routed(
            Some(kind),
        ) == Route::Response,
{
}

/// An override that may be made is made: it changes the modes as it says, and nothing else of the
/// exchange.
pub proof fn law_permitted_overrides_are_made(
    inst: ExtProcInstance,
    presp: ProcessingResponse,
    mode: crate::ext_proc::modes::ProcessingMode,
)
    requires
        inst.mode_state.allow_mode_override,
        !inst.mode_state.send_body_without_waiting_for_header_response,
        presp.mode_override == Some(mode),
    ensures
        presp.response matches Some(ResponseKind::RequestHeaders(_)) ==> inst.maybe_overridden(
            HeaderPhase::Request,
            presp,
        ).mode_state == inst.mode_state.overridden(mode),
        presp.response matches Some(ResponseKind::ResponseHeaders(_)) ==> inst.maybe_overridden(
            HeaderPhase::Response,
            presp,
        ).mode_state == inst.mode_state.overridden(mode),
{
}

/// Whatever override a message holds, it changes the modes at most.
pub proof fn law_overrides_change_modes_alone(
    inst: ExtProcInstance,
    phase: HeaderPhase,
    presp: ProcessingResponse,
)
    ensures
        (ExtProcInstance {
            mode_state: inst.mode_state,
            ..inst.maybe_overridden(phase, presp)
        }) == inst,
        (ExtProcInstance {
            mode_state: inst.mode_state,
            ..inst.headers_answered(phase, presp)
        }) == inst,
        presp.mode_override is None ==> inst.maybe_overridden(phase, presp) == inst,
{
}

/// An answer to headers settles them: they count as processed, and an override in the answer
/// itself comes too late for the headers that it answers to.
pub proof fn law_answered_headers_are_settled(inst: ExtProcInstance, presp: ProcessingResponse)
    ensures
        inst.headers_answered(HeaderPhase::Request, presp).mode_state.request_headers_processed,
        inst.headers_answered(HeaderPhase::Response, presp).mode_state.response_headers_processed,
        inst.headers_answered(HeaderPhase::Response, presp).mode_state.response_header_mode
            == inst.mode_state.response_header_mode,
        inst.headers_answered(HeaderPhase::Request, presp).mode_state.response_headers_processed
            == inst.mode_state.response_headers_processed,
        inst.headers_answered(HeaderPhase::Response, presp).mode_state.request_headers_processed
            == inst.mode_state.request_headers_processed,
{
}

/// The body modes are announced once, as they are: an exchange that has not begun announces them,
/// and one that has announced them does not do so again.
pub proof fn law_modes_are_announced_once(inst: ExtProcInstance)
    ensures
        !inst.protocol_config_sent ==> (inst.pending_config() matches Some(config)
            && config.request_body_mode == wire_body_mode(inst.mode_state.request_body_mode)
            && config.response_body_mode == wire_body_mode(inst.mode_state.response_body_mode)
            && config.send_body_without_waiting_for_header_response
            == inst.mode_state.send_body_without_waiting_for_header_response),
        inst.configured().pending_config() is None,
        (ExtProcInstance {
            protocol_config_sent: inst.protocol_config_sent,
            ..inst.configured()
        }) == inst,
{
}

/// An exchange begins with nothing given up, nothing announced and nothing claimed, in the modes
/// that are configured.
pub proof fn law_exchanges_begin_afresh(failure_mode: FailureMode, options: ProcessingOptions)
    ensures
        ({
            let inst = ExtProcInstance::fresh(failure_mode, options);
            &&& inst.failure_mode == failure_mode
            &&& !inst.skipped && !inst.protocol_config_sent
            &&& !inst.request_messages_taken && !inst.response_messages_taken
            &&& inst.mode_state == ModeStateMachine::of_options(options)
        }),
{
}

/// Giving the service up and claiming the messages of a side note that and change nothing else.
pub proof fn law_notes_change_nothing_else(inst: ExtProcInstance)
    ensures
        inst.gave_up().skipped,
        (ExtProcInstance { skipped: inst.skipped, ..inst.gave_up() }) == inst,
        inst.request_claimed().request_messages_taken,
        (ExtProcInstance {
            request_messages_taken: inst.request_messages_taken,
            ..inst.request_claimed()
        }) == inst,
        inst.response_claimed().response_messages_taken,
        (ExtProcInstance {
            response_messages_taken: inst.response_messages_taken,
            ..inst.response_claimed()
        }) == inst,
{
}

/// The bytes of the body pieces of a side among requests, one after the other.
pub open spec fn bytes_sent(side: HeaderPhase, requests: Seq<RequestKind>) -> Seq<u8>
    decreases requests.len(),
{
    if requests.len() == 0 {
        Seq::empty()
    } else {
        bytes_sent(side, requests.drop_last()) + match (side, requests.last()) {
            (HeaderPhase::Request, RequestKind::RequestBody { body, .. }) => body@,
            (HeaderPhase::Response, RequestKind::ResponseBody { body, .. }) => body@,
            _ => Seq::empty(),
        }
    }
}

/// The bytes of frames, one after the other.
pub open spec fn bytes_of_frames(frames: Seq<BodyFrame>) -> Seq<u8>
    decreases frames.len(),
{
    if frames.len() == 0 {
        Seq::empty()
    } else {
        bytes_of_frames(frames.drop_last()) + match frames.last() {
            BodyFrame::Data(body) => body@,
            BodyFrame::Trailers(_) => Seq::empty(),
        }
    }
}

/// The service is sent every byte of a body, in order, and no piece says that the body ends: that
/// is said after the last one.
pub proof fn law_every_byte_is_streamed(stream: BodyStreamer, frames: Seq<BodyFrame>)
    ensures
        bytes_sent(stream.side, frame_requests(stream, frames)) == bytes_of_frames(frames),
        forall|i: int|
            0 <= i < frame_requests(stream, frames).len() ==> !is_end_of_body(
                stream.side,
                #[trigger] frame_requests(stream, frames)[i],
            ),
    decreases frames.len(),
{
    if frames.len() > 0 {
        let d = frames.drop_last();
        law_every_byte_is_streamed(stream, d);
        let before = frame_requests(stream, d);
        let all = frame_requests(stream, frames);
        if all.len() > before.len() {
            assert(all.drop_last() =~= before);
        } else {
            assert(bytes_of_frames(frames) =~= bytes_of_frames(d));
        }
        assert forall|i: int| 0 <= i < all.len() implies !is_end_of_body(
            stream.side,
            #[trigger] all[i],
        ) by {
            if i < before.len() {
                assert(all[i] == before[i]);
            }
        }
    }
}

/// Each frame of a body gives one message, of the side of the body, that holds what the frame
/// holds; only trailers that are not to be sent give none. What the frames before it gave stays.
pub proof fn law_frames_give_messages(
    stream: BodyStreamer,
    before: Seq<BodyFrame>,
    body: Vec<u8>,
    trailers: Vec<HeaderValue>,
)
    ensures
        frame_requests(stream, before.push(BodyFrame::Data(body))) == frame_requests(
            stream,
            before,
        ) + seq![
            if stream.side == HeaderPhase::Request {
                RequestKind::RequestBody { body, end_of_stream: false }
            } else {
                RequestKind::ResponseBody { body, end_of_stream: false }
            },
        ],
        stream.send_trailers ==> frame_requests(
            stream,
            before.push(BodyFrame::Trailers(trailers)),
        ) == frame_requests(stream, before) + seq![
            if stream.side == HeaderPhase::Request {
                RequestKind::RequestTrailers(trailers)
            } else {
                RequestKind::ResponseTrailers(trailers)
            },
        ],
        !stream.send_trailers ==> frame_requests(
            stream,
            before.push(BodyFrame::Trailers(trailers)),
        ) == frame_requests(stream, before),
        frame_requests(stream, Seq::empty()).len() == 0,
{
    assert(before.push(BodyFrame::Data(body)).drop_last() =~= before);
    assert(before.push(BodyFrame::Trailers(trailers)).drop_last() =~= before);
}

/// The attributes and the announcement go with the first message of a body and with no other.
pub proof fn law_first_message_carries_the_rest(
    stream: BodyStreamer,
    kind: RequestKind,
    message: ProcessingRequest,
)
    ensures
        stream.sends(kind, message) ==> message.request == kind && message.attributes
            == stream.first_attributes && message.protocol_config == stream.first_protocol_config,
        stream.begun().sends(kind, message) ==> !message.attributes && message.protocol_config
            is None,
        stream.begun().side == stream.side,
        stream.begun().send_trailers == stream.send_trailers,
        stream.begun().begun() == stream.begun(),
{
}

/// An override in the answer to the headers of a side counts where it may: the headers of that
/// side are settled first, and then the modes change as it says.
pub proof fn law_answers_override_modes(
    inst: ExtProcInstance,
    presp: ProcessingResponse,
    mode: crate::ext_proc::modes::ProcessingMode,
)
    requires
        presp.mode_override == Some(mode),
    ensures
        ({
            let allowed = inst.mode_state.allow_mode_override
                && !inst.mode_state.send_body_without_waiting_for_header_response;
            let request = inst.mode_state.processed(HeaderPhase::Request);
            let response = inst.mode_state.processed(HeaderPhase::Response);
            &&& presp.response matches Some(ResponseKind::RequestHeaders(_))
                ==> inst.headers_answered(HeaderPhase::Request, presp).mode_state == if allowed {
                request.overridden(mode)
            } else {
                request
            }
            &&& presp.response matches Some(ResponseKind::ResponseHeaders(_))
                ==> inst.headers_answered(HeaderPhase::Response, presp).mode_state == if allowed {
                response.overridden(mode)
            } else {
                response
            }
        }),
{
}

} // verus!
