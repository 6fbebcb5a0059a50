//! What holds of an exchange over all the messages that it sends, on the request side and then on
//! the response side.

use vstd::prelude::*;

use crate::ext_proc::headers::HeaderValue;
#[allow(unused_imports)]
use crate::ext_proc::instance::{BodyStreamer, ExtProcInstance};
#[allow(unused_imports)]
use crate::ext_proc::messages::{
    handled_request, handled_response, HandledResponse, ProcessingRequest, ProcessingResponse,
    ProtocolConfiguration,
};
#[allow(unused_imports)]
use crate::ext_proc::request::{
    body_in_flight, follows_buffering, is_buffered_mode, law_failing_open_keeps_the_body,
    law_request_stays_well_formed, leaves_body_alone, only_step, request_advanced, request_begins,
    request_body_outcome, request_headers_outcome, request_message_outcome, request_reconciled,
    untouched, BufferFailure, RequestAction, RequestExchange, RequestOutcome, RequestStep,
};
#[allow(unused_imports)]
use crate::ext_proc::response::{
    response_advanced, response_begins, response_headers_outcome, response_message_outcome,
    response_reconciled, ResponseAction, ResponseExchange, ResponseStep,
};

verus! {

/// What goes with a message to the service besides its content.
#[verifier::ext_equal]
pub ghost struct Mark {
    pub attributes: bool,
    pub protocol_config: Option<ProtocolConfiguration>,
}

/// What goes with a message.
pub open spec fn mark_of(message: ProcessingRequest) -> Mark {
    Mark { attributes: message.attributes, protocol_config: message.protocol_config }
}

/// What goes with the messages of a body that is streamed in `len` messages.
pub open spec fn stream_marks(stream: Option<BodyStreamer>, len: nat) -> Seq<Mark> {
    match stream {
        Some(s) => Seq::new(
            len,
            |i: int|
                if i == 0 {
                    Mark {
                        attributes: s.first_attributes,
                        protocol_config: s.first_protocol_config,
                    }
                } else {
                    Mark { attributes: false, protocol_config: None }
                },
        ),
        None => Seq::empty(),
    }
}

/// The messages of a streamed body are marked as [`stream_marks`] says: `messages` are what
/// [`BodyStreamer::handle_body_stream`] gives.
pub proof fn law_stream_marks(stream: BodyStreamer, messages: Seq<ProcessingRequest>)
    requires
        messages.len() >= 1,
        messages[0].attributes == stream.first_attributes,
        messages[0].protocol_config == stream.first_protocol_config,
        forall|i: int|
            1 <= i < messages.len() ==> !(#[trigger] messages[i]).attributes
                && messages[i].protocol_config is None,
    ensures
        messages.map_values(|m: ProcessingRequest| mark_of(m)) == stream_marks(
            Some(stream),
            messages.len(),
        ),
{
    assert(messages.map_values(|m: ProcessingRequest| mark_of(m)) =~= stream_marks(
        Some(stream),
        messages.len(),
    ));
}

/// Where the request side stands: what is next, and what went with the messages so far.
pub ghost struct RequestPoint {
    pub inst: ExtProcInstance,
    pub ex: RequestExchange,
    pub action: RequestAction,
    pub marks: Seq<Mark>,
}

/// Whether the request side begins at `p`. `streamed` counts the messages of the stream that is
/// started, where one is.
pub open spec fn request_starts(
    inst: ExtProcInstance,
    headers: Vec<HeaderValue>,
    had_body: bool,
    streamed: nat,
    p: RequestPoint,
) -> bool {
    &&& streamed >= 1
    &&& (p.inst, p.ex, p.action) == request_begins(inst, headers, had_body)
    &&& p.marks == stream_marks(p.action.stream, streamed)
}

/// What came of a step of the request side.
pub ghost enum RequestReport {
    /// The message was sent, or could not be sent.
    Sent(bool),
    /// The body was buffered, or could not be buffered.
    Buffered(Result<Vec<u8>, BufferFailure>),
    /// A message came in, or the connection was lost.
    Message(Option<ProcessingResponse>),
}

/// Whether the request side goes on from `p` to `q` after `report`.
pub open spec fn request_goes_on(
    p: RequestPoint,
    report: RequestReport,
    streamed: nat,
    q: RequestPoint,
) -> bool {
    let after = (q.inst, q.ex, q.action);
    let started = stream_marks(q.action.stream, streamed);
    &&& streamed >= 1
    &&& match (p.action.step, report) {
        (RequestStep::SendHeaders(m), RequestReport::Sent(sent)) => {
            &&& after == request_headers_outcome(p.inst, p.ex, sent)
            &&& q.marks == if sent {
                p.marks.push(mark_of(m)) + started
            } else {
                p.marks + started
            }
        },
        (RequestStep::AwaitBuffer, RequestReport::Buffered(buffered)) => {
            &&& q.inst == p.inst
            &&& follows_buffering(p.ex, buffered, q.ex, q.action)
            &&& q.marks == p.marks + started
        },
        (RequestStep::SendBody(m), RequestReport::Sent(sent)) => {
            &&& after == request_body_outcome(p.inst, p.ex, sent)
            &&& q.marks == if sent {
                p.marks.push(mark_of(m)) + started
            } else {
                p.marks + started
            }
        },
        (RequestStep::Receive, RequestReport::Message(message)) => {
            &&& after == request_message_outcome(p.inst, p.ex, message)
            &&& q.marks == p.marks + started
        },
        _ => false,
    }
}

/// Whether the request side goes from its beginning through the points `run`, one after the
/// other, with what `reports` and `streamed` say of each step.
pub open spec fn is_request_run(
    inst: ExtProcInstance,
    headers: Vec<HeaderValue>,
    had_body: bool,
    run: Seq<RequestPoint>,
    reports: Seq<RequestReport>,
    streamed: Seq<nat>,
) -> bool {
    &&& run.len() >= 1
    &&& reports.len() == run.len()
    &&& streamed.len() == run.len()
    &&& request_starts(inst, headers, had_body, streamed[0], run[0])
    &&& forall|i: int|
        1 <= i < run.len() ==> request_goes_on(
            run[i - 1],
            reports[i],
            streamed[i],
            #[trigger] run[i],
        )
}

/// Whether the attributes go with the first message and with no other, and so does the
/// announcement, if it is still due.
pub open spec fn marked_once(marks: Seq<Mark>, due: bool) -> bool {
    forall|i: int|
        0 <= i < marks.len() ==> ((#[trigger] marks[i]).attributes <==> i == 0) && (
        marks[i].protocol_config is Some <==> i == 0 && due)
}

/// What holds wherever the request side stands. `due` says whether the announcement was still
/// due when it began.
spec fn request_in_order(p: RequestPoint, due: bool) -> bool {
    let first = p.marks.len() == 0;
    let due_now = first && due;
    &&& marked_once(p.marks, due)
    &&& p.inst.protocol_config_sent == !due_now
    &&& match p.action.step {
        RequestStep::SendHeaders(m) => first && m.attributes && (m.protocol_config is Some
            <==> due) && !p.ex.first_attributes && p.ex.first_protocol_config is None,
        RequestStep::SendBody(m) => m.attributes == first && (m.protocol_config is Some
            <==> due_now) && (p.ex.config_in_flight <==> due_now) && !p.ex.first_attributes
            && p.ex.first_protocol_config is None,
        RequestStep::AwaitBuffer => p.ex.first_attributes == first
            && (p.ex.first_protocol_config is Some <==> due_now),
        RequestStep::Receive => !first && !p.ex.first_attributes
            && p.ex.first_protocol_config is None,
        RequestStep::Finish(_) => true,
    }
}

proof fn lemma_request_starts_in_order(
    inst: ExtProcInstance,
    headers: Vec<HeaderValue>,
    had_body: bool,
    streamed: nat,
    p: RequestPoint,
)
    requires
        request_starts(inst, headers, had_body, streamed, p),
    ensures
        request_in_order(p, !inst.protocol_config_sent),
{
}

proof fn lemma_request_advanced_keeps(
    ex: RequestExchange,
    handled: HandledResponse,
    left_alone: bool,
)
    ensures
        ({
            let after = request_advanced(ex, handled, left_alone);
            &&& after.0.first_attributes == ex.first_attributes
            &&& after.0.first_protocol_config == ex.first_protocol_config
            &&& after.0.body_mode == ex.body_mode
            &&& after.0.had_body == ex.had_body
            &&& after.1.stream is None
            &&& after.1.step is Receive || after.1.step is AwaitBuffer || after.1.step is Finish
            &&& after.1.step is AwaitBuffer ==> ex.buffering && !after.0.buffering
        }),
{
}

proof fn lemma_request_reconciled_keeps(
    inst: ExtProcInstance,
    ex: RequestExchange,
    presp: ProcessingResponse,
)
    ensures
        ({
            let after = request_reconciled(inst, ex, presp);
            &&& after.0.protocol_config_sent == inst.protocol_config_sent
            &&& after.0.skipped == inst.skipped
            &&& after.1 == RequestExchange { fsm: after.1.fsm, ..ex }
        }),
{
}

/// Messages do not touch what goes with the messages that are sent, nor how the body goes, and
/// hand the body to nobody.
proof fn lemma_request_message_keeps(
    inst: ExtProcInstance,
    ex: RequestExchange,
    message: Option<ProcessingResponse>,
)
    ensures
        ({
            let after = request_message_outcome(inst, ex, message);
            &&& after.0.protocol_config_sent == inst.protocol_config_sent
            &&& after.0.skipped && !inst.skipped ==> message is None
            &&& after.1.first_attributes == ex.first_attributes
            &&& after.1.first_protocol_config == ex.first_protocol_config
            &&& after.1.body_mode == ex.body_mode
            &&& after.1.had_body == ex.had_body
            &&& after.2.stream is None
            &&& after.2.step is Receive || after.2.step is AwaitBuffer || after.2.step is Finish
            &&& after.2.step is AwaitBuffer ==> ex.buffering && !after.1.buffering
        }),
{
    if let Some(presp) = message {
        lemma_request_reconciled_keeps(inst, ex, presp);
        let reconciled = request_reconciled(inst, ex, presp).1;
        let handled = handled_request(
            reconciled.fsm.expect_body_response,
            reconciled.send_headers,
            true,
            presp,
        );
        lemma_request_advanced_keeps(reconciled, handled, leaves_body_alone(presp));
    }
}

/// Where nothing is sent and nothing that concerns the marks changes, the order is kept.
proof fn lemma_unchanged_in_order(p: RequestPoint, q: RequestPoint, due: bool)
    requires
        request_in_order(p, due),
        p.action.step is Receive,
        q.inst.protocol_config_sent == p.inst.protocol_config_sent,
        q.ex.first_attributes == p.ex.first_attributes,
        q.ex.first_protocol_config == p.ex.first_protocol_config,
        q.action.step is Receive || q.action.step is AwaitBuffer || q.action.step is Finish,
        q.marks == p.marks,
    ensures
        request_in_order(q, due),
{
}

/// Where the first message or a later one is sent, and then possibly a stream of them, the order
/// is kept.
proof fn lemma_sent_in_order(marks: Seq<Mark>, m: Mark, started: Seq<Mark>, due: bool)
    requires
        marked_once(marks, due),
        m.attributes <==> marks.len() == 0,
        m.protocol_config is Some <==> marks.len() == 0 && due,
        forall|i: int|
            0 <= i < started.len() ==> !(#[trigger] started[i]).attributes
                && started[i].protocol_config is None,
    ensures
        marked_once(marks.push(m) + started, due),
{
}

proof fn lemma_request_headers_in_order(
    p: RequestPoint,
    sent: bool,
    streamed: nat,
    q: RequestPoint,
    due: bool,
)
    requires
        p.action.step is SendHeaders,
        request_in_order(p, due),
        request_goes_on(p, RequestReport::Sent(sent), streamed, q),
    ensures
        request_in_order(q, due),
{
    let started = stream_marks(q.action.stream, streamed);
    if sent {
        lemma_sent_in_order(p.marks, mark_of(p.action.step->SendHeaders_0), started, due);
    } else {
        assert(p.marks + started =~= p.marks);
    }
}

proof fn lemma_request_body_in_order(
    p: RequestPoint,
    report: RequestReport,
    streamed: nat,
    q: RequestPoint,
    due: bool,
)
    requires
        p.action.step is AwaitBuffer || p.action.step is SendBody,
        request_in_order(p, due),
        request_goes_on(p, report, streamed, q),
    ensures
        request_in_order(q, due),
{
    let started = stream_marks(q.action.stream, streamed);
    assert(started =~= Seq::empty());
    assert(p.marks + started =~= p.marks);
    if p.action.step is SendBody {
        lemma_sent_in_order(p.marks, mark_of(p.action.step->SendBody_0), started, due);
    }
}

proof fn lemma_request_stays_in_order(
    p: RequestPoint,
    report: RequestReport,
    streamed: nat,
    q: RequestPoint,
    due: bool,
)
    requires
        request_in_order(p, due),
        request_goes_on(p, report, streamed, q),
    ensures
        request_in_order(q, due),
{
    match (p.action.step, report) {
        (RequestStep::SendHeaders(_), RequestReport::Sent(sent)) => {
            lemma_request_headers_in_order(p, sent, streamed, q, due);
        },
        (RequestStep::Receive, RequestReport::Message(message)) => {
            lemma_request_message_keeps(p.inst, p.ex, message);
            assert(p.marks + Seq::<Mark>::empty() =~= p.marks);
            lemma_unchanged_in_order(p, q, due);
        },
        _ => {
            lemma_request_body_in_order(p, report, streamed, q, due);
        },
    }
}

proof fn lemma_request_run_in_order(
    inst: ExtProcInstance,
    headers: Vec<HeaderValue>,
    had_body: bool,
    run: Seq<RequestPoint>,
    reports: Seq<RequestReport>,
    streamed: Seq<nat>,
    n: int,
)
    requires
        is_request_run(inst, headers, had_body, run, reports, streamed),
        0 <= n < run.len(),
    ensures
        request_in_order(run[n], !inst.protocol_config_sent),
    decreases n,
{
    if n == 0 {
        lemma_request_starts_in_order(inst, headers, had_body, streamed[0], run[0]);
    } else {
        lemma_request_run_in_order(inst, headers, had_body, run, reports, streamed, n - 1);
        lemma_request_stays_in_order(
            run[n - 1],
            reports[n],
            streamed[n],
            run[n],
            !inst.protocol_config_sent,
        );
    }
}

/// What holds wherever the request side stands, of the exchange and of its body. `started` says
/// whether the body has been handed to a stream.
spec fn request_sound(p: RequestPoint, started: bool) -> bool {
    &&& p.ex.wf()
    &&& p.action.step is AwaitBuffer || p.action.step is SendBody ==> is_buffered_mode(
        p.ex.body_mode,
    ) && !p.ex.buffering
    &&& started ==> body_in_flight(p.ex) && !(p.action.step is SendHeaders)
    &&& p.inst.skipped ==> !started && p.action == only_step(RequestStep::Finish(untouched()))
}

proof fn lemma_request_starts_sound(
    inst: ExtProcInstance,
    headers: Vec<HeaderValue>,
    had_body: bool,
    streamed: nat,
    p: RequestPoint,
)
    requires
        !inst.skipped,
        request_starts(inst, headers, had_body, streamed, p),
    ensures
        request_sound(p, p.action.stream is Some),
{
}

proof fn lemma_request_stays_sound(
    p: RequestPoint,
    report: RequestReport,
    streamed: nat,
    q: RequestPoint,
    started: bool,
    headers: Vec<HeaderValue>,
)
    requires
        request_sound(p, started),
        request_goes_on(p, report, streamed, q),
    ensures
        request_sound(q, started || q.action.stream is Some),
{
    assert(!p.inst.skipped);
    match (p.action.step, report) {
        (RequestStep::SendHeaders(_), RequestReport::Sent(sent)) => {
            law_request_stays_well_formed(p.inst, p.ex, headers, true, sent, None);
            law_failing_open_keeps_the_body(p.inst, p.ex, sent, None);
        },
        (RequestStep::SendBody(_), RequestReport::Sent(sent)) => {
            law_request_stays_well_formed(p.inst, p.ex, headers, true, sent, None);
            law_failing_open_keeps_the_body(p.inst, p.ex, sent, None);
        },
        (RequestStep::Receive, RequestReport::Message(message)) => {
            law_request_stays_well_formed(p.inst, p.ex, headers, true, true, message);
            law_failing_open_keeps_the_body(p.inst, p.ex, true, message);
            lemma_request_message_keeps(p.inst, p.ex, message);
        },
        _ => {},
    }
}

/// Whether the body has been handed to a stream by the point `n` of a run.
pub open spec fn stream_started(run: Seq<RequestPoint>, n: int) -> bool {
    exists|i: int| 0 <= i <= n && (#[trigger] run[i]).action.stream is Some
}

proof fn lemma_stream_started(run: Seq<RequestPoint>, n: int)
    requires
        0 <= n,
    ensures
        stream_started(run, n) == ((n > 0 && stream_started(run, n - 1))
            || run[n].action.stream is Some),
{
    if n > 0 && stream_started(run, n - 1) {
        let i = choose|i: int| 0 <= i <= n - 1 && (#[trigger] run[i]).action.stream is Some;
        assert(run[i].action.stream is Some);
    }
    if stream_started(run, n) {
        let i = choose|i: int| 0 <= i <= n && (#[trigger] run[i]).action.stream is Some;
        assert(run[i].action.stream is Some);
    }
}

proof fn lemma_request_run_sound(
    inst: ExtProcInstance,
    headers: Vec<HeaderValue>,
    had_body: bool,
    run: Seq<RequestPoint>,
    reports: Seq<RequestReport>,
    streamed: Seq<nat>,
    n: int,
)
    requires
        !inst.skipped,
        is_request_run(inst, headers, had_body, run, reports, streamed),
        0 <= n < run.len(),
    ensures
        request_sound(run[n], stream_started(run, n)),
    decreases n,
{
    if n == 0 {
        lemma_request_starts_sound(inst, headers, had_body, streamed[0], run[0]);
        lemma_stream_started(run, 0);
    } else {
        lemma_request_run_sound(inst, headers, had_body, run, reports, streamed, n - 1);
        lemma_request_stays_sound(
            run[n - 1],
            reports[n],
            streamed[n],
            run[n],
            stream_started(run, n - 1),
            headers,
        );
        lemma_stream_started(run, n);
    }
}

/// Over the whole of a request, going on without the service does not corrupt it: where the
/// service was given up, the request goes upstream with the body that came in, and no part of
/// that body has been handed to a stream before.
pub proof fn law_given_up_requests_keep_their_body(
    inst: ExtProcInstance,
    headers: Vec<HeaderValue>,
    had_body: bool,
    run: Seq<RequestPoint>,
    reports: Seq<RequestReport>,
    streamed: Seq<nat>,
)
    requires
        !inst.skipped,
        is_request_run(inst, headers, had_body, run, reports, streamed),
        run.last().inst.skipped,
    ensures
        run.last().action == only_step(RequestStep::Finish(untouched())),
        !stream_started(run, run.len() - 1),
{
    lemma_request_run_sound(inst, headers, had_body, run, reports, streamed, run.len() - 1);
}

/// The request side is well formed wherever it stands, and the buffer is waited for, and what it
/// kept is sent, only where the body is buffered.
pub proof fn law_request_runs_are_well_formed(
    inst: ExtProcInstance,
    headers: Vec<HeaderValue>,
    had_body: bool,
    run: Seq<RequestPoint>,
    reports: Seq<RequestReport>,
    streamed: Seq<nat>,
)
    requires
        !inst.skipped,
        is_request_run(inst, headers, had_body, run, reports, streamed),
    ensures
        run.last().ex.wf(),
        run.last().action.step is AwaitBuffer || run.last().action.step is SendBody
            ==> is_buffered_mode(run.last().ex.body_mode),
{
    lemma_request_run_sound(inst, headers, had_body, run, reports, streamed, run.len() - 1);
}

/// Where the response side stands: what is next, and what went with the messages so far.
pub ghost struct ResponsePoint {
    pub inst: ExtProcInstance,
    pub ex: ResponseExchange,
    pub action: ResponseAction,
    pub marks: Seq<Mark>,
}

/// Whether the response side begins at `p`.
pub open spec fn response_starts(
    inst: ExtProcInstance,
    headers: Vec<HeaderValue>,
    had_body: bool,
    streamed: nat,
    p: ResponsePoint,
) -> bool {
    &&& streamed >= 1
    &&& (p.inst, p.ex, p.action) == response_begins(inst, headers, had_body)
    &&& p.marks == stream_marks(p.action.stream, streamed)
}

/// What came of a step of the response side.
pub ghost enum ResponseReport {
    /// The headers were sent, or could not be sent.
    Sent(bool),
    /// A message came in, or the connection was lost.
    Message(Option<ProcessingResponse>),
}

/// Whether the response side goes on from `p` to `q` after `report`.
pub open spec fn response_goes_on(
    p: ResponsePoint,
    report: ResponseReport,
    streamed: nat,
    q: ResponsePoint,
) -> bool {
    let after = (q.inst, q.ex, q.action);
    let started = stream_marks(q.action.stream, streamed);
    &&& streamed >= 1
    &&& match (p.action.step, report) {
        (ResponseStep::SendHeaders(m), ResponseReport::Sent(sent)) => {
            &&& after == response_headers_outcome(p.inst, p.ex, sent)
            &&& q.marks == if sent {
                p.marks.push(mark_of(m)) + started
            } else {
                p.marks + started
            }
        },
        (ResponseStep::Receive, ResponseReport::Message(message)) => {
            &&& after == response_message_outcome(p.inst, p.ex, message)
            &&& q.marks == p.marks + started
        },
        _ => false,
    }
}

/// Whether the response side goes from its beginning through the points `run`, one after the
/// other, with what `reports` and `streamed` say of each step.
pub open spec fn is_response_run(
    inst: ExtProcInstance,
    headers: Vec<HeaderValue>,
    had_body: bool,
    run: Seq<ResponsePoint>,
    reports: Seq<ResponseReport>,
    streamed: Seq<nat>,
) -> bool {
    &&& run.len() >= 1
    &&& reports.len() == run.len()
    &&& streamed.len() == run.len()
    &&& response_starts(inst, headers, had_body, streamed[0], run[0])
    &&& forall|i: int|
        1 <= i < run.len() ==> response_goes_on(
            run[i - 1],
            reports[i],
            streamed[i],
            #[trigger] run[i],
        )
}

/// What holds wherever the response side stands.
spec fn response_in_order(p: ResponsePoint, due: bool) -> bool {
    let first = p.marks.len() == 0;
    &&& marked_once(p.marks, due)
    &&& match p.action.step {
        ResponseStep::SendHeaders(m) => first && m.attributes && (m.protocol_config is Some
            <==> due) && !p.ex.first_attributes && p.ex.first_protocol_config is None,
        ResponseStep::Receive => !first && !p.ex.first_attributes
            && p.ex.first_protocol_config is None,
        ResponseStep::Finish(_) => true,
    }
}

/// Messages start a stream at most, and nothing goes with its messages once headers were sent or
/// a stream was started.
proof fn lemma_response_message_keeps_marks(
    inst: ExtProcInstance,
    ex: ResponseExchange,
    message: Option<ProcessingResponse>,
)
    requires
        !ex.first_attributes,
        ex.first_protocol_config is None,
    ensures
        ({
            let after = response_message_outcome(inst, ex, message);
            &&& !after.1.first_attributes
            &&& after.1.first_protocol_config is None
            &&& after.2.stream matches Some(s) ==> !s.first_attributes
                && s.first_protocol_config is None
            &&& after.2.step is Receive || after.2.step is Finish
        }),
{
    if let Some(presp) = message {
        let (i, e) = response_reconciled(inst, ex, presp);
        let handled = handled_response(
            e.send_body && e.fsm.send_body,
            e.send_headers,
            true,
            presp,
        );
        assert(e.first_attributes == ex.first_attributes);
        assert(e.first_protocol_config == ex.first_protocol_config);
        lemma_response_advanced_keeps_marks(i, e, handled);
    }
}

proof fn lemma_response_advanced_keeps_marks(
    inst: ExtProcInstance,
    ex: ResponseExchange,
    handled: HandledResponse,
)
    requires
        !ex.first_attributes,
        ex.first_protocol_config is None,
    ensures
        ({
            let after = response_advanced(inst, ex, handled);
            &&& !after.1.first_attributes
            &&& after.1.first_protocol_config is None
            &&& after.2.stream matches Some(s) ==> !s.first_attributes
                && s.first_protocol_config is None
            &&& after.2.step is Receive || after.2.step is Finish
        }),
{
}

/// Messages with nothing but their content, after the first one, keep the order.
proof fn lemma_plain_in_order(marks: Seq<Mark>, started: Seq<Mark>, due: bool)
    requires
        marks.len() > 0,
        marked_once(marks, due),
        forall|i: int|
            0 <= i < started.len() ==> !(#[trigger] started[i]).attributes
                && started[i].protocol_config is None,
    ensures
        marked_once(marks + started, due),
{
}

proof fn lemma_response_stays_in_order(
    p: ResponsePoint,
    report: ResponseReport,
    streamed: nat,
    q: ResponsePoint,
    due: bool,
)
    requires
        response_in_order(p, due),
        response_goes_on(p, report, streamed, q),
    ensures
        response_in_order(q, due),
{
    let started = stream_marks(q.action.stream, streamed);
    match (p.action.step, report) {
        (ResponseStep::SendHeaders(m), ResponseReport::Sent(sent)) => {
            if sent {
                lemma_sent_in_order(p.marks, mark_of(m), started, due);
            } else {
                assert(p.marks + started =~= p.marks);
            }
        },
        (ResponseStep::Receive, ResponseReport::Message(message)) => {
            lemma_response_message_keeps_marks(p.inst, p.ex, message);
            lemma_plain_in_order(p.marks, started, due);
        },
        _ => {},
    }
}

proof fn lemma_response_run_in_order(
    inst: ExtProcInstance,
    headers: Vec<HeaderValue>,
    had_body: bool,
    run: Seq<ResponsePoint>,
    reports: Seq<ResponseReport>,
    streamed: Seq<nat>,
    n: int,
)
    requires
        is_response_run(inst, headers, had_body, run, reports, streamed),
        0 <= n < run.len(),
    ensures
        response_in_order(run[n], !inst.protocol_config_sent),
    decreases n,
{
    if n > 0 {
        lemma_response_run_in_order(inst, headers, had_body, run, reports, streamed, n - 1);
        lemma_response_stays_in_order(
            run[n - 1],
            reports[n],
            streamed[n],
            run[n],
            !inst.protocol_config_sent,
        );
    }
}

/// Over a whole exchange the service is told the body modes with the first message and with no
/// other, and it gets the attributes of a side with the first message of that side and with no
/// other. The request side has let the request go upstream without giving the service up.
pub proof fn law_told_once(
    inst: ExtProcInstance,
    request_headers: Vec<HeaderValue>,
    request_had_body: bool,
    request: Seq<RequestPoint>,
    request_reports: Seq<RequestReport>,
    request_streamed: Seq<nat>,
    response_headers: Vec<HeaderValue>,
    response_had_body: bool,
    response: Seq<ResponsePoint>,
    response_reports: Seq<ResponseReport>,
    response_streamed: Seq<nat>,
)
    requires
        !inst.protocol_config_sent,
        is_request_run(
            inst,
            request_headers,
            request_had_body,
            request,
            request_reports,
            request_streamed,
        ),
        request.last().action.step matches RequestStep::Finish(RequestOutcome::Continue { .. }),
        !request.last().inst.skipped,
        is_response_run(
            request.last().inst,
            response_headers,
            response_had_body,
            response,
            response_reports,
            response_streamed,
        ),
    ensures
        ({
            let for_request = request.last().marks;
            let for_response = response.last().marks;
            let all = for_request + for_response;
            &&& forall|i: int|
                0 <= i < all.len() ==> ((#[trigger] all[i]).protocol_config is Some <==> i == 0)
            &&& forall|i: int|
                0 <= i < for_request.len() ==> ((#[trigger] for_request[i]).attributes <==> i == 0)
            &&& forall|i: int|
                0 <= i < for_response.len() ==> ((#[trigger] for_response[i]).attributes
                    <==> i == 0)
        }),
{
    lemma_request_run_in_order(
        inst,
        request_headers,
        request_had_body,
        request,
        request_reports,
        request_streamed,
        request.len() - 1,
    );
    lemma_response_run_in_order(
        request.last().inst,
        response_headers,
        response_had_body,
        response,
        response_reports,
        response_streamed,
        response.len() - 1,
    );
}

} // verus!
