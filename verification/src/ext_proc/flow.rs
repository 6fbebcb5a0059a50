//! The local control flow of an exchange: what the gateway is waiting for.

use vstd::prelude::*;

use crate::ext_proc::modes::{BodySendMode, EnvoyBodySendMode, FailureMode};

verus! {

/// What the request side of an exchange is waiting for.
#[derive(Debug, Clone, Copy, PartialEq, Eq, Structural)]
pub enum RequestPhase {
    AwaitingHeaders,
    AwaitingBody,
    StreamingContinuation,
    Complete,
}

/// How the request body travels through the service.
#[derive(Debug, Clone, Copy, PartialEq, Eq, Structural)]
pub enum BodyPath {
    Bypass,
    Buffered,
    FullDuplex,
}

/// The control flow of the request side.
#[derive(Debug, Clone, Copy, PartialEq, Eq, Structural)]
pub struct RequestFlowFsm {
    pub phase: RequestPhase,
    pub body_path: BodyPath,
    pub had_body: bool,
    pub expect_body_response: bool,
}

/// The path of a body in the mode `mode`. Plain streaming is not offered: such a body does not
/// go through the service.
pub open spec fn wire_body_path(mode: EnvoyBodySendMode) -> BodyPath {
    match mode {
        EnvoyBodySendMode::NotSent => BodyPath::Bypass,
        EnvoyBodySendMode::Streamed => BodyPath::Bypass,
        EnvoyBodySendMode::Buffered => BodyPath::Buffered,
        EnvoyBodySendMode::BufferedPartial => BodyPath::Buffered,
        EnvoyBodySendMode::FullDuplexStreamed => BodyPath::FullDuplex,
    }
}

/// The path of a body in the mode `mode`.
pub open spec fn body_path(mode: BodySendMode) -> BodyPath {
    match mode {
        BodySendMode::NotSent => BodyPath::Bypass,
        BodySendMode::Buffered => BodyPath::Buffered,
        BodySendMode::BufferedPartial => BodyPath::Buffered,
        BodySendMode::FullDuplexStreamed => BodyPath::FullDuplex,
    }
}

impl RequestFlowFsm {
    /// What every request flow keeps: the service answers to a body exactly where there is one
    /// and it goes through the service, and a body is awaited only where an answer to it is
    /// expected.
    pub open spec fn wf(self) -> bool {
        &&& self.expect_body_response == (self.body_path != BodyPath::Bypass && self.had_body)
        &&& self.phase == RequestPhase::AwaitingBody ==> self.expect_body_response
    }

    /// The flow of a request at its start.
    pub open spec fn start(send_headers: bool, had_body: bool, path: BodyPath) -> RequestFlowFsm {
        let expect = path != BodyPath::Bypass && had_body;
        RequestFlowFsm {
            phase: if send_headers {
                RequestPhase::AwaitingHeaders
            } else if expect {
                RequestPhase::AwaitingBody
            } else {
                RequestPhase::Complete
            },
            body_path: path,
            had_body,
            expect_body_response: expect,
        }
    }

    /// The flow once the body travels by `path`.
    pub open spec fn synced(self, path: BodyPath) -> RequestFlowFsm {
        let expect = path != BodyPath::Bypass && self.had_body;
        RequestFlowFsm {
            phase: if self.phase == RequestPhase::AwaitingBody && !expect {
                RequestPhase::Complete
            } else {
                self.phase
            },
            body_path: path,
            had_body: self.had_body,
            expect_body_response: expect,
        }
    }

    /// The flow once the answer to the headers has been dealt with.
    pub open spec fn headers_finished(self) -> RequestFlowFsm {
        RequestFlowFsm {
            phase: if self.expect_body_response {
                RequestPhase::AwaitingBody
            } else {
                RequestPhase::Complete
            },
            ..self
        }
    }

    /// Whether the body that was buffered goes upstream as it came, given whether the service
    /// left it alone.
    pub open spec fn restores_body(self, body_no_mutation: bool) -> bool {
        &&& body_no_mutation
        &&& self.expect_body_response
        &&& self.body_path != BodyPath::FullDuplex
    }

    /// Whether a lost connection to the service lets the request pass.
    pub open spec fn fails_open(self, failure_mode: FailureMode) -> bool {
        &&& failure_mode == FailureMode::FailOpen
        &&& self.had_body ==> self.body_path != BodyPath::FullDuplex
    }

    /// The flow of a request at its start.
    pub fn new(send_headers: bool, had_body: bool, body_mode: EnvoyBodySendMode) -> (r: Self)
        ensures
            r == RequestFlowFsm::start(send_headers, had_body, wire_body_path(body_mode)),
            r.wf(),
    {
        let body_path = match body_mode {
            EnvoyBodySendMode::NotSent => BodyPath::Bypass,
            EnvoyBodySendMode::Buffered => BodyPath::Buffered,
            EnvoyBodySendMode::BufferedPartial => BodyPath::Buffered,
            EnvoyBodySendMode::FullDuplexStreamed => BodyPath::FullDuplex,
            EnvoyBodySendMode::Streamed => BodyPath::Bypass,
        };
        let expect_body_response = body_path != BodyPath::Bypass && had_body;
        let phase = if send_headers {
            RequestPhase::AwaitingHeaders
        } else if expect_body_response {
            RequestPhase::AwaitingBody
        } else {
            RequestPhase::Complete
        };
        RequestFlowFsm { phase, body_path, had_body, expect_body_response }
    }

    /// Takes over the body mode that is now in force.
    pub fn sync_body_path_from_mode(&mut self, mode: BodySendMode)
        ensures
            *final(self) == old(self).synced(body_path(mode)),
            final(self).wf(),
    {
        self.body_path = match mode {
            BodySendMode::NotSent => BodyPath::Bypass,
            BodySendMode::Buffered => BodyPath::Buffered,
            BodySendMode::BufferedPartial => BodyPath::Buffered,
            BodySendMode::FullDuplexStreamed => BodyPath::FullDuplex,
        };
        self.expect_body_response = self.body_path != BodyPath::Bypass && self.had_body;
        if self.phase == RequestPhase::AwaitingBody && !self.expect_body_response {
            self.phase = RequestPhase::Complete;
        }
    }

    /// Takes over the body mode after an answer to the headers.
    pub fn reconcile_headers_response(&mut self, mode: BodySendMode)
        ensures
            *final(self) == old(self).synced(body_path(mode)),
            final(self).wf(),
    {
        self.sync_body_path_from_mode(mode);
    }

    /// Ends the headers phase.
    pub fn finish_headers_phase(&mut self)
        ensures
            *final(self) == old(self).headers_finished(),
            old(self).wf() ==> final(self).wf(),
    {
        self.phase = if self.expect_body_response {
            RequestPhase::AwaitingBody
        } else {
            RequestPhase::Complete
        };
    }

    /// Notes that the rest of the body is dealt with in the background.
    pub fn enter_streaming_continuation(&mut self)
        ensures
            *final(self) == (RequestFlowFsm {
                phase: RequestPhase::StreamingContinuation,
                ..*old(self)
            }),
            old(self).wf() ==> final(self).wf(),
    {
        self.phase = RequestPhase::StreamingContinuation;
    }

    /// Whether the answer to the headers is still outstanding.
    pub fn is_awaiting_headers(&self) -> (r: bool)
        ensures
            r == (self.phase == RequestPhase::AwaitingHeaders),
    {
        self.phase == RequestPhase::AwaitingHeaders
    }

    /// Moves on after an answer; says whether the answer to the headers is behind us.
    pub fn advance_after_response(&mut self, headers_done: bool) -> (r: bool)
        ensures
            *final(self) == (if headers_done {
                old(self).headers_finished()
            } else {
                *old(self)
            }),
            r == (final(self).phase != RequestPhase::AwaitingHeaders),
            headers_done ==> r,
            old(self).wf() ==> final(self).wf(),
    {
        if headers_done {
            self.finish_headers_phase();
        }
        !self.is_awaiting_headers()
    }

    /// Whether the body that was buffered goes upstream as it came, because the service left it
    /// alone.
    pub fn should_restore_original_buffered_body(&self, body_no_mutation: bool) -> (r: bool)
        ensures
            r == (body_no_mutation && self.expect_body_response && self.body_path
                != BodyPath::FullDuplex),
            r == self.restores_body(body_no_mutation),
    {
        body_no_mutation && self.expect_body_response && self.body_path != BodyPath::FullDuplex
    }

    /// Whether a lost connection to the service lets the request pass. A body that is streamed in
    /// full duplex is already on its way: letting the request pass would corrupt it.
    pub fn should_fail_open_on_disconnect(&self, failure_mode: FailureMode) -> (r: bool)
        ensures
            r == (failure_mode == FailureMode::FailOpen && (!self.had_body || self.body_path
                != BodyPath::FullDuplex)),
            r == self.fails_open(failure_mode),
    {
        failure_mode == FailureMode::FailOpen && (!self.had_body || self.body_path
            != BodyPath::FullDuplex)
    }

    /// Whether the request loses its `content-length`, which the service may make wrong.
    pub fn strip_content_length(&self) -> (r: bool)
        ensures
            r == self.expect_body_response,
    {
        self.expect_body_response
    }
}

/// What the response side of an exchange is waiting for.
#[derive(Debug, Clone, Copy, PartialEq, Eq, Structural)]
pub enum ResponsePhase {
    AwaitingHeaders,
    AwaitingBody,
    StreamingContinuation,
    Complete,
}

/// The control flow of the response side.
#[derive(Debug, Clone, Copy, PartialEq, Eq, Structural)]
pub struct ResponseFlowFsm {
    pub phase: ResponsePhase,
    pub had_body: bool,
    pub send_body: bool,
}

impl ResponseFlowFsm {
    /// What every response flow keeps: a body is sent only where there is one, and it is awaited
    /// only where it is sent.
    pub open spec fn wf(self) -> bool {
        &&& self.send_body ==> self.had_body
        &&& self.phase == ResponsePhase::AwaitingBody ==> self.send_body
    }

    /// The flow of a response at its start.
    pub open spec fn start(send_headers: bool, send_body: bool, had_body: bool) -> ResponseFlowFsm {
        ResponseFlowFsm {
            phase: if send_headers {
                ResponsePhase::AwaitingHeaders
            } else if send_body {
                ResponsePhase::AwaitingBody
            } else {
                ResponsePhase::Complete
            },
            had_body,
            send_body,
        }
    }

    /// The flow once the body mode is `mode`.
    pub open spec fn synced(self, mode: BodySendMode) -> ResponseFlowFsm {
        let send = mode != BodySendMode::NotSent && self.had_body;
        ResponseFlowFsm {
            phase: if self.phase == ResponsePhase::AwaitingBody && !send {
                ResponsePhase::Complete
            } else {
                self.phase
            },
            had_body: self.had_body,
            send_body: send,
        }
    }

    /// The flow once the answer to the headers has been dealt with.
    pub open spec fn headers_finished(self) -> ResponseFlowFsm {
        ResponseFlowFsm {
            phase: if self.send_body {
                ResponsePhase::AwaitingBody
            } else {
                ResponsePhase::Complete
            },
            ..self
        }
    }

    /// The flow of a response at its start.
    pub fn new(send_headers: bool, send_body: bool, had_body: bool) -> (r: Self)
        ensures
            r == ResponseFlowFsm::start(send_headers, send_body, had_body),
            (send_body ==> had_body) ==> r.wf(),
    {
        let phase = if send_headers {
            ResponsePhase::AwaitingHeaders
        } else if send_body {
            ResponsePhase::AwaitingBody
        } else {
            ResponsePhase::Complete
        };
        ResponseFlowFsm { phase, had_body, send_body }
    }

    /// Takes over the body mode that is now in force.
    pub fn sync_send_body_from_mode(&mut self, mode: BodySendMode)
        ensures
            *final(self) == old(self).synced(mode),
            final(self).wf(),
    {
        self.send_body = mode != BodySendMode::NotSent && self.had_body;
        if self.phase == ResponsePhase::AwaitingBody && !self.send_body {
            self.phase = ResponsePhase::Complete;
        }
    }

    /// Takes over the body mode after an answer to the headers.
    pub fn reconcile_headers_response(&mut self, mode: BodySendMode)
        ensures
            *final(self) == old(self).synced(mode),
            final(self).wf(),
    {
        self.sync_send_body_from_mode(mode);
    }

    /// Ends the headers phase.
    pub fn finish_headers_phase(&mut self)
        ensures
            *final(self) == old(self).headers_finished(),
            old(self).wf() ==> final(self).wf(),
    {
        self.phase = if self.send_body {
            ResponsePhase::AwaitingBody
        } else {
            ResponsePhase::Complete
        };
    }

    /// Notes that the rest of the body is dealt with in the background.
    pub fn enter_streaming_continuation(&mut self)
        ensures
            *final(self) == (ResponseFlowFsm {
                phase: ResponsePhase::StreamingContinuation,
                ..*old(self)
            }),
            old(self).wf() ==> final(self).wf(),
    {
        self.phase = ResponsePhase::StreamingContinuation;
    }

    /// Whether the answer to the headers is still outstanding.
    pub fn is_awaiting_headers(&self) -> (r: bool)
        ensures
            r == (self.phase == ResponsePhase::AwaitingHeaders),
    {
        self.phase == ResponsePhase::AwaitingHeaders
    }

    /// Moves on after an answer; says whether the answer to the headers is behind us.
    pub fn advance_after_response(&mut self, headers_done: bool) -> (r: bool)
        ensures
            *final(self) == (if headers_done {
                old(self).headers_finished()
            } else {
                *old(self)
            }),
            r == (final(self).phase != ResponsePhase::AwaitingHeaders),
            headers_done ==> r,
            old(self).wf() ==> final(self).wf(),
    {
        if headers_done {
            self.finish_headers_phase();
        }
        !self.is_awaiting_headers()
    }

    /// Whether the response loses its `content-length`, which the service may make wrong.
    pub fn strip_content_length(&self) -> (r: bool)
        ensures
            r == self.send_body,
    {
        self.send_body
    }
}

/// Once the answer to the request headers is behind us it never becomes outstanding again.
pub proof fn law_request_headers_are_awaited_once(fsm: RequestFlowFsm, path: BodyPath)
    requires
        fsm.phase != RequestPhase::AwaitingHeaders,
    ensures
        fsm.synced(path).phase != RequestPhase::AwaitingHeaders,
        fsm.headers_finished().phase != RequestPhase::AwaitingHeaders,
{
}

/// Once the answer to the response headers is behind us it never becomes outstanding again.
pub proof fn law_response_headers_are_awaited_once(fsm: ResponseFlowFsm, mode: BodySendMode)
    requires
        fsm.phase != ResponsePhase::AwaitingHeaders,
    ensures
        fsm.synced(mode).phase != ResponsePhase::AwaitingHeaders,
        fsm.headers_finished().phase != ResponsePhase::AwaitingHeaders,
{
}

/// Which bodies go through the service, and how: a body that is not sent does not, a buffered one
/// goes as a whole, in part or not, and a streamed one in full duplex. A mode says the same before
/// and after it is announced.
pub proof fn law_paths_follow_the_mode(mode: BodySendMode)
    ensures
        wire_body_path(crate::ext_proc::modes::wire_body_mode(mode)) == body_path(mode),
        body_path(mode) == BodyPath::Bypass <==> mode == BodySendMode::NotSent,
        body_path(mode) == BodyPath::FullDuplex <==> mode == BodySendMode::FullDuplexStreamed,
        wire_body_path(EnvoyBodySendMode::Streamed) == BodyPath::Bypass,
{
}

/// What a request waits for first: the answer to its headers where they are sent, else the answer
/// to its body where there is one and it goes through the service, else nothing.
pub proof fn law_requests_wait_for_headers_first(
    send_headers: bool,
    had_body: bool,
    path: BodyPath,
)
    ensures
        ({
            let fsm = RequestFlowFsm::start(send_headers, had_body, path);
            &&& fsm.phase == RequestPhase::AwaitingHeaders <==> send_headers
            &&& fsm.phase == RequestPhase::AwaitingBody <==> !send_headers && had_body && path
                != BodyPath::Bypass
            &&& fsm.phase != RequestPhase::StreamingContinuation
            &&& fsm.had_body == had_body && fsm.body_path == path
            &&& fsm.expect_body_response <==> had_body && path != BodyPath::Bypass
        }),
{
}

/// A new body mode of a request decides how its body travels and whether an answer to it is
/// expected. It ends the wait for such an answer where none is expected any more, and changes
/// nothing else.
pub proof fn law_request_modes_decide_the_path(fsm: RequestFlowFsm, path: BodyPath)
    ensures
        ({
            let after = fsm.synced(path);
            &&& after.body_path == path && after.had_body == fsm.had_body
            &&& after.expect_body_response <==> fsm.had_body && path != BodyPath::Bypass
            &&& fsm.phase != RequestPhase::AwaitingBody || after.expect_body_response
                ==> after.phase == fsm.phase
            &&& fsm.phase == RequestPhase::AwaitingBody && !after.expect_body_response
                ==> after.phase == RequestPhase::Complete
        }),
{
}

/// After the answer to the headers of a request its body is waited for exactly where an answer to
/// it is expected.
pub proof fn law_request_bodies_follow_headers(fsm: RequestFlowFsm)
    ensures
        ({
            let after = fsm.headers_finished();
            &&& after.phase == RequestPhase::AwaitingBody <==> fsm.expect_body_response
            &&& after.phase == RequestPhase::Complete <==> !fsm.expect_body_response
            &&& after.body_path == fsm.body_path && after.had_body == fsm.had_body
            &&& after.expect_body_response == fsm.expect_body_response
        }),
{
}

/// What a response waits for first: the answer to its headers where they are sent, else the answer
/// to its body where that is sent, else nothing.
pub proof fn law_responses_wait_for_headers_first(
    send_headers: bool,
    send_body: bool,
    had_body: bool,
)
    ensures
        ({
            let fsm = ResponseFlowFsm::start(send_headers, send_body, had_body);
            &&& fsm.phase == ResponsePhase::AwaitingHeaders <==> send_headers
            &&& fsm.phase == ResponsePhase::AwaitingBody <==> !send_headers && send_body
            &&& fsm.phase != ResponsePhase::StreamingContinuation
            &&& fsm.had_body == had_body && fsm.send_body == send_body
        }),
{
}

/// A new body mode of a response decides whether its body is sent: it is where there is one and
/// the mode sends it. That ends the wait for an answer that is not to come, and changes nothing
/// else.
pub proof fn law_response_modes_decide_what_is_sent(fsm: ResponseFlowFsm, mode: BodySendMode)
    ensures
        ({
            let after = fsm.synced(mode);
            &&& after.had_body == fsm.had_body
            &&& after.send_body <==> fsm.had_body && mode != BodySendMode::NotSent
            &&& fsm.phase != ResponsePhase::AwaitingBody || after.send_body ==> after.phase
                == fsm.phase
            &&& fsm.phase == ResponsePhase::AwaitingBody && !after.send_body ==> after.phase
                == ResponsePhase::Complete
        }),
{
}

/// After the answer to the headers of a response its body is waited for exactly where it is sent.
pub proof fn law_response_bodies_follow_headers(fsm: ResponseFlowFsm)
    ensures
        ({
            let after = fsm.headers_finished();
            &&& after.phase == ResponsePhase::AwaitingBody <==> fsm.send_body
            &&& after.phase == ResponsePhase::Complete <==> !fsm.send_body
            &&& after.had_body == fsm.had_body && after.send_body == fsm.send_body
        }),
{
}

/// A lost connection lets a request pass only where that is configured, and never where its body
/// is on its way through the service in full duplex; in all other cases it does.
pub proof fn law_streamed_requests_do_not_fail_open(fsm: RequestFlowFsm)
    ensures
        !fsm.fails_open(FailureMode::FailClosed),
        fsm.had_body && fsm.body_path == BodyPath::FullDuplex ==> !fsm.fails_open(
            FailureMode::FailOpen,
        ),
        fsm.had_body && (fsm.body_path == BodyPath::Buffered || fsm.body_path == BodyPath::Bypass)
            ==> fsm.fails_open(FailureMode::FailOpen),
        !fsm.had_body ==> fsm.fails_open(FailureMode::FailOpen),
{
}

/// A buffered body that the service left alone goes upstream as it came; one that it changed, one
/// that it was not asked about, and one that is streamed do not.
pub proof fn law_untouched_bodies_are_restored(fsm: RequestFlowFsm)
    requires
        fsm.wf(),
    ensures
        fsm.restores_body(true) <==> fsm.had_body && fsm.body_path == BodyPath::Buffered,
        !fsm.restores_body(false),
{
}

} // verus!
