//! The messages of the external service and what one of them does to the exchange.

use vstd::prelude::*;
use vstd::string::*;

use crate::ext_proc::headers::{HeaderMutation, HeaderValue};
use crate::ext_proc::modes::{EnvoyBodySendMode, ProcessingMode};
#[allow(unused_imports)]
use crate::json::{members_view, put_member, Json, JsonView};

verus! {

/// Why external processing failed.
#[derive(Debug)]
pub enum Error {
    RequestSend,
    NoMoreResponses,
    ResponseDropped,
    BodyBuffer(String),
    MetadataConversion(String),
    InvalidHeaderName(String),
    InvalidHeaderValue(String),
}

impl Error {
    /// The text of an error.
    pub open spec fn text(self) -> Seq<char> {
        match self {
            Error::RequestSend => "failed to send request"@,
            Error::NoMoreResponses => "no more response messages"@,
            Error::ResponseDropped => "no more responses"@,
            Error::BodyBuffer(e) => "failed to buffer body: "@ + e@,
            Error::MetadataConversion(e) => "failed to convert metadata value: "@ + e@,
            Error::InvalidHeaderName(e) => e@,
            Error::InvalidHeaderValue(e) => e@,
        }
    }

    /// The text of this error.
    pub fn message(&self) -> (r: String)
        ensures
            r@ == self.text(),
    {
        match self {
            Error::RequestSend => "failed to send request".to_owned(),
            Error::NoMoreResponses => "no more response messages".to_owned(),
            Error::ResponseDropped => "no more responses".to_owned(),
            Error::BodyBuffer(e) => "failed to buffer body: ".to_owned().concat(e.as_str()),
            Error::MetadataConversion(e) => "failed to convert metadata value: ".to_owned().concat(
                e.as_str(),
            ),
            Error::InvalidHeaderName(e) => e.clone(),
            Error::InvalidHeaderValue(e) => e.clone(),
        }
    }
}

/// The body modes that the gateway announces to the service.
#[derive(Debug, Clone, Copy, PartialEq, Eq, Structural)]
pub struct ProtocolConfiguration {
    pub request_body_mode: EnvoyBodySendMode,
    pub response_body_mode: EnvoyBodySendMode,
    pub send_body_without_waiting_for_header_response: bool,
}

/// What a message to the service carries.
#[derive(Debug)]
pub enum RequestKind {
    RequestHeaders { headers: Vec<HeaderValue>, end_of_stream: bool },
    ResponseHeaders { headers: Vec<HeaderValue>, end_of_stream: bool },
    RequestBody { body: Vec<u8>, end_of_stream: bool },
    ResponseBody { body: Vec<u8>, end_of_stream: bool },
    RequestTrailers(Vec<HeaderValue>),
    ResponseTrailers(Vec<HeaderValue>),
}

/// A message to the service. The metadata of the exchange goes with each message; the attributes
/// of the side go with those that say so.
#[derive(Debug)]
pub struct ProcessingRequest {
    pub request: RequestKind,
    pub attributes: bool,
    pub protocol_config: Option<ProtocolConfiguration>,
}

/// A change of the body.
#[derive(Debug)]
pub enum Mutation {
    Body(Vec<u8>),
    ClearBody(bool),
    StreamedResponse { body: Vec<u8>, end_of_stream: bool },
}

/// A change of the body, if the service names one.
#[derive(Debug)]
pub struct BodyMutation {
    pub mutation: Option<Mutation>,
}

/// The changes that the service wants made.
#[derive(Debug)]
pub struct CommonResponse {
    pub header_mutation: Option<HeaderMutation>,
    pub body_mutation: Option<BodyMutation>,
}

/// An answer that the service gives in place of the upstream.
#[derive(Debug)]
pub struct ImmediateResponse {
    pub status: Option<i32>,
    pub headers: Option<HeaderMutation>,
    pub body: String,
}

/// What a message from the service answers to.
#[derive(Debug)]
pub enum ResponseKind {
    RequestHeaders(Option<CommonResponse>),
    ResponseHeaders(Option<CommonResponse>),
    RequestBody(Option<CommonResponse>),
    ResponseBody(Option<CommonResponse>),
    RequestTrailers,
    ResponseTrailers,
    ImmediateResponse(ImmediateResponse),
}

/// Fields of dynamic metadata: each key with its value, or with what is wrong with the value.
pub type MetadataFields = Vec<(String, Result<Json, String>)>;

/// A message from the service.
#[derive(Debug)]
pub struct ProcessingResponse {
    pub response: Option<ResponseKind>,
    pub mode_override: Option<ProcessingMode>,
    pub dynamic_metadata: Option<MetadataFields>,
}

/// A response that is sent in place of that of the upstream: its status, the changes that are
/// made to its empty headers, and its body.
#[derive(Debug)]
pub struct DirectResponse {
    pub status: u16,
    pub headers: Option<HeaderMutation>,
    pub body: String,
}

/// What a policy says about the exchange.
#[derive(Debug)]
pub struct PolicyResponse {
    pub direct_response: Option<DirectResponse>,
}

impl Default for PolicyResponse {
    fn default() -> (r: Self)
        ensures
            r == (PolicyResponse { direct_response: None }),
    {
        PolicyResponse { direct_response: None }
    }
}

/// A message from the service, once immediate answers have been told apart.
#[derive(Debug)]
pub enum ResponseLoopMessage {
    Immediate(PolicyResponse),
    Processing(ProcessingResponse),
}

/// The status of an immediate answer: the low 16 bits of the status code that the service names,
/// or 200.
pub open spec fn immediate_status(ir: ImmediateResponse) -> u16 {
    match ir.status {
        Some(code) => code as u16,
        None => 200,
    }
}

/// Whether a message can be answered: the status of an immediate answer is an HTTP status.
pub open spec fn has_http_status(rp: ProcessingResponse) -> bool {
    rp.response matches Some(ResponseKind::ImmediateResponse(ir)) ==> 100 <= immediate_status(ir)
        < 1000
}

/// [`has_http_status`], computed.
pub fn check_http_status(rp: &ProcessingResponse) -> (r: bool)
    ensures
        r == has_http_status(*rp),
{
    match &rp.response {
        Some(ResponseKind::ImmediateResponse(ir)) => {
            let status: u16 = match ir.status {
                Some(code) => #[verifier::truncate] (code as u16),
                None => 200,
            };
            100 <= status && status < 1000
        },
        _ => true,
    }
}

/// What an immediate answer becomes.
pub open spec fn immediate(rp: ProcessingResponse) -> ResponseLoopMessage {
    match rp.response {
        Some(ResponseKind::ImmediateResponse(ir)) => ResponseLoopMessage::Immediate(
            PolicyResponse {
                direct_response: Some(
                    DirectResponse {
                        status: immediate_status(ir),
                        headers: ir.headers,
                        body: ir.body,
                    },
                ),
            },
        ),
        _ => ResponseLoopMessage::Processing(rp),
    }
}

/// Tells immediate answers from other messages.
pub fn to_immediate_response(rp: ProcessingResponse) -> (r: ResponseLoopMessage)
    requires
        has_http_status(rp),
    ensures
        r == immediate(rp),
        r matches ResponseLoopMessage::Immediate(p) ==> p.direct_response matches Some(d) && 100
            <= d.status < 1000,
{
    let ProcessingResponse { response, mode_override, dynamic_metadata } = rp;
    match response {
        Some(ResponseKind::ImmediateResponse(ir)) => {
            let status: u16 = match ir.status {
                Some(code) => #[verifier::truncate] (code as u16),
                None => 200,
            };
            ResponseLoopMessage::Immediate(
                PolicyResponse {
                    direct_response: Some(
                        DirectResponse { status, headers: ir.headers, body: ir.body },
                    ),
                },
            )
        },
        response => ResponseLoopMessage::Processing(
            ProcessingResponse { response, mode_override, dynamic_metadata },
        ),
    }
}

/// What a message from the service makes the gateway do.
#[derive(Debug)]
pub struct Effects {
    /// Metadata to attach to the exchange.
    pub dynamic_metadata: Option<MetadataFields>,
    /// Changes to make to the headers.
    pub header_mutation: Option<HeaderMutation>,
    /// Bytes to pass on as part of the body.
    pub forward: Option<Vec<u8>>,
}

/// No effects.
pub open spec fn no_effects() -> Effects {
    Effects { dynamic_metadata: None, header_mutation: None, forward: None }
}

impl Default for Effects {
    fn default() -> (r: Self)
        ensures
            r == no_effects(),
    {
        Effects { dynamic_metadata: None, header_mutation: None, forward: None }
    }
}

/// A message from the service, dealt with.
#[derive(Debug)]
pub struct HandledResponse {
    pub effects: Effects,
    /// Whether the headers phase is over.
    pub headers_done: bool,
    /// Whether the body is complete.
    pub end_of_stream: bool,
}

/// What a message with the changes `cr` amounts to. `answers_headers` says whether it answers to
/// headers, `had_body` whether a body goes through the service, `metadata` and `apply_headers`
/// what may be attached to the exchange and whether its headers can still be changed.
pub open spec fn handled_common(
    answers_headers: bool,
    had_body: bool,
    metadata: Option<MetadataFields>,
    apply_headers: bool,
    cr: CommonResponse,
) -> HandledResponse {
    let header_mutation = if apply_headers {
        cr.header_mutation
    } else {
        None
    };
    let (forward, headers_done, end_of_stream) = match cr.body_mutation {
        Some(BodyMutation { mutation: Some(m) }) if had_body => match m {
            Mutation::StreamedResponse { body, end_of_stream } => (
                Some(body),
                answers_headers,
                end_of_stream,
            ),
            Mutation::Body(body) => (Some(body), true, true),
            Mutation::ClearBody(_) => (None, true, true),
        },
        _ => (None, answers_headers, !had_body),
    };
    HandledResponse {
        effects: Effects { dynamic_metadata: metadata, header_mutation, forward },
        headers_done,
        end_of_stream,
    }
}

fn handle_common(
    answers_headers: bool,
    had_body: bool,
    metadata: Option<MetadataFields>,
    apply_headers: bool,
    cr: CommonResponse,
) -> (r: HandledResponse)
    ensures
        r == handled_common(answers_headers, had_body, metadata, apply_headers, cr),
{
    let header_mutation = if apply_headers {
        cr.header_mutation
    } else {
        None
    };
    let (forward, headers_done, end_of_stream) = match cr.body_mutation {
        Some(BodyMutation { mutation: Some(m) }) => {
            if !had_body {
                (None, answers_headers, true)
            } else {
                match m {
                    Mutation::StreamedResponse { body, end_of_stream } => (
                        Some(body),
                        answers_headers,
                        end_of_stream,
                    ),
                    Mutation::Body(body) => (Some(body), true, true),
                    Mutation::ClearBody(_) => (None, true, true),
                }
            }
        },
        _ => (None, answers_headers, !had_body),
    };
    HandledResponse {
        effects: Effects { dynamic_metadata: metadata, header_mutation, forward },
        headers_done,
        end_of_stream,
    }
}

/// A message that changes nothing but the metadata.
pub open spec fn handled_plain(
    metadata: Option<MetadataFields>,
    headers_done: bool,
    end_of_stream: bool,
) -> HandledResponse {
    HandledResponse {
        effects: Effects { dynamic_metadata: metadata, header_mutation: None, forward: None },
        headers_done,
        end_of_stream,
    }
}

fn handle_plain(metadata: Option<MetadataFields>, headers_done: bool, end_of_stream: bool) -> (r:
    HandledResponse)
    ensures
        r == handled_plain(metadata, headers_done, end_of_stream),
{
    HandledResponse {
        effects: Effects { dynamic_metadata: metadata, header_mutation: None, forward: None },
        headers_done,
        end_of_stream,
    }
}

/// What a message amounts to on the request side. `attached` says whether the request is still
/// at hand: metadata and headers can be changed only then. `had_body` says whether a body goes
/// through the service, `allow_header_mutations` whether the service saw the headers.
pub open spec fn handled_request(
    had_body: bool,
    allow_header_mutations: bool,
    attached: bool,
    presp: ProcessingResponse,
) -> HandledResponse {
    let metadata = if attached {
        presp.dynamic_metadata
    } else {
        None
    };
    let apply = allow_header_mutations && attached;
    match presp.response {
        Some(ResponseKind::RequestHeaders(Some(cr))) => handled_common(
            true,
            had_body,
            metadata,
            apply,
            cr,
        ),
        Some(ResponseKind::RequestHeaders(None)) => handled_plain(metadata, true, !had_body),
        Some(ResponseKind::RequestBody(Some(cr))) => handled_common(
            false,
            had_body,
            metadata,
            apply,
            cr,
        ),
        Some(ResponseKind::RequestBody(None)) => handled_plain(metadata, false, true),
        Some(ResponseKind::ImmediateResponse(_)) => handled_plain(metadata, true, true),
        _ => handled_plain(metadata, false, false),
    }
}

/// Deals with one message on the request side.
pub fn handle_response_for_request_mutation(
    had_body: bool,
    allow_header_mutations: bool,
    attached: bool,
    presp: ProcessingResponse,
) -> (r: HandledResponse)
    ensures
        r == handled_request(had_body, allow_header_mutations, attached, presp),
{
    let metadata = if attached {
        presp.dynamic_metadata
    } else {
        None
    };
    let apply = allow_header_mutations && attached;
    match presp.response {
        Some(ResponseKind::RequestHeaders(None)) => handle_plain(metadata, true, !had_body),
        Some(ResponseKind::RequestHeaders(Some(cr))) => handle_common(
            true,
            had_body,
            metadata,
            apply,
            cr,
        ),
        Some(ResponseKind::RequestBody(None)) => handle_plain(metadata, false, true),
        Some(ResponseKind::RequestBody(Some(cr))) => handle_common(
            false,
            had_body,
            metadata,
            apply,
            cr,
        ),
        Some(ResponseKind::ImmediateResponse(_)) => handle_plain(metadata, true, true),
        _ => handle_plain(metadata, false, false),
    }
}

/// What a message amounts to on the response side; see [`handled_request`].
pub open spec fn handled_response(
    had_body: bool,
    allow_header_mutations: bool,
    attached: bool,
    presp: ProcessingResponse,
) -> HandledResponse {
    let metadata = if attached {
        presp.dynamic_metadata
    } else {
        None
    };
    let apply = allow_header_mutations && attached;
    match presp.response {
        Some(ResponseKind::ResponseHeaders(Some(cr))) => handled_common(
            true,
            had_body,
            metadata,
            apply,
            cr,
        ),
        Some(ResponseKind::ResponseHeaders(None)) => handled_plain(metadata, true, false),
        Some(ResponseKind::ResponseBody(Some(cr))) => handled_common(
            false,
            had_body,
            metadata,
            apply,
            cr,
        ),
        Some(ResponseKind::ResponseBody(None)) => handled_plain(metadata, false, true),
        _ => handled_plain(metadata, false, false),
    }
}

/// Deals with one message on the response side.
pub fn handle_response_for_response_mutation(
    had_body: bool,
    allow_header_mutations: bool,
    attached: bool,
    presp: ProcessingResponse,
) -> (r: HandledResponse)
    ensures
        r == handled_response(had_body, allow_header_mutations, attached, presp),
{
    let metadata = if attached {
        presp.dynamic_metadata
    } else {
        None
    };
    let apply = allow_header_mutations && attached;
    match presp.response {
        Some(ResponseKind::ResponseHeaders(None)) => handle_plain(metadata, true, false),
        Some(ResponseKind::ResponseHeaders(Some(cr))) => handle_common(
            true,
            had_body,
            metadata,
            apply,
            cr,
        ),
        Some(ResponseKind::ResponseBody(Some(cr))) => handle_common(
            false,
            had_body,
            metadata,
            apply,
            cr,
        ),
        Some(ResponseKind::ResponseBody(None)) => handle_plain(metadata, false, true),
        _ => handle_plain(metadata, false, false),
    }
}

/// Metadata that the service attached to the exchange: the members of a JSON object.
#[derive(Debug)]
pub struct ExtProcDynamicMetadata(pub Vec<(String, Json)>);

impl ExtProcDynamicMetadata {
    /// The members.
    pub open spec fn members(self) -> Map<Seq<char>, JsonView> {
        members_view(self.0@)
    }
}

/// What is attached, as members; nothing attached is no members.
pub open spec fn attached_members(metadata: Option<ExtProcDynamicMetadata>) -> Map<
    Seq<char>,
    JsonView,
> {
    match metadata {
        Some(m) => m.members(),
        None => Map::empty(),
    }
}

/// The first field whose value could not be converted.
pub open spec fn first_bad_field(fields: Seq<(String, Result<Json, String>)>) -> Option<int>
    decreases fields.len(),
{
    if fields.len() == 0 {
        None
    } else {
        match first_bad_field(fields.drop_last()) {
            Some(i) => Some(i),
            None => if fields.last().1 is Err {
                Some(fields.len() - 1)
            } else {
                None
            },
        }
    }
}

/// `members` with the fields put in, in order.
pub open spec fn merged_members(
    members: Map<Seq<char>, JsonView>,
    fields: Seq<(String, Result<Json, String>)>,
) -> Map<Seq<char>, JsonView>
    decreases fields.len(),
{
    if fields.len() == 0 {
        members
    } else {
        merged_members(members, fields.drop_last()).insert(
            fields.last().0@,
            fields.last().1->Ok_0@,
        )
    }
}

proof fn lemma_first_bad_field_prefix(fields: Seq<(String, Result<Json, String>)>, n: int)
    requires
        0 <= n < fields.len(),
        first_bad_field(fields.take(n)) is None,
        fields[n].1 is Err,
    ensures
        first_bad_field(fields) == Some(n),
    decreases fields.len(),
{
    if n == fields.len() - 1 {
        assert(fields.take(n) =~= fields.drop_last());
    } else {
        let d = fields.drop_last();
        assert(d.take(n) =~= fields.take(n));
        lemma_first_bad_field_prefix(d, n);
    }
}

/// Merges the fields of a message into the metadata attached to an exchange. Where a value cannot
/// be converted nothing is attached any more, and the error names the first such field.
pub fn merge_dynamic_metadata(
    extensions: &mut Option<ExtProcDynamicMetadata>,
    fields: MetadataFields,
) -> (r: Result<(), Error>)
    ensures
        match first_bad_field(fields@) {
            None => r is Ok && attached_members(*final(extensions)) == merged_members(
                attached_members(*old(extensions)),
                fields@,
            ) && (*final(extensions) matches Some(m) ==> m.0@.len() > 0),
            Some(i) => r matches Err(Error::MetadataConversion(e)) && *final(extensions) is None
                && e@ == "failed to convert key '"@ + fields@[i].0@ + "': "@
                + fields@[i].1->Err_0@,
        },
{
    let ghost all = fields@;
    let ghost before = attached_members(*extensions);
    let mut members: Vec<(String, Json)> = match extensions.take() {
        Some(m) => m.0,
        None => Vec::new(),
    };
    assert(all.take(0) =~= Seq::empty());
    assert(members_view(members@) == before);
    for field in it: fields
        invariant
            it.seq() == all,
            *extensions is None,
            first_bad_field(all.take(it.index())) is None,
            members_view(members@) == merged_members(before, all.take(it.index())),
    {
        let ghost n = it.index();
        assert(all.take(n + 1).drop_last() =~= all.take(n));
        assert(all.take(n + 1).last() == all[n]);
        match field.1 {
            Ok(value) => {
                put_member(&mut members, field.0.as_str(), value);
            },
            Err(e) => {
                proof {
                    lemma_first_bad_field_prefix(all, n);
                }
                let mut message = "failed to convert key '".to_owned();
                message.append(field.0.as_str());
                message.append("': ");
                message.append(e.as_str());
                return Err(Error::MetadataConversion(message));
            },
        }
    }
    assert(all.take(all.len() as int) =~= all);
    if members.len() > 0 {
        *extensions = Some(ExtProcDynamicMetadata(members));
    } else {
        assert(members@ =~= Seq::empty());
    }
    Ok(())
}

/// Attaching metadata keeps every member that the message does not name.
pub proof fn law_merge_keeps_other_members(
    members: Map<Seq<char>, JsonView>,
    fields: Seq<(String, Result<Json, String>)>,
    key: Seq<char>,
)
    requires
        forall|i: int| 0 <= i < fields.len() ==> (#[trigger] fields[i]).0@ != key,
    ensures
        merged_members(members, fields).dom().contains(key) == members.dom().contains(key),
        merged_members(members, fields)[key] == members[key],
    decreases fields.len(),
{
    if fields.len() > 0 {
        let d = fields.drop_last();
        assert forall|i: int| 0 <= i < d.len() implies (#[trigger] d[i]).0@ != key by {
            assert(fields[i].0@ != key);
        }
        law_merge_keeps_other_members(members, d, key);
        assert(fields[fields.len() - 1].0@ != key);
    }
}

/// Once the request has left, a message can neither attach metadata nor change its headers.
pub proof fn law_detached_request_is_settled(
    had_body: bool,
    allow_header_mutations: bool,
    presp: ProcessingResponse,
)
    ensures
        handled_request(
            had_body,
            allow_header_mutations,
            false,
            presp,
        ).effects.dynamic_metadata is None,
        handled_request(
            had_body,
            allow_header_mutations,
            false,
            presp,
        ).effects.header_mutation is None,
{
}

/// Where no body goes through the service, no message puts bytes into the body.
pub proof fn law_no_body_no_bytes(
    allow_header_mutations: bool,
    attached: bool,
    presp: ProcessingResponse,
)
    ensures
        handled_request(
            false,
            allow_header_mutations,
            attached,
            presp,
        ).effects.forward is None,
        handled_response(
            false,
            allow_header_mutations,
            attached,
            presp,
        ).effects.forward is None,
{
}

/// Headers that the service was not shown are not changed by it.
pub proof fn law_unseen_headers_are_kept(
    had_body: bool,
    attached: bool,
    presp: ProcessingResponse,
)
    ensures
        handled_request(had_body, false, attached, presp).effects.header_mutation is None,
        handled_response(had_body, false, attached, presp).effects.header_mutation is None,
{
}

/// The changes that a message wants made to the headers, where the service was shown the headers
/// and the message is still at hand, are made as they stand: on either side, and whether the
/// message answers to headers or to a body.
pub proof fn law_header_changes_are_made(
    had_body: bool,
    allow_header_mutations: bool,
    attached: bool,
    presp: ProcessingResponse,
    cr: CommonResponse,
)
    requires
        allow_header_mutations && attached,
    ensures
        presp.response == Some(ResponseKind::RequestHeaders(Some(cr))) || presp.response == Some(
            ResponseKind::RequestBody(Some(cr)),
        ) ==> handled_request(
            had_body,
            allow_header_mutations,
            attached,
            presp,
        ).effects.header_mutation == cr.header_mutation,
        presp.response == Some(ResponseKind::ResponseHeaders(Some(cr))) || presp.response == Some(
            ResponseKind::ResponseBody(Some(cr)),
        ) ==> handled_response(
            had_body,
            allow_header_mutations,
            attached,
            presp,
        ).effects.header_mutation == cr.header_mutation,
{
}

/// A message without changes, for the other side, on trailers or with an immediate answer changes
/// no headers and passes no bytes on.
pub proof fn law_other_messages_change_nothing(
    had_body: bool,
    allow_header_mutations: bool,
    attached: bool,
    presp: ProcessingResponse,
)
    ensures
        !(presp.response matches Some(ResponseKind::RequestHeaders(Some(_)))) && !(
        presp.response matches Some(ResponseKind::RequestBody(Some(_)))) ==> ({
            let h = handled_request(had_body, allow_header_mutations, attached, presp);
            h.effects.header_mutation is None && h.effects.forward is None
        }),
        !(presp.response matches Some(ResponseKind::ResponseHeaders(Some(_)))) && !(
        presp.response matches Some(ResponseKind::ResponseBody(Some(_)))) ==> ({
            let h = handled_response(had_body, allow_header_mutations, attached, presp);
            h.effects.header_mutation is None && h.effects.forward is None
        }),
{
}

/// The metadata of a message, whatever it answers to, is attached as it stands while the request
/// or the response is at hand, and is not attached afterwards.
pub proof fn law_metadata_is_attached(
    had_body: bool,
    allow_header_mutations: bool,
    presp: ProcessingResponse,
)
    ensures
        handled_request(
            had_body,
            allow_header_mutations,
            true,
            presp,
        ).effects.dynamic_metadata == presp.dynamic_metadata,
        handled_response(
            had_body,
            allow_header_mutations,
            true,
            presp,
        ).effects.dynamic_metadata == presp.dynamic_metadata,
        handled_response(
            had_body,
            allow_header_mutations,
            false,
            presp,
        ).effects.dynamic_metadata is None,
        handled_response(
            had_body,
            allow_header_mutations,
            false,
            presp,
        ).effects.header_mutation is None,
{
}

/// What becomes of the body where a body goes through the service: streamed bytes and a whole new
/// body are passed on as they stand, a cleared body is not. Streamed bytes end the body where they
/// say so and the headers phase where they answer to headers; the two others end both at once.
pub proof fn law_body_changes_are_made(
    allow_header_mutations: bool,
    attached: bool,
    presp: ProcessingResponse,
    cr: CommonResponse,
    mutation: Mutation,
    on_request: bool,
    on_headers: bool,
)
    requires
        cr.body_mutation == Some(BodyMutation { mutation: Some(mutation) }),
        presp.response == Some(
            match (on_request, on_headers) {
                (true, true) => ResponseKind::RequestHeaders(Some(cr)),
                (true, false) => ResponseKind::RequestBody(Some(cr)),
                (false, true) => ResponseKind::ResponseHeaders(Some(cr)),
                (false, false) => ResponseKind::ResponseBody(Some(cr)),
            },
        ),
    ensures
        ({
            let h = if on_request {
                handled_request(true, allow_header_mutations, attached, presp)
            } else {
                handled_response(true, allow_header_mutations, attached, presp)
            };
            &&& mutation matches Mutation::StreamedResponse { body, end_of_stream }
                ==> h.effects.forward == Some(body) && h.end_of_stream == end_of_stream
                && h.headers_done == on_headers
            &&& mutation matches Mutation::Body(body) ==> h.effects.forward == Some(body)
                && h.end_of_stream && h.headers_done
            &&& mutation is ClearBody ==> h.effects.forward is None && h.end_of_stream
                && h.headers_done
        }),
{
}

/// A message that leaves the body alone, or speaks of a body where none goes through the service,
/// ends the headers phase exactly where it answers to headers, and the body exactly where there is
/// none to wait for.
pub proof fn law_body_left_alone(
    had_body: bool,
    allow_header_mutations: bool,
    attached: bool,
    presp: ProcessingResponse,
    cr: CommonResponse,
    on_request: bool,
    on_headers: bool,
)
    requires
        !had_body || !(cr.body_mutation matches Some(BodyMutation { mutation: Some(_) })),
        presp.response == Some(
            match (on_request, on_headers) {
                (true, true) => ResponseKind::RequestHeaders(Some(cr)),
                (true, false) => ResponseKind::RequestBody(Some(cr)),
                (false, true) => ResponseKind::ResponseHeaders(Some(cr)),
                (false, false) => ResponseKind::ResponseBody(Some(cr)),
            },
        ),
    ensures
        ({
            let h = if on_request {
                handled_request(had_body, allow_header_mutations, attached, presp)
            } else {
                handled_response(had_body, allow_header_mutations, attached, presp)
            };
            &&& h.effects.forward is None
            &&& h.headers_done == on_headers
            &&& h.end_of_stream == !had_body
        }),
{
}

/// What a message without changes ends: an answer to request headers ends their phase, and the
/// body where there is none; an answer to response headers ends their phase alone; an answer to a
/// body ends the body; an immediate answer ends the request side. Trailers, and messages for the
/// other side, end nothing.
pub proof fn law_empty_answers_end_their_phase(
    had_body: bool,
    allow_header_mutations: bool,
    attached: bool,
    presp: ProcessingResponse,
)
    ensures
        ({
            let h = handled_request(had_body, allow_header_mutations, attached, presp);
            &&& presp.response == Some(ResponseKind::RequestHeaders(None)) ==> h.headers_done
                && h.end_of_stream == !had_body
            &&& presp.response == Some(ResponseKind::RequestBody(None)) ==> !h.headers_done
                && h.end_of_stream
            &&& presp.response matches Some(ResponseKind::ImmediateResponse(_))
                ==> h.headers_done && h.end_of_stream
            &&& presp.response is None || presp.response->0 is ResponseHeaders || presp.response->0
                is ResponseBody || presp.response->0 is RequestTrailers || presp.response->0
                is ResponseTrailers ==> !h.headers_done && !h.end_of_stream
        }),
        ({
            let h = handled_response(had_body, allow_header_mutations, attached, presp);
            &&& presp.response == Some(ResponseKind::ResponseHeaders(None)) ==> h.headers_done
                && !h.end_of_stream
            &&& presp.response == Some(ResponseKind::ResponseBody(None)) ==> !h.headers_done
                && h.end_of_stream
            &&& presp.response is None || presp.response->0 is RequestHeaders || presp.response->0
                is RequestBody || presp.response->0 is RequestTrailers || presp.response->0
                is ResponseTrailers || presp.response->0 is ImmediateResponse ==> !h.headers_done
                && !h.end_of_stream
        }),
{
}

/// An immediate answer is sent with the headers and the body that the service gave, and with its
/// status where that is an HTTP status, 200 where it gave none. Every other message is handed on
/// as it is.
pub proof fn law_immediate_answers_are_sent_as_given(rp: ProcessingResponse)
    ensures
        rp.response matches Some(ResponseKind::ImmediateResponse(ir)) ==> (immediate(
            rp,
        ) matches ResponseLoopMessage::Immediate(p) && (p.direct_response matches Some(d)
            && d.headers == ir.headers && d.body == ir.body && (ir.status matches Some(code)
            ==> 0 <= code < 1000 ==> d.status == code) && (ir.status is None ==> d.status
            == 200))),
        !(rp.response matches Some(ResponseKind::ImmediateResponse(_))) ==> immediate(rp)
            == ResponseLoopMessage::Processing(rp),
{
}

/// The field that an error names is the first one whose value could not be converted, and there is
/// one exactly if some value could not be.
pub proof fn law_first_bad_field_is_named(fields: Seq<(String, Result<Json, String>)>)
    ensures
        first_bad_field(fields) is None <==> forall|i: int|
            0 <= i < fields.len() ==> (#[trigger] fields[i]).1 is Ok,
        first_bad_field(fields) matches Some(n) ==> 0 <= n < fields.len() && fields[n].1 is Err && (
        forall|i: int| 0 <= i < n ==> (#[trigger] fields[i]).1 is Ok),
    decreases fields.len(),
{
    if fields.len() > 0 {
        let d = fields.drop_last();
        law_first_bad_field_is_named(d);
        assert(forall|i: int| 0 <= i < d.len() ==> d[i] == fields[i]);
        match first_bad_field(d) {
            Some(n) => {
                assert(d[n] == fields[n]);
                assert forall|i: int| 0 <= i < n implies (#[trigger] fields[i]).1 is Ok by {
                    assert(d[i].1 is Ok);
                }
            },
            None => {
                assert forall|i: int| 0 <= i < d.len() implies (#[trigger] fields[i]).1 is Ok by {
                    assert(d[i].1 is Ok);
                }
            },
        }
    }
}

/// A key that a message names holds the value of the last field with that key.
pub proof fn law_merge_puts_the_last_value(
    members: Map<Seq<char>, JsonView>,
    fields: Seq<(String, Result<Json, String>)>,
    i: int,
    value: Json,
)
    requires
        0 <= i < fields.len(),
        fields[i].1 == Ok::<Json, String>(value),
        forall|j: int| i < j < fields.len() ==> (#[trigger] fields[j]).0@ != fields[i].0@,
    ensures
        merged_members(members, fields).dom().contains(fields[i].0@),
        merged_members(members, fields)[fields[i].0@] == value@,
    decreases fields.len(),
{
    let d = fields.drop_last();
    if i < d.len() {
        assert forall|j: int| i < j < d.len() implies (#[trigger] d[j]).0@ != d[i].0@ by {
            assert(fields[j].0@ != fields[i].0@);
        }
        law_merge_puts_the_last_value(members, d, i, value);
        assert(fields[fields.len() - 1].0@ != fields[i].0@);
    }
}

/// A message can be answered unless it is an immediate answer with a status below 100 or from 1000
/// on; an immediate answer that names no status can be.
pub proof fn law_statuses_that_can_be_answered(rp: ProcessingResponse)
    ensures
        rp.response matches Some(ResponseKind::ImmediateResponse(ir)) ==> (ir.status matches Some(
            code,
        ) ==> 0 <= code <= 65535 ==> (has_http_status(rp) <==> 100 <= code <= 999)) && (ir.status
            is None ==> has_http_status(rp)),
        !(rp.response matches Some(ResponseKind::ImmediateResponse(_))) ==> has_http_status(rp),
{
}

/// What an error tells holds what went wrong.
pub proof fn law_errors_tell_what_went_wrong(text: String)
    ensures
        crate::text::ends_with(Error::BodyBuffer(text).text(), text@),
        crate::text::ends_with(Error::MetadataConversion(text).text(), text@),
        Error::InvalidHeaderName(text).text() == text@,
        Error::InvalidHeaderValue(text).text() == text@,
{
    let buffer = "failed to buffer body: "@ + text@;
    assert(buffer.skip(buffer.len() - text@.len()) =~= text@);
    let metadata = "failed to convert metadata value: "@ + text@;
    assert(metadata.skip(metadata.len() - text@.len()) =~= text@);
}

} // verus!
