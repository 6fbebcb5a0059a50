//! Guardrails on realtime sessions.
//!
//! Frames of the client that create a conversation item are checked before they go to the server.
//! Text that the server sends is held back in windows, as for streamed responses: a window that
//! passes lets the held frames go. One that is blocked counts against the response whose frame
//! completed it: the held frames of that response are discarded, the client is told, the response
//! is cancelled at the server, and the rest of it is dropped. What is held of other responses
//! stays held; each of them then goes on by itself until its text is complete, so that none is
//! blocked for what another one says.

use async_openai::types::realtime::{
    RealtimeClientEvent, RealtimeConversationItem, RealtimeConversationItemMessage,
    RealtimeServerEvent, UserMessageContent,
};
use vstd::prelude::*;
use vstd::string::*;

#[allow(unused_imports)]
use crate::byte_buffers::{bytes_to_vec, held};
#[allow(unused_imports)]
use crate::streaming_guardrails::window::{
    byte_len, tail_chars, tail_text, text_bytes, DEFAULT_EVAL_THRESHOLD, OVERLAP_BYTES,
};
#[allow(unused_imports)]
use crate::text::{push_char, str_eq, trim, trim_back, trim_front, utf8_text};
#[allow(unused_imports)]
use crate::websocket::accumulator::{
    encode_ws_text_frame, encode_ws_text_frame_masked, WsCompletedFrame,
};
#[allow(unused_imports)]
use crate::websocket::frames::{text_frame, FrameView};
#[allow(unused_imports)]
use crate::websocket::usage::{reported, usage_report, LLMResponse, RealtimeUsage};

verus! {

/// The event that a client gets in place of a blocked text.
pub open spec fn blocked_event() -> Seq<char> {
    "{\"type\":\"error\",\"error\":{\"type\":\"guardrail_blocked\",\"code\":\"guardrail_intervention\",\"message\":\"Content blocked by guardrail policy\"}}"@
}

/// The frame that a client gets in place of a blocked text.
pub open spec fn blocked_frame() -> Seq<u8> {
    text_frame(vstd::utf8::encode_utf8(blocked_event()), None)
}

/// The frame that a client gets in place of a blocked text.
pub fn guardrail_blocked_ws_event_bytes() -> (r: bytes::Bytes)
    ensures
        held(r) == blocked_frame(),
{
    encode_ws_text_frame(
        "{\"type\":\"error\",\"error\":{\"type\":\"guardrail_blocked\",\"code\":\"guardrail_intervention\",\"message\":\"Content blocked by guardrail policy\"}}".as_bytes(),
    )
}

/// The event that cancels a response.
pub open spec fn cancel_event(response_id: Seq<char>) -> Seq<char> {
    "{\"type\":\"response.cancel\",\"response_id\":\""@ + response_id + "\"}"@
}

/// The frame that cancels a response, masked with `mask` as frames of clients must be.
pub open spec fn cancel_frame(response_id: Seq<char>, mask: Seq<u8>) -> Seq<u8> {
    text_frame(vstd::utf8::encode_utf8(cancel_event(response_id)), Some(mask))
}

/// The frame that cancels a response.
pub fn response_cancel_event_bytes(response_id: &str, mask: [u8; 4]) -> (r: bytes::Bytes)
    ensures
        held(r) == cancel_frame(response_id@, mask@),
{
    let mut event = "{\"type\":\"response.cancel\",\"response_id\":\"".to_owned();
    event.append(response_id);
    event.append("\"}");
    encode_ws_text_frame_masked(event.as_str().as_bytes(), mask)
}

/// What a frame of the server says.
#[derive(Debug)]
pub enum ServerEvent {
    /// A piece of text of a response.
    TextDelta { response_id: String, delta: String },
    /// The text of a response is complete.
    TextDone { response_id: String },
    /// A response is complete.
    ResponseDone { usage: Option<RealtimeUsage> },
    /// Anything else.
    Other,
}

/// What a frame of the server says, as plain values.
pub ghost enum ServerEventView {
    TextDelta { response_id: Seq<char>, delta: Seq<char> },
    TextDone { response_id: Seq<char> },
    ResponseDone { usage: Option<RealtimeUsage> },
    Other,
}

impl View for ServerEvent {
    type V = ServerEventView;

    open spec fn view(&self) -> ServerEventView {
        match *self {
            ServerEvent::TextDelta { response_id, delta } => ServerEventView::TextDelta {
                response_id: response_id@,
                delta: delta@,
            },
            ServerEvent::TextDone { response_id } => ServerEventView::TextDone {
                response_id: response_id@,
            },
            ServerEvent::ResponseDone { usage } => ServerEventView::ResponseDone { usage },
            ServerEvent::Other => ServerEventView::Other,
        }
    }
}

/// What a text message of the server says.
pub uninterp spec fn server_event_of(text: Seq<char>) -> ServerEventView;

/// Reads a text message of the server (`serde_json::from_str` into the `RealtimeServerEvent` of
/// the `async-openai` crate).
///
/// Trusted: the event depends on the text alone. A text that is no event counts as other.
#[verifier::external_body]
fn parse_server_event(text: &str) -> (r: ServerEvent)
    ensures
        r@ == server_event_of(text@),
{
    match serde_json::from_str::<RealtimeServerEvent>(text) {
        Ok(RealtimeServerEvent::ResponseOutputTextDelta(e)) => ServerEvent::TextDelta { response_id: e.response_id, delta: e.delta },
        Ok(RealtimeServerEvent::ResponseOutputTextDone(e)) => ServerEvent::TextDone { response_id: e.response_id },
        Ok(RealtimeServerEvent::ResponseDone(e)) => ServerEvent::ResponseDone {
            usage: e.response.usage.map(|u| RealtimeUsage {
                input_tokens: u.input_tokens,
                output_tokens: u.output_tokens,
                total_tokens: u.total_tokens,
                cached_tokens: u.input_token_details.and_then(|d| d.cached_tokens),
            }),
        },
        _ => ServerEvent::Other,
    }
}

/// What a frame of the client says.
#[derive(Debug)]
pub enum ClientEvent {
    /// A conversation item is created. `content` holds the texts of a user message, with `None`
    /// for content that is no text; it is `None` for any other item.
    ItemCreate { content: Option<Vec<Option<String>>> },
    /// Anything else.
    Other,
}

/// What a frame of the client says, as plain values.
pub ghost enum ClientEventView {
    ItemCreate { content: Option<Seq<Option<Seq<char>>>> },
    Other,
}

/// The text of a piece of content.
pub open spec fn text_view(t: Option<String>) -> Option<Seq<char>> {
    match t {
        Some(s) => Some(s@),
        None => None,
    }
}

impl View for ClientEvent {
    type V = ClientEventView;

    open spec fn view(&self) -> ClientEventView {
        match *self {
            ClientEvent::ItemCreate { content } => ClientEventView::ItemCreate {
                content: match content {
                    Some(c) => Some(c@.map_values(|t: Option<String>| text_view(t))),
                    None => None,
                },
            },
            ClientEvent::Other => ClientEventView::Other,
        }
    }
}

/// What a text message of the client says.
pub uninterp spec fn client_event_of(text: Seq<char>) -> ClientEventView;

/// Reads a text message of the client (`serde_json::from_str` into the `RealtimeClientEvent` of
/// the `async-openai` crate).
///
/// Trusted: the event depends on the text alone. A text that is no event counts as other.
#[verifier::external_body]
fn parse_client_event(text: &str) -> (r: ClientEvent)
    ensures
        r@ == client_event_of(text@),
{
    let Ok(RealtimeClientEvent::ConversationItemCreate(create)) = serde_json::from_str(text) else {
        return ClientEvent::Other;
    };
    let content = match create.item {
        RealtimeConversationItem::Message(RealtimeConversationItemMessage::User(user)) => Some(
            user.content.into_iter().map(|c| match c {
                UserMessageContent::InputText(t) => Some(t.text),
                _ => None,
            }).collect(),
        ),
        _ => None,
    };
    ClientEvent::ItemCreate { content }
}

/// The texts of content, each followed by a space.
pub open spec fn joined_texts(content: Seq<Option<Seq<char>>>) -> Seq<char>
    decreases content.len(),
{
    if content.len() == 0 {
        Seq::empty()
    } else {
        joined_texts(content.drop_last()) + match content.last() {
            Some(text) => text.push(' '),
            None => Seq::empty(),
        }
    }
}

/// The text that the guardrails look at in an event of the client: that of a user message, if it
/// has any.
pub open spec fn guarded_input(event: ClientEventView) -> Option<Seq<char>> {
    match event {
        ClientEventView::ItemCreate { content: Some(content) } => {
            let text = joined_texts(content);
            if text.len() > 0 {
                Some(trim_back(trim_front(text)))
            } else {
                None
            }
        },
        _ => None,
    }
}

/// The text that the guardrails look at in an event of the client.
pub fn input_text(event: &ClientEvent) -> (r: Option<String>)
    ensures
        match r {
            Some(text) => guarded_input(event@) == Some(text@),
            None => guarded_input(event@) is None,
        },
{
    let content = match event {
        ClientEvent::ItemCreate { content: Some(content) } => content,
        _ => {
            return None;
        },
    };
    let mut text = String::new();
    let mut i: usize = 0;
    let ghost all = content@.map_values(|t: Option<String>| text_view(t));
    assert(all.take(0) =~= Seq::empty());
    while i < content.len()
        invariant
            i <= content@.len(),
            all == content@.map_values(|t: Option<String>| text_view(t)),
            text@ == joined_texts(all.take(i as int)),
        decreases content.len() - i,
    {
        assert(all.take(i + 1).drop_last() =~= all.take(i as int));
        assert(all.take(i + 1).last() == text_view(content@[i as int]));
        let ghost before = text@;
        match &content[i] {
            Some(t) => {
                text.append(t.as_str());
                push_char(&mut text, ' ');
                assert(text@ =~= before + t@.push(' '));
            },
            None => {
                assert(text@ =~= before + Seq::<char>::empty());
            },
        }
        i += 1;
    }
    assert(all.take(i as int) =~= all);
    if text.as_str().is_empty() {
        return None;
    }
    Some(trim(text.as_str()))
}

/// What becomes of a frame of the client.
#[derive(Debug)]
pub enum ClientStep {
    /// It goes to the server.
    Forward(bytes::Bytes),
    /// The guardrails are to look at the text first; see [`client_verdict`].
    Evaluate { text: String, raw: bytes::Bytes },
}

/// The text of a frame of the client that the guardrails look at.
pub open spec fn guarded_frame_input(frame: FrameView) -> Option<Seq<char>> {
    match frame {
        FrameView::Text { payload, .. } => if vstd::utf8::valid_utf8(payload) {
            guarded_input(client_event_of(vstd::utf8::decode_utf8(payload)))
        } else {
            None
        },
        FrameView::Other { .. } => None,
    }
}

/// Deals with a frame of the client.
pub fn on_client_frame(frame: WsCompletedFrame) -> (r: ClientStep)
    ensures
        match guarded_frame_input(frame@) {
            Some(text) => r matches ClientStep::Evaluate { text: t, raw } && t@ == text && held(raw)
                == crate::websocket::frames::frame_raw(frame@),
            None => r matches ClientStep::Forward(raw) && held(raw)
                == crate::websocket::frames::frame_raw(frame@),
        },
{
    match frame {
        WsCompletedFrame::Text { raw, payload } => {
            let bytes = bytes_to_vec(&payload);
            if let Some(text) = utf8_text(bytes.as_slice()) {
                let event = parse_client_event(text.as_str());
                if let Some(text) = input_text(&event) {
                    return ClientStep::Evaluate { text, raw };
                }
            }
            ClientStep::Forward(raw)
        },
        WsCompletedFrame::Other { raw } => ClientStep::Forward(raw),
    }
}

/// What is sent where.
#[derive(Debug)]
pub struct Actions {
    pub to_client: Vec<bytes::Bytes>,
    pub to_server: Vec<bytes::Bytes>,
    /// Usage to log.
    pub usage: Option<LLMResponse>,
}

/// What is sent where, as plain values.
#[verifier::ext_equal]
pub ghost struct ActionsView {
    pub to_client: Seq<Seq<u8>>,
    pub to_server: Seq<Seq<u8>>,
    pub usage: Option<LLMResponse>,
}

/// The bytes of frames.
pub open spec fn frames_held(frames: Seq<bytes::Bytes>) -> Seq<Seq<u8>> {
    frames.map_values(|f: bytes::Bytes| held(f))
}

impl View for Actions {
    type V = ActionsView;

    open spec fn view(&self) -> ActionsView {
        ActionsView {
            to_client: frames_held(self.to_client@),
            to_server: frames_held(self.to_server@),
            usage: self.usage,
        }
    }
}

/// Nothing is sent.
pub open spec fn no_actions() -> ActionsView {
    ActionsView { to_client: Seq::empty(), to_server: Seq::empty(), usage: None }
}

/// Frames go to the client.
pub open spec fn send_client(frames: Seq<Seq<u8>>) -> ActionsView {
    ActionsView { to_client: frames, ..no_actions() }
}

fn nothing() -> (r: Actions)
    ensures
        r@ == no_actions(),
{
    let r = Actions { to_client: Vec::new(), to_server: Vec::new(), usage: None };
    assert(r@ =~= no_actions());
    r
}

/// What is sent once the guardrails have looked at the text of the frame `raw` of the client.
pub open spec fn client_outcome(raw: Seq<u8>, blocked: bool) -> ActionsView {
    if blocked {
        ActionsView { to_client: seq![blocked_frame()], ..no_actions() }
    } else {
        ActionsView { to_server: seq![raw], ..no_actions() }
    }
}

/// What is sent once the guardrails have looked at the text of a frame of the client: the frame
/// goes to the server, or the client is told that it was blocked.
pub fn client_verdict(raw: bytes::Bytes, blocked: bool) -> (r: Actions)
    ensures
        r@ == if blocked {
            send_client(seq![blocked_frame()])
        } else {
            ActionsView { to_server: seq![held(raw)], ..no_actions() }
        },
        r@ == client_outcome(held(raw), blocked),
{
    let mut r = nothing();
    if blocked {
        r.to_client.push(guardrail_blocked_ws_event_bytes());
        assert(r@ =~= send_client(seq![blocked_frame()]));
    } else {
        r.to_server.push(raw);
        assert(r@ =~= (ActionsView { to_server: seq![held(raw)], ..no_actions() }));
    }
    r
}

/// A window that the guardrails are looking at.
#[derive(Debug)]
pub struct PendingWindow {
    pub response_id: String,
    /// The frame that completes the text, where it does.
    pub done: Option<bytes::Bytes>,
}

/// A frame with text that is held back.
#[derive(Debug)]
pub struct HeldFrame {
    pub response_id: String,
    /// The text of the frame.
    pub delta: String,
    pub raw: bytes::Bytes,
}

/// Frames that are held back, and their text.
#[derive(Debug)]
pub struct HeldText {
    /// The frames, in the order in which they came.
    pub delta_hold: Vec<HeldFrame>,
    /// Their text, as far as it has not been looked at.
    pub pending_text: String,
    /// The end of the text that has been looked at.
    pub overlap_tail: String,
}

/// What is held back of a response that goes on by itself.
#[derive(Debug)]
pub struct ApartText {
    pub response_id: String,
    pub text: HeldText,
}

/// The guardrails on what the server sends.
#[derive(Debug)]
pub struct ResponseWindowGuard {
    /// What is held back, but for the responses that go on by themselves.
    pub shared: HeldText,
    /// The responses that go on by themselves. None occurs twice.
    pub apart: Vec<ApartText>,
    /// The responses whose text was blocked. None occurs twice.
    pub blocked_responses: Vec<String>,
    /// The window that the guardrails are looking at.
    pub awaiting: Option<PendingWindow>,
}

/// A window that the guardrails are looking at, as plain values.
#[verifier::ext_equal]
pub ghost struct PendingView {
    pub response_id: Seq<char>,
    pub done: Option<Seq<u8>>,
}

/// A frame with text that is held back, as plain values.
#[verifier::ext_equal]
pub ghost struct HeldView {
    pub response_id: Seq<char>,
    pub text: Seq<char>,
    pub raw: Seq<u8>,
}

impl View for HeldFrame {
    type V = HeldView;

    open spec fn view(&self) -> HeldView {
        HeldView { response_id: self.response_id@, text: self.delta@, raw: held(self.raw) }
    }
}

/// Frames that are held back, as plain values.
pub open spec fn hold_views(frames: Seq<HeldFrame>) -> Seq<HeldView> {
    frames.map_values(|f: HeldFrame| f@)
}

/// Held frames as they go to the client.
pub open spec fn raws(hold: Seq<HeldView>) -> Seq<Seq<u8>> {
    hold.map_values(|f: HeldView| f.raw)
}

/// The text of held frames.
pub open spec fn held_text(hold: Seq<HeldView>) -> Seq<char>
    decreases hold.len(),
{
    if hold.len() == 0 {
        Seq::empty()
    } else {
        held_text(hold.drop_last()) + hold.last().text
    }
}

/// Frames that are held back and their text, as plain values.
#[verifier::ext_equal]
pub ghost struct TextView {
    pub hold: Seq<HeldView>,
    pub pending: Seq<char>,
    pub tail: Seq<char>,
}

impl View for HeldText {
    type V = TextView;

    open spec fn view(&self) -> TextView {
        TextView {
            hold: hold_views(self.delta_hold@),
            pending: self.pending_text@,
            tail: self.overlap_tail@,
        }
    }
}

/// Nothing is held back.
pub open spec fn no_text() -> TextView {
    TextView { hold: Seq::empty(), pending: Seq::empty(), tail: Seq::empty() }
}

/// The guardrails on what the server sends, as plain values.
#[verifier::ext_equal]
pub ghost struct GuardView {
    pub shared: TextView,
    pub apart: Map<Seq<char>, TextView>,
    pub blocked: Set<Seq<char>>,
    pub awaiting: Option<PendingView>,
}

/// Whether a response goes on by itself.
pub open spec fn is_noted(apart: Seq<ApartText>, id: Seq<char>) -> bool {
    exists|i: int| 0 <= i < apart.len() && (#[trigger] apart[i]).response_id@ == id
}

/// What is held back of a response that goes on by itself.
pub open spec fn text_in(apart: Seq<ApartText>, id: Seq<char>) -> TextView {
    apart[choose|i: int| 0 <= i < apart.len() && (#[trigger] apart[i]).response_id@ == id].text@
}

/// The responses that go on by themselves, with what is held back of them.
pub open spec fn apart_map(apart: Seq<ApartText>) -> Map<Seq<char>, TextView> {
    Map::new(|id: Seq<char>| is_noted(apart, id), |id: Seq<char>| text_in(apart, id))
}

/// Whether no response is noted twice.
pub open spec fn distinct_apart(apart: Seq<ApartText>) -> bool {
    forall|i: int, j: int|
        0 <= i < j < apart.len() ==> (#[trigger] apart[i]).response_id@ != (
        #[trigger] apart[j]).response_id@
}

/// The texts of strings, as a set.
pub open spec fn id_set(ids: Seq<String>) -> Set<Seq<char>> {
    Set::new(|id: Seq<char>| exists|i: int| 0 <= i < ids.len() && (#[trigger] ids[i])@ == id)
}

/// Whether no string occurs twice.
pub open spec fn distinct_ids(ids: Seq<String>) -> bool {
    forall|i: int, j: int| 0 <= i < j < ids.len() ==> (#[trigger] ids[i])@ != (#[trigger] ids[j])@
}

impl View for ResponseWindowGuard {
    type V = GuardView;

    open spec fn view(&self) -> GuardView {
        GuardView {
            shared: self.shared@,
            apart: apart_map(self.apart@),
            blocked: id_set(self.blocked_responses@),
            awaiting: match self.awaiting {
                Some(w) => Some(
                    PendingView {
                        response_id: w.response_id@,
                        done: match w.done {
                            Some(raw) => Some(held(raw)),
                            None => None,
                        },
                    },
                ),
                None => None,
            },
        }
    }
}

/// Guardrails that nothing has come by.
pub open spec fn fresh_guard() -> GuardView {
    GuardView {
        shared: no_text(),
        apart: Map::empty(),
        blocked: Set::empty(),
        awaiting: None,
    }
}

/// What is held back where the text of a response goes.
pub open spec fn text_for(g: GuardView, id: Seq<char>) -> TextView {
    if g.apart.dom().contains(id) {
        g.apart[id]
    } else {
        g.shared
    }
}

/// The guardrails with `text` held back where the text of a response goes.
pub open spec fn with_text(g: GuardView, id: Seq<char>, text: TextView) -> GuardView {
    if g.apart.dom().contains(id) {
        GuardView { apart: g.apart.insert(id, text), ..g }
    } else {
        GuardView { shared: text, ..g }
    }
}

/// What is held back of a response by itself; nothing where it does not go on by itself.
pub open spec fn own_text(apart: Map<Seq<char>, TextView>, id: Seq<char>) -> TextView {
    if apart.dom().contains(id) {
        apart[id]
    } else {
        no_text()
    }
}

/// Held frames with one more, whose text has not been looked at.
pub open spec fn grown(text: TextView, f: HeldView) -> TextView {
    TextView { hold: text.hold.push(f), pending: text.pending + f.text, tail: text.tail }
}

/// The responses that go on by themselves once the response `gone` is blocked: those that `hold`
/// has frames of go on with these.
pub open spec fn set_apart(
    apart: Map<Seq<char>, TextView>,
    hold: Seq<HeldView>,
    gone: Seq<char>,
) -> Map<Seq<char>, TextView>
    decreases hold.len(),
{
    if hold.len() == 0 {
        apart
    } else {
        let f = hold.last();
        let before = set_apart(apart, hold.drop_last(), gone);
        if f.response_id == gone {
            before
        } else {
            before.insert(f.response_id, grown(own_text(before, f.response_id), f))
        }
    }
}

/// What the guardrails keep: nothing is held of a response that was blocked, and what is held of
/// a response that goes on by itself stands apart, and is of that response alone.
pub open spec fn is_orderly(g: GuardView) -> bool {
    &&& forall|i: int|
        0 <= i < g.shared.hold.len() ==> !g.blocked.contains(
            (#[trigger] g.shared.hold[i]).response_id,
        ) && !g.apart.dom().contains(g.shared.hold[i].response_id)
    &&& forall|id: Seq<char>| #[trigger] g.apart.dom().contains(id) ==> !g.blocked.contains(id)
    &&& forall|id: Seq<char>, i: int|
        g.apart.dom().contains(id) && 0 <= i < g.apart[id].hold.len() ==> (
        #[trigger] g.apart[id].hold[i]).response_id == id
}

/// What follows an event: the guardrails afterwards, what is sent, and a window to have looked at.
#[verifier::ext_equal]
pub ghost struct GuardOutcome {
    pub next: GuardView,
    pub actions: ActionsView,
    pub window: Option<Seq<char>>,
}

/// A piece of text of a response. It is dropped where the response was blocked, and otherwise
/// held; once enough text is held, it is looked at.
pub open spec fn on_delta(g: GuardView, id: Seq<char>, delta: Seq<char>, raw: Seq<u8>) -> GuardOutcome {
    if g.blocked.contains(id) {
        GuardOutcome { next: g, actions: no_actions(), window: None }
    } else {
        let t = grown(text_for(g, id), HeldView { response_id: id, text: delta, raw });
        if text_bytes(t.pending) >= DEFAULT_EVAL_THRESHOLD {
            let window = t.tail + t.pending;
            let seen = TextView {
                hold: t.hold,
                pending: Seq::empty(),
                tail: tail_text(window, OVERLAP_BYTES as nat),
            };
            GuardOutcome {
                next: GuardView {
                    awaiting: Some(PendingView { response_id: id, done: None }),
                    ..with_text(g, id, seen)
                },
                actions: no_actions(),
                window: Some(window),
            }
        } else {
            GuardOutcome { next: with_text(g, id, t), actions: no_actions(), window: None }
        }
    }
}

/// The text of a response is complete. Where the response was blocked, that is forgotten, and
/// what is held stays held; otherwise what text is left is looked at, and without any the held
/// frames go. Either way a new window begins with new text.
pub open spec fn on_done(g: GuardView, id: Seq<char>, raw: Seq<u8>) -> GuardOutcome {
    let t = text_for(g, id);
    if g.blocked.contains(id) {
        GuardOutcome {
            next: GuardView {
                shared: TextView { tail: Seq::empty(), ..g.shared },
                blocked: g.blocked.remove(id),
                ..g
            },
            actions: no_actions(),
            window: None,
        }
    } else if t.pending.len() > 0 {
        GuardOutcome {
            next: GuardView {
                awaiting: Some(PendingView { response_id: id, done: Some(raw) }),
                ..with_text(g, id, TextView { hold: t.hold, ..no_text() })
            },
            actions: no_actions(),
            window: Some(t.tail + t.pending),
        }
    } else {
        GuardOutcome {
            next: completed(with_text(g, id, no_text()), id),
            actions: send_client(raws(t.hold).push(raw)),
            window: None,
        }
    }
}

/// The guardrails once the text of a response is complete: if it went on by itself, it does so no
/// longer.
pub open spec fn completed(g: GuardView, id: Seq<char>) -> GuardView {
    GuardView { apart: g.apart.remove(id), ..g }
}

/// What follows an event of the server that came in the frame `raw`.
pub open spec fn on_event(g: GuardView, event: ServerEventView, raw: Seq<u8>) -> GuardOutcome {
    match event {
        ServerEventView::TextDelta { response_id, delta } => on_delta(g, response_id, delta, raw),
        ServerEventView::TextDone { response_id } => on_done(g, response_id, raw),
        ServerEventView::ResponseDone { usage } => GuardOutcome {
            next: g,
            actions: ActionsView {
                usage: match usage {
                    Some(u) => Some(reported(u)),
                    None => None,
                },
                ..send_client(seq![raw])
            },
            window: None,
        },
        ServerEventView::Other => GuardOutcome {
            next: g,
            actions: send_client(seq![raw]),
            window: None,
        },
    }
}

/// The event in a frame of the server. A frame that is no text of an event is none.
pub open spec fn frame_event(frame: FrameView) -> ServerEventView {
    match frame {
        FrameView::Text { payload, .. } => if vstd::utf8::valid_utf8(payload) {
            server_event_of(vstd::utf8::decode_utf8(payload))
        } else {
            ServerEventView::Other
        },
        FrameView::Other { .. } => ServerEventView::Other,
    }
}

/// What follows the verdict on the window that is being looked at. One that blocks counts against
/// the response whose frame completed the window: its held frames are discarded, and the other
/// responses that the window is of go on by themselves, with what is held of them to be looked at
/// again.
pub open spec fn on_verdict(g: GuardView, w: PendingView, blocked: bool) -> GuardOutcome {
    let id = w.response_id;
    let t = text_for(g, id);
    if blocked {
        let settled = if g.apart.dom().contains(id) {
            completed(g, id)
        } else {
            GuardView {
                shared: no_text(),
                apart: set_apart(g.apart, g.shared.hold, id),
                ..g
            }
        };
        GuardOutcome {
            next: GuardView { blocked: g.blocked.insert(id), awaiting: None, ..settled },
            actions: ActionsView {
                to_client: seq![blocked_frame()],
                to_server: seq![cancel_frame(id, seq![0u8, 0u8, 0u8, 0u8])],
                usage: None,
            },
            window: None,
        }
    } else {
        let settled = GuardView {
            awaiting: None,
            ..with_text(g, id, TextView { hold: Seq::empty(), ..t })
        };
        match w.done {
            Some(raw) => GuardOutcome {
                next: completed(settled, id),
                actions: send_client(raws(t.hold).push(raw)),
                window: None,
            },
            None => GuardOutcome {
                next: settled,
                actions: send_client(raws(t.hold)),
                window: None,
            },
        }
    }
}

fn find_id(ids: &Vec<String>, id: &str) -> (r: Option<usize>)
    ensures
        match r {
            Some(i) => i < ids@.len() && ids@[i as int]@ == id@ && id_set(ids@).contains(id@),
            None => !id_set(ids@).contains(id@),
        },
{
    let mut i: usize = 0;
    while i < ids.len()
        invariant
            i <= ids@.len(),
            forall|j: int| 0 <= j < i ==> (#[trigger] ids@[j])@ != id@,
        decreases ids.len() - i,
    {
        if str_eq(ids[i].as_str(), id) {
            assert(ids@[i as int]@ == id@);
            return Some(i);
        }
        i += 1;
    }
    None
}

proof fn lemma_remove_id(ids: Seq<String>, i: int)
    requires
        0 <= i < ids.len(),
        distinct_ids(ids),
    ensures
        id_set(ids.remove(i)) == id_set(ids).remove(ids[i]@),
        distinct_ids(ids.remove(i)),
{
    let rest = ids.remove(i);
    let gone = ids[i]@;
    assert forall|id: Seq<char>| id_set(rest).contains(id) == id_set(ids).remove(gone).contains(
        id,
    ) by {
        if id_set(rest).contains(id) {
            let j = choose|j: int| 0 <= j < rest.len() && (#[trigger] rest[j])@ == id;
            let k = if j < i {
                j
            } else {
                j + 1
            };
            assert(ids[k]@ == id);
        }
        if id_set(ids).contains(id) && id != gone {
            let j = choose|j: int| 0 <= j < ids.len() && (#[trigger] ids[j])@ == id;
            let k = if j < i {
                j
            } else {
                j - 1
            };
            assert(rest[k]@ == id);
        }
    }
    assert(id_set(rest) =~= id_set(ids).remove(gone));
}

proof fn lemma_push_id(ids: Seq<String>, id: String)
    requires
        distinct_ids(ids),
        !id_set(ids).contains(id@),
    ensures
        id_set(ids.push(id)) == id_set(ids).insert(id@),
        distinct_ids(ids.push(id)),
{
    let more = ids.push(id);
    assert forall|x: Seq<char>| id_set(more).contains(x) == id_set(ids).insert(id@).contains(x) by {
        if id_set(ids).contains(x) {
            let j = choose|j: int| 0 <= j < ids.len() && (#[trigger] ids[j])@ == x;
            assert(more[j]@ == x);
        }
        if x == id@ {
            assert(more[ids.len() as int]@ == x);
        }
        if id_set(more).contains(x) && x != id@ {
            let j = choose|j: int| 0 <= j < more.len() && (#[trigger] more[j])@ == x;
            assert(ids[j]@ == x);
        }
    }
    assert(id_set(more) =~= id_set(ids).insert(id@));
    assert forall|i: int, j: int| 0 <= i < j < more.len() implies (#[trigger] more[i])@ != (
    #[trigger] more[j])@ by {
        if j == ids.len() {
            assert(ids[i]@ != id@);
        }
    }
}

proof fn lemma_text_found(apart: Seq<ApartText>, i: int)
    requires
        0 <= i < apart.len(),
        distinct_apart(apart),
    ensures
        is_noted(apart, apart[i].response_id@),
        text_in(apart, apart[i].response_id@) == apart[i].text@,
{
    let id = apart[i].response_id@;
    let j = choose|j: int| 0 <= j < apart.len() && (#[trigger] apart[j]).response_id@ == id;
    assert(apart[i].response_id@ == id);
    assert(j == i) by {
        if j < i {
            assert(apart[j].response_id@ != apart[i].response_id@);
        } else if i < j {
            assert(apart[i].response_id@ != apart[j].response_id@);
        }
    }
}

/// Without one of its notes, a list holds the others.
proof fn lemma_text_removed(apart: Seq<ApartText>, i: int)
    requires
        0 <= i < apart.len(),
        distinct_apart(apart),
    ensures
        distinct_apart(apart.remove(i)),
        !is_noted(apart.remove(i), apart[i].response_id@),
        apart_map(apart.remove(i)) == apart_map(apart).remove(apart[i].response_id@),
{
    let rest = apart.remove(i);
    let gone = apart[i].response_id@;
    assert(!is_noted(rest, gone));
    assert forall|id: Seq<char>| id != gone implies is_noted(rest, id) == is_noted(apart, id) && (
    is_noted(apart, id) ==> text_in(rest, id) == #[trigger] text_in(apart, id)) by {
        if is_noted(apart, id) {
            let j = choose|j: int| 0 <= j < apart.len() && (#[trigger] apart[j]).response_id@ == id;
            let k = if j < i {
                j
            } else {
                j - 1
            };
            assert(rest[k] == apart[j]);
            lemma_text_found(rest, k);
            lemma_text_found(apart, j);
        }
        if is_noted(rest, id) {
            let j = choose|j: int| 0 <= j < rest.len() && (#[trigger] rest[j]).response_id@ == id;
            let k = if j < i {
                j
            } else {
                j + 1
            };
            assert(apart[k].response_id@ == id);
        }
    }
    assert forall|id: Seq<char>| #[trigger] apart_map(rest).dom().contains(id) == apart_map(
        apart,
    ).remove(gone).dom().contains(id) by {
        assert(text_in(apart, id) == text_in(apart, id));
    }
    assert(apart_map(rest) =~= apart_map(apart).remove(gone));
}

/// With one note more, a list holds that one and the others.
proof fn lemma_text_pushed(apart: Seq<ApartText>, t: ApartText)
    requires
        distinct_apart(apart),
        !is_noted(apart, t.response_id@),
    ensures
        distinct_apart(apart.push(t)),
        apart_map(apart.push(t)) == apart_map(apart).insert(t.response_id@, t.text@),
{
    let more = apart.push(t);
    let n = apart.len() as int;
    assert forall|i: int, j: int| 0 <= i < j < more.len() implies (
    #[trigger] more[i]).response_id@ != (#[trigger] more[j]).response_id@ by {
        if j == n {
            assert(apart[i].response_id@ != t.response_id@);
        }
    }
    assert forall|id: Seq<char>| id != t.response_id@ implies is_noted(more, id) == is_noted(
        apart,
        id,
    ) && (is_noted(apart, id) ==> text_in(more, id) == #[trigger] text_in(apart, id)) by {
        if is_noted(apart, id) {
            let j = choose|j: int| 0 <= j < apart.len() && (#[trigger] apart[j]).response_id@ == id;
            assert(more[j] == apart[j]);
            lemma_text_found(more, j);
            lemma_text_found(apart, j);
        }
        if is_noted(more, id) {
            let j = choose|j: int| 0 <= j < more.len() && (#[trigger] more[j]).response_id@ == id;
            assert(apart[j].response_id@ == id);
        }
    }
    assert(more[n] == t);
    lemma_text_found(more, n);
    assert forall|id: Seq<char>| #[trigger] apart_map(more).dom().contains(id) == apart_map(
        apart,
    ).insert(t.response_id@, t.text@).dom().contains(id) by {
        assert(text_in(apart, id) == text_in(apart, id));
    }
    assert(apart_map(more) =~= apart_map(apart).insert(t.response_id@, t.text@));
}

fn no_held_text() -> (r: HeldText)
    ensures
        r@ == no_text(),
{
    let r = HeldText {
        delta_hold: Vec::new(),
        pending_text: String::new(),
        overlap_tail: String::new(),
    };
    assert(r@ =~= no_text());
    r
}

/// Takes out what is held back of a response by itself, if it goes on by itself.
fn take_apart(apart: &mut Vec<ApartText>, id: &str) -> (r: Option<HeldText>)
    requires
        distinct_apart(old(apart)@),
    ensures
        distinct_apart(final(apart)@),
        !is_noted(final(apart)@, id@),
        match r {
            Some(text) => apart_map(old(apart)@).dom().contains(id@) && text@ == apart_map(
                old(apart)@,
            )[id@] && apart_map(final(apart)@) == apart_map(old(apart)@).remove(id@),
            None => !apart_map(old(apart)@).dom().contains(id@) && final(apart)@ == old(apart)@,
        },
{
    let mut i: usize = 0;
    while i < apart.len()
        invariant
            apart@ == old(apart)@,
            distinct_apart(apart@),
            i <= apart@.len(),
            forall|j: int| 0 <= j < i ==> (#[trigger] apart@[j]).response_id@ != id@,
        decreases apart.len() - i,
    {
        if str_eq(apart[i].response_id.as_str(), id) {
            proof {
                lemma_text_found(apart@, i as int);
                lemma_text_removed(apart@, i as int);
            }
            let r = apart.remove(i);
            return Some(r.text);
        }
        i += 1;
    }
    None
}

/// Lets the responses that `hold` has frames of go on by themselves, but for `gone`.
fn put_apart(apart: &mut Vec<ApartText>, hold: Vec<HeldFrame>, gone: &str)
    requires
        distinct_apart(old(apart)@),
    ensures
        distinct_apart(final(apart)@),
        apart_map(final(apart)@) == set_apart(
            apart_map(old(apart)@),
            hold_views(hold@),
            gone@,
        ),
{
    let ghost all = hold@;
    let ghost views = hold_views(all);
    let ghost start = apart_map(apart@);
    assert(views.take(0) =~= Seq::empty());
    for frame in it: hold
        invariant
            it.seq() == all,
            views == hold_views(all),
            distinct_apart(apart@),
            apart_map(apart@) == set_apart(start, views.take(it.index()), gone@),
    {
        let ghost before = apart_map(apart@);
        assert(views.take(it.index() + 1).drop_last() =~= views.take(it.index()));
        assert(views.take(it.index() + 1).last() == frame@);
        if !str_eq(frame.response_id.as_str(), gone) {
            let response_id = frame.response_id.clone();
            let mut text = match take_apart(apart, response_id.as_str()) {
                Some(text) => text,
                None => no_held_text(),
            };
            let ghost t = text@;
            let ghost f = frame@;
            text.pending_text.append(frame.delta.as_str());
            text.delta_hold.push(frame);
            assert(hold_views(text.delta_hold@) =~= t.hold.push(f));
            assert(text@ =~= grown(t, f));
            let entry = ApartText { response_id, text };
            proof {
                lemma_text_pushed(apart@, entry);
            }
            apart.push(entry);
            assert(apart_map(apart@) =~= before.insert(f.response_id, grown(t, f)));
        }
    }
    assert(views.take(views.len() as int) =~= views);
}

/// Whoever goes on by itself after a response was blocked went on so before, or is in `hold`; and
/// what is held of it is of it alone.
proof fn lemma_set_apart(
    apart: Map<Seq<char>, TextView>,
    hold: Seq<HeldView>,
    gone: Seq<char>,
    id: Seq<char>,
)
    requires
        forall|x: Seq<char>, i: int|
            apart.dom().contains(x) && 0 <= i < apart[x].hold.len() ==> (
            #[trigger] apart[x].hold[i]).response_id == x,
    ensures
        ({
            let after = set_apart(apart, hold, gone);
            &&& after.dom().contains(id) ==> apart.dom().contains(id) || (id != gone && exists|
                i: int,
            |
                0 <= i < hold.len() && (#[trigger] hold[i]).response_id == id)
            &&& after.dom().contains(id) ==> forall|i: int|
                0 <= i < after[id].hold.len() ==> (#[trigger] after[id].hold[i]).response_id == id
        }),
    decreases hold.len(),
{
    if hold.len() > 0 {
        let front = hold.drop_last();
        lemma_set_apart(apart, front, gone, id);
        let f = hold.last();
        assert(hold[hold.len() - 1] == f);
        let before = set_apart(apart, front, gone);
        if before.dom().contains(id) && !apart.dom().contains(id) {
            let i = choose|i: int| 0 <= i < front.len() && (#[trigger] front[i]).response_id == id;
            assert(hold[i].response_id == id);
        }
    }
}

/// A verdict that blocks keeps the guardrails orderly.
proof fn lemma_blocking_is_orderly(g: GuardView, w: PendingView)
    requires
        is_orderly(g),
    ensures
        is_orderly(on_verdict(g, w, true).next),
{
    let next = on_verdict(g, w, true).next;
    let id = w.response_id;
    if g.apart.dom().contains(id) {
        assert forall|i: int| 0 <= i < next.shared.hold.len() implies !next.blocked.contains(
            (#[trigger] next.shared.hold[i]).response_id,
        ) by {
            assert(g.shared.hold[i] == next.shared.hold[i]);
            assert(!g.apart.dom().contains(g.shared.hold[i].response_id));
        }
    } else {
        assert forall|x: Seq<char>| #[trigger] next.apart.dom().contains(x) implies !next.blocked.contains(
        x) by {
            lemma_set_apart(g.apart, g.shared.hold, id, x);
            if !g.apart.dom().contains(x) {
                let i = choose|i: int|
                    0 <= i < g.shared.hold.len() && (#[trigger] g.shared.hold[i]).response_id == x;
                assert(!g.blocked.contains(g.shared.hold[i].response_id));
            }
        }
        assert forall|x: Seq<char>, i: int|
            next.apart.dom().contains(x) && 0 <= i < next.apart[x].hold.len() implies (
        #[trigger] next.apart[x].hold[i]).response_id == x by {
            lemma_set_apart(g.apart, g.shared.hold, id, x);
        }
    }
}

/// Whatever happens, the guardrails stay orderly.
pub proof fn law_guard_stays_orderly(
    g: GuardView,
    event: ServerEventView,
    raw: Seq<u8>,
    w: PendingView,
    blocked: bool,
)
    requires
        is_orderly(g),
    ensures
        is_orderly(fresh_guard()),
        is_orderly(on_event(g, event, raw).next),
        is_orderly(on_verdict(g, w, blocked).next),
{
    if blocked {
        lemma_blocking_is_orderly(g, w);
    }
}

/// Held frames as they go to the client.
fn raw_frames(frames: Vec<HeldFrame>) -> (r: Vec<bytes::Bytes>)
    ensures
        frames_held(r@) == raws(hold_views(frames@)),
{
    let ghost all = frames@;
    let ghost sent = raws(hold_views(all));
    let mut out: Vec<bytes::Bytes> = Vec::new();
    assert(frames_held(out@) =~= sent.take(0));
    for frame in it: frames
        invariant
            it.seq() == all,
            sent == raws(hold_views(all)),
            frames_held(out@) == sent.take(it.index()),
    {
        let ghost before = out@;
        let ghost n = it.index();
        out.push(frame.raw);
        assert(frames_held(out@) =~= frames_held(before).push(held(frame.raw)));
        assert(sent.take(n + 1) =~= sent.take(n).push(sent[n]));
    }
    assert(sent.take(all.len() as int) =~= sent);
    out
}

/// What follows a frame of the server.
#[derive(Debug)]
pub enum ServerStep {
    /// Something is sent.
    Send(Actions),
    /// The guardrails are to look at a window; see [`ResponseWindowGuard::verdict`].
    Evaluate(String),
}

impl ResponseWindowGuard {
    /// What the guardrails keep: no response is noted twice, and [`is_orderly`].
    pub open spec fn wf(self) -> bool {
        &&& distinct_apart(self.apart@)
        &&& distinct_ids(self.blocked_responses@)
        &&& is_orderly(self@)
    }

    /// Guardrails that nothing has come by.
    pub fn new() -> (r: Self)
        ensures
            r.wf(),
            r@ == fresh_guard(),
    {
        let r = ResponseWindowGuard {
            shared: no_held_text(),
            apart: Vec::new(),
            blocked_responses: Vec::new(),
            awaiting: None,
        };
        assert(r@.apart =~= Map::empty());
        assert(r@.blocked =~= Set::empty());
        r
    }

    fn is_blocked(&self, id: &str) -> (r: bool)
        ensures
            r == self@.blocked.contains(id@),
    {
        find_id(&self.blocked_responses, id).is_some()
    }

    /// Takes out what is held back where the text of a response goes, and says whether the response
    /// goes on by itself.
    fn take_text(&mut self, id: &str) -> (r: (HeldText, bool))
        requires
            distinct_apart(old(self).apart@),
        ensures
            r.0@ == text_for(old(self)@, id@),
            r.1 == old(self)@.apart.dom().contains(id@),
            distinct_apart(final(self).apart@),
            !is_noted(final(self).apart@, id@),
            final(self)@ == (if r.1 {
                completed(old(self)@, id@)
            } else {
                GuardView { shared: no_text(), ..old(self)@ }
            }),
            final(self).blocked_responses == old(self).blocked_responses,
            final(self).awaiting == old(self).awaiting,
    {
        match take_apart(&mut self.apart, id) {
            Some(text) => (text, true),
            None => {
                let mut text = no_held_text();
                std::mem::swap(&mut self.shared, &mut text);
                (text, false)
            },
        }
    }

    /// Puts back what is held back where the text of a response goes.
    fn put_text(&mut self, response_id: String, text: HeldText, apart: bool)
        requires
            distinct_apart(old(self).apart@),
            !is_noted(old(self).apart@, response_id@),
        ensures
            distinct_apart(final(self).apart@),
            final(self)@ == (if apart {
                GuardView {
                    apart: old(self)@.apart.insert(response_id@, text@),
                    ..old(self)@
                }
            } else {
                GuardView { shared: text@, ..old(self)@ }
            }),
            final(self).blocked_responses == old(self).blocked_responses,
            final(self).awaiting == old(self).awaiting,
    {
        if apart {
            let entry = ApartText { response_id, text };
            proof {
                lemma_text_pushed(self.apart@, entry);
            }
            self.apart.push(entry);
        } else {
            self.shared = text;
        }
    }

    fn text_delta(&mut self, response_id: String, delta: String, raw: bytes::Bytes) -> (r:
        ServerStep)
        requires
            old(self).wf(),
        ensures
            final(self).wf(),
            ({
                let out = on_delta(old(self)@, response_id@, delta@, held(raw));
                &&& final(self)@ == out.next
                &&& match r {
                    ServerStep::Send(actions) => out.window is None && actions@ == out.actions,
                    ServerStep::Evaluate(window) => out.window == Some(window@),
                }
            }),
    {
        let ghost before = self@;
        let ghost out = on_delta(before, response_id@, delta@, held(raw));
        if self.is_blocked(response_id.as_str()) {
            return ServerStep::Send(nothing());
        }
        let (mut text, apart) = self.take_text(response_id.as_str());
        let ghost t = text@;
        text.pending_text.append(delta.as_str());
        let frame = HeldFrame { response_id: response_id.clone(), delta, raw };
        text.delta_hold.push(frame);
        assert(hold_views(text.delta_hold@) =~= t.hold.push(frame@));
        assert(text@ =~= grown(t, frame@));
        proof {
            law_guard_stays_orderly(
                before,
                ServerEventView::TextDelta { response_id: response_id@, delta: delta@ },
                held(raw),
                PendingView { response_id: response_id@, done: None },
                false,
            );
        }
        if byte_len(text.pending_text.as_str()) >= DEFAULT_EVAL_THRESHOLD {
            let window = text.overlap_tail.clone().concat(text.pending_text.as_str());
            text.pending_text = String::new();
            text.overlap_tail = tail_chars(window.as_str(), OVERLAP_BYTES).to_owned();
            assert(text@.pending =~= Seq::empty());
            self.put_text(response_id.clone(), text, apart);
            self.awaiting = Some(PendingWindow { response_id, done: None });
            assert(self@.apart =~= out.next.apart);
            assert(self@ =~= out.next);
            return ServerStep::Evaluate(window);
        }
        self.put_text(response_id, text, apart);
        assert(self@.apart =~= out.next.apart);
        assert(self@ =~= out.next);
        ServerStep::Send(nothing())
    }

    fn text_done(&mut self, response_id: String, raw: bytes::Bytes) -> (r: ServerStep)
        requires
            old(self).wf(),
        ensures
            final(self).wf(),
            ({
                let out = on_done(old(self)@, response_id@, held(raw));
                &&& final(self)@ == out.next
                &&& match r {
                    ServerStep::Send(actions) => out.window is None && actions@ == out.actions,
                    ServerStep::Evaluate(window) => out.window == Some(window@),
                }
            }),
    {
        let ghost before = self@;
        let ghost out = on_done(before, response_id@, held(raw));
        proof {
            law_guard_stays_orderly(
                before,
                ServerEventView::TextDone { response_id: response_id@ },
                held(raw),
                PendingView { response_id: response_id@, done: None },
                false,
            );
        }
        if let Some(i) = find_id(&self.blocked_responses, response_id.as_str()) {
            proof {
                lemma_remove_id(self.blocked_responses@, i as int);
            }
            self.blocked_responses.remove(i);
            self.shared.overlap_tail = String::new();
            assert(self@.shared.tail =~= Seq::empty());
            assert(self@ =~= out.next);
            return ServerStep::Send(nothing());
        }
        let (mut text, apart) = self.take_text(response_id.as_str());
        let ghost t = text@;
        if !text.pending_text.as_str().is_empty() {
            let window = text.overlap_tail.clone().concat(text.pending_text.as_str());
            text.pending_text = String::new();
            text.overlap_tail = String::new();
            assert(text@ =~= (TextView { hold: t.hold, ..no_text() }));
            self.put_text(response_id.clone(), text, apart);
            self.awaiting = Some(PendingWindow { response_id, done: Some(raw) });
            assert(self@.apart =~= out.next.apart);
            assert(self@ =~= out.next);
            return ServerStep::Evaluate(window);
        }
        let mut actions = nothing();
        let mut frames = raw_frames(text.delta_hold);
        let ghost sent = frames@;
        frames.push(raw);
        assert(frames_held(frames@) =~= frames_held(sent).push(held(raw)));
        actions.to_client = frames;
        assert(actions@ =~= send_client(raws(t.hold).push(held(raw))));
        assert(self@.apart =~= out.next.apart);
        assert(self@ =~= out.next);
        ServerStep::Send(actions)
    }

    /// Deals with an event of the server that came in the frame `raw`.
    pub fn server_event(&mut self, event: ServerEvent, raw: bytes::Bytes) -> (r: ServerStep)
        requires
            old(self).wf(),
        ensures
            final(self).wf(),
            ({
                let out = on_event(old(self)@, event@, held(raw));
                &&& final(self)@ == out.next
                &&& match r {
                    ServerStep::Send(actions) => out.window is None && actions@ == out.actions,
                    ServerStep::Evaluate(window) => out.window == Some(window@),
                }
            }),
    {
        match event {
            ServerEvent::TextDelta { response_id, delta } => self.text_delta(
                response_id,
                delta,
                raw,
            ),
            ServerEvent::TextDone { response_id } => self.text_done(response_id, raw),
            ServerEvent::ResponseDone { usage } => {
                let mut actions = nothing();
                actions.usage = match &usage {
                    Some(u) => Some(usage_report(u)),
                    None => None,
                };
                actions.to_client.push(raw);
                assert(actions@.to_client =~= seq![held(raw)]);
                ServerStep::Send(actions)
            },
            ServerEvent::Other => {
                let mut actions = nothing();
                actions.to_client.push(raw);
                assert(actions@.to_client =~= seq![held(raw)]);
                ServerStep::Send(actions)
            },
        }
    }

    /// Deals with a frame of the server.
    pub fn server_frame(&mut self, frame: WsCompletedFrame) -> (r: ServerStep)
        requires
            old(self).wf(),
        ensures
            final(self).wf(),
            ({
                let out = on_event(
                    old(self)@,
                    frame_event(frame@),
                    crate::websocket::frames::frame_raw(frame@),
                );
                &&& final(self)@ == out.next
                &&& match r {
                    ServerStep::Send(actions) => out.window is None && actions@ == out.actions,
                    ServerStep::Evaluate(window) => out.window == Some(window@),
                }
            }),
    {
        match frame {
            WsCompletedFrame::Text { raw, payload } => {
                let bytes = bytes_to_vec(&payload);
                let event = match utf8_text(bytes.as_slice()) {
                    Some(text) => parse_server_event(text.as_str()),
                    None => ServerEvent::Other,
                };
                self.server_event(event, raw)
            },
            WsCompletedFrame::Other { raw } => self.server_event(ServerEvent::Other, raw),
        }
    }

    /// Deals with the verdict on the window that is being looked at.
    pub fn verdict(&mut self, blocked: bool) -> (r: Actions)
        requires
            old(self).wf(),
            old(self).awaiting is Some,
        ensures
            final(self).wf(),
            ({
                let out = on_verdict(old(self)@, old(self)@.awaiting->0, blocked);
                &&& final(self)@ == out.next
                &&& r@ == out.actions
            }),
    {
        let ghost before = self@;
        let ghost out = on_verdict(before, before.awaiting->0, blocked);
        let mut actions = nothing();
        if let Some(w) = self.awaiting.take() {
            let PendingWindow { response_id, done } = w;
            let (mut text, apart) = self.take_text(response_id.as_str());
            let ghost t = text@;
            proof {
                law_guard_stays_orderly(
                    before,
                    ServerEventView::Other,
                    Seq::empty(),
                    before.awaiting->0,
                    blocked,
                );
            }
            if blocked {
                if !apart {
                    put_apart(&mut self.apart, text.delta_hold, response_id.as_str());
                }
                assert(self@.shared == out.next.shared);
                assert(self@.apart =~= out.next.apart);
                actions.to_client.push(guardrail_blocked_ws_event_bytes());
                actions.to_server.push(
                    response_cancel_event_bytes(response_id.as_str(), [0u8, 0u8, 0u8, 0u8]),
                );
                assert(actions@.to_client =~= seq![blocked_frame()]);
                assert([0u8, 0u8, 0u8, 0u8]@ =~= seq![0u8, 0u8, 0u8, 0u8]);
                assert(actions@.to_server =~= seq![
                    cancel_frame(response_id@, seq![0u8, 0u8, 0u8, 0u8]),
                ]);
                if !self.is_blocked(response_id.as_str()) {
                    proof {
                        lemma_push_id(self.blocked_responses@, response_id);
                    }
                    self.blocked_responses.push(response_id);
                } else {
                    assert(before.blocked.insert(response_id@) =~= before.blocked);
                }
                assert(self@ =~= out.next);
            } else {
                let mut hold: Vec<HeldFrame> = Vec::new();
                std::mem::swap(&mut text.delta_hold, &mut hold);
                assert(text@ =~= (TextView { hold: Seq::empty(), ..t }));
                let mut frames = raw_frames(hold);
                let ghost sent = frames@;
                match done {
                    Some(raw) => {
                        frames.push(raw);
                        assert(frames_held(frames@) =~= frames_held(sent).push(held(raw)));
                        if !apart {
                            self.shared = text;
                        }
                    },
                    None => {
                        self.put_text(response_id, text, apart);
                    },
                }
                actions.to_client = frames;
                assert(self@.apart =~= out.next.apart);
                assert(self@ =~= out.next);
            }
        }
        actions
    }
}

/// A response that was blocked stays silent: its pieces of text go nowhere, and nothing else
/// changes.
pub proof fn law_blocked_response_is_silent(
    g: GuardView,
    id: Seq<char>,
    delta: Seq<char>,
    raw: Seq<u8>,
)
    requires
        g.blocked.contains(id),
    ensures
        on_delta(g, id, delta, raw) == (GuardOutcome {
            next: g,
            actions: no_actions(),
            window: None,
        }),
{
}

/// A window that is blocked sends nothing that was held: the client gets the error event and
/// nothing else, the server is told to cancel that response and nothing else, and nothing of that
/// response stays held.
pub proof fn law_blocked_text_is_discarded(g: GuardView, w: PendingView)
    requires
        is_orderly(g),
    ensures
        on_verdict(g, w, true).actions.to_client == seq![blocked_frame()],
        on_verdict(g, w, true).actions.to_server == seq![
            cancel_frame(w.response_id, seq![0u8, 0u8, 0u8, 0u8]),
        ],
        on_verdict(g, w, true).next.blocked.contains(w.response_id),
        !on_verdict(g, w, true).next.apart.dom().contains(w.response_id),
        forall|i: int|
            0 <= i < on_verdict(g, w, true).next.shared.hold.len() ==> (#[trigger] on_verdict(
                g,
                w,
                true,
            ).next.shared.hold[i]).response_id != w.response_id,
{
    lemma_blocking_is_orderly(g, w);
    let next = on_verdict(g, w, true).next;
    assert forall|i: int| 0 <= i < next.shared.hold.len() implies (
    #[trigger] next.shared.hold[i]).response_id != w.response_id by {
        assert(!next.blocked.contains(next.shared.hold[i].response_id));
    }
}

/// Text goes to the client only after it was looked at, in the order in which it came: a piece of
/// text is never sent at once, and a window that passes sends exactly what was held for it.
pub proof fn law_text_waits_for_its_window(
    g: GuardView,
    id: Seq<char>,
    delta: Seq<char>,
    raw: Seq<u8>,
    w: PendingView,
)
    ensures
        on_delta(g, id, delta, raw).actions == no_actions(),
        w.done is None ==> on_verdict(g, w, false).actions.to_client == raws(
            text_for(g, w.response_id).hold,
        ),
        w.done matches Some(last) ==> on_verdict(g, w, false).actions.to_client == raws(
            text_for(g, w.response_id).hold,
        ).push(last),
{
}

/// Everything that is no text of a response passes at once and changes nothing.
pub proof fn law_other_frames_pass(g: GuardView, event: ServerEventView, raw: Seq<u8>)
    requires
        event is Other || event is ResponseDone,
    ensures
        on_event(g, event, raw).next == g,
        on_event(g, event, raw).actions.to_client == seq![raw],
        on_event(g, event, raw).actions.to_server.len() == 0,
        on_event(g, event, raw).window is None,
{
}

/// A frame of the client that is blocked does not reach the server, and the client is told so; one
/// that passes reaches the server as it came, and the client is told nothing.
pub proof fn law_blocked_input_stays_here(raw: Seq<u8>)
    ensures
        client_outcome(raw, true).to_server.len() == 0,
        client_outcome(raw, true).to_client == seq![blocked_frame()],
        client_outcome(raw, false).to_server == seq![raw],
        client_outcome(raw, false).to_client.len() == 0,
        client_outcome(raw, true).usage is None && client_outcome(raw, false).usage is None,
{
}

} // verus!
