//! Reading the token usage of realtime responses off a stream that passes by.

use vstd::prelude::*;

#[allow(unused_imports)]
use crate::byte_buffers::{
    buffer_extend, buffer_freeze, buffer_len, buffer_new, buffer_split, held, held_mut,
};
use crate::text::{text_contains, utf8_text};
#[allow(unused_imports)]
use crate::text::contains_text;
#[allow(unused_imports)]
use crate::websocket::frames::{
    add_data, decoder_new, decoder_state, decoder_step, frame_complete, frame_size, fresh_decoder,
    head_complete, head_size, is_fin, lemma_head_prefix, lemma_text_header, masked_from,
    message_after, noted, original_opcode, payload_length, text_frame, text_header, DecoderState,
    WsEvent, MAX_DECODE_BYTES, OPCODE_CONTINUATION, OPCODE_TEXT,
};

verus! {

/// Gathers the text messages of a stream that passes by, up to a limit.
#[derive(Debug)]
pub struct Parser {
    pub decoder: websocket_sans_io::WebsocketFrameDecoder,
    /// The payload of the text message that is coming in, as it is on the wire.
    pub buf: bytes::BytesMut,
    /// How long a text message may be.
    pub buffer_limit: usize,
    /// Whether a text message was longer. The stream is then no longer looked at.
    pub disabled: bool,
}

/// What a parser has gathered.
#[verifier::ext_equal]
pub ghost struct ParserView {
    pub state: DecoderState,
    pub buf: Seq<u8>,
    pub disabled: bool,
    /// The text messages that are complete.
    pub messages: Seq<Seq<u8>>,
}

/// A parser that has been disabled.
pub open spec fn switched_off(p: ParserView) -> ParserView {
    ParserView { buf: Seq::empty(), disabled: true, ..p }
}

/// Whether the payload of the current frame is complete.
pub open spec fn frame_ended(state: DecoderState) -> bool {
    head_complete(state.head) && state.done >= payload_length(state.head)
}

/// Whether the current frame belongs to a text message.
pub open spec fn in_text(state: DecoderState) -> bool {
    original_opcode(state.head, state.message) == OPCODE_TEXT
}

/// Ends the current frame, if it is complete. The last frame of a text message completes the
/// message.
pub open spec fn settled(p: ParserView) -> ParserView {
    if p.disabled || !frame_ended(p.state) {
        p
    } else {
        let state = fresh_decoder(message_after(p.state.head, p.state.message));
        if in_text(p.state) && is_fin(p.state.head) {
            ParserView { state, buf: Seq::empty(), messages: p.messages.push(p.buf), ..p }
        } else {
            ParserView { state, ..p }
        }
    }
}

/// What a byte of the stream does.
pub open spec fn parse_byte(p: ParserView, limit: nat, b: u8) -> ParserView {
    if p.disabled {
        p
    } else {
        let step = decoder_step(p.state, seq![b]);
        match step.event {
            WsEvent::PayloadChunk { text: true } => if p.buf.len() + 1 > limit {
                switched_off(p)
            } else {
                settled(ParserView { state: step.next, buf: p.buf.push(b), ..p })
            },
            _ => settled(ParserView { state: step.next, ..p }),
        }
    }
}

/// What bytes of the stream do.
pub open spec fn parse_bytes(p: ParserView, limit: nat, data: Seq<u8>) -> ParserView
    decreases data.len(),
{
    if data.len() == 0 {
        p
    } else {
        parse_byte(parse_bytes(p, limit, data.drop_last()), limit, data.last())
    }
}

/// A stream may come in pieces: what two of them do, one after the other, is what both do
/// together.
pub proof fn law_pieces_do_not_matter(p: ParserView, limit: nat, a: Seq<u8>, b: Seq<u8>)
    ensures
        parse_bytes(p, limit, a + b) == parse_bytes(parse_bytes(p, limit, a), limit, b),
    decreases b.len(),
{
    if b.len() == 0 {
        assert(a + b =~= a);
    } else {
        law_pieces_do_not_matter(p, limit, a, b.drop_last());
        assert((a + b).drop_last() =~= a + b.drop_last());
        assert((a + b).last() == b.last());
    }
}

/// A parser that has been disabled stays so, and gathers nothing more.
pub proof fn law_disabled_stays_disabled(p: ParserView, limit: nat, data: Seq<u8>)
    requires
        p.disabled,
    ensures
        parse_bytes(p, limit, data) == p,
    decreases data.len(),
{
    if data.len() > 0 {
        law_disabled_stays_disabled(p, limit, data.drop_last());
    }
}

/// A decoder that has taken `k` more bytes of a header.
spec fn with_head(p: ParserView, data: Seq<u8>, k: int) -> ParserView {
    let head = p.state.head + data.take(k);
    ParserView {
        state: DecoderState { message: noted(p.state.message, head), head, done: p.state.done },
        ..p
    }
}

proof fn lemma_head_bytes(p: ParserView, limit: nat, data: Seq<u8>, k: int)
    requires
        !p.disabled,
        p.state.done == 0,
        p.state.message == noted(p.state.message, p.state.head),
        0 <= k <= data.len(),
        !head_complete(p.state.head),
        forall|j: int|
            0 <= j < k ==> !head_complete(p.state.head + #[trigger] data.take(j)),
    ensures
        parse_bytes(p, limit, data.take(k)) == settled(with_head(p, data, k)),
    decreases k,
{
    if k == 0 {
        assert(data.take(0) =~= Seq::empty());
        assert(p.state.head + data.take(0) =~= p.state.head);
    } else {
        assert forall|j: int| 0 <= j < k - 1 implies !head_complete(
            p.state.head + #[trigger] data.take(j),
        ) by {}
        lemma_head_bytes(p, limit, data, k - 1);
        let q = with_head(p, data, k - 1);
        let b = data[k - 1];
        assert(data.take(k).drop_last() =~= data.take(k - 1));
        assert(!head_complete(q.state.head));
        assert(settled(q) == q);
        reveal(decoder_step);
        let all = q.state.head + seq![b];
        assert(all =~= p.state.head + data.take(k));
        if q.state.head.len() >= 2 {
            lemma_head_prefix(q.state.head, seq![b]);
        }
        assert(seq![b].take(1) =~= seq![b]);
        let step = decoder_step(q.state, seq![b]);
        assert(step.consumed == 1);
        assert(step.next.head == all);
        assert(step.next.message == noted(p.state.message, all));
    }
}

/// A decoder that has taken `k` more bytes of payload.
spec fn with_payload(p: ParserView, data: Seq<u8>, k: int) -> ParserView {
    ParserView {
        state: DecoderState { done: (p.state.done + k) as nat, ..p.state },
        buf: if in_text(p.state) {
            p.buf + data.take(k)
        } else {
            p.buf
        },
        ..p
    }
}

proof fn lemma_payload_bytes(p: ParserView, limit: nat, data: Seq<u8>, k: int)
    requires
        !p.disabled,
        0 <= k <= data.len(),
        head_complete(p.state.head),
        p.state.done < payload_length(p.state.head),
        p.state.done + k <= payload_length(p.state.head),
        in_text(p.state) ==> p.buf.len() + k <= limit,
    ensures
        parse_bytes(p, limit, data.take(k)) == settled(with_payload(p, data, k)),
    decreases k,
{
    if k == 0 {
        assert(data.take(0) =~= Seq::empty());
        assert(p.buf + data.take(0) =~= p.buf);
    } else {
        lemma_payload_bytes(p, limit, data, k - 1);
        let q = with_payload(p, data, k - 1);
        let b = data[k - 1];
        assert(data.take(k).drop_last() =~= data.take(k - 1));
        assert(settled(q) == q);
        reveal(decoder_step);
        let step = decoder_step(q.state, seq![b]);
        assert(step.consumed == 1);
        assert(q.buf.push(b) =~= q.buf + seq![b]);
        assert((p.buf + data.take(k - 1)).push(b) =~= p.buf + data.take(k));
    }
}

proof fn lemma_over_limit(p: ParserView, limit: nat, data: Seq<u8>, k: int)
    requires
        !p.disabled,
        0 < k <= data.len(),
        head_complete(p.state.head),
        p.state.done + k <= payload_length(p.state.head),
        in_text(p.state),
        p.buf.len() <= limit,
        p.buf.len() + k > limit,
    ensures
        parse_bytes(p, limit, data.take(k)).disabled,
        parse_bytes(p, limit, data.take(k)).buf == Seq::<u8>::empty(),
        parse_bytes(p, limit, data.take(k)).messages == p.messages,
{
    let j = limit - p.buf.len();
    lemma_payload_bytes(p, limit, data, j);
    let q = with_payload(p, data, j);
    let b = data[j];
    reveal(decoder_step);
    assert(settled(q) == q);
    assert(decoder_step(q.state, seq![b]).event == (WsEvent::PayloadChunk { text: true }));
    let off = switched_off(q);
    assert(data.take(j + 1).drop_last() =~= data.take(j));
    assert(parse_bytes(p, limit, data.take(j + 1)) == off);
    law_disabled_stays_disabled(off, limit, data.subrange(j + 1, k));
    law_pieces_do_not_matter(p, limit, data.take(j + 1), data.subrange(j + 1, k));
    assert(data.take(j + 1) + data.subrange(j + 1, k) =~= data.take(k));
}

impl Parser {
    /// What has been gathered, with `messages` handed out.
    pub open spec fn gathered(self, messages: Seq<Seq<u8>>) -> ParserView {
        ParserView {
            state: decoder_state(self.decoder),
            buf: held_mut(self.buf),
            disabled: self.disabled,
            messages,
        }
    }

    /// What every parser keeps between two pieces of the stream: it holds no more than it may,
    /// and no frame is complete.
    pub open spec fn wf(self) -> bool {
        let state = decoder_state(self.decoder);
        &&& held_mut(self.buf).len() <= self.buffer_limit
        &&& !self.disabled ==> !frame_ended(state) && reachable(state)
    }

    /// A parser that nothing has come by.
    pub fn new(buffer_limit: usize) -> (r: Self)
        ensures
            r.wf(),
            r.gathered(Seq::empty()) == (ParserView {
                state: fresh_decoder(OPCODE_CONTINUATION),
                buf: Seq::empty(),
                disabled: false,
                messages: Seq::empty(),
            }),
            r.buffer_limit == buffer_limit,
    {
        Parser { decoder: decoder_new(), buf: buffer_new(), buffer_limit, disabled: false }
    }

    /// Gathers payload of a text message. Where it is more than may be gathered, all of it is
    /// dropped, and the parser is disabled.
    pub fn record_text_payload(&mut self, data: &[u8]) -> (r: bool)
        ensures
            r == (held_mut(old(self).buf).len() + data@.len() <= old(self).buffer_limit),
            held_mut(final(self).buf) == if r {
                held_mut(old(self).buf) + data@
            } else {
                Seq::empty()
            },
            final(self).disabled == (old(self).disabled || !r),
            final(self).decoder == old(self).decoder,
            final(self).buffer_limit == old(self).buffer_limit,
    {
        if data.len() > self.buffer_limit || buffer_len(&self.buf) > self.buffer_limit
            - data.len() {
            self.buf = buffer_new();
            self.disabled = true;
            return false;
        }
        buffer_extend(&mut self.buf, data);
        true
    }

    /// Looks at a piece of the stream that passes by; hands out the text messages that it
    /// completes.
    pub fn observe(&mut self, data: &[u8]) -> (r: Vec<bytes::Bytes>)
        requires
            old(self).wf(),
        ensures
            final(self).wf(),
            final(self).buffer_limit == old(self).buffer_limit,
            ({
                let seen = parse_bytes(
                    old(self).gathered(Seq::empty()),
                    old(self).buffer_limit as nat,
                    data@,
                );
                &&& r@.map_values(|m: bytes::Bytes| held(m)) == seen.messages
                &&& final(self).disabled == seen.disabled
                &&& held_mut(final(self).buf) == seen.buf
                &&& !seen.disabled ==> decoder_state(final(self).decoder) == seen.state
            }),
    {
        let mut out: Vec<bytes::Bytes> = Vec::new();
        let ghost p0 = self.gathered(Seq::empty());
        let ghost limit = self.buffer_limit as nat;
        assert(out@.map_values(|m: bytes::Bytes| held(m)) =~= Seq::empty());
        if self.disabled {
            proof {
                law_disabled_stays_disabled(p0, limit, data@);
            }
            return out;
        }
        let total: usize = data.len();
        let mut offset: usize = 0;
        assert(data@.take(0) =~= Seq::empty());
        loop
            invariant
                offset <= total,
                total == data@.len(),
                !self.disabled,
                limit == self.buffer_limit,
                self.buffer_limit == old(self).buffer_limit,
                held_mut(self.buf).len() <= limit,
                reachable(decoder_state(self.decoder)),
                settled(
                    self.gathered(out@.map_values(|m: bytes::Bytes| held(m))),
                ) == parse_bytes(p0, limit, data@.take(offset as int)),
                p0 == old(self).gathered(Seq::empty()),
            decreases
                data@.len() - offset,
                if frame_ended(decoder_state(self.decoder)) { 1nat } else { 0nat },
        {
            let ghost state = decoder_state(self.decoder);
            let ghost messages = out@.map_values(|m: bytes::Bytes| held(m));
            let ghost p = self.gathered(messages);
            let ghost rest = data@.skip(offset as int);
            let mut copy = piece(data, offset, MAX_DECODE_BYTES);
            let ghost given = copy@;
            let raw = piece(data, offset, MAX_DECODE_BYTES);
            let (consumed, event) = add_data(&mut self.decoder, &mut copy);
            let ghost step = decoder_step(state, given);
            proof {
                lemma_observe_step(p, limit, rest, given);
                law_pieces_do_not_matter(
                    p0,
                    limit,
                    data@.take(offset as int),
                    rest.take(consumed as int),
                );
                assert(data@.take(offset as int) + rest.take(consumed as int) =~= data@.take(
                    offset + consumed,
                ));
            }
            let nothing = match event {
                WsEvent::Nothing => true,
                _ => false,
            };
            if consumed == 0 && nothing {
                assert(data@.take(offset as int) =~= data@);
                return out;
            }
            offset = offset + consumed;
            match event {
                WsEvent::PayloadChunk { text: true } => {
                    let chunk = piece(raw.as_slice(), 0, consumed);
                    assert(chunk@ =~= rest.take(consumed as int));
                    if !self.record_text_payload(chunk.as_slice()) {
                        proof {
                            law_disabled_stays_disabled(
                                parse_bytes(p0, limit, data@.take(offset as int)),
                                limit,
                                data@.skip(offset as int),
                            );
                            law_pieces_do_not_matter(
                                p0,
                                limit,
                                data@.take(offset as int),
                                data@.skip(offset as int),
                            );
                            assert(data@.take(offset as int) + data@.skip(offset as int) =~= data@);
                        }
                        return out;
                    }
                },
                WsEvent::End { text: true, fin: true } => {
                    let message = buffer_freeze(buffer_split(&mut self.buf));
                    assert(out@.push(message).map_values(|m: bytes::Bytes| held(m))
                        =~= messages.push(held(message)));
                    out.push(message);
                },
                _ => {},
            }
        }
    }
}

/// What every state of a decoder keeps: the opcode of the current frame is noted, and payload
/// comes after the header.
pub open spec fn reachable(state: DecoderState) -> bool {
    &&& state.message == noted(state.message, state.head)
    &&& !head_complete(state.head) ==> state.done == 0
}

/// What one step of the decoder does to what has been gathered.
proof fn lemma_observe_step(p: ParserView, limit: nat, rest: Seq<u8>, given: Seq<u8>)
    requires
        !p.disabled,
        reachable(p.state),
        p.buf.len() <= limit,
        given.len() <= rest.len(),
        given == rest.take(given.len() as int),
        given.len() == 0 ==> rest.len() == 0,
    ensures
        ({
            let step = decoder_step(p.state, given);
            let taken = rest.take(step.consumed as int);
            let text_chunk = step.event == (WsEvent::PayloadChunk { text: true });
            &&& step.consumed <= given.len()
            &&& reachable(step.next)
            &&& step.event is End ==> frame_ended(p.state) && step.consumed == 0
                && !frame_ended(step.next) && step.event == (WsEvent::End {
                text: in_text(p.state),
                fin: is_fin(p.state.head),
            }) && step.next == fresh_decoder(message_after(p.state.head, p.state.message))
            &&& step.event !is End ==> {
                &&& !frame_ended(p.state)
                &&& step.consumed == 0 ==> rest.len() == 0 && step.event is Nothing && step.next
                    == p.state
                &&& !text_chunk ==> parse_bytes(settled(p), limit, taken) == settled(
                    ParserView { state: step.next, ..p },
                )
                &&& text_chunk && p.buf.len() + step.consumed <= limit ==> parse_bytes(
                    settled(p),
                    limit,
                    taken,
                ) == settled(ParserView { state: step.next, buf: p.buf + taken, ..p })
                &&& text_chunk && p.buf.len() + step.consumed > limit ==> parse_bytes(
                    settled(p),
                    limit,
                    taken,
                ).disabled && parse_bytes(settled(p), limit, taken).buf == Seq::<u8>::empty()
                    && parse_bytes(settled(p), limit, taken).messages == p.messages
            }
        }),
{
    reveal(decoder_step);
    let step = decoder_step(p.state, given);
    let head = p.state.head;
    if !head_complete(head) {
        let all = head + given;
        if head_complete(all) {
            if head.len() >= 2 {
                lemma_head_prefix(head, given);
            }
            assert(step.consumed <= given.len());
        }
        let k = step.consumed as int;
        assert(rest.take(k) =~= given.take(k));
        assert forall|j: int| 0 <= j < k implies !head_complete(head + #[trigger] rest.take(j)) by {
            let part = head + rest.take(j);
            assert(part + given.skip(j) =~= all);
            if part.len() >= 2 {
                lemma_head_prefix(part, given.skip(j));
            }
        }
        lemma_head_bytes(p, limit, rest, k);
        if k == 0 {
            assert(head + rest.take(0) =~= head);
        }
    } else if !frame_ended(p.state) {
        let k = step.consumed as int;
        if step.event is PayloadChunk {
            if in_text(p.state) && p.buf.len() + k > limit {
                lemma_over_limit(p, limit, rest, k);
            } else {
                lemma_payload_bytes(p, limit, rest, k);
            }
        } else {
            assert(rest.take(0) =~= Seq::empty());
        }
    }
}

/// At most `n` bytes of `data`, from `from` on.
fn piece(data: &[u8], from: usize, n: usize) -> (r: Vec<u8>)
    requires
        from <= data@.len(),
    ensures
        r@ == data@.skip(from as int).take(
            if data@.len() - from < n { data@.len() - from } else { n as int },
        ),
{
    let end: usize = if data.len() - from < n {
        data.len()
    } else {
        from + n
    };
    let mut out: Vec<u8> = Vec::new();
    let mut i: usize = from;
    while i < end
        invariant
            from <= i <= end <= data@.len(),
            out@ == data@.subrange(from as int, i as int),
        decreases end - i,
    {
        out.push(data[i]);
        i += 1;
        assert(data@.subrange(from as int, i as int) =~= data@.subrange(from as int, i - 1).push(
            data@[i - 1],
        ));
    }
    assert(out@ =~= data@.skip(from as int).take(end - from));
    out
}

/// Whether a text message is UTF-8 and speaks of a response that is done.
pub open spec fn speaks_of_done(data: Seq<u8>) -> bool {
    vstd::utf8::valid_utf8(data) && contains_text(vstd::utf8::decode_utf8(data), "response.done"@)
}

/// Whether a text message may report usage: it is UTF-8 and speaks of a response that is done.
pub fn mentions_response_done(data: &[u8]) -> (r: bool)
    ensures
        r == speaks_of_done(data@),
{
    match utf8_text(data) {
        Some(text) => text_contains(text.as_str(), "response.done"),
        None => false,
    }
}

/// The token usage of a realtime response.
#[derive(Debug, Clone, Copy, PartialEq, Eq, Structural)]
pub struct RealtimeUsage {
    pub input_tokens: u32,
    pub output_tokens: u32,
    pub total_tokens: u32,
    pub cached_tokens: Option<u32>,
}

/// The token usage that is logged. What a realtime response does not report is left out.
#[derive(Debug, Clone, Copy, PartialEq, Eq, Structural)]
pub struct LLMResponse {
    pub input_tokens: Option<u64>,
    pub output_tokens: Option<u64>,
    pub total_tokens: Option<u64>,
    pub cached_input_tokens: Option<u64>,
}

/// The token usage to log for a realtime response.
pub open spec fn reported(usage: RealtimeUsage) -> LLMResponse {
    LLMResponse {
        input_tokens: Some(usage.input_tokens as u64),
        output_tokens: Some(usage.output_tokens as u64),
        total_tokens: Some(usage.total_tokens as u64),
        cached_input_tokens: match usage.cached_tokens {
            Some(n) => Some(n as u64),
            None => None,
        },
    }
}

/// The token usage to log for a realtime response.
pub fn usage_report(usage: &RealtimeUsage) -> (r: LLMResponse)
    ensures
        r == reported(*usage),
{
    LLMResponse {
        input_tokens: Some(usage.input_tokens as u64),
        output_tokens: Some(usage.output_tokens as u64),
        total_tokens: Some(usage.total_tokens as u64),
        cached_input_tokens: match usage.cached_tokens {
            Some(n) => Some(n as u64),
            None => None,
        },
    }
}

/// An event that says that a response is done.
#[derive(Debug, Clone, Copy, PartialEq, Eq, Structural)]
pub struct ResponseDoneEvent {
    pub response: ResponseResource,
}

/// A response that is done.
#[derive(Debug, Clone, Copy, PartialEq, Eq, Structural)]
pub struct ResponseResource {
    pub usage: Option<RealtimeUsage>,
}

/// The token usage to log for a text message, given the event that it can be read as, if it can:
/// that of a message that speaks of a response that is done, and reports usage.
pub fn emit(data: &[u8], event: Option<ResponseDoneEvent>) -> (r: Option<LLMResponse>)
    ensures
        r == (if speaks_of_done(data@) {
            match event {
                Some(ResponseDoneEvent { response: ResponseResource { usage: Some(usage) } }) => Some(
                    reported(usage),
                ),
                _ => None,
            }
        } else {
            None
        }),
        r == usage_to_log(data@, event),
{
    if !mentions_response_done(data) {
        return None;
    }
    match event {
        Some(ResponseDoneEvent { response: ResponseResource { usage: Some(usage) } }) => Some(
            usage_report(&usage),
        ),
        _ => None,
    }
}

/// What a whole frame does to a parser that stands between two frames.
proof fn lemma_whole_frame(p: ParserView, limit: nat, s: Seq<u8>, message: u8)
    requires
        !p.disabled,
        p.state == fresh_decoder(message),
        frame_complete(s),
        s.len() == frame_size(s),
        original_opcode(s, message) == OPCODE_TEXT ==> p.buf.len() + payload_length(s) <= limit,
    ensures
        ({
            let q = parse_bytes(p, limit, s);
            let text = original_opcode(s, message) == OPCODE_TEXT;
            let buf = if text {
                p.buf + s.skip(head_size(s) as int)
            } else {
                p.buf
            };
            &&& !q.disabled
            &&& q.state == fresh_decoder(message_after(s, message))
            &&& q.messages == if text && is_fin(s) {
                p.messages.push(buf)
            } else {
                p.messages
            }
            &&& q.buf == if text && is_fin(s) {
                Seq::empty()
            } else {
                buf
            }
        }),
{
    let k = head_size(s) as int;
    let head = s.take(k);
    let payload = s.skip(k);
    assert(s =~= head + payload);
    assert forall|j: int| 0 <= j < k implies !head_complete(p.state.head + #[trigger] s.take(j)) by {
        assert(p.state.head + s.take(j) =~= s.take(j));
        assert(s =~= s.take(j) + s.skip(j));
        lemma_head_prefix(s.take(j), s.skip(j));
    }
    lemma_head_bytes(p, limit, s, k);
    assert(p.state.head + head =~= head);
    lemma_head_prefix(head, payload);
    assert(head[0] == s[0] && head[1] == s[1]);
    let mid = with_head(p, s, k);
    law_pieces_do_not_matter(p, limit, head, payload);
    assert(head_complete(mid.state.head));
    if payload_length(s) == 0 {
        assert(payload =~= Seq::empty());
        assert(p.buf + payload =~= p.buf);
    } else {
        assert(settled(mid) == mid);
        lemma_payload_bytes(mid, limit, payload, payload.len() as int);
        assert(payload.take(payload.len() as int) =~= payload);
    }
}

/// A text message in one frame is handed out as it is on the wire, masked or not, and the parser
/// is ready for the next one.
pub proof fn law_text_messages_are_gathered(
    p: ParserView,
    limit: nat,
    payload: Seq<u8>,
    mask: Option<Seq<u8>>,
)
    requires
        !p.disabled,
        p.state == fresh_decoder(OPCODE_CONTINUATION),
        p.buf.len() == 0,
        payload.len() <= u64::MAX,
        payload.len() <= limit,
        mask matches Some(key) ==> key.len() == 4,
    ensures
        ({
            let q = parse_bytes(p, limit, text_frame(payload, mask));
            &&& q.messages == p.messages + seq![
                match mask {
                    Some(key) => masked_from(payload, key, 0),
                    None => payload,
                },
            ]
            &&& q.buf.len() == 0 && !q.disabled && q.state == p.state
        }),
{
    let s = text_frame(payload, mask);
    let header = text_header(payload.len(), mask);
    lemma_text_header(payload.len(), mask);
    let wire = s.skip(header.len() as int);
    assert(s =~= header + wire);
    lemma_head_prefix(header, wire);
    assert(wire =~= match mask {
        Some(key) => masked_from(payload, key, 0),
        None => payload,
    });
    lemma_whole_frame(p, limit, s, OPCODE_CONTINUATION);
    assert(p.buf + wire =~= wire);
    assert(p.messages.push(wire) =~= p.messages + seq![wire]);
}

/// A text message in several frames is handed out whole, when its last frame is there: a frame
/// that opens a text message, any frames that continue it, and one that continues it and is the
/// last add up. A frame of another kind adds nothing and hands nothing out.
pub proof fn law_fragments_add_up(p: ParserView, limit: nat, s: Seq<u8>, message: u8)
    requires
        !p.disabled,
        p.state == fresh_decoder(message),
        frame_complete(s),
        s.len() == frame_size(s),
        p.buf.len() + payload_length(s) <= limit,
    ensures
        ({
            let q = parse_bytes(p, limit, s);
            let kind = s[0] % 16;
            let last = s[0] >= 128;
            let payload = s.skip(head_size(s) as int);
            let text = kind == 1 || kind == 0 && message == 1;
            &&& text && !last ==> q.buf == p.buf + payload && q.messages == p.messages && q.state
                == fresh_decoder(1)
            &&& text && last ==> q.buf.len() == 0 && q.messages == p.messages + seq![
                p.buf + payload,
            ] && q.state == fresh_decoder(0)
            &&& !text ==> q.buf == p.buf && q.messages == p.messages
            &&& kind >= 8 ==> q.state == p.state
            &&& !q.disabled
        }),
{
    lemma_whole_frame(p, limit, s, message);
    let payload = s.skip(head_size(s) as int);
    assert(p.messages.push(p.buf + payload) =~= p.messages + seq![p.buf + payload]);
}

/// A text message that is longer than the limit is dropped, and with it all that comes later: the
/// parser is disabled, holds nothing and hands nothing out.
pub proof fn law_long_messages_disable_the_parser(
    p: ParserView,
    limit: nat,
    payload: Seq<u8>,
    mask: Option<Seq<u8>>,
    rest: Seq<u8>,
)
    requires
        !p.disabled,
        p.state == fresh_decoder(OPCODE_CONTINUATION),
        p.buf.len() == 0,
        limit < payload.len() <= u64::MAX,
        mask matches Some(key) ==> key.len() == 4,
    ensures
        ({
            let q = parse_bytes(p, limit, text_frame(payload, mask) + rest);
            q.disabled && q.buf.len() == 0 && q.messages == p.messages
        }),
{
    let s = text_frame(payload, mask);
    let head = text_header(payload.len(), mask);
    let k = head.len() as int;
    lemma_text_header(payload.len(), mask);
    let wire = s.skip(k);
    assert(s =~= head + wire);
    assert(s.take(k) =~= head);
    lemma_head_prefix(head, wire);
    assert forall|j: int| 0 <= j < k implies !head_complete(p.state.head + #[trigger] s.take(j)) by {
        assert(p.state.head + s.take(j) =~= s.take(j));
        assert(s =~= s.take(j) + s.skip(j));
        lemma_head_prefix(s.take(j), s.skip(j));
    }
    lemma_head_bytes(p, limit, s, k);
    assert(p.state.head + head =~= head);
    let mid = with_head(p, s, k);
    assert(settled(mid) == mid);
    law_pieces_do_not_matter(p, limit, head, wire);
    assert(wire.len() == payload.len());
    lemma_over_limit(mid, limit, wire, wire.len() as int);
    assert(wire.take(wire.len() as int) =~= wire);
    law_pieces_do_not_matter(p, limit, s, rest);
    law_disabled_stays_disabled(parse_bytes(p, limit, s), limit, rest);
}

/// The usage that is reported is the usage that was read, number for number; cached tokens that
/// were not given are not reported.
pub proof fn law_usage_is_reported_as_it_is(usage: RealtimeUsage)
    ensures
        reported(usage).input_tokens matches Some(n) && n == usage.input_tokens,
        reported(usage).output_tokens matches Some(n) && n == usage.output_tokens,
        reported(usage).total_tokens matches Some(n) && n == usage.total_tokens,
        usage.cached_tokens is None <==> reported(usage).cached_input_tokens is None,
        usage.cached_tokens matches Some(n) ==> (
        reported(usage).cached_input_tokens matches Some(m) && m == n),
{
}

/// A text message speaks of a response that is done exactly if it is UTF-8 and `response.done`
/// stands somewhere in it.
pub proof fn law_done_is_found_anywhere(before: Seq<char>, after: Seq<char>)
    ensures
        speaks_of_done(vstd::utf8::encode_utf8(before + "response.done"@ + after)),
        forall|data: Seq<u8>|
            !vstd::utf8::valid_utf8(data) ==> !#[trigger] speaks_of_done(data),
{
    let text = before + "response.done"@ + after;
    vstd::utf8::encode_utf8_valid_utf8(text);
    vstd::utf8::encode_utf8_decode_utf8(text);
    crate::text::law_parts_are_found(before, "response.done"@, after);
}

/// The token usage to log for a text message that can be read as `event`, if it can.
pub open spec fn usage_to_log(data: Seq<u8>, event: Option<ResponseDoneEvent>) -> Option<
    LLMResponse,
> {
    if speaks_of_done(data) && event is Some && event->0.response.usage is Some {
        Some(reported(event->0.response.usage->0))
    } else {
        None
    }
}

/// The usage of a message is logged exactly if the message speaks of a response that is done, can
/// be read as such an event, and reports usage; then it is that usage.
pub proof fn law_reported_usage_is_logged(
    data: Seq<u8>,
    event: ResponseDoneEvent,
    usage: RealtimeUsage,
)
    ensures
        event.response.usage == Some(usage) && speaks_of_done(data) ==> usage_to_log(
            data,
            Some(event),
        ) == Some(reported(usage)),
        event.response.usage is None ==> usage_to_log(data, Some(event)) is None,
        !speaks_of_done(data) ==> usage_to_log(data, Some(event)) is None,
        usage_to_log(data, None) is None,
{
}

} // verus!
