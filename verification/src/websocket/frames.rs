//! WebSocket frames.
//!
//! A frame is a header followed by its payload. The first byte of the header holds the `fin` bit
//! and the opcode, the second one the mask bit and the payload length; a length of 126 or 127
//! stands for one of 2 or 8 bytes that follows, and the header of a masked frame ends with the 4
//! bytes of its key, with which the payload is combined byte by byte.

use vstd::arithmetic::power::pow;
use vstd::prelude::*;
use websocket_sans_io::{Opcode, WebsocketFrameEvent};

verus! {

/// The opcode of a frame that continues a message.
pub const OPCODE_CONTINUATION: u8 = 0;

/// The opcode of a frame that begins a text message.
pub const OPCODE_TEXT: u8 = 1;

/// The opcode of a frame.
pub open spec fn opcode(s: Seq<u8>) -> u8 {
    s[0] % 16
}

/// Whether a frame is the last one of its message.
pub open spec fn is_fin(s: Seq<u8>) -> bool {
    s[0] >= 128
}

/// Whether a frame carries data; the others control the connection.
pub open spec fn is_data(s: Seq<u8>) -> bool {
    opcode(s) < 8
}

/// Whether the payload of a frame is masked.
pub open spec fn is_masked(s: Seq<u8>) -> bool {
    s[1] >= 128
}

/// The payload length in the second byte of a header.
pub open spec fn short_length(s: Seq<u8>) -> u8 {
    s[1] % 128
}

/// How many bytes of a header hold the payload length, beyond the second one.
pub open spec fn length_size(s: Seq<u8>) -> nat {
    if short_length(s) == 126 {
        2
    } else if short_length(s) == 127 {
        8
    } else {
        0
    }
}

/// The number of bytes of a header, which its first two bytes tell.
pub open spec fn head_size(s: Seq<u8>) -> nat {
    2 + length_size(s) + if is_masked(s) {
        4nat
    } else {
        0nat
    }
}

/// Whether `s` begins with a whole header.
pub open spec fn head_complete(s: Seq<u8>) -> bool {
    s.len() >= 2 && s.len() >= head_size(s)
}

/// The number that bytes stand for, the most significant one first.
pub open spec fn be_value(s: Seq<u8>) -> nat
    decreases s.len(),
{
    if s.len() == 0 {
        0
    } else {
        be_value(s.drop_last()) * 256 + s.last() as nat
    }
}

/// The payload length that a header states.
pub open spec fn payload_length(s: Seq<u8>) -> nat {
    if length_size(s) == 0 {
        short_length(s) as nat
    } else {
        be_value(s.subrange(2, 2 + length_size(s) as int))
    }
}

/// The number of bytes of a frame.
pub open spec fn frame_size(s: Seq<u8>) -> nat {
    head_size(s) + payload_length(s)
}

/// Whether `s` begins with a whole frame.
pub open spec fn frame_complete(s: Seq<u8>) -> bool {
    head_complete(s) && s.len() >= frame_size(s)
}

/// `data` combined with the key `key`, the first byte with that at `phase`.
pub open spec fn masked_from(data: Seq<u8>, key: Seq<u8>, phase: nat) -> Seq<u8> {
    Seq::new(data.len(), |i: int| data[i] ^ key[(phase as int + i) % 4])
}

/// The key of a masked frame.
pub open spec fn masking_key(s: Seq<u8>) -> Seq<u8> {
    s.subrange(head_size(s) - 4, head_size(s) as int)
}

/// What payload bytes of a frame with the header of `s` stand for, the first of them at
/// `offset`.
pub open spec fn unmasked(s: Seq<u8>, data: Seq<u8>, offset: nat) -> Seq<u8> {
    if is_masked(s) {
        masked_from(data, masking_key(s), offset)
    } else {
        data
    }
}

/// The opcode of the open message once the first two bytes of a frame are known: a frame that
/// begins a message opens it.
pub open spec fn noted(message: u8, s: Seq<u8>) -> u8 {
    if s.len() >= 2 && is_data(s) && opcode(s) != OPCODE_CONTINUATION {
        opcode(s)
    } else {
        message
    }
}

/// The opcode that counts for a frame: a continuation has that of the open message.
pub open spec fn original_opcode(s: Seq<u8>, message: u8) -> u8 {
    if opcode(s) == OPCODE_CONTINUATION {
        message
    } else {
        opcode(s)
    }
}

/// The opcode of the open message after a frame: the last frame of a message closes it.
pub open spec fn message_after(s: Seq<u8>, message: u8) -> u8 {
    if is_data(s) && is_fin(s) {
        OPCODE_CONTINUATION
    } else {
        noted(message, s)
    }
}

/// What a decoder remembers: the opcode of the open message, the header of the current frame as
/// far as it has come in, and how many payload bytes have.
pub ghost struct DecoderState {
    pub message: u8,
    pub head: Seq<u8>,
    pub done: nat,
}

/// What a decoder reports.
#[derive(Debug, Clone, Copy, PartialEq, Eq, Structural)]
pub enum WsEvent {
    /// Nothing.
    Nothing,
    /// A header is complete.
    Start,
    /// The bytes that were consumed are payload of a frame, of a text message if `text`.
    PayloadChunk { text: bool },
    /// The payload of a frame is complete.
    End { text: bool, fin: bool },
}

/// What a decoder makes of bytes.
pub ghost struct DecoderStep {
    pub next: DecoderState,
    pub consumed: nat,
    pub event: WsEvent,
    /// The bytes afterwards: payload is unmasked in place.
    pub data: Seq<u8>,
}

/// A decoder that waits for a frame.
pub open spec fn fresh_decoder(message: u8) -> DecoderState {
    DecoderState { message, head: Seq::empty(), done: 0 }
}

/// What a decoder makes of `data`. It takes a header up to its end, or all of `data` where the
/// header goes on; then payload up to its end; then, without taking anything, it reports the end
/// of the frame.
#[verifier::opaque]
pub open spec fn decoder_step(state: DecoderState, data: Seq<u8>) -> DecoderStep {
    let head = state.head;
    if !head_complete(head) {
        let all = head + data;
        let complete = head_complete(all);
        let consumed: nat = if complete {
            (head_size(all) - head.len()) as nat
        } else {
            data.len()
        };
        let next = head + data.take(consumed as int);
        DecoderStep {
            next: DecoderState { message: noted(state.message, next), head: next, done: 0 },
            consumed,
            event: if complete {
                WsEvent::Start
            } else {
                WsEvent::Nothing
            },
            data,
        }
    } else {
        let left = payload_length(head) - state.done;
        let text = original_opcode(head, state.message) == OPCODE_TEXT;
        if left <= 0 {
            DecoderStep {
                next: fresh_decoder(message_after(head, state.message)),
                consumed: 0,
                event: WsEvent::End { text, fin: is_fin(head) },
                data,
            }
        } else if data.len() == 0 {
            DecoderStep { next: state, consumed: 0, event: WsEvent::Nothing, data }
        } else {
            let consumed: nat = if data.len() < left {
                data.len()
            } else {
                left as nat
            };
            DecoderStep {
                next: DecoderState { done: state.done + consumed, ..state },
                consumed,
                event: WsEvent::PayloadChunk { text },
                data: unmasked(head, data.take(consumed as int), state.done) + data.skip(
                    consumed as int,
                ),
            }
        }
    }
}

/// The decoder of the `websocket-sans-io` crate.
#[verifier::external_type_specification]
#[verifier::external_body]
pub struct ExWebsocketFrameDecoder(websocket_sans_io::WebsocketFrameDecoder);

/// What a decoder remembers.
pub uninterp spec fn decoder_state(d: websocket_sans_io::WebsocketFrameDecoder) -> DecoderState;

/// A new decoder (`WebsocketFrameDecoder::new`).
///
/// Trusted: it waits for a frame, and no message is open.
#[verifier::external_body]
pub(crate) fn decoder_new() -> (r: websocket_sans_io::WebsocketFrameDecoder)
    ensures
        decoder_state(r) == fresh_decoder(OPCODE_CONTINUATION),
{
    websocket_sans_io::WebsocketFrameDecoder::new()
}

/// The number of bytes that are handed to a decoder at once: it counts masked payload modulo 256
/// without room for more.
pub const MAX_DECODE_BYTES: usize = 252;

/// Hands bytes to a decoder (`WebsocketFrameDecoder::add_data`, whose error type has no values
/// where frames of any size are decoded).
///
/// Trusted: what it takes, reports and writes back, and what it remembers, is [`decoder_step`].
#[verifier::external_body]
pub(crate) fn add_data(
    d: &mut websocket_sans_io::WebsocketFrameDecoder,
    data: &mut Vec<u8>,
) -> (r: (usize, WsEvent))
    requires
        old(data)@.len() <= MAX_DECODE_BYTES,
    ensures
        r.0 == decoder_step(decoder_state(*old(d)), old(data)@).consumed,
        r.1 == decoder_step(decoder_state(*old(d)), old(data)@).event,
        final(data)@ == decoder_step(decoder_state(*old(d)), old(data)@).data,
        decoder_state(*final(d)) == decoder_step(decoder_state(*old(d)), old(data)@).next,
{
    let Ok(ret) = d.add_data(data);
    let event = match ret.event {
        None => WsEvent::Nothing,
        Some(WebsocketFrameEvent::Start { .. }) => WsEvent::Start,
        Some(WebsocketFrameEvent::PayloadChunk { original_opcode }) => WsEvent::PayloadChunk {
            text: original_opcode == Opcode::Text,
        },
        Some(WebsocketFrameEvent::End { frame_info, original_opcode }) => WsEvent::End {
            text: original_opcode == Opcode::Text,
            fin: frame_info.fin,
        },
    };
    (ret.consumed_bytes, event)
}

/// `n` bytes that stand for a number, the most significant one first.
pub open spec fn be_bytes(x: nat, n: nat) -> Seq<u8>
    decreases n,
{
    if n == 0 {
        Seq::empty()
    } else {
        be_bytes(x / 256, (n - 1) as nat).push((x % 256) as u8)
    }
}

/// The second byte of a header.
pub open spec fn second_byte(short: int, masked: bool) -> u8 {
    (short + if masked {
        128int
    } else {
        0int
    }) as u8
}

/// The header of a frame that is a whole text message of `len` bytes.
pub open spec fn text_header(len: nat, mask: Option<Seq<u8>>) -> Seq<u8> {
    let key = match mask {
        Some(key) => key,
        None => Seq::empty(),
    };
    if len <= 125 {
        seq![0x81u8, second_byte(len as int, mask is Some)] + key
    } else if len <= 0xffff {
        seq![0x81u8, second_byte(126, mask is Some)] + be_bytes(len, 2) + key
    } else {
        seq![0x81u8, second_byte(127, mask is Some)] + be_bytes(len, 8) + key
    }
}

/// The encoder of the `websocket-sans-io` crate.
#[verifier::external_type_specification]
#[verifier::external_body]
pub struct ExWebsocketFrameEncoder(websocket_sans_io::WebsocketFrameEncoder);

/// The key with which an encoder masks, and how many bytes it has masked modulo 4; `None` where
/// it masks nothing.
pub uninterp spec fn encoder_key(e: websocket_sans_io::WebsocketFrameEncoder) -> Option<
    (Seq<u8>, nat),
>;

/// A new encoder (`WebsocketFrameEncoder::new`).
///
/// Trusted: it masks nothing.
#[verifier::external_body]
pub(crate) fn encoder_new() -> (r: websocket_sans_io::WebsocketFrameEncoder)
    ensures
        encoder_key(r) is None,
{
    websocket_sans_io::WebsocketFrameEncoder::new()
}

/// Begins a frame that is a whole text message (`WebsocketFrameEncoder::start_frame`).
///
/// Trusted: the header is [`text_header`], and the encoder then masks with the key given.
#[verifier::external_body]
pub(crate) fn start_text_frame(
    e: &mut websocket_sans_io::WebsocketFrameEncoder,
    payload_length: u64,
    mask: Option<[u8; 4]>,
) -> (r: Vec<u8>)
    ensures
        r@ == text_header(
            payload_length as nat,
            match mask {
                Some(key) => Some(key@),
                None => None,
            },
        ),
        encoder_key(*final(e)) == match mask {
            Some(key) => Some((key@, 0nat)),
            None => None,
        },
{
    e.start_frame(
        &websocket_sans_io::FrameInfo {
            opcode: websocket_sans_io::Opcode::Text,
            payload_length,
            mask,
            fin: true,
            reserved: 0,
        },
    ).to_vec()
}

/// Masks payload bytes where a frame is masked (`WebsocketFrameEncoder::transform_frame_payload`).
///
/// Trusted: each byte is combined with the byte of the key that is its turn.
#[verifier::external_body]
pub(crate) fn transform_payload(
    e: &mut websocket_sans_io::WebsocketFrameEncoder,
    data: &mut Vec<u8>,
)
    ensures
        match encoder_key(*old(e)) {
            Some((key, phase)) => final(data)@ == masked_from(old(data)@, key, phase)
                && encoder_key(*final(e)) == Some((key, (phase + old(data)@.len()) % 4)),
            None => final(data)@ == old(data)@ && encoder_key(*final(e)) is None,
        },
{
    e.transform_frame_payload(data)
}

/// A frame that has come in whole.
#[verifier::ext_equal]
pub ghost enum FrameView {
    /// The last frame of a text message: its bytes, and what its payload stands for.
    Text { raw: Seq<u8>, payload: Seq<u8> },
    /// Any other frame.
    Other { raw: Seq<u8> },
}

/// The frame with which `s` begins.
pub open spec fn first_frame(s: Seq<u8>, message: u8) -> FrameView {
    let raw = s.take(frame_size(s) as int);
    if original_opcode(s, message) == OPCODE_TEXT && is_fin(s) {
        FrameView::Text { raw, payload: unmasked(s, raw.skip(head_size(s) as int), 0) }
    } else {
        FrameView::Other { raw }
    }
}

/// What follows the frame with which `s` begins.
pub open spec fn after_frame(s: Seq<u8>) -> Seq<u8> {
    s.skip(frame_size(s) as int)
}

/// The whole frames of a stream.
pub open spec fn ws_frames(s: Seq<u8>, message: u8) -> Seq<FrameView>
    decreases s.len(),
{
    if frame_complete(s) {
        seq![first_frame(s, message)] + ws_frames(after_frame(s), message_after(s, message))
    } else {
        Seq::empty()
    }
}

/// What remains of a stream after its whole frames.
pub open spec fn ws_rest(s: Seq<u8>, message: u8) -> Seq<u8>
    decreases s.len(),
{
    if frame_complete(s) {
        ws_rest(after_frame(s), message_after(s, message))
    } else {
        s
    }
}

/// The opcode of the open message after the whole frames of a stream.
pub open spec fn ws_message(s: Seq<u8>, message: u8) -> u8
    decreases s.len(),
{
    if frame_complete(s) {
        ws_message(after_frame(s), message_after(s, message))
    } else {
        noted(message, s)
    }
}

/// The bytes of a frame.
pub open spec fn frame_raw(f: FrameView) -> Seq<u8> {
    match f {
        FrameView::Text { raw, .. } => raw,
        FrameView::Other { raw } => raw,
    }
}

/// The bytes of frames, one after the other.
pub open spec fn all_raw(frames: Seq<FrameView>) -> Seq<u8>
    decreases frames.len(),
{
    if frames.len() == 0 {
        Seq::empty()
    } else {
        frame_raw(frames[0]) + all_raw(frames.skip(1))
    }
}

/// What the beginning of a frame tells does not depend on what follows it.
pub proof fn lemma_head_prefix(s: Seq<u8>, t: Seq<u8>)
    ensures
        s.len() >= 2 ==> head_size(s + t) == head_size(s) && opcode(s + t) == opcode(s)
            && is_fin(s + t) == is_fin(s) && is_data(s + t) == is_data(s) && is_masked(s + t)
            == is_masked(s) && length_size(s + t) == length_size(s),
        head_complete(s) ==> head_complete(s + t) && payload_length(s + t) == payload_length(s)
            && frame_size(s + t) == frame_size(s) && (is_masked(s) ==> masking_key(s + t)
            == masking_key(s)),
{
    if s.len() >= 2 {
        assert((s + t)[0] == s[0]);
        assert((s + t)[1] == s[1]);
    }
    if head_complete(s) {
        if length_size(s) > 0 {
            assert((s + t).subrange(2, 2 + length_size(s) as int) =~= s.subrange(
                2,
                2 + length_size(s) as int,
            ));
        }
        if is_masked(s) {
            assert(masking_key(s + t) =~= masking_key(s));
        }
    }
}

/// The frame with which a stream begins does not depend on what follows it.
pub proof fn lemma_frame_prefix(s: Seq<u8>, t: Seq<u8>, message: u8)
    requires
        frame_complete(s),
    ensures
        frame_complete(s + t),
        first_frame(s + t, message) == first_frame(s, message),
        after_frame(s + t) == after_frame(s) + t,
        message_after(s + t, message) == message_after(s, message),
{
    lemma_head_prefix(s, t);
    assert((s + t).take(frame_size(s) as int) =~= s.take(frame_size(s) as int));
    assert(after_frame(s + t) =~= after_frame(s) + t);
}

/// Noting the opcode of the frame with which a stream begins changes nothing about its frames.
pub proof fn lemma_noted(s: Seq<u8>, message: u8)
    ensures
        ws_frames(s, noted(message, s)) == ws_frames(s, message),
        ws_rest(s, noted(message, s)) == ws_rest(s, message),
        ws_message(s, noted(message, s)) == ws_message(s, message),
{
    if frame_complete(s) {
        assert(first_frame(s, noted(message, s)) == first_frame(s, message));
        assert(message_after(s, noted(message, s)) == message_after(s, message));
    }
}

/// No byte is lost or added: the bytes of the frames of a stream, followed by what remains of it,
/// are the stream.
pub proof fn law_frames_keep_every_byte(s: Seq<u8>, message: u8)
    ensures
        all_raw(ws_frames(s, message)) + ws_rest(s, message) == s,
    decreases s.len(),
{
    if frame_complete(s) {
        let rest = after_frame(s);
        let m = message_after(s, message);
        law_frames_keep_every_byte(rest, m);
        let frames = ws_frames(s, message);
        assert(frames.skip(1) =~= ws_frames(rest, m));
        assert(frame_raw(frames[0]) == s.take(frame_size(s) as int));
        assert(s =~= s.take(frame_size(s) as int) + (all_raw(ws_frames(rest, m)) + ws_rest(
            rest,
            m,
        )));
        assert(all_raw(frames) + ws_rest(s, message) =~= s);
    }
}

/// How a stream is cut into pieces does not matter: the frames of two pieces, one after the
/// other, are the frames of both together.
pub proof fn law_frames_do_not_depend_on_pieces(s: Seq<u8>, t: Seq<u8>, message: u8)
    ensures
        ws_frames(s + t, message) == ws_frames(s, message) + ws_frames(
            ws_rest(s, message) + t,
            ws_message(s, message),
        ),
        ws_rest(s + t, message) == ws_rest(ws_rest(s, message) + t, ws_message(s, message)),
    decreases s.len(),
{
    if frame_complete(s) {
        lemma_frame_prefix(s, t, message);
        law_frames_do_not_depend_on_pieces(after_frame(s), t, message_after(s, message));
        assert(ws_frames(s + t, message) =~= ws_frames(s, message) + ws_frames(
            ws_rest(s, message) + t,
            ws_message(s, message),
        ));
    } else {
        assert(ws_frames(s, message) =~= Seq::empty());
        lemma_noted(s + t, message);
        assert(noted(message, s + t) == noted(noted(message, s), s + t)) by {
            lemma_head_prefix(s, t);
        }
        lemma_noted(s + t, noted(message, s));
        assert(ws_frames(s + t, message) =~= Seq::empty() + ws_frames(s + t, noted(message, s)));
    }
}

/// Bytes stand for the number that they were made of.
pub proof fn lemma_be_bytes(x: nat, n: nat)
    requires
        x < pow(256, n),
    ensures
        be_bytes(x, n).len() == n,
        be_value(be_bytes(x, n)) == x,
    decreases n,
{
    vstd::arithmetic::power::lemma_pow0(256);
    if n > 0 {
        let m = (n - 1) as nat;
        assert(pow(256, n) == 256 * pow(256, m)) by {
            reveal(pow);
        }
        assert(x / 256 < pow(256, m)) by (nonlinear_arith)
            requires
                x < 256 * pow(256, m),
        ;
        lemma_be_bytes(x / 256, m);
        let b = be_bytes(x, n);
        assert(b.drop_last() =~= be_bytes(x / 256, m));
        assert(b.last() == (x % 256) as u8);
    }
}

/// A header of a text message says what it was made from.
pub proof fn lemma_text_header(len: nat, mask: Option<Seq<u8>>)
    requires
        len <= u64::MAX,
        mask matches Some(key) ==> key.len() == 4,
    ensures
        ({
            let h = text_header(len, mask);
            &&& head_complete(h)
            &&& head_size(h) == h.len()
            &&& payload_length(h) == len
            &&& opcode(h) == OPCODE_TEXT
            &&& is_fin(h)
            &&& is_masked(h) == (mask is Some)
            &&& mask matches Some(key) ==> masking_key(h) == key
        }),
{
    let h = text_header(len, mask);
    let key = match mask {
        Some(key) => key,
        None => Seq::empty(),
    };
    vstd::arithmetic::power::lemma_pow0(256);
    assert(pow(256, 2) == 0x1_0000) by {
        reveal_with_fuel(pow, 3);
    }
    assert(pow(256, 8) == 0x1_0000_0000_0000_0000) by {
        reveal_with_fuel(pow, 9);
    }
    if len > 125 {
        let n: nat = if len <= 0xffff {
            2
        } else {
            8
        };
        lemma_be_bytes(len, n);
        assert(length_size(h) == n);
        assert(h.subrange(2, 2 + n as int) =~= be_bytes(len, n));
    }
    assert(h.len() == head_size(h));
    if mask is Some {
        assert(masking_key(h) =~= key);
    }
}

/// Masking twice with the same key gives back what was there.
pub proof fn lemma_masking_is_undone(data: Seq<u8>, key: Seq<u8>)
    requires
        key.len() == 4,
    ensures
        masked_from(masked_from(data, key, 0), key, 0) == data,
{
    let twice = masked_from(masked_from(data, key, 0), key, 0);
    assert forall|i: int| 0 <= i < data.len() implies twice[i] == data[i] by {
        let a = data[i];
        let k = key[i % 4];
        assert((a ^ k) ^ k == a) by (bit_vector);
    }
    assert(twice =~= data);
}

/// The bytes of a frame that is a whole text message.
pub open spec fn text_frame(payload: Seq<u8>, mask: Option<Seq<u8>>) -> Seq<u8> {
    text_header(payload.len(), mask) + match mask {
        Some(key) => masked_from(payload, key, 0),
        None => payload,
    }
}

/// What is written as a text message is read back: wherever a frame of it stands in a stream, its
/// payload comes out, masked or not, and what follows is read as if it stood alone.
pub proof fn law_text_frames_are_read_back(
    payload: Seq<u8>,
    mask: Option<Seq<u8>>,
    rest: Seq<u8>,
    message: u8,
)
    requires
        payload.len() <= u64::MAX,
        mask matches Some(key) ==> key.len() == 4,
    ensures
        ws_frames(text_frame(payload, mask) + rest, message) == seq![
            FrameView::Text { raw: text_frame(payload, mask), payload },
        ] + ws_frames(rest, OPCODE_CONTINUATION),
        ws_rest(text_frame(payload, mask) + rest, message) == ws_rest(rest, OPCODE_CONTINUATION),
{
    let h = text_header(payload.len(), mask);
    let f = text_frame(payload, mask);
    let body = match mask {
        Some(key) => masked_from(payload, key, 0),
        None => payload,
    };
    lemma_text_header(payload.len(), mask);
    lemma_head_prefix(h, body);
    assert(f == h + body);
    assert(frame_complete(f));
    assert(frame_size(f) == f.len());
    assert(f.take(f.len() as int) =~= f);
    assert(f.skip(h.len() as int) =~= body);
    if let Some(key) = mask {
        lemma_masking_is_undone(payload, key);
    }
    assert(first_frame(f, message) == (FrameView::Text { raw: f, payload }));
    lemma_frame_prefix(f, rest, message);
    assert(after_frame(f) + rest =~= rest);
}

/// Which frames hold the text of a message, and what follows them: the last frame of a message
/// that begins with a text frame does, whether it is that frame or a continuation of it. All other
/// frames are passed on with their bytes alone. Frames that control the connection may stand
/// between those of a message and do not end it; the last frame of a message does.
pub proof fn law_last_frames_of_texts_hold_texts(s: Seq<u8>, message: u8)
    requires
        frame_complete(s),
    ensures
        ({
            let frames = ws_frames(s, message);
            let kind = s[0] % 16;
            let last = s[0] >= 128;
            let n = frame_size(s) as int;
            let open = if kind >= 8 {
                message
            } else if last {
                0u8
            } else if kind == 0 {
                message
            } else {
                kind
            };
            &&& frames.len() > 0
            &&& frames[0] is Text <==> last && (kind == 1 || kind == 0 && message == 1)
            &&& frame_raw(frames[0]) == s.take(n)
            &&& frames.skip(1) == ws_frames(s.skip(n), open)
            &&& ws_rest(s, message) == ws_rest(s.skip(n), open)
        }),
{
    let n = frame_size(s) as int;
    let rest = ws_frames(after_frame(s), message_after(s, message));
    assert(ws_frames(s, message).skip(1) =~= rest);
}

/// The text of an unmasked frame is its payload as it stands.
pub proof fn law_unmasked_payload_stands(s: Seq<u8>, message: u8)
    requires
        frame_complete(s),
        s[1] < 128,
    ensures
        ws_frames(s, message)[0] matches FrameView::Text { payload, .. } ==> payload == s.subrange(
            head_size(s) as int,
            frame_size(s) as int,
        ),
{
    assert(s.take(frame_size(s) as int).skip(head_size(s) as int) =~= s.subrange(
        head_size(s) as int,
        frame_size(s) as int,
    ));
}

/// How long a frame is: its header has two bytes, the bytes of a longer length where the short one
/// says so, and the key of a masked frame; then comes as much payload as it says.
pub proof fn law_frames_are_as_long_as_they_say(s: Seq<u8>)
    requires
        head_complete(s),
    ensures
        ({
            let short = s[1] % 128;
            let key: nat = if s[1] >= 128 {
                4
            } else {
                0
            };
            &&& short < 126 ==> frame_size(s) == 2 + key + short
            &&& short == 126 ==> frame_size(s) == 4 + key + s[2] * 256 + s[3]
            &&& short == 127 ==> head_size(s) == 10 + key
        }),
{
    if s[1] % 128 == 126 {
        let b = s.subrange(2, 4);
        reveal_with_fuel(be_value, 3);
        assert(b.drop_last().drop_last() =~= Seq::empty());
        assert(b.drop_last().last() == s[2]);
        assert(b.last() == s[3]);
        assert(be_value(b) == s[2] * 256 + s[3]);
    }
}

} // verus!
