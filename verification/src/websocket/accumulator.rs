//! Gathering frames from the pieces in which they come in, and writing frames.

use vstd::prelude::*;

#[allow(unused_imports)]
use crate::byte_buffers::{
    buffer_clear, buffer_extend, buffer_freeze, buffer_new, buffer_split, buffer_split_to,
    buffer_to_vec, bytes_to_vec, held, held_mut,
};
#[allow(unused_imports)]
use crate::websocket::frames::{
    add_data, after_frame, decoder_new, decoder_state, decoder_step, encoder_new, first_frame,
    frame_complete, frame_size, fresh_decoder, head_complete, head_size, is_fin, is_masked,
    lemma_frame_prefix, lemma_head_prefix, lemma_noted, masked_from, masking_key, message_after,
    noted, original_opcode, start_text_frame, text_frame, transform_payload, unmasked, ws_frames,
    ws_message, ws_rest, DecoderState, FrameView, WsEvent, MAX_DECODE_BYTES, OPCODE_CONTINUATION,
    OPCODE_TEXT,
};

verus! {

/// Gathers frames from the pieces in which they come in.
#[derive(Debug)]
pub struct WsFrameAccumulator {
    decoder: websocket_sans_io::WebsocketFrameDecoder,
    /// What has come in and has not been decoded.
    pending: bytes::BytesMut,
    /// What has been decoded of the current frame.
    frame_raw: bytes::BytesMut,
    /// What its payload stands for, in a text message.
    frame_payload: bytes::BytesMut,
}

/// A frame that has come in whole.
#[derive(Debug)]
pub enum WsCompletedFrame {
    /// The last frame of a text message.
    Text { raw: bytes::Bytes, payload: bytes::Bytes },
    /// Any other frame.
    Other { raw: bytes::Bytes },
}

impl View for WsCompletedFrame {
    type V = FrameView;

    open spec fn view(&self) -> FrameView {
        match *self {
            WsCompletedFrame::Text { raw, payload } => FrameView::Text {
                raw: held(raw),
                payload: held(payload),
            },
            WsCompletedFrame::Other { raw } => FrameView::Other { raw: held(raw) },
        }
    }
}

/// What frames stand for.
pub open spec fn frame_views(frames: Seq<WsCompletedFrame>) -> Seq<FrameView> {
    frames.map_values(|f: WsCompletedFrame| f@)
}

/// Whether a decoder in the state `state` has decoded exactly `raw` of the current frame, and
/// `payload` is what its payload stands for so far in a text message.
#[verifier::opaque]
pub open spec fn decoded(state: DecoderState, raw: Seq<u8>, payload: Seq<u8>) -> bool {
    if head_complete(raw) {
        &&& raw.len() <= frame_size(raw)
        &&& state.head == raw.take(head_size(raw) as int)
        &&& state.done == raw.len() - head_size(raw)
        &&& payload == if original_opcode(raw, state.message) == OPCODE_TEXT {
            unmasked(raw, raw.skip(head_size(raw) as int), 0)
        } else {
            Seq::empty()
        }
    } else {
        &&& state.head == raw
        &&& state.done == 0
        &&& payload == Seq::<u8>::empty()
    }
}

proof fn lemma_masked_append(a: Seq<u8>, b: Seq<u8>, key: Seq<u8>)
    ensures
        masked_from(a + b, key, 0) == masked_from(a, key, 0) + masked_from(b, key, a.len()),
{
    assert(masked_from(a + b, key, 0) =~= masked_from(a, key, 0) + masked_from(b, key, a.len()));
}

/// What a step of a decoder does to what has been decoded.
proof fn lemma_step(
    state: DecoderState,
    raw: Seq<u8>,
    payload: Seq<u8>,
    pending: Seq<u8>,
    data: Seq<u8>,
)
    requires
        decoded(state, raw, payload),
        state.message == noted(state.message, raw),
        data.len() <= pending.len(),
        data == pending.take(data.len() as int),
        data.len() == 0 ==> pending.len() == 0,
    ensures
        ({
            let step = decoder_step(state, data);
            let raw2 = raw + pending.take(step.consumed as int);
            let payload2 = match step.event {
                WsEvent::PayloadChunk { text: true } => payload + step.data.take(
                    step.consumed as int,
                ),
                _ => payload,
            };
            &&& step.consumed <= data.len()
            &&& step.data.len() == data.len()
            &&& step.event is End ==> frame_complete(raw) && frame_size(raw) == raw.len()
                && step.consumed == 0 && step.next == fresh_decoder(
                message_after(raw, state.message),
            ) && step.event == (WsEvent::End {
                text: original_opcode(raw, state.message) == OPCODE_TEXT,
                fin: is_fin(raw),
            })
            &&& step.event !is End ==> {
                &&& decoded(step.next, raw2, payload2)
                &&& step.next.message == noted(state.message, raw2)
                &&& step.next.message == noted(step.next.message, raw2)
                &&& step.consumed == 0 ==> pending.len() == 0 && step.event is Nothing
                    && !frame_complete(raw)
            }
        }),
{
    reveal(decoder_step);
    reveal(decoded);
    let step = decoder_step(state, data);
    let taken = pending.take(step.consumed as int);
    if !head_complete(raw) {
        let all = raw + data;
        let raw2 = raw + data.take(step.consumed as int);
        if head_complete(all) {
            if raw.len() >= 2 {
                lemma_head_prefix(raw, data);
            }
            assert(step.consumed <= data.len());
            assert(raw2 =~= all.take(head_size(all) as int));
            assert(raw2 + all.skip(head_size(all) as int) =~= all);
            lemma_head_prefix(raw2, all.skip(head_size(all) as int));
            assert(head_size(raw2) == head_size(all));
            assert(raw2.take(head_size(raw2) as int) =~= raw2);
            assert(raw2.skip(head_size(raw2) as int) =~= Seq::empty());
            assert(unmasked(raw2, Seq::empty(), 0) =~= Seq::empty());
        } else {
            assert(raw2 =~= all);
        }
        assert(taken =~= data.take(step.consumed as int));
    } else {
        let head = state.head;
        assert(head + raw.skip(head_size(raw) as int) =~= raw);
        lemma_head_prefix(head, raw.skip(head_size(raw) as int));
        assert(taken =~= data.take(step.consumed as int));
        if step.event is PayloadChunk {
            let raw2 = raw + taken;
            lemma_head_prefix(raw, taken);
            assert(raw2.take(head_size(raw) as int) =~= head);
            let body = raw.skip(head_size(raw) as int);
            assert(raw2.skip(head_size(raw) as int) =~= body + taken);
            if is_masked(raw) {
                lemma_masked_append(body, taken, masking_key(raw));
            }
            assert(step.data.take(step.consumed as int) =~= unmasked(head, taken, state.done));
        } else {
            assert(raw + taken =~= raw);
        }
    }
}

impl WsFrameAccumulator {
    /// The bytes of the stream that have not come out as a whole frame.
    pub closed spec fn stream(self) -> Seq<u8> {
        held_mut(self.frame_raw) + held_mut(self.pending)
    }

    /// The opcode of the open message.
    pub closed spec fn message(self) -> u8 {
        decoder_state(self.decoder).message
    }

    /// What every accumulator keeps: the decoder has decoded exactly what is gathered.
    pub closed spec fn wf(self) -> bool {
        &&& decoded(
            decoder_state(self.decoder),
            held_mut(self.frame_raw),
            held_mut(self.frame_payload),
        )
        &&& self.message() == noted(self.message(), held_mut(self.frame_raw))
    }

    /// An accumulator that nothing has come into.
    pub fn new() -> (r: Self)
        ensures
            r.wf(),
            r.stream() == Seq::<u8>::empty(),
            r.message() == OPCODE_CONTINUATION,
    {
        let r = WsFrameAccumulator {
            decoder: decoder_new(),
            pending: buffer_new(),
            frame_raw: buffer_new(),
            frame_payload: buffer_new(),
        };
        proof {
            lemma_nothing_decoded(OPCODE_CONTINUATION);
        }
        r
    }

    /// Takes in a piece of the stream.
    pub fn push(&mut self, data: &[u8])
        requires
            old(self).wf(),
        ensures
            final(self).wf(),
            final(self).stream() == old(self).stream() + data@,
            final(self).message() == old(self).message(),
    {
        buffer_extend(&mut self.pending, data);
        assert(self.stream() =~= old(self).stream() + data@);
    }

    /// Decodes once.
    fn decode_once(&mut self) -> (r: Decoded)
        requires
            old(self).wf(),
        ensures
            final(self).wf(),
            match r {
                Decoded::Nothing => final(self).stream() == old(self).stream()
                    && final(self).message() == old(self).message() && held_mut(
                    final(self).pending,
                ).len() == 0 && !frame_complete(final(self).stream()),
                Decoded::Piece => final(self).stream() == old(self).stream() && held_mut(
                    final(self).pending,
                ).len() < held_mut(old(self).pending).len() && same_frames(
                    old(self).stream(),
                    old(self).message(),
                    final(self).message(),
                ),
                Decoded::Frame(frame) => held_mut(final(self).pending) == held_mut(
                    old(self).pending,
                ) && frame_complete(held_mut(old(self).frame_raw)) && !frame_complete(
                    held_mut(final(self).frame_raw),
                ) && frame_then(
                    old(self).stream(),
                    old(self).message(),
                    frame@,
                    final(self).stream(),
                    final(self).message(),
                ),
            },
    {
        let ghost pending = held_mut(self.pending);
        let ghost raw = held_mut(self.frame_raw);
        let ghost payload = held_mut(self.frame_payload);
        let ghost state = decoder_state(self.decoder);
        let ghost stream = self.stream();
        let all = buffer_to_vec(&self.pending);
        let mut copy = prefix(all.as_slice(), MAX_DECODE_BYTES);
        let ghost data = copy@;
        proof {
            lemma_step(state, raw, payload, pending, data);
        }
        let (consumed, event) = add_data(&mut self.decoder, &mut copy);
        let nothing = match event {
            WsEvent::Nothing => true,
            _ => false,
        };
        let ghost raw2 = raw + pending.take(consumed as int);
        if consumed == 0 && nothing {
            assert(raw2 =~= raw);
            assert(self.stream() =~= raw);
            return Decoded::Nothing;
        }
        let raw_chunk = buffer_freeze(buffer_split_to(&mut self.pending, consumed));
        let chunk = bytes_to_vec(&raw_chunk);
        buffer_extend(&mut self.frame_raw, chunk.as_slice());
        assert(raw2 + pending.skip(consumed as int) =~= stream);
        assert(raw2 =~= stream.take(raw2.len() as int));
        match event {
            WsEvent::End { text, fin } => {
                assert(raw2 =~= raw);
                assert(pending.skip(0) =~= pending);
                let raw_bytes = buffer_freeze(buffer_split(&mut self.frame_raw));
                let frame = if text && fin {
                    let payload_bytes = buffer_freeze(buffer_split(&mut self.frame_payload));
                    WsCompletedFrame::Text { raw: raw_bytes, payload: payload_bytes }
                } else {
                    buffer_clear(&mut self.frame_payload);
                    WsCompletedFrame::Other { raw: raw_bytes }
                };
                proof {
                    lemma_end(raw, payload, pending, state);
                    lemma_nothing_decoded(message_after(raw, state.message));
                    assert(self.stream() =~= pending);
                }
                Decoded::Frame(frame)
            },
            WsEvent::PayloadChunk { text: true } => {
                let unmasked_chunk = prefix(copy.as_slice(), consumed);
                buffer_extend(&mut self.frame_payload, unmasked_chunk.as_slice());
                proof {
                    lemma_noted_within(stream, raw2, state.message);
                }
                Decoded::Piece
            },
            _ => {
                proof {
                    lemma_noted_within(stream, raw2, state.message);
                }
                Decoded::Piece
            },
        }
    }

    /// Hands out the frames that are whole, and keeps what follows them.
    pub fn drain_frames(&mut self) -> (r: Vec<WsCompletedFrame>)
        requires
            old(self).wf(),
        ensures
            final(self).wf(),
            frame_views(r@) == ws_frames(old(self).stream(), old(self).message()),
            final(self).stream() == ws_rest(old(self).stream(), old(self).message()),
            final(self).message() == ws_message(old(self).stream(), old(self).message()),
    {
        let mut result: Vec<WsCompletedFrame> = Vec::new();
        let ghost s0 = self.stream();
        let ghost m0 = self.message();
        assert(frame_views(result@) + ws_frames(s0, m0) =~= ws_frames(s0, m0));
        loop
            invariant
                self.wf(),
                frame_views(result@) + ws_frames(self.stream(), self.message()) == ws_frames(
                    s0,
                    m0,
                ),
                ws_rest(self.stream(), self.message()) == ws_rest(s0, m0),
                ws_message(self.stream(), self.message()) == ws_message(s0, m0),
            ensures
                !frame_complete(self.stream()),
                self.message() == noted(self.message(), self.stream()),
            decreases
                held_mut(self.pending).len(),
                if frame_complete(held_mut(self.frame_raw)) { 1nat } else { 0nat },
        {
            let ghost before = result@;
            let ghost s1 = self.stream();
            let ghost m1 = self.message();
            match self.decode_once() {
                Decoded::Nothing => {
                    assert(self.stream() =~= held_mut(self.frame_raw));
                    break ;
                },
                Decoded::Piece => {},
                Decoded::Frame(frame) => {
                    proof {
                        lemma_push_view(before, frame);
                        assert(frame_views(before).push(frame@) + ws_frames(
                            self.stream(),
                            self.message(),
                        ) =~= frame_views(before) + ws_frames(s1, m1));
                    }
                    result.push(frame);
                },
            }
        }
        assert(frame_views(result@) + ws_frames(self.stream(), self.message()) =~= frame_views(
            result@,
        ));
        result
    }
}

/// What one step of decoding gives.
enum Decoded {
    /// Nothing: what has come in is used up.
    Nothing,
    /// A piece of the current frame.
    Piece,
    /// A whole frame.
    Frame(WsCompletedFrame),
}

/// Whether a stream has the same frames with either open message.
spec fn same_frames(stream: Seq<u8>, m1: u8, m2: u8) -> bool {
    &&& ws_frames(stream, m1) == ws_frames(stream, m2)
    &&& ws_rest(stream, m1) == ws_rest(stream, m2)
    &&& ws_message(stream, m1) == ws_message(stream, m2)
}

/// Whether a stream is a frame followed by another stream.
spec fn frame_then(s1: Seq<u8>, m1: u8, frame: FrameView, s2: Seq<u8>, m2: u8) -> bool {
    &&& ws_frames(s1, m1) == seq![frame] + ws_frames(s2, m2)
    &&& ws_rest(s1, m1) == ws_rest(s2, m2)
    &&& ws_message(s1, m1) == ws_message(s2, m2)
}

proof fn lemma_nothing_decoded(message: u8)
    ensures
        decoded(fresh_decoder(message), Seq::empty(), Seq::empty()),
        !frame_complete(Seq::<u8>::empty()),
{
    reveal(decoded);
}

/// The first `n` bytes, or all of them where there are fewer.
fn prefix(data: &[u8], n: usize) -> (r: Vec<u8>)
    ensures
        r@ == data@.take(if data@.len() < n { data@.len() as int } else { n as int }),
{
    let end: usize = if data.len() < n {
        data.len()
    } else {
        n
    };
    let mut out: Vec<u8> = Vec::new();
    let mut i: usize = 0;
    while i < end
        invariant
            i <= end <= data@.len(),
            out@ == data@.take(i as int),
        decreases end - i,
    {
        out.push(data[i]);
        i += 1;
        assert(data@.take(i as int) =~= data@.take(i - 1).push(data@[i - 1]));
    }
    out
}

proof fn lemma_push_view(frames: Seq<WsCompletedFrame>, frame: WsCompletedFrame)
    ensures
        frame_views(frames.push(frame)) == frame_views(frames).push(frame@),
{
    assert(frame_views(frames.push(frame)) =~= frame_views(frames).push(frame@));
}

/// Noting the opcode of a frame of which `raw` has come in changes nothing about the stream.
proof fn lemma_noted_within(stream: Seq<u8>, raw: Seq<u8>, message: u8)
    requires
        raw.len() <= stream.len(),
        raw == stream.take(raw.len() as int),
    ensures
        ws_frames(stream, noted(message, raw)) == ws_frames(stream, message),
        ws_rest(stream, noted(message, raw)) == ws_rest(stream, message),
        ws_message(stream, noted(message, raw)) == ws_message(stream, message),
{
    if raw.len() >= 2 {
        assert(noted(message, raw) == noted(message, stream));
        lemma_noted(stream, message);
    }
}

/// What the end of a frame does to the stream.
proof fn lemma_end(raw: Seq<u8>, payload: Seq<u8>, pending: Seq<u8>, state: DecoderState)
    requires
        frame_complete(raw),
        frame_size(raw) == raw.len(),
        decoded(state, raw, payload),
    ensures
        ({
            let stream = raw + pending;
            &&& ws_frames(stream, state.message) == seq![first_frame(stream, state.message)]
                + ws_frames(pending, message_after(raw, state.message))
            &&& ws_rest(stream, state.message) == ws_rest(
                pending,
                message_after(raw, state.message),
            )
            &&& ws_message(stream, state.message) == ws_message(
                pending,
                message_after(raw, state.message),
            )
            &&& first_frame(stream, state.message) == if original_opcode(raw, state.message)
                == OPCODE_TEXT && is_fin(raw) {
                FrameView::Text { raw, payload }
            } else {
                FrameView::Other { raw }
            }
        }),
{
    reveal(decoded);
    lemma_frame_prefix(raw, pending, state.message);
    assert(after_frame(raw) + pending =~= pending);
    assert(raw.take(raw.len() as int) =~= raw);
}

/// Writes a text message as one frame without a mask, as servers send them.
pub fn encode_ws_text_frame(payload: &[u8]) -> (r: bytes::Bytes)
    ensures
        held(r) == text_frame(payload@, None),
{
    let mut encoder = encoder_new();
    let header = start_text_frame(&mut encoder, payload.len() as u64, None);
    let mut out = buffer_new();
    buffer_extend(&mut out, header.as_slice());
    buffer_extend(&mut out, payload);
    let r = buffer_freeze(out);
    assert(held(r) =~= text_frame(payload@, None));
    r
}

/// Writes a text message as one frame that is masked with `mask`, as clients send them.
pub fn encode_ws_text_frame_masked(payload: &[u8], mask: [u8; 4]) -> (r: bytes::Bytes)
    ensures
        held(r) == text_frame(payload@, Some(mask@)),
{
    let mut encoder = encoder_new();
    let header = start_text_frame(&mut encoder, payload.len() as u64, Some(mask));
    let mut out = buffer_new();
    buffer_extend(&mut out, header.as_slice());
    let mut payload_copy = prefix(payload, payload.len());
    transform_payload(&mut encoder, &mut payload_copy);
    buffer_extend(&mut out, payload_copy.as_slice());
    let r = buffer_freeze(out);
    assert(held(r) =~= text_frame(payload@, Some(mask@)));
    r
}

} // verus!
