//! A streamed body that is held back until the guardrails have looked at its text.
//!
//! The caller asks [`GuardedSseBody::poll_frame`] what comes next: a frame for the client, the
//! end, a frame to read from the upstream ([`GuardedSseBody::on_data`],
//! [`GuardedSseBody::on_end`]), or a window to have looked at ([`GuardedSseBody::on_verdict`]).
//! Upstream frames that carry no data, and upstream errors, do not concern it: they are passed on.

use std::collections::VecDeque;

use vstd::prelude::*;
use vstd::string::*;

#[allow(unused_imports)]
use crate::byte_buffers::{
    buffer_clear, buffer_extend, buffer_new, bytes_copy, bytes_len, bytes_to_vec, held, held_mut,
};
#[allow(unused_imports)]
use crate::json::{json_of_bytes, parse_json, then_item, then_member, then_text, Json, JsonView};
#[allow(unused_imports)]
use crate::sse::{
    sse_decode, sse_decode_eof, sse_decoded, sse_decoded_eof, sse_fresh, sse_new, sse_scanned,
    SseItem, SseItemView,
};
#[allow(unused_imports)]
use crate::streaming_guardrails::window::{
    byte_len, tail_chars, tail_text, text_bytes, DEFAULT_EVAL_THRESHOLD, OVERLAP_BYTES,
};

verus! {

/// The data of the event that ends a stream of completions: `[DONE]`.
pub open spec fn done_marker() -> Seq<u8> {
    seq![0x5bu8, 0x44u8, 0x4fu8, 0x4eu8, 0x45u8, 0x5du8]
}

/// The text in a completion event.
pub open spec fn completion_delta(v: JsonView) -> Option<Seq<char>> {
    then_text(
        then_member(
            then_member(then_item(v.member("choices"@), 0), "delta"@),
            "content"@,
        ),
    )
}

/// The text in a message event.
pub open spec fn message_delta(v: JsonView) -> Option<Seq<char>> {
    then_text(then_member(v.member("delta"@), "text"@))
}

/// The text in an event, if it has any.
pub open spec fn delta_text(data: Seq<u8>) -> Option<Seq<char>> {
    if data == done_marker() {
        None
    } else {
        match json_of_bytes(data) {
            None => None,
            Some(v) => match completion_delta(v) {
                Some(text) => Some(text),
                None => message_delta(v),
            },
        }
    }
}

fn is_done_marker(data: &[u8]) -> (r: bool)
    ensures
        r == (data@ == done_marker()),
{
    if data.len() == 6 && data[0] == 0x5b && data[1] == 0x44 && data[2] == 0x4f && data[3] == 0x4e
        && data[4] == 0x45 && data[5] == 0x5d {
        assert(data@ =~= done_marker());
        true
    } else {
        false
    }
}

/// The text that a parsed event holds.
pub fn text_delta(v: &Json) -> (r: Option<String>)
    ensures
        match (completion_delta(v@), message_delta(v@)) {
            (Some(text), _) => r matches Some(s) && s@ == text,
            (None, Some(text)) => r matches Some(s) && s@ == text,
            (None, None) => r is None,
        },
{
    if let Some(choices) = v.get("choices") {
        if let Some(choice) = choices.get_index(0) {
            if let Some(delta) = choice.get("delta") {
                if let Some(content) = delta.get("content") {
                    if let Some(text) = content.as_str() {
                        return Some(text.to_owned());
                    }
                }
            }
        }
    }
    if let Some(delta) = v.get("delta") {
        if let Some(content) = delta.get("text") {
            if let Some(text) = content.as_str() {
                return Some(text.to_owned());
            }
        }
    }
    None
}

/// The text in the data of an event, if it has any: that of a completion, or that of a message.
pub fn extract_text_delta(data: &[u8]) -> (r: Option<String>)
    ensures
        match r {
            Some(text) => delta_text(data@) == Some(text@),
            None => delta_text(data@) is None,
        },
{
    if is_done_marker(data) {
        return None;
    }
    match parse_json(data) {
        Some(v) => text_delta(&v),
        None => None,
    }
}

/// What is left of decoding: the decoder, the bytes that it has not taken, and the text that has
/// come out.
pub ghost struct SseRun {
    pub decoder: tokio_sse_codec::SseDecoder<bytes::Bytes>,
    pub rest: Seq<u8>,
    pub text: Seq<char>,
}

/// The text that an item holds.
pub open spec fn item_text(item: SseItemView) -> Seq<char> {
    match item {
        SseItemView::Event(data) => match delta_text(data) {
            Some(text) => text,
            None => Seq::empty(),
        },
        _ => Seq::empty(),
    }
}

/// Decoding what has come in. Bytes that cannot be decoded are dropped, and decoding starts
/// anew.
pub open spec fn sse_run(
    d: tokio_sse_codec::SseDecoder<bytes::Bytes>,
    src: Seq<u8>,
    limit: nat,
) -> SseRun
    decreases src.len(),
{
    let (next, rest, item) = sse_decoded(d, src);
    match item {
        SseItemView::NeedMore => SseRun { decoder: next, rest, text: Seq::empty() },
        SseItemView::Failed => SseRun {
            decoder: sse_fresh(limit),
            rest: Seq::empty(),
            text: Seq::empty(),
        },
        _ => if rest.len() < src.len() {
            let run = sse_run(next, rest, limit);
            SseRun { text: item_text(item) + run.text, ..run }
        } else {
            SseRun { decoder: next, rest, text: Seq::empty() }
        },
    }
}

/// Decoding the end of a stream. Bytes that cannot be decoded are dropped.
pub open spec fn sse_run_eof(
    d: tokio_sse_codec::SseDecoder<bytes::Bytes>,
    src: Seq<u8>,
) -> SseRun
    decreases src.len(),
{
    let (next, rest, item) = sse_decoded_eof(d, src);
    match item {
        SseItemView::NeedMore => SseRun { decoder: next, rest, text: Seq::empty() },
        SseItemView::Failed => SseRun { decoder: next, rest: Seq::empty(), text: Seq::empty() },
        _ => if rest.len() < src.len() {
            let run = sse_run_eof(next, rest);
            SseRun { text: item_text(item) + run.text, ..run }
        } else {
            SseRun { decoder: next, rest, text: Seq::empty() }
        },
    }
}

/// What a guarded body is doing.
#[derive(Debug)]
pub enum GuardedBodyState {
    /// Reading from the upstream, and holding the frames back.
    Buffering,
    /// Waiting for the guardrails. `eof` says whether the upstream has ended.
    Evaluating { eof: bool },
    /// Letting frames go.
    Flushing { queue: VecDeque<bytes::Bytes>, eof: bool },
    /// About to send the error event.
    Blocked,
    /// Nothing more.
    Done,
}

/// A body that is held back until the guardrails have looked at its text.
pub struct GuardedSseBody {
    pub eval_threshold: usize,
    pub buffer_limit: usize,
    /// The frames that are held back.
    pub held_frames: Vec<bytes::Bytes>,
    pub held_bytes: usize,
    /// The text of the held frames that has not been looked at.
    pub pending_text: String,
    /// The end of the text that has been looked at.
    pub overlap_tail: String,
    pub sse_decoder: tokio_sse_codec::SseDecoder<bytes::Bytes>,
    pub decode_buffer: bytes::BytesMut,
    pub state: GuardedBodyState,
}

/// What a guarded body needs or gives next.
#[derive(Debug)]
pub enum GuardedStep {
    /// A frame for the client.
    Frame(bytes::Bytes),
    /// The end of the body.
    End,
    /// The next frame of the upstream is to be read.
    Read,
    /// The guardrails are to be waited for.
    Wait,
}

/// The event that a client gets in place of a blocked text.
pub open spec fn blocked_event() -> Seq<char> {
    "data: {\"error\":{\"type\":\"guardrail_blocked\",\"code\":\"guardrail_intervention\",\"message\":\"Content blocked by guardrail policy\"}}\n\n"@
}

/// The bytes of the event that a client gets in place of a blocked text.
pub fn guardrail_blocked_sse_bytes() -> (r: bytes::Bytes)
    ensures
        held(r) == vstd::utf8::encode_utf8(blocked_event()),
{
    bytes_copy(
        "data: {\"error\":{\"type\":\"guardrail_blocked\",\"code\":\"guardrail_intervention\",\"message\":\"Content blocked by guardrail policy\"}}\n\n".as_bytes(),
    )
}

/// The number of bytes of frames.
pub open spec fn total_len(frames: Seq<bytes::Bytes>) -> nat
    decreases frames.len(),
{
    if frames.len() == 0 {
        0
    } else {
        total_len(frames.drop_last()) + held(frames.last()).len()
    }
}

/// What a guarded body is doing, as plain values.
#[verifier::ext_equal]
pub ghost enum PhaseView {
    Buffering,
    Evaluating { eof: bool },
    Flushing { queue: Seq<bytes::Bytes>, eof: bool },
    Blocked,
    Done,
}

/// A guarded body, as plain values.
#[verifier::ext_equal]
pub ghost struct BodyView {
    pub threshold: nat,
    pub limit: nat,
    pub held: Seq<bytes::Bytes>,
    pub pending: Seq<char>,
    pub overlap: Seq<char>,
    pub decoder: tokio_sse_codec::SseDecoder<bytes::Bytes>,
    pub buffer: Seq<u8>,
    pub phase: PhaseView,
}

/// What a guarded body needs or gives next, as plain values.
pub ghost enum StepView {
    Frame(Seq<u8>),
    End,
    Read,
    Wait,
}

impl View for GuardedStep {
    type V = StepView;

    open spec fn view(&self) -> StepView {
        match *self {
            GuardedStep::Frame(frame) => StepView::Frame(held(frame)),
            GuardedStep::End => StepView::End,
            GuardedStep::Read => StepView::Read,
            GuardedStep::Wait => StepView::Wait,
        }
    }
}

impl View for GuardedBodyState {
    type V = PhaseView;

    open spec fn view(&self) -> PhaseView {
        match *self {
            GuardedBodyState::Buffering => PhaseView::Buffering,
            GuardedBodyState::Evaluating { eof } => PhaseView::Evaluating { eof },
            GuardedBodyState::Flushing { queue, eof } => PhaseView::Flushing {
                queue: queue@,
                eof,
            },
            GuardedBodyState::Blocked => PhaseView::Blocked,
            GuardedBodyState::Done => PhaseView::Done,
        }
    }
}

impl View for GuardedSseBody {
    type V = BodyView;

    open spec fn view(&self) -> BodyView {
        BodyView {
            threshold: self.eval_threshold as nat,
            limit: self.buffer_limit as nat,
            held: self.held_frames@,
            pending: self.pending_text@,
            overlap: self.overlap_tail@,
            decoder: self.sse_decoder,
            buffer: held_mut(self.decode_buffer),
            phase: self.state@,
        }
    }
}

/// A body of which nothing has come in.
pub open spec fn fresh_body(limit: nat, threshold: nat) -> BodyView {
    BodyView {
        threshold,
        limit,
        held: Seq::empty(),
        pending: Seq::empty(),
        overlap: Seq::empty(),
        decoder: sse_fresh(limit),
        buffer: Seq::empty(),
        phase: PhaseView::Buffering,
    }
}

/// What a guarded body needs or gives next, and what becomes of it: frames that are let go come
/// one by one, and a blocked body ends with the error event.
pub open spec fn polled(v: BodyView) -> (BodyView, StepView) {
    match v.phase {
        PhaseView::Flushing { queue, eof } => if queue.len() > 0 {
            (
                BodyView { phase: PhaseView::Flushing { queue: queue.skip(1), eof }, ..v },
                StepView::Frame(held(queue[0])),
            )
        } else if eof {
            (BodyView { phase: PhaseView::Done, ..v }, StepView::End)
        } else {
            (BodyView { phase: PhaseView::Buffering, ..v }, StepView::Read)
        },
        PhaseView::Blocked => (
            BodyView { phase: PhaseView::Done, ..v },
            StepView::Frame(vstd::utf8::encode_utf8(blocked_event())),
        ),
        PhaseView::Done => (v, StepView::End),
        PhaseView::Evaluating { .. } => (v, StepView::Wait),
        PhaseView::Buffering => (v, StepView::Read),
    }
}

/// A guarded body after a frame of the upstream, and the window to have looked at, if there is one:
/// where the batch is large enough, or the held frames are too many. Held frames without any text
/// are let go.
pub open spec fn after_data(v: BodyView, data: bytes::Bytes) -> (BodyView, Option<Seq<char>>) {
    let run = sse_run(v.decoder, v.buffer + held(data), v.limit);
    let text = v.pending + run.text;
    let frames = v.held.push(data);
    let full = text_bytes(text) >= v.threshold || total_len(frames) >= v.limit;
    let base = BodyView { decoder: run.decoder, buffer: run.rest, ..v };
    if !full {
        (BodyView { held: frames, pending: text, ..base }, None)
    } else if text.len() == 0 {
        (
            BodyView {
                held: Seq::empty(),
                pending: text,
                phase: PhaseView::Flushing { queue: frames, eof: false },
                ..base
            },
            None,
        )
    } else {
        let window = v.overlap + text;
        (
            BodyView {
                held: frames,
                pending: Seq::empty(),
                overlap: tail_text(window, OVERLAP_BYTES as nat),
                phase: PhaseView::Evaluating { eof: false },
                ..base
            },
            Some(window),
        )
    }
}

/// A guarded body after the end of the upstream, and the window to have looked at, if there is
/// text left.
pub open spec fn after_end(v: BodyView) -> (BodyView, Option<Seq<char>>) {
    let run = sse_run_eof(v.decoder, v.buffer);
    let text = v.pending + run.text;
    let base = BodyView { decoder: run.decoder, buffer: run.rest, pending: Seq::empty(), ..v };
    if text.len() == 0 {
        (
            BodyView {
                held: Seq::empty(),
                phase: PhaseView::Flushing { queue: v.held, eof: true },
                ..base
            },
            None,
        )
    } else {
        (
            BodyView {
                overlap: Seq::empty(),
                phase: PhaseView::Evaluating { eof: true },
                ..base
            },
            Some(v.overlap + text),
        )
    }
}

/// A guarded body after the guardrails have looked at its window: its held frames are let go, or
/// discarded.
pub open spec fn after_verdict(v: BodyView, blocked: bool) -> BodyView {
    match v.phase {
        PhaseView::Evaluating { eof } => BodyView {
            held: Seq::empty(),
            phase: if blocked {
                PhaseView::Blocked
            } else {
                PhaseView::Flushing { queue: v.held, eof }
            },
            ..v
        },
        _ => v,
    }
}

/// Whether an optional text has a value.
pub open spec fn is_text(r: Option<String>, expected: Option<Seq<char>>) -> bool {
    match r {
        Some(text) => expected == Some(text@),
        None => expected is None,
    }
}

fn queue_of(frames: Vec<bytes::Bytes>) -> (r: VecDeque<bytes::Bytes>)
    ensures
        r@ == frames@,
{
    let ghost all = frames@;
    let mut queue: VecDeque<bytes::Bytes> = VecDeque::new();
    for frame in it: frames
        invariant
            it.seq() == all,
            queue@ == all.take(it.index()),
    {
        queue.push_back(frame);
    }
    assert(all.take(all.len() as int) =~= all);
    queue
}

impl GuardedSseBody {
    /// What every guarded body keeps: it knows how many bytes it holds, its decoder has looked at
    /// no more than has not been taken, and while frames are on their way none is held back and
    /// no text has not been looked at.
    pub open spec fn wf(self) -> bool {
        &&& self.buffer_limit > 7
        &&& self.held_bytes == total_len(self.held_frames@)
        &&& match self.state {
            GuardedBodyState::Buffering => sse_scanned(self.sse_decoder) <= held_mut(
                self.decode_buffer,
            ).len(),
            GuardedBodyState::Evaluating { eof } => self.pending_text@.len() == 0 && (!eof
                ==> sse_scanned(self.sse_decoder) <= held_mut(self.decode_buffer).len()),
            GuardedBodyState::Flushing { eof, .. } => self.held_frames@.len() == 0
                && self.pending_text@.len() == 0 && (!eof ==> sse_scanned(self.sse_decoder)
                <= held_mut(self.decode_buffer).len()),
            GuardedBodyState::Blocked => self.held_frames@.len() == 0,
            GuardedBodyState::Done => self.held_frames@.len() == 0,
        }
    }

    /// A body of which nothing has come in, that has its text looked at in batches of the usual
    /// size.
    pub fn new(buffer_limit: usize) -> (r: Self)
        requires
            buffer_limit > 7,
        ensures
            r.wf(),
            r@ == fresh_body(buffer_limit as nat, DEFAULT_EVAL_THRESHOLD as nat),
    {
        Self::with_threshold(buffer_limit, DEFAULT_EVAL_THRESHOLD)
    }

    /// A body of which nothing has come in, that has its text looked at in batches of at least
    /// `eval_threshold` bytes.
    pub fn with_threshold(buffer_limit: usize, eval_threshold: usize) -> (r: Self)
        requires
            buffer_limit > 7,
        ensures
            r.wf(),
            r@ == fresh_body(buffer_limit as nat, eval_threshold as nat),
    {
        let r = GuardedSseBody {
            eval_threshold,
            buffer_limit,
            held_frames: Vec::new(),
            held_bytes: 0,
            pending_text: String::new(),
            overlap_tail: String::new(),
            sse_decoder: sse_new(buffer_limit),
            decode_buffer: buffer_new(),
            state: GuardedBodyState::Buffering,
        };
        assert(r@ =~= fresh_body(buffer_limit as nat, eval_threshold as nat));
        r
    }

    /// What comes next.
    pub fn poll_frame(&mut self) -> (r: GuardedStep)
        requires
            old(self).wf(),
        ensures
            final(self).wf(),
            (final(self)@, r@) == polled(old(self)@),
    {
        let mut state = GuardedBodyState::Done;
        std::mem::swap(&mut self.state, &mut state);
        match state {
            GuardedBodyState::Flushing { queue, eof } => {
                let mut queue = queue;
                match queue.pop_front() {
                    Some(frame) => {
                        self.state = GuardedBodyState::Flushing { queue, eof };
                        GuardedStep::Frame(frame)
                    },
                    None => {
                        if eof {
                            GuardedStep::End
                        } else {
                            self.state = GuardedBodyState::Buffering;
                            GuardedStep::Read
                        }
                    },
                }
            },
            GuardedBodyState::Blocked => GuardedStep::Frame(guardrail_blocked_sse_bytes()),
            GuardedBodyState::Done => GuardedStep::End,
            GuardedBodyState::Evaluating { eof } => {
                self.state = GuardedBodyState::Evaluating { eof };
                GuardedStep::Wait
            },
            GuardedBodyState::Buffering => {
                self.state = GuardedBodyState::Buffering;
                GuardedStep::Read
            },
        }
    }

    /// Gathers the text of what has come in.
    fn decode(&mut self)
        requires
            old(self).buffer_limit > 7,
            sse_scanned(old(self).sse_decoder) <= held_mut(old(self).decode_buffer).len(),
        ensures
            sse_scanned(final(self).sse_decoder) <= held_mut(final(self).decode_buffer).len(),
            ({
                let run = sse_run(
                    old(self).sse_decoder,
                    held_mut(old(self).decode_buffer),
                    old(self).buffer_limit as nat,
                );
                &&& final(self).pending_text@ == old(self).pending_text@ + run.text
                &&& final(self).sse_decoder == run.decoder
                &&& held_mut(final(self).decode_buffer) == run.rest
            }),
            final(self).eval_threshold == old(self).eval_threshold,
            final(self).buffer_limit == old(self).buffer_limit,
            final(self).held_frames == old(self).held_frames,
            final(self).held_bytes == old(self).held_bytes,
            final(self).overlap_tail == old(self).overlap_tail,
            final(self).state == old(self).state,
    {
        let ghost limit = self.buffer_limit as nat;
        let ghost d0 = self.sse_decoder;
        let ghost b0 = held_mut(self.decode_buffer);
        let ghost t0 = self.pending_text@;
        let ghost total = sse_run(d0, b0, limit);
        assert(self.pending_text@ + total.text =~= t0 + total.text);
        loop
            invariant
                self.buffer_limit > 7,
                limit == self.buffer_limit as nat,
                sse_scanned(self.sse_decoder) <= held_mut(self.decode_buffer).len(),
                self.pending_text@ + sse_run(
                    self.sse_decoder,
                    held_mut(self.decode_buffer),
                    limit,
                ).text == t0 + total.text,
                sse_run(self.sse_decoder, held_mut(self.decode_buffer), limit).decoder
                    == total.decoder,
                sse_run(self.sse_decoder, held_mut(self.decode_buffer), limit).rest == total.rest,
                total == sse_run(
                    old(self).sse_decoder,
                    held_mut(old(self).decode_buffer),
                    old(self).buffer_limit as nat,
                ),
                t0 == old(self).pending_text@,
                self.eval_threshold == old(self).eval_threshold,
                self.buffer_limit == old(self).buffer_limit,
                self.held_frames == old(self).held_frames,
                self.held_bytes == old(self).held_bytes,
                self.overlap_tail == old(self).overlap_tail,
                self.state == old(self).state,
            decreases held_mut(self.decode_buffer).len(),
        {
            let ghost d = self.sse_decoder;
            let ghost b = held_mut(self.decode_buffer);
            let ghost t = self.pending_text@;
            let ghost run = sse_run(d, b, limit);
            match sse_decode(&mut self.sse_decoder, &mut self.decode_buffer) {
                SseItem::Event(data) => {
                    let bytes = bytes_to_vec(&data);
                    if let Some(delta) = extract_text_delta(bytes.as_slice()) {
                        self.pending_text.append(delta.as_str());
                    }
                    proof {
                        let after = sse_run(self.sse_decoder, held_mut(self.decode_buffer), limit);
                        let text = item_text(SseItemView::Event(held(data)));
                        assert(self.pending_text@ =~= t + text);
                        assert(t + text + after.text =~= t + (text + after.text));
                    }
                },
                SseItem::Other => {
                    proof {
                        let after = sse_run(self.sse_decoder, held_mut(self.decode_buffer), limit);
                        assert(run.text =~= after.text);
                    }
                },
                SseItem::NeedMore => {
                    assert(t + Seq::<char>::empty() =~= t);
                    return ;
                },
                SseItem::Failed => {
                    buffer_clear(&mut self.decode_buffer);
                    self.sse_decoder = sse_new(self.buffer_limit);
                    assert(t + Seq::<char>::empty() =~= t);
                    return ;
                },
            }
        }
    }

    /// Gathers the text of what has come in, at the end.
    fn decode_eof(&mut self)
        requires
            sse_scanned(old(self).sse_decoder) <= held_mut(old(self).decode_buffer).len(),
        ensures
            ({
                let run = sse_run_eof(old(self).sse_decoder, held_mut(old(self).decode_buffer));
                &&& final(self).pending_text@ == old(self).pending_text@ + run.text
                &&& final(self).sse_decoder == run.decoder
                &&& held_mut(final(self).decode_buffer) == run.rest
            }),
            final(self).eval_threshold == old(self).eval_threshold,
            final(self).buffer_limit == old(self).buffer_limit,
            final(self).held_frames == old(self).held_frames,
            final(self).held_bytes == old(self).held_bytes,
            final(self).overlap_tail == old(self).overlap_tail,
            final(self).state == old(self).state,
    {
        let ghost t0 = self.pending_text@;
        let ghost total = sse_run_eof(self.sse_decoder, held_mut(self.decode_buffer));
        assert(self.pending_text@ + total.text =~= t0 + total.text);
        loop
            invariant
                sse_scanned(self.sse_decoder) <= held_mut(self.decode_buffer).len(),
                self.pending_text@ + sse_run_eof(
                    self.sse_decoder,
                    held_mut(self.decode_buffer),
                ).text == t0 + total.text,
                sse_run_eof(self.sse_decoder, held_mut(self.decode_buffer)).decoder
                    == total.decoder,
                sse_run_eof(self.sse_decoder, held_mut(self.decode_buffer)).rest == total.rest,
                total == sse_run_eof(old(self).sse_decoder, held_mut(old(self).decode_buffer)),
                t0 == old(self).pending_text@,
                self.eval_threshold == old(self).eval_threshold,
                self.buffer_limit == old(self).buffer_limit,
                self.held_frames == old(self).held_frames,
                self.held_bytes == old(self).held_bytes,
                self.overlap_tail == old(self).overlap_tail,
                self.state == old(self).state,
            decreases held_mut(self.decode_buffer).len(),
        {
            let ghost t = self.pending_text@;
            let ghost run = sse_run_eof(self.sse_decoder, held_mut(self.decode_buffer));
            match sse_decode_eof(&mut self.sse_decoder, &mut self.decode_buffer) {
                SseItem::Event(data) => {
                    let bytes = bytes_to_vec(&data);
                    if let Some(delta) = extract_text_delta(bytes.as_slice()) {
                        self.pending_text.append(delta.as_str());
                    }
                    proof {
                        let after = sse_run_eof(self.sse_decoder, held_mut(self.decode_buffer));
                        let text = item_text(SseItemView::Event(held(data)));
                        assert(self.pending_text@ =~= t + text);
                        assert(t + text + after.text =~= t + (text + after.text));
                    }
                },
                SseItem::Other => {
                    proof {
                        let after = sse_run_eof(self.sse_decoder, held_mut(self.decode_buffer));
                        assert(run.text =~= after.text);
                    }
                },
                SseItem::NeedMore => {
                    assert(t + Seq::<char>::empty() =~= t);
                    return ;
                },
                SseItem::Failed => {
                    buffer_clear(&mut self.decode_buffer);
                    assert(t + Seq::<char>::empty() =~= t);
                    return ;
                },
            }
        }
    }

    /// Lets the held frames go.
    fn flush(&mut self, eof: bool)
        ensures
            final(self).state matches GuardedBodyState::Flushing { queue, eof: e } && queue@ == old(
                self,
            ).held_frames@ && e == eof,
            final(self).held_frames@.len() == 0,
            final(self).held_bytes == 0,
            final(self).pending_text == old(self).pending_text,
            final(self).overlap_tail == old(self).overlap_tail,
            final(self).sse_decoder == old(self).sse_decoder,
            final(self).decode_buffer == old(self).decode_buffer,
            final(self).eval_threshold == old(self).eval_threshold,
            final(self).buffer_limit == old(self).buffer_limit,
    {
        let mut frames: Vec<bytes::Bytes> = Vec::new();
        std::mem::swap(&mut self.held_frames, &mut frames);
        self.held_bytes = 0;
        self.state = GuardedBodyState::Flushing { queue: queue_of(frames), eof };
    }

    /// Takes the gathered text out as a window.
    fn take_window(&mut self) -> (r: String)
        ensures
            r@ == old(self).overlap_tail@ + old(self).pending_text@,
            final(self).pending_text@.len() == 0,
            final(self).overlap_tail == old(self).overlap_tail,
            final(self).held_frames == old(self).held_frames,
            final(self).held_bytes == old(self).held_bytes,
            final(self).sse_decoder == old(self).sse_decoder,
            final(self).decode_buffer == old(self).decode_buffer,
            final(self).eval_threshold == old(self).eval_threshold,
            final(self).buffer_limit == old(self).buffer_limit,
            final(self).state == old(self).state,
    {
        let window = self.overlap_tail.clone().concat(self.pending_text.as_str());
        self.pending_text = String::new();
        window
    }

    /// Takes in a frame of the upstream. Where that makes the batch large enough, or the held
    /// frames too many, hands out a window to have looked at; held frames without any text are
    /// let go instead.
    pub fn on_data(&mut self, data: bytes::Bytes) -> (r: Option<String>)
        requires
            old(self).wf(),
            old(self).state is Buffering,
            old(self).held_bytes + held(data).len() <= usize::MAX,
        ensures
            final(self).wf(),
            final(self)@ == after_data(old(self)@, data).0,
            is_text(r, after_data(old(self)@, data).1),
    {
        let raw = bytes_to_vec(&data);
        let n: usize = bytes_len(&data);
        self.held_bytes = self.held_bytes + n;
        self.held_frames.push(data);
        assert(self.held_frames@.drop_last() =~= old(self).held_frames@);
        buffer_extend(&mut self.decode_buffer, raw.as_slice());
        self.decode();
        let over_limit = self.held_bytes >= self.buffer_limit;
        if byte_len(self.pending_text.as_str()) >= self.eval_threshold || over_limit {
            if self.pending_text.as_str().is_empty() {
                self.flush(false);
                assert(self@ =~= after_data(old(self)@, data).0);
                return None;
            }
            let window = self.take_window();
            self.overlap_tail = tail_chars(window.as_str(), OVERLAP_BYTES).to_owned();
            self.state = GuardedBodyState::Evaluating { eof: false };
            assert(self@ =~= after_data(old(self)@, data).0);
            return Some(window);
        }
        assert(self@ =~= after_data(old(self)@, data).0);
        None
    }

    /// Takes in the end of the upstream. Hands out a window to have looked at, or lets the held
    /// frames go where there is no text left.
    pub fn on_end(&mut self) -> (r: Option<String>)
        requires
            old(self).wf(),
            old(self).state is Buffering,
        ensures
            final(self).wf(),
            final(self)@ == after_end(old(self)@).0,
            is_text(r, after_end(old(self)@).1),
    {
        self.decode_eof();
        if self.pending_text.as_str().is_empty() {
            self.flush(true);
            assert(self@ =~= after_end(old(self)@).0);
            return None;
        }
        let window = self.take_window();
        self.overlap_tail = String::new();
        self.state = GuardedBodyState::Evaluating { eof: true };
        assert(self@ =~= after_end(old(self)@).0);
        Some(window)
    }

    /// Takes in what the guardrails say about the window.
    pub fn on_verdict(&mut self, blocked: bool)
        requires
            old(self).wf(),
            old(self).state is Evaluating,
        ensures
            final(self).wf(),
            final(self)@ == after_verdict(old(self)@, blocked),
    {
        let eof = match &self.state {
            GuardedBodyState::Evaluating { eof } => *eof,
            _ => false,
        };
        if blocked {
            self.held_frames = Vec::new();
            self.held_bytes = 0;
            self.state = GuardedBodyState::Blocked;
        } else {
            self.flush(eof);
        }
        assert(self@ =~= after_verdict(old(self)@, blocked));
    }
}

} // verus!
