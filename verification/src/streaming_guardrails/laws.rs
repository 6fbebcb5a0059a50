//! What holds of a guarded body over all that happens to it.

use vstd::prelude::*;

#[allow(unused_imports)]
use crate::byte_buffers::held;
#[allow(unused_imports)]
use crate::json::{json_of_bytes, JsonView};
#[allow(unused_imports)]
use crate::sse::{sse_decoded, sse_decoded_eof, sse_fresh, SseItemView};
#[allow(unused_imports)]
use crate::streaming_guardrails::body::{
    after_data, after_end, after_verdict, blocked_event, delta_text, done_marker, fresh_body,
    polled, sse_run, sse_run_eof, total_len, BodyView, PhaseView, StepView,
};
#[allow(unused_imports)]
use crate::streaming_guardrails::window::{
    law_tail_ends_the_text, law_tail_of_all_text, law_window_holds_patterns_on_the_border,
    lemma_encode_append, tail_text, text_bytes, OVERLAP_BYTES,
};

verus! {

/// Something that happens to a guarded body.
pub ghost enum BodyInput {
    /// It is asked what comes next.
    Poll,
    /// A frame of the upstream comes in.
    Data(bytes::Bytes),
    /// The upstream ends.
    End,
    /// The guardrails have looked at its window.
    Verdict(bool),
}

/// Whether something may happen to a guarded body: frames and the end come while it reads, and a
/// verdict comes while it waits.
pub open spec fn may_happen(v: BodyView, input: BodyInput) -> bool {
    match input {
        BodyInput::Poll => true,
        BodyInput::Data(_) => v.phase is Buffering,
        BodyInput::End => v.phase is Buffering,
        BodyInput::Verdict(_) => v.phase is Evaluating,
    }
}

/// A guarded body after something has happened to it.
pub open spec fn happened(v: BodyView, input: BodyInput) -> BodyView {
    match input {
        BodyInput::Poll => polled(v).0,
        BodyInput::Data(data) => after_data(v, data).0,
        BodyInput::End => after_end(v).0,
        BodyInput::Verdict(blocked) => after_verdict(v, blocked),
    }
}

/// A guarded body after things have happened to it.
pub open spec fn all_happened(v: BodyView, inputs: Seq<BodyInput>) -> BodyView
    decreases inputs.len(),
{
    if inputs.len() == 0 {
        v
    } else {
        happened(all_happened(v, inputs.drop_last()), inputs.last())
    }
}

/// Whether things may happen to a guarded body, one after the other.
pub open spec fn all_may_happen(v: BodyView, inputs: Seq<BodyInput>) -> bool
    decreases inputs.len(),
{
    inputs.len() == 0 || (all_may_happen(v, inputs.drop_last()) && may_happen(
        all_happened(v, inputs.drop_last()),
        inputs.last(),
    ))
}

/// What the client has got while things happened.
pub open spec fn delivered(v: BodyView, inputs: Seq<BodyInput>) -> Seq<Seq<u8>>
    decreases inputs.len(),
{
    if inputs.len() == 0 {
        Seq::empty()
    } else {
        let before = delivered(v, inputs.drop_last());
        match inputs.last() {
            BodyInput::Poll => match polled(all_happened(v, inputs.drop_last())).1 {
                StepView::Frame(frame) => before.push(frame),
                _ => before,
            },
            _ => before,
        }
    }
}

/// What has come in from the upstream.
pub open spec fn received(inputs: Seq<BodyInput>) -> Seq<Seq<u8>>
    decreases inputs.len(),
{
    if inputs.len() == 0 {
        Seq::empty()
    } else {
        let before = received(inputs.drop_last());
        match inputs.last() {
            BodyInput::Data(data) => before.push(held(data)),
            _ => before,
        }
    }
}

/// Whether the guardrails have blocked a window.
pub open spec fn was_blocked(inputs: Seq<BodyInput>) -> bool {
    exists|i: int| 0 <= i < inputs.len() && #[trigger] inputs[i] == BodyInput::Verdict(true)
}

/// The bytes of frames.
pub open spec fn frame_bytes(frames: Seq<bytes::Bytes>) -> Seq<Seq<u8>> {
    frames.map_values(|f: bytes::Bytes| held(f))
}

/// What has come in and may still be given to the client, in order.
pub open spec fn undelivered(v: BodyView) -> Seq<Seq<u8>> {
    match v.phase {
        PhaseView::Flushing { queue, .. } => frame_bytes(queue) + frame_bytes(v.held),
        _ => frame_bytes(v.held),
    }
}

/// What every guarded body keeps: while frames are on their way to the client none is held back,
/// and when it is over none is left.
pub open spec fn orderly(v: BodyView) -> bool {
    match v.phase {
        PhaseView::Flushing { .. } => v.held.len() == 0 && v.pending.len() == 0,
        PhaseView::Evaluating { .. } => v.pending.len() == 0,
        PhaseView::Blocked => v.held.len() == 0,
        PhaseView::Done => v.held.len() == 0,
        PhaseView::Buffering => true,
    }
}

proof fn lemma_orderly(v: BodyView, inputs: Seq<BodyInput>)
    requires
        orderly(v),
        all_may_happen(v, inputs),
    ensures
        orderly(all_happened(v, inputs)),
    decreases inputs.len(),
{
    if inputs.len() > 0 {
        lemma_orderly(v, inputs.drop_last());
    }
}

proof fn lemma_blocked_before(inputs: Seq<BodyInput>)
    requires
        inputs.len() > 0,
    ensures
        was_blocked(inputs) == (was_blocked(inputs.drop_last()) || inputs.last()
            == BodyInput::Verdict(true)),
{
    let before = inputs.drop_last();
    if was_blocked(before) {
        let i = choose|i: int|
            0 <= i < before.len() && #[trigger] before[i] == BodyInput::Verdict(true);
        assert(inputs[i] == BodyInput::Verdict(true));
    }
    if inputs.last() == BodyInput::Verdict(true) {
        assert(inputs[inputs.len() - 1] == BodyInput::Verdict(true));
    }
    if was_blocked(inputs) {
        let i = choose|i: int|
            0 <= i < inputs.len() && #[trigger] inputs[i] == BodyInput::Verdict(true);
        if i < before.len() {
            assert(before[i] == BodyInput::Verdict(true));
        }
    }
}

/// Nothing is lost, added or reordered: as long as no window is blocked, what the client has got
/// and what it may still get is exactly what has come in.
pub proof fn law_passed_frames_are_kept(limit: nat, threshold: nat, inputs: Seq<BodyInput>)
    requires
        all_may_happen(fresh_body(limit, threshold), inputs),
        !was_blocked(inputs),
    ensures
        ({
            let v = fresh_body(limit, threshold);
            let after = all_happened(v, inputs);
            &&& delivered(v, inputs) + undelivered(after) == received(inputs)
            &&& after.phase is Done ==> delivered(v, inputs) == received(inputs)
            &&& !(after.phase is Blocked)
        }),
    decreases inputs.len(),
{
    let v = fresh_body(limit, threshold);
    let after = all_happened(v, inputs);
    if inputs.len() == 0 {
        assert(delivered(v, inputs) + undelivered(after) =~= received(inputs));
    } else {
        let start = inputs.drop_last();
        lemma_blocked_before(inputs);
        law_passed_frames_are_kept(limit, threshold, start);
        lemma_orderly(v, start);
        lemma_orderly(v, inputs);
        let mid = all_happened(v, start);
        match inputs.last() {
            BodyInput::Poll => {
                if let PhaseView::Flushing { queue, eof } = mid.phase {
                    if queue.len() > 0 {
                        assert(frame_bytes(queue) =~= seq![held(queue[0])] + frame_bytes(
                            queue.skip(1),
                        ));
                    }
                }
            },
            BodyInput::Data(data) => {
                assert(frame_bytes(mid.held.push(data)) =~= frame_bytes(mid.held).push(held(data)));
            },
            BodyInput::End => {},
            BodyInput::Verdict(_) => {},
        }
        assert(delivered(v, inputs) + undelivered(after) =~= received(inputs));
    }
    lemma_orderly(v, inputs);
    if after.phase is Done {
        assert(undelivered(after) =~= Seq::empty());
        assert(delivered(v, inputs) =~= received(inputs));
    }
}

/// Once a window is blocked, the client has got what was let go before, and after that at most the
/// error event: nothing of what was held back, and nothing that comes later.
pub proof fn law_blocked_frames_are_discarded(
    limit: nat,
    threshold: nat,
    inputs: Seq<BodyInput>,
) -> (n: int)
    requires
        all_may_happen(fresh_body(limit, threshold), inputs),
        was_blocked(inputs),
    ensures
        ({
            let v = fresh_body(limit, threshold);
            let after = all_happened(v, inputs);
            let event = vstd::utf8::encode_utf8(blocked_event());
            &&& 0 <= n <= received(inputs).len()
            &&& undelivered(after).len() == 0
            &&& if after.phase is Blocked {
                delivered(v, inputs) == received(inputs).take(n)
            } else {
                after.phase is Done && delivered(v, inputs) == received(inputs).take(n).push(event)
            }
        }),
    decreases inputs.len(),
{
    let v = fresh_body(limit, threshold);
    let after = all_happened(v, inputs);
    let start = inputs.drop_last();
    let mid = all_happened(v, start);
    lemma_blocked_before(inputs);
    lemma_orderly(v, inputs);
    lemma_orderly(v, start);
    if was_blocked(start) {
        let m = law_blocked_frames_are_discarded(limit, threshold, start);
        assert(received(inputs) == received(start));
        m
    } else {
        law_passed_frames_are_kept(limit, threshold, start);
        let n = delivered(v, start).len() as int;
        assert(delivered(v, inputs) == delivered(v, start));
        assert(received(inputs) == received(start));
        assert(delivered(v, start) =~= received(start).take(n));
        n
    }
}

/// The text that has been gathered while things happened.
pub open spec fn gathered(v: BodyView, inputs: Seq<BodyInput>) -> Seq<char>
    decreases inputs.len(),
{
    if inputs.len() == 0 {
        Seq::empty()
    } else {
        let start = inputs.drop_last();
        let mid = all_happened(v, start);
        gathered(v, start) + match inputs.last() {
            BodyInput::Data(data) => sse_run(mid.decoder, mid.buffer + held(data), mid.limit).text,
            BodyInput::End => sse_run_eof(mid.decoder, mid.buffer).text,
            _ => Seq::empty(),
        }
    }
}

/// The window that something makes a guarded body hand out, if it does.
pub open spec fn window_of(v: BodyView, input: BodyInput) -> Option<Seq<char>> {
    match input {
        BodyInput::Data(data) => after_data(v, data).1,
        BodyInput::End => after_end(v).1,
        _ => None,
    }
}

/// Whether the upstream has ended.
pub open spec fn has_ended(inputs: Seq<BodyInput>) -> bool {
    exists|i: int| 0 <= i < inputs.len() && #[trigger] inputs[i] == BodyInput::End
}

proof fn lemma_overlap(limit: nat, threshold: nat, inputs: Seq<BodyInput>)
    requires
        all_may_happen(fresh_body(limit, threshold), inputs),
        !has_ended(inputs),
    ensures
        ({
            let v = fresh_body(limit, threshold);
            let after = all_happened(v, inputs);
            let all = gathered(v, inputs);
            let seen = all.take(all.len() - after.pending.len());
            &&& after.pending.len() <= all.len()
            &&& all == seen + after.pending
            &&& after.overlap == tail_text(seen, OVERLAP_BYTES as nat)
        }),
    decreases inputs.len(),
{
    let v = fresh_body(limit, threshold);
    let after = all_happened(v, inputs);
    let all = gathered(v, inputs);
    let seen = all.take(all.len() - after.pending.len());
    let max = OVERLAP_BYTES as nat;
    if inputs.len() == 0 {
        assert(all =~= seen + after.pending);
        assert(seen =~= Seq::empty());
    } else {
        let start = inputs.drop_last();
        assert(!has_ended(start)) by {
            if has_ended(start) {
                let i = choose|i: int| 0 <= i < start.len() && #[trigger] start[i] == BodyInput::End;
                assert(inputs[i] == BodyInput::End);
            }
        }
        assert(inputs[inputs.len() - 1] == inputs.last());
        lemma_overlap(limit, threshold, start);
        let mid = all_happened(v, start);
        let before = gathered(v, start);
        let seen_before = before.take(before.len() - mid.pending.len());
        match inputs.last() {
            BodyInput::Data(data) => {
                let run = sse_run(mid.decoder, mid.buffer + held(data), mid.limit);
                let text = mid.pending + run.text;
                assert(all =~= seen_before + text);
                if window_of(mid, inputs.last()) is Some {
                    assert(seen =~= all);
                    law_tail_of_all_text(seen_before, text, max);
                } else {
                    assert(seen =~= seen_before);
                }
                assert(all =~= seen + after.pending);
            },
            _ => {
                assert(all =~= before);
                assert(seen =~= seen_before);
            },
        }
    }
}

/// The guardrails see all text: a window holds the text that has not been looked at, all of it,
/// after the end of the text that has been, of up to the overlap.
pub proof fn law_windows_cover_the_text(
    limit: nat,
    threshold: nat,
    inputs: Seq<BodyInput>,
    input: BodyInput,
)
    requires
        all_may_happen(fresh_body(limit, threshold), inputs),
        !has_ended(inputs),
        window_of(all_happened(fresh_body(limit, threshold), inputs), input) is Some,
    ensures
        ({
            let v = fresh_body(limit, threshold);
            let mid = all_happened(v, inputs);
            let before = gathered(v, inputs);
            let seen = before.take(before.len() - mid.pending.len());
            let all = gathered(v, inputs.push(input));
            &&& seen.len() <= all.len()
            &&& all.take(seen.len() as int) == seen
            &&& window_of(mid, input) == Some(
                tail_text(seen, OVERLAP_BYTES as nat) + all.skip(seen.len() as int),
            )
        }),
{
    let v = fresh_body(limit, threshold);
    let mid = all_happened(v, inputs);
    let before = gathered(v, inputs);
    let all = gathered(v, inputs.push(input));
    lemma_overlap(limit, threshold, inputs);
    let seen = before.take(before.len() - mid.pending.len());
    assert(inputs.push(input).drop_last() =~= inputs);
    let run_text = match input {
        BodyInput::Data(data) => sse_run(mid.decoder, mid.buffer + held(data), mid.limit).text,
        BodyInput::End => sse_run_eof(mid.decoder, mid.buffer).text,
        _ => Seq::empty(),
    };
    assert(all =~= before + run_text);
    assert(all.take(seen.len() as int) =~= seen);
    assert(all.skip(seen.len() as int) =~= mid.pending + run_text);
}

/// Text is never let go unseen: while frames are on their way to the client, all text that was
/// gathered has been looked at, and no frame is held back behind them.
pub proof fn law_flushed_text_was_seen(limit: nat, threshold: nat, inputs: Seq<BodyInput>)
    requires
        all_may_happen(fresh_body(limit, threshold), inputs),
        all_happened(fresh_body(limit, threshold), inputs).phase is Flushing,
    ensures
        all_happened(fresh_body(limit, threshold), inputs).pending.len() == 0,
        all_happened(fresh_body(limit, threshold), inputs).held.len() == 0,
{
    lemma_orderly(fresh_body(limit, threshold), inputs);
}

/// The text that a window adds to what has been looked at, where something hands one out.
pub open spec fn batch_of(v: BodyView, input: BodyInput) -> Option<Seq<char>> {
    if window_of(v, input) is Some {
        match input {
            BodyInput::Data(data) => Some(
                v.pending + sse_run(v.decoder, v.buffer + held(data), v.limit).text,
            ),
            BodyInput::End => Some(v.pending + sse_run_eof(v.decoder, v.buffer).text),
            _ => None,
        }
    } else {
        None
    }
}

/// The windows that were handed out while things happened, in order.
pub open spec fn windows(v: BodyView, inputs: Seq<BodyInput>) -> Seq<Seq<char>>
    decreases inputs.len(),
{
    if inputs.len() == 0 {
        Seq::empty()
    } else {
        let start = inputs.drop_last();
        match window_of(all_happened(v, start), inputs.last()) {
            Some(window) => windows(v, start).push(window),
            None => windows(v, start),
        }
    }
}

/// The text that each window added, in order.
pub open spec fn batches(v: BodyView, inputs: Seq<BodyInput>) -> Seq<Seq<char>>
    decreases inputs.len(),
{
    if inputs.len() == 0 {
        Seq::empty()
    } else {
        let start = inputs.drop_last();
        match batch_of(all_happened(v, start), inputs.last()) {
            Some(batch) => batches(v, start).push(batch),
            None => batches(v, start),
        }
    }
}

/// Texts, one after the other.
pub open spec fn concatenated(texts: Seq<Seq<char>>) -> Seq<char>
    decreases texts.len(),
{
    if texts.len() == 0 {
        Seq::empty()
    } else {
        concatenated(texts.drop_last()) + texts.last()
    }
}

/// What a window begins with after `before`: the end of the last of them.
pub open spec fn overlap_after(before: Seq<Seq<char>>) -> Seq<char> {
    if before.len() == 0 {
        Seq::empty()
    } else {
        tail_text(before.last(), OVERLAP_BYTES as nat)
    }
}

/// Whether each window is the end of the one before and then its batch.
pub open spec fn windows_overlap(windows: Seq<Seq<char>>, batches: Seq<Seq<char>>) -> bool {
    &&& windows.len() == batches.len()
    &&& forall|i: int|
        0 <= i < windows.len() ==> #[trigger] windows[i] == overlap_after(windows.take(i))
            + batches[i]
}

/// A window that is the end of the last one and then a batch goes on with the others.
pub proof fn lemma_one_more_window(
    windows: Seq<Seq<char>>,
    batches: Seq<Seq<char>>,
    window: Seq<char>,
    batch: Seq<char>,
)
    requires
        windows_overlap(windows, batches),
        window == overlap_after(windows) + batch,
    ensures
        windows_overlap(windows.push(window), batches.push(batch)),
        concatenated(batches.push(batch)) == concatenated(batches) + batch,
{
    let more = windows.push(window);
    assert forall|i: int| 0 <= i < more.len() implies #[trigger] more[i] == overlap_after(
        more.take(i),
    ) + batches.push(batch)[i] by {
        if i < windows.len() {
            assert(more.take(i) =~= windows.take(i));
            assert(more[i] == windows[i]);
        } else {
            assert(more.take(i) =~= windows);
        }
    }
    assert(batches.push(batch).drop_last() =~= batches);
}

proof fn lemma_ended_before(inputs: Seq<BodyInput>)
    requires
        inputs.len() > 0,
    ensures
        has_ended(inputs) == (has_ended(inputs.drop_last()) || inputs.last() == BodyInput::End),
{
    let before = inputs.drop_last();
    if has_ended(before) {
        let i = choose|i: int| 0 <= i < before.len() && #[trigger] before[i] == BodyInput::End;
        assert(inputs[i] == BodyInput::End);
    }
    if inputs.last() == BodyInput::End {
        assert(inputs[inputs.len() - 1] == BodyInput::End);
    }
    if has_ended(inputs) {
        let i = choose|i: int| 0 <= i < inputs.len() && #[trigger] inputs[i] == BodyInput::End;
        if i < before.len() {
            assert(before[i] == BodyInput::End);
        }
    }
}

/// Whether nothing more can come in.
spec fn is_over(v: BodyView) -> bool {
    &&& v.pending.len() == 0
    &&& match v.phase {
        PhaseView::Buffering => false,
        PhaseView::Evaluating { eof } => eof,
        PhaseView::Flushing { eof, .. } => eof,
        PhaseView::Blocked => true,
        PhaseView::Done => true,
    }
}

/// Each window is the end of the one before, of up to the overlap, and then a batch of new text
/// that is not empty; and the batches, with the text that no window holds yet, are all the text.
pub proof fn law_windows_overlap(limit: nat, threshold: nat, inputs: Seq<BodyInput>)
    requires
        all_may_happen(fresh_body(limit, threshold), inputs),
    ensures
        ({
            let v = fresh_body(limit, threshold);
            let after = all_happened(v, inputs);
            &&& windows_overlap(windows(v, inputs), batches(v, inputs))
            &&& forall|i: int|
                0 <= i < batches(v, inputs).len() ==> (#[trigger] batches(v, inputs)[i]).len() > 0
            &&& concatenated(batches(v, inputs)) + after.pending == gathered(v, inputs)
            &&& !has_ended(inputs) ==> after.overlap == overlap_after(windows(v, inputs))
            &&& has_ended(inputs) ==> after.pending.len() == 0 && !(after.phase is Buffering)
        }),
    decreases inputs.len(),
{
    lemma_windows_overlap(limit, threshold, inputs);
}

proof fn lemma_windows_overlap(limit: nat, threshold: nat, inputs: Seq<BodyInput>)
    requires
        all_may_happen(fresh_body(limit, threshold), inputs),
    ensures
        ({
            let v = fresh_body(limit, threshold);
            let after = all_happened(v, inputs);
            &&& windows_overlap(windows(v, inputs), batches(v, inputs))
            &&& forall|i: int|
                0 <= i < batches(v, inputs).len() ==> (#[trigger] batches(v, inputs)[i]).len() > 0
            &&& concatenated(batches(v, inputs)) + after.pending == gathered(v, inputs)
            &&& !has_ended(inputs) ==> after.overlap == overlap_after(windows(v, inputs))
            &&& has_ended(inputs) ==> is_over(after)
        }),
    decreases inputs.len(),
{
    let v = fresh_body(limit, threshold);
    let after = all_happened(v, inputs);
    if inputs.len() == 0 {
        assert(concatenated(batches(v, inputs)) + after.pending =~= gathered(v, inputs));
    } else {
        let start = inputs.drop_last();
        let input = inputs.last();
        let mid = all_happened(v, start);
        lemma_windows_overlap(limit, threshold, start);
        lemma_ended_before(inputs);
        let all = concatenated(batches(v, start));
        match input {
            BodyInput::Data(data) => {
                let run = sse_run(mid.decoder, mid.buffer + held(data), mid.limit);
                let text = mid.pending + run.text;
                assert(gathered(v, inputs) =~= all + text);
                if let Some(window) = window_of(mid, input) {
                    lemma_one_more_window(windows(v, start), batches(v, start), window, text);
                    assert(windows(v, inputs).last() == window);
                }
            },
            BodyInput::End => {
                let run = sse_run_eof(mid.decoder, mid.buffer);
                let text = mid.pending + run.text;
                assert(gathered(v, inputs) =~= all + text);
                if let Some(window) = window_of(mid, input) {
                    lemma_one_more_window(windows(v, start), batches(v, start), window, text);
                }
            },
            _ => {
                assert(gathered(v, inputs) =~= gathered(v, start));
            },
        }
        assert(concatenated(batches(v, inputs)) + after.pending =~= gathered(v, inputs));
    }
}

/// The end of the last window is the end of all the text that the windows hold.
proof fn lemma_overlap_of_all(windows: Seq<Seq<char>>, batches: Seq<Seq<char>>)
    requires
        windows_overlap(windows, batches),
    ensures
        overlap_after(windows) == tail_text(concatenated(batches), OVERLAP_BYTES as nat),
    decreases windows.len(),
{
    let max = OVERLAP_BYTES as nat;
    if windows.len() > 0 {
        let n = windows.len() - 1;
        lemma_fewer_windows(windows, batches);
        lemma_overlap_of_all(windows.drop_last(), batches.drop_last());
        assert(windows.take(n) =~= windows.drop_last());
        assert(windows[n] == overlap_after(windows.drop_last()) + batches[n]);
        law_tail_of_all_text(concatenated(batches.drop_last()), batches[n], max);
    }
}

proof fn lemma_fewer_windows(windows: Seq<Seq<char>>, batches: Seq<Seq<char>>)
    requires
        windows.len() > 0,
        windows_overlap(windows, batches),
    ensures
        windows_overlap(windows.drop_last(), batches.drop_last()),
{
    let fewer = windows.drop_last();
    assert forall|i: int| 0 <= i < fewer.len() implies #[trigger] fewer[i] == overlap_after(
        fewer.take(i),
    ) + batches.drop_last()[i] by {
        assert(fewer.take(i) =~= windows.take(i));
        assert(fewer[i] == windows[i]);
    }
}

/// Whether a text stands in a window.
pub open spec fn stands_in(text: Seq<char>, window: Seq<char>) -> bool {
    exists|k: int|
        0 <= k && k + text.len() <= window.len() && #[trigger] window.subrange(
            k,
            k + text.len(),
        ) == text
}

/// Where each window overlaps the one before, every text that is not longer than the overlap
/// stands whole in one of them.
pub proof fn law_some_window_holds(
    windows: Seq<Seq<char>>,
    batches: Seq<Seq<char>>,
    from: int,
    to: int,
) -> (i: int)
    requires
        windows_overlap(windows, batches),
        0 <= from < to <= concatenated(batches).len(),
        text_bytes(concatenated(batches).subrange(from, to)) <= OVERLAP_BYTES,
    ensures
        0 <= i < windows.len(),
        stands_in(concatenated(batches).subrange(from, to), windows[i]),
    decreases windows.len(),
{
    let max = OVERLAP_BYTES as nat;
    let all = concatenated(batches);
    let text = all.subrange(from, to);
    let n = windows.len() - 1;
    let seen = concatenated(batches.drop_last());
    let batch = batches[n];
    let window = windows[n];
    lemma_fewer_windows(windows, batches);
    assert(all == seen + batch);
    if to <= seen.len() {
        assert(seen.subrange(from, to) =~= text);
        let i = law_some_window_holds(windows.drop_last(), batches.drop_last(), from, to);
        assert(windows.drop_last()[i] == windows[i]);
        i
    } else {
        lemma_overlap_of_all(windows.drop_last(), batches.drop_last());
        assert(windows.take(n) =~= windows.drop_last());
        let tail = tail_text(seen, max);
        assert(window == tail + batch);
        law_tail_ends_the_text(seen, max);
        let shift = seen.len() - tail.len();
        if from >= seen.len() {
            assert(window.subrange(from - shift, from - shift + text.len()) =~= text);
        } else {
            let before = seen.skip(from);
            let rest = batch.take(to - seen.len());
            assert(text =~= before + rest);
            lemma_encode_append(before, rest);
            law_window_holds_patterns_on_the_border(seen, batch, from, to, max);
            assert(window.subrange(from - shift, from - shift + text.len()) == text);
        }
        n
    }
}

/// No pattern is missed for standing on the border of two windows: in a stream that was read to
/// its end, every text that is not longer than the overlap stands whole in a window that the
/// guardrails were given.
pub proof fn law_every_short_text_is_in_a_window(
    limit: nat,
    threshold: nat,
    inputs: Seq<BodyInput>,
    from: int,
    to: int,
)
    requires
        all_may_happen(fresh_body(limit, threshold), inputs),
        has_ended(inputs),
        0 <= from < to <= gathered(fresh_body(limit, threshold), inputs).len(),
        text_bytes(gathered(fresh_body(limit, threshold), inputs).subrange(from, to))
            <= OVERLAP_BYTES,
    ensures
        ({
            let v = fresh_body(limit, threshold);
            exists|i: int|
                0 <= i < windows(v, inputs).len() && stands_in(
                    gathered(v, inputs).subrange(from, to),
                    #[trigger] windows(v, inputs)[i],
                )
        }),
{
    let v = fresh_body(limit, threshold);
    law_windows_overlap(limit, threshold, inputs);
    let all = concatenated(batches(v, inputs));
    assert(all + all_happened(v, inputs).pending =~= all);
    let i = law_some_window_holds(windows(v, inputs), batches(v, inputs), from, to);
    assert(stands_in(gathered(v, inputs).subrange(from, to), windows(v, inputs)[i]));
}

/// A completion holds the text of its first choice, whatever else stands in it.
pub proof fn law_text_of_a_completion(
    data: Seq<u8>,
    document: Map<Seq<char>, JsonView>,
    choices: Seq<JsonView>,
    choice: Map<Seq<char>, JsonView>,
    delta: Map<Seq<char>, JsonView>,
    text: Seq<char>,
)
    requires
        data != "[DONE]"@.map_values(|c: char| c as u8),
        json_of_bytes(data) == Some(JsonView::Object(document)),
        document.contains_pair("choices"@, JsonView::Array(choices)),
        choices.len() > 0,
        choices[0] == JsonView::Object(choice),
        choice.contains_pair("delta"@, JsonView::Object(delta)),
        delta.contains_pair("content"@, JsonView::Str(text)),
    ensures
        delta_text(data) == Some(text),
{
    lemma_done_marker();
}

/// The marker of the end is what its letters say.
proof fn lemma_done_marker()
    ensures
        done_marker() == "[DONE]"@.map_values(|c: char| c as u8),
{
    reveal_strlit("[DONE]");
    assert(done_marker() =~= "[DONE]"@.map_values(|c: char| c as u8));
}

/// A message event holds the text of its delta, where it is no completion.
pub proof fn law_text_of_a_message(
    data: Seq<u8>,
    document: Map<Seq<char>, JsonView>,
    delta: Map<Seq<char>, JsonView>,
    text: Seq<char>,
)
    requires
        data != "[DONE]"@.map_values(|c: char| c as u8),
        json_of_bytes(data) == Some(JsonView::Object(document)),
        !document.dom().contains("choices"@),
        document.contains_pair("delta"@, JsonView::Object(delta)),
        delta.contains_pair("text"@, JsonView::Str(text)),
    ensures
        delta_text(data) == Some(text),
{
    lemma_done_marker();
}

/// The marker of the end, what is no JSON text, and a document that has neither choices nor a
/// delta hold no text.
pub proof fn law_other_events_hold_no_text(data: Seq<u8>)
    requires
        data == "[DONE]"@.map_values(|c: char| c as u8) || match json_of_bytes(data) {
            None => true,
            Some(JsonView::Object(document)) => !document.dom().contains("choices"@)
                && !document.dom().contains("delta"@),
            Some(_) => true,
        },
    ensures
        delta_text(data) is None,
{
    lemma_done_marker();
}

/// The text that an event adds: that of its data, or nothing.
pub open spec fn text_or_nothing(data: Seq<u8>) -> Seq<char> {
    match delta_text(data) {
        Some(text) => text,
        None => Seq::empty(),
    }
}

/// The texts of events, one after the other.
pub open spec fn texts_of(events: Seq<Seq<u8>>) -> Seq<char> {
    concatenated(events.map_values(|data: Seq<u8>| text_or_nothing(data)))
}

/// A decoder, and the bytes that it has not taken.
pub type Decoding = (tokio_sse_codec::SseDecoder<bytes::Bytes>, Seq<u8>);

/// Whether decoding goes through stages: from each one to the next it yields an event, and takes
/// bytes for it.
pub open spec fn yields(stages: Seq<Decoding>, events: Seq<Seq<u8>>, eof: bool) -> bool {
    &&& stages.len() == events.len() + 1
    &&& forall|i: int|
        0 <= i < events.len() ==> (if eof {
            sse_decoded_eof((#[trigger] stages[i]).0, stages[i].1)
        } else {
            sse_decoded(stages[i].0, stages[i].1)
        }) == (stages[i + 1].0, stages[i + 1].1, SseItemView::Event(events[i]))
            && stages[i + 1].1.len() < stages[i].1.len()
}

proof fn lemma_texts_of_first(events: Seq<Seq<u8>>)
    requires
        events.len() > 0,
    ensures
        texts_of(events) == text_or_nothing(events[0]) + texts_of(events.skip(1)),
    decreases events.len(),
{
    let f = |data: Seq<u8>| text_or_nothing(data);
    let texts = events.map_values(f);
    let rest = events.skip(1);
    assert(texts.drop_last() =~= events.drop_last().map_values(f));
    if events.len() == 1 {
        assert(rest.map_values(f) =~= Seq::empty());
        assert(texts.drop_last() =~= Seq::empty());
        assert(concatenated(texts.drop_last()) =~= Seq::empty());
        assert(texts_of(events) =~= text_or_nothing(events[0]) + texts_of(rest));
    } else {
        lemma_texts_of_first(events.drop_last());
        assert(events.drop_last().skip(1) =~= rest.drop_last());
        assert(rest.map_values(f).drop_last() =~= rest.drop_last().map_values(f));
        assert(rest.map_values(f).last() == texts.last());
        assert(texts_of(events) =~= text_or_nothing(events[0]) + texts_of(rest));
    }
}

/// The text that is gathered from a frame is the text of all events that the decoder yields from
/// it, one after the other, however many there are, and then the text of what is left; the same
/// holds at the end of the stream.
pub proof fn law_text_of_all_events_is_gathered(
    stages: Seq<Decoding>,
    events: Seq<Seq<u8>>,
    limit: nat,
)
    ensures
        yields(stages, events, false) ==> sse_run(stages[0].0, stages[0].1, limit).text == texts_of(
            events,
        ) + sse_run(stages.last().0, stages.last().1, limit).text,
        yields(stages, events, true) ==> sse_run_eof(stages[0].0, stages[0].1).text == texts_of(
            events,
        ) + sse_run_eof(stages.last().0, stages.last().1).text,
    decreases events.len(),
{
    if stages.len() == events.len() + 1 {
        if events.len() == 0 {
            let f = |data: Seq<u8>| text_or_nothing(data);
            assert(events.map_values(f) =~= Seq::empty());
            assert(texts_of(events) =~= Seq::empty());
            let run = sse_run(stages[0].0, stages[0].1, limit);
            assert(texts_of(events) + run.text =~= run.text);
            let run_eof = sse_run_eof(stages[0].0, stages[0].1);
            assert(texts_of(events) + run_eof.text =~= run_eof.text);
        } else {
            let later = stages.skip(1);
            let rest = events.skip(1);
            assert(later.last() == stages.last());
            assert forall|eof: bool| yields(stages, events, eof) implies #[trigger] yields(
                later,
                rest,
                eof,
            ) by {
                assert forall|i: int| 0 <= i < rest.len() implies (if eof {
                    sse_decoded_eof((#[trigger] later[i]).0, later[i].1)
                } else {
                    sse_decoded(later[i].0, later[i].1)
                }) == (later[i + 1].0, later[i + 1].1, SseItemView::Event(rest[i]))
                    && later[i + 1].1.len() < later[i].1.len() by {
                    assert(later[i] == stages[i + 1]);
                    assert(later[i + 1] == stages[i + 2]);
                    assert(rest[i] == events[i + 1]);
                }
            }
            law_text_of_all_events_is_gathered(later, rest, limit);
            lemma_texts_of_first(events);
            let first = text_or_nothing(events[0]);
            assert(later[0] == stages[1]);
            if yields(stages, events, false) {
                assert(yields(later, rest, false));
                assert(sse_decoded(stages[0].0, stages[0].1) == (
                    stages[1].0,
                    stages[1].1,
                    SseItemView::Event(events[0]),
                ));
                let left = sse_run(stages.last().0, stages.last().1, limit).text;
                assert(first + (texts_of(rest) + left) =~= first + texts_of(rest) + left);
            }
            if yields(stages, events, true) {
                assert(yields(later, rest, true));
                assert(sse_decoded_eof(stages[0].0, stages[0].1) == (
                    stages[1].0,
                    stages[1].1,
                    SseItemView::Event(events[0]),
                ));
                let left = sse_run_eof(stages.last().0, stages.last().1).text;
                assert(first + (texts_of(rest) + left) =~= first + texts_of(rest) + left);
            }
        }
    }
}

/// One thing after the other is decoded: an event adds its text before that of the rest, and
/// anything else that is taken adds none. Decoding stops where more bytes are needed, with the
/// bytes that are left; bytes that cannot be decoded are dropped, and no text is lost for them.
pub proof fn law_decoding_goes_on_with_the_rest(
    d: tokio_sse_codec::SseDecoder<bytes::Bytes>,
    src: Seq<u8>,
    limit: nat,
)
    ensures
        ({
            let (next, rest, item) = sse_decoded(d, src);
            let run = sse_run(d, src, limit);
            let later = sse_run(next, rest, limit);
            &&& rest.len() < src.len() && (item is Event || item is Other) ==> run.decoder
                == later.decoder && run.rest == later.rest
            &&& rest.len() < src.len() && item is Other ==> run.text == later.text
            &&& item is NeedMore ==> run.decoder == next && run.rest == rest && run.text.len() == 0
            &&& item is Failed ==> run.decoder == sse_fresh(limit) && run.rest.len() == 0
                && run.text.len() == 0
        }),
        ({
            let (next, rest, item) = sse_decoded_eof(d, src);
            let run = sse_run_eof(d, src);
            let later = sse_run_eof(next, rest);
            &&& rest.len() < src.len() && (item is Event || item is Other) ==> run.decoder
                == later.decoder && run.rest == later.rest
            &&& rest.len() < src.len() && item is Other ==> run.text == later.text
            &&& item is NeedMore ==> run.decoder == next && run.rest == rest && run.text.len() == 0
            &&& item is Failed ==> run.decoder == next && run.rest.len() == 0 && run.text.len() == 0
        }),
{
    let (next, rest, item) = sse_decoded(d, src);
    let later = sse_run(next, rest, limit);
    assert(Seq::<char>::empty() + later.text =~= later.text);
    let (next, rest, item) = sse_decoded_eof(d, src);
    let later = sse_run_eof(next, rest);
    assert(Seq::<char>::empty() + later.text =~= later.text);
}

/// The bytes of frames are those of each.
pub proof fn law_held_bytes_add_up(before: Seq<bytes::Bytes>, frame: bytes::Bytes)
    ensures
        total_len(Seq::<bytes::Bytes>::empty()) == 0,
        total_len(before.push(frame)) == total_len(before) + held(frame).len(),
{
    assert(before.push(frame).drop_last() =~= before);
}

/// When the guardrails are asked while a stream comes in: as soon as the text that they have not
/// seen has reached the size of a batch, or the frames that are held back have reached the limit,
/// and not before. Frames without any text do not wait for them, and what is short of both is
/// held back.
pub proof fn law_guardrails_are_asked_when_due(v: BodyView, data: bytes::Bytes)
    requires
        v.phase is Buffering,
    ensures
        ({
            let text = v.pending + sse_run(v.decoder, v.buffer + held(data), v.limit).text;
            let due = text_bytes(text) >= v.threshold || total_len(v.held) + held(data).len()
                >= v.limit;
            let (after, window) = after_data(v, data);
            &&& window is Some <==> due && text.len() > 0
            &&& window is Some ==> after.phase == PhaseView::Evaluating { eof: false }
            &&& due && text.len() == 0 ==> after.phase == PhaseView::Flushing {
                queue: v.held.push(data),
                eof: false,
            }
            &&& !due ==> after.phase is Buffering && after.pending == text
            &&& !due || text.len() > 0 ==> after.held == v.held.push(data)
            &&& after.threshold == v.threshold && after.limit == v.limit
        }),
{
    law_held_bytes_add_up(v.held, data);
}

/// At the end of a stream the guardrails are asked exactly if there is text that they have not
/// seen, and otherwise the frames that are held back are let go. Either way the body ends after
/// them.
pub proof fn law_guardrails_are_asked_at_the_end(v: BodyView)
    requires
        v.phase is Buffering,
    ensures
        ({
            let text = v.pending + sse_run_eof(v.decoder, v.buffer).text;
            let (after, window) = after_end(v);
            &&& window is Some <==> text.len() > 0
            &&& text.len() > 0 ==> after.phase == PhaseView::Evaluating { eof: true } && after.held
                == v.held
            &&& text.len() == 0 ==> after.phase == PhaseView::Flushing { queue: v.held, eof: true }
        }),
{
}

/// What a verdict does: a window that passes lets every held frame go, in order, and a blocked one
/// lets none go. A body reads on after it exactly if its upstream has not ended.
pub proof fn law_verdicts_decide(v: BodyView, eof: bool)
    requires
        v.phase == (PhaseView::Evaluating { eof }),
    ensures
        after_verdict(v, false).phase == (PhaseView::Flushing { queue: v.held, eof }),
        after_verdict(v, true).phase is Blocked,
        v.held.len() == 0 ==> polled(after_verdict(v, false)).1 == if eof {
            StepView::End
        } else {
            StepView::Read
        },
        v.held.len() > 0 ==> polled(after_verdict(v, false)).1 == StepView::Frame(held(v.held[0])),
        polled(after_verdict(v, true)).1 == StepView::Frame(
            vstd::utf8::encode_utf8(blocked_event()),
        ),
        polled(polled(after_verdict(v, true)).0).1 == StepView::End,
        polled(v).1 == StepView::Wait,
{
}

/// A body begins with nothing held, nothing seen and nothing to decode, and reads; its limit and
/// the size of its batches are those that it is given.
pub proof fn law_bodies_begin_empty(limit: nat, threshold: nat)
    ensures
        ({
            let v = fresh_body(limit, threshold);
            &&& v.limit == limit && v.threshold == threshold
            &&& v.held.len() == 0 && v.pending.len() == 0 && v.overlap.len() == 0
            &&& v.buffer.len() == 0 && v.decoder == sse_fresh(limit)
            &&& polled(v) == (v, StepView::Read)
        }),
{
}

} // verus!
