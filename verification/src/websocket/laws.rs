//! What holds of a realtime session over all that the server sends.

use vstd::prelude::*;

#[allow(unused_imports)]
use crate::streaming_guardrails::laws::{
    concatenated, law_some_window_holds, lemma_one_more_window, overlap_after, stands_in,
    windows_overlap,
};
#[allow(unused_imports)]
use crate::streaming_guardrails::window::{tail_text, text_bytes, OVERLAP_BYTES};
#[allow(unused_imports)]
use crate::text::{
    contains_text, is_white, law_parts_are_found, law_trimming_takes_white_space_off, trim_back,
    trim_front,
};
#[allow(unused_imports)]
use crate::websocket::frames::{
    law_text_frames_are_read_back, ws_frames, FrameView, OPCODE_CONTINUATION,
};
#[allow(unused_imports)]
use crate::websocket::realtime::{
    blocked_frame, cancel_event, cancel_frame, client_event_of, frame_event, fresh_guard, grown, guarded_frame_input,
    guarded_input, held_text, is_orderly, joined_texts, law_guard_stays_orderly, no_text, on_event,
    on_verdict, own_text, raws, server_event_of, set_apart, text_for, ClientEventView,
    GuardOutcome, GuardView, HeldView, PendingView, ServerEventView, TextView,
};
#[allow(unused_imports)]
use crate::websocket::usage::{reported, RealtimeUsage};

verus! {

/// A frame of the server in a session, with the verdict on the window that it completes, where it
/// completes one.
pub ghost struct SessionStep {
    pub event: ServerEventView,
    pub raw: Seq<u8>,
    pub blocked: bool,
}

/// What follows a frame and the verdict on its window.
pub open spec fn session_step(g: GuardView, step: SessionStep) -> GuardOutcome {
    let out = on_event(g, step.event, step.raw);
    if out.window is Some {
        on_verdict(out.next, out.next.awaiting->0, step.blocked)
    } else {
        out
    }
}

/// The guardrails after a session.
pub open spec fn session_guard(g: GuardView, steps: Seq<SessionStep>) -> GuardView
    decreases steps.len(),
{
    if steps.len() == 0 {
        g
    } else {
        session_step(session_guard(g, steps.drop_last()), steps.last()).next
    }
}

/// Whether a frame carries text of a response, or completes it.
pub open spec fn is_text_event(event: ServerEventView) -> bool {
    event is TextDelta || event is TextDone
}

/// Whether a frame is about the text of a response.
pub open spec fn is_about(event: ServerEventView, id: Seq<char>) -> bool {
    match event {
        ServerEventView::TextDelta { response_id, .. } => response_id == id,
        ServerEventView::TextDone { response_id } => response_id == id,
        _ => false,
    }
}

/// The part of a session that is about the text of a response.
pub open spec fn steps_about(steps: Seq<SessionStep>, id: Seq<char>) -> Seq<SessionStep> {
    steps.filter(|step: SessionStep| is_about(step.event, id))
}

/// The frames of steps.
pub open spec fn raw_frames(steps: Seq<SessionStep>) -> Seq<Seq<u8>> {
    steps.map_values(|step: SessionStep| step.raw)
}

/// The frames with text, and the one that completes it, that a step lets go.
pub open spec fn released(g: GuardView, step: SessionStep) -> Seq<HeldView> {
    let out = on_event(g, step.event, step.raw);
    match step.event {
        ServerEventView::TextDelta { response_id, .. } => if out.window is Some && !step.blocked {
            text_for(out.next, response_id).hold
        } else {
            Seq::empty()
        },
        ServerEventView::TextDone { response_id } => if g.blocked.contains(response_id) || (
        out.window is Some && step.blocked) {
            Seq::empty()
        } else {
            text_for(g, response_id).hold.push(
                HeldView { response_id, text: Seq::empty(), raw: step.raw },
            )
        },
        _ => Seq::empty(),
    }
}

/// On a frame with text the client gets what is let go, and nothing else; where a window is
/// blocked it gets the error event alone.
pub proof fn law_released_frames_are_sent(g: GuardView, step: SessionStep)
    requires
        is_text_event(step.event),
    ensures
        session_step(g, step).actions.to_client == if on_event(
            g,
            step.event,
            step.raw,
        ).window is Some && step.blocked {
            seq![blocked_frame()]
        } else {
            raws(released(g, step))
        },
{
    assert(raws(Seq::<HeldView>::empty()) =~= Seq::empty());
    if let ServerEventView::TextDone { response_id } = step.event {
        let done = HeldView { response_id, text: Seq::empty(), raw: step.raw };
        let hold = text_for(g, response_id).hold;
        assert(raws(hold.push(done)) =~= raws(hold).push(step.raw));
    }
}

/// The held frames of a response.
pub open spec fn of_response(hold: Seq<HeldView>, id: Seq<char>) -> Seq<HeldView> {
    hold.filter(|f: HeldView| f.response_id == id)
}

proof fn lemma_of_response_push(hold: Seq<HeldView>, f: HeldView, id: Seq<char>)
    ensures
        raws(of_response(hold.push(f), id)) == if f.response_id == id {
            raws(of_response(hold, id)).push(f.raw)
        } else {
            raws(of_response(hold, id))
        },
{
    reveal(Seq::filter);
    assert(hold.push(f).drop_last() =~= hold);
    assert(raws(of_response(hold, id).push(f)) =~= raws(of_response(hold, id)).push(f.raw));
}

proof fn lemma_none_of_response(hold: Seq<HeldView>, id: Seq<char>)
    requires
        forall|i: int| 0 <= i < hold.len() ==> (#[trigger] hold[i]).response_id != id,
    ensures
        of_response(hold, id) == Seq::<HeldView>::empty(),
    decreases hold.len(),
{
    reveal(Seq::filter);
    if hold.len() > 0 {
        let front = hold.drop_last();
        assert forall|i: int| 0 <= i < front.len() implies (#[trigger] front[i]).response_id != id by {
            assert(front[i] == hold[i]);
        }
        lemma_none_of_response(front, id);
        assert(hold[hold.len() - 1].response_id != id);
    }
}

proof fn lemma_all_of_response(hold: Seq<HeldView>, id: Seq<char>)
    requires
        forall|i: int| 0 <= i < hold.len() ==> (#[trigger] hold[i]).response_id == id,
    ensures
        of_response(hold, id) == hold,
    decreases hold.len(),
{
    reveal(Seq::filter);
    if hold.len() > 0 {
        let front = hold.drop_last();
        assert forall|i: int| 0 <= i < front.len() implies (#[trigger] front[i]).response_id == id by {
            assert(front[i] == hold[i]);
        }
        lemma_all_of_response(front, id);
        assert(hold[hold.len() - 1].response_id == id);
        assert(front.push(hold.last()) =~= hold);
    }
}

/// Blocking one response takes over what is held of another.
proof fn lemma_set_apart_keeps_frames(
    apart: Map<Seq<char>, TextView>,
    hold: Seq<HeldView>,
    gone: Seq<char>,
    id: Seq<char>,
)
    requires
        gone != id,
    ensures
        own_text(set_apart(apart, hold, gone), id).hold == own_text(apart, id).hold + of_response(
            hold,
            id,
        ),
    decreases hold.len(),
{
    reveal(Seq::filter);
    let own = own_text(apart, id).hold;
    if hold.len() == 0 {
        assert(own + of_response(hold, id) =~= own);
    } else {
        let front = hold.drop_last();
        lemma_set_apart_keeps_frames(apart, front, gone, id);
        assert((own + of_response(front, id)).push(hold.last()) =~= own + of_response(
            front,
            id,
        ).push(hold.last()));
    }
}

/// The frames of a response that are held.
pub open spec fn held_of(g: GuardView, id: Seq<char>) -> Seq<Seq<u8>> {
    raws(of_response(g.shared.hold, id) + own_text(g.apart, id).hold)
}

/// What the client has got of a response in a session.
pub open spec fn sent_of(g: GuardView, steps: Seq<SessionStep>, id: Seq<char>) -> Seq<Seq<u8>>
    decreases steps.len(),
{
    if steps.len() == 0 {
        Seq::empty()
    } else {
        let front = steps.drop_last();
        sent_of(g, front, id) + raws(
            of_response(released(session_guard(g, front), steps.last()), id),
        )
    }
}

/// The frames of a response are held in one place: among all, or by themselves.
proof fn lemma_held_in_one_place(g: GuardView, id: Seq<char>)
    requires
        is_orderly(g),
    ensures
        g.apart.dom().contains(id) ==> of_response(g.shared.hold, id) == Seq::<HeldView>::empty()
            && of_response(g.apart[id].hold, id) == g.apart[id].hold,
        held_of(g, id) == raws(of_response(text_for(g, id).hold, id)),
{
    if g.apart.dom().contains(id) {
        assert forall|i: int| 0 <= i < g.shared.hold.len() implies (
        #[trigger] g.shared.hold[i]).response_id != id by {
            assert(!g.apart.dom().contains(g.shared.hold[i].response_id));
        }
        lemma_none_of_response(g.shared.hold, id);
        assert forall|i: int| 0 <= i < g.apart[id].hold.len() implies (
        #[trigger] g.apart[id].hold[i]).response_id == id by {}
        lemma_all_of_response(g.apart[id].hold, id);
        assert(Seq::<HeldView>::empty() + g.apart[id].hold =~= g.apart[id].hold);
    } else {
        assert(of_response(g.shared.hold, id) + no_text().hold =~= of_response(g.shared.hold, id));
    }
}

/// Where the text of one response goes by itself, there are no frames of another.
proof fn lemma_apart_is_own(g: GuardView, other: Seq<char>, id: Seq<char>)
    requires
        is_orderly(g),
        g.apart.dom().contains(other),
        other != id,
    ensures
        of_response(g.apart[other].hold, id) == Seq::<HeldView>::empty(),
{
    assert forall|i: int| 0 <= i < g.apart[other].hold.len() implies (
    #[trigger] g.apart[other].hold[i]).response_id != id by {}
    lemma_none_of_response(g.apart[other].hold, id);
}

/// What follows the text of one response going where it goes, for another response.
proof fn lemma_delta_keeps_frames(g: GuardView, step: SessionStep, id: Seq<char>)
    requires
        is_orderly(g),
        !g.blocked.contains(id),
        is_about(step.event, id) ==> !step.blocked,
        step.event is TextDelta,
    ensures
        raws(of_response(released(g, step), id)) + held_of(session_step(g, step).next, id)
            == held_of(g, id) + if is_about(step.event, id) {
            seq![step.raw]
        } else {
            Seq::empty()
        },
{
    reveal(Seq::filter);
    let next = session_step(g, step).next;
    let none = Seq::<HeldView>::empty();
    assert(raws(none) =~= Seq::empty());
    assert(of_response(none, id) =~= none);
    let rid = step.event->TextDelta_response_id;
    let f = HeldView { response_id: rid, text: step.event->delta, raw: step.raw };
    let out = on_event(g, step.event, step.raw);
    law_guard_stays_orderly(g, step.event, step.raw, out.next.awaiting->0, step.blocked);
    law_guard_stays_orderly(out.next, step.event, step.raw, out.next.awaiting->0, step.blocked);
    lemma_held_in_one_place(g, id);
    lemma_held_in_one_place(next, id);
    let t = text_for(g, rid);
    lemma_of_response_push(t.hold, f, id);
    if g.apart.dom().contains(rid) && rid != id {
        lemma_apart_is_own(g, rid, id);
    }
    if out.window is Some && step.blocked && !g.apart.dom().contains(rid) {
        let hold = g.shared.hold.push(f);
        lemma_set_apart_keeps_frames(g.apart, hold, rid, id);
        if g.apart.dom().contains(id) {
            assert(of_response(hold, id) == of_response(g.shared.hold, id)) by {
                assert(hold.drop_last() =~= g.shared.hold);
            }
            assert(own_text(g.apart, id).hold + none =~= own_text(g.apart, id).hold);
        } else {
            assert(none + of_response(hold, id) =~= of_response(hold, id));
        }
        assert(none + own_text(next.apart, id).hold =~= own_text(next.apart, id).hold);
    }
    let added = if rid == id {
        seq![step.raw]
    } else {
        Seq::<Seq<u8>>::empty()
    };
    assert(raws(of_response(released(g, step), id)) + held_of(next, id) =~= held_of(g, id) + added);
}

proof fn lemma_done_keeps_frames(g: GuardView, step: SessionStep, id: Seq<char>)
    requires
        is_orderly(g),
        !g.blocked.contains(id),
        is_about(step.event, id) ==> !step.blocked,
        step.event is TextDone,
    ensures
        raws(of_response(released(g, step), id)) + held_of(session_step(g, step).next, id)
            == held_of(g, id) + if is_about(step.event, id) {
            seq![step.raw]
        } else {
            Seq::empty()
        },
{
    reveal(Seq::filter);
    let next = session_step(g, step).next;
    let none = Seq::<HeldView>::empty();
    assert(raws(none) =~= Seq::empty());
    assert(of_response(none, id) =~= none);
    let rid = step.event->TextDone_response_id;
    let f = HeldView { response_id: rid, text: Seq::empty(), raw: step.raw };
    let out = on_event(g, step.event, step.raw);
    law_guard_stays_orderly(g, step.event, step.raw, out.next.awaiting->0, step.blocked);
    law_guard_stays_orderly(out.next, step.event, step.raw, out.next.awaiting->0, step.blocked);
    lemma_held_in_one_place(g, id);
    lemma_held_in_one_place(next, id);
    let t = text_for(g, rid);
    lemma_of_response_push(t.hold, f, id);
    if g.apart.dom().contains(rid) && rid != id {
        lemma_apart_is_own(g, rid, id);
    }
    if out.window is Some && step.blocked && !g.apart.dom().contains(rid) {
        lemma_set_apart_keeps_frames(g.apart, g.shared.hold, rid, id);
        if g.apart.dom().contains(id) {
            assert(own_text(g.apart, id).hold + none =~= own_text(g.apart, id).hold);
        } else {
            assert(none + of_response(g.shared.hold, id) =~= of_response(g.shared.hold, id));
        }
        assert(none + own_text(next.apart, id).hold =~= own_text(next.apart, id).hold);
    }
    let added = if rid == id {
        seq![step.raw]
    } else {
        Seq::<Seq<u8>>::empty()
    };
    assert(raws(of_response(released(g, step), id)) + held_of(next, id) =~= held_of(g, id) + added);
}

/// A frame adds itself to what is let go or held of its response, and to nothing else, as long as
/// that response is not blocked.
proof fn lemma_step_keeps_frames(g: GuardView, step: SessionStep, id: Seq<char>)
    requires
        is_orderly(g),
        !g.blocked.contains(id),
        is_about(step.event, id) ==> !step.blocked,
    ensures
        is_orderly(session_step(g, step).next),
        !session_step(g, step).next.blocked.contains(id),
        raws(of_response(released(g, step), id)) + held_of(session_step(g, step).next, id)
            == held_of(g, id) + if is_about(step.event, id) {
            seq![step.raw]
        } else {
            Seq::empty()
        },
{
    lemma_step_is_orderly(g, step);
    if step.event is TextDelta {
        lemma_delta_keeps_frames(g, step, id);
    } else if step.event is TextDone {
        lemma_done_keeps_frames(g, step, id);
    } else {
        reveal(Seq::filter);
        assert(raws(of_response(Seq::<HeldView>::empty(), id)) =~= Seq::empty());
        assert(Seq::<Seq<u8>>::empty() + held_of(g, id) =~= held_of(g, id) + Seq::<
            Seq<u8>,
        >::empty());
    }
}

proof fn lemma_step_is_orderly(g: GuardView, step: SessionStep)
    requires
        is_orderly(g),
    ensures
        is_orderly(session_step(g, step).next),
{
    let out = on_event(g, step.event, step.raw);
    let w = out.next.awaiting->0;
    law_guard_stays_orderly(g, step.event, step.raw, w, step.blocked);
    law_guard_stays_orderly(out.next, step.event, step.raw, w, step.blocked);
}

/// Blocking one response does not silence another: of a response whose own frames complete no
/// window that is blocked, what the client has got and what is still held are exactly the frames
/// that the server has sent, in order, whichever other responses are blocked.
pub proof fn law_other_responses_are_not_silenced(
    g: GuardView,
    steps: Seq<SessionStep>,
    id: Seq<char>,
)
    requires
        is_orderly(g),
        !g.blocked.contains(id),
        forall|i: int|
            0 <= i < steps.len() && is_about((#[trigger] steps[i]).event, id) ==> !steps[i].blocked,
    ensures
        is_orderly(session_guard(g, steps)),
        !session_guard(g, steps).blocked.contains(id),
        sent_of(g, steps, id) + held_of(session_guard(g, steps), id) == held_of(g, id)
            + raw_frames(steps_about(steps, id)),
    decreases steps.len(),
{
    reveal(Seq::filter);
    let start = held_of(g, id);
    if steps.len() == 0 {
        assert(sent_of(g, steps, id) + start =~= start + raw_frames(steps_about(steps, id)));
    } else {
        let front = steps.drop_last();
        let step = steps.last();
        assert(steps[steps.len() - 1] == step);
        assert forall|i: int|
            0 <= i < front.len() && is_about((#[trigger] front[i]).event, id) implies !front[i].blocked by {
            assert(front[i] == steps[i]);
        }
        law_other_responses_are_not_silenced(g, front, id);
        let now = session_guard(g, front);
        lemma_step_keeps_frames(now, step, id);
        let before = sent_of(g, front, id);
        let sent = raws(of_response(released(now, step), id));
        let left = held_of(session_guard(g, steps), id);
        let own = steps_about(front, id);
        let added = if is_about(step.event, id) {
            seq![step.raw]
        } else {
            Seq::<Seq<u8>>::empty()
        };
        assert((before + sent) + left =~= before + (sent + left));
        assert(before + (held_of(now, id) + added) =~= (before + held_of(now, id)) + added);
        assert((start + raw_frames(own)) + added =~= start + raw_frames(steps_about(steps, id)))
            by {
            assert(raw_frames(own.push(step)) =~= raw_frames(own).push(step.raw));
        }
    }
}

/// A response that is not blocked reaches the client whole: once its text is complete, the client
/// has got every frame of it, in order, whatever happened to other responses.
pub proof fn law_text_that_passes_reaches_the_client(
    g: GuardView,
    steps: Seq<SessionStep>,
    id: Seq<char>,
)
    requires
        is_orderly(g),
        !g.blocked.contains(id),
        held_of(g, id).len() == 0,
        forall|i: int|
            0 <= i < steps.len() && is_about((#[trigger] steps[i]).event, id) ==> !steps[i].blocked,
        steps.len() > 0,
        steps.last().event == (ServerEventView::TextDone { response_id: id }),
    ensures
        sent_of(g, steps, id) == raw_frames(steps_about(steps, id)),
{
    law_other_responses_are_not_silenced(g, steps, id);
    let front = steps.drop_last();
    assert(steps[steps.len() - 1] == steps.last());
    assert forall|i: int|
        0 <= i < front.len() && is_about((#[trigger] front[i]).event, id) implies !front[i].blocked by {
        assert(front[i] == steps[i]);
    }
    law_other_responses_are_not_silenced(g, front, id);
    lemma_held_in_one_place(session_guard(g, front), id);
    reveal(Seq::filter);
    assert(raws(Seq::<HeldView>::empty()) =~= Seq::empty());
    assert(of_response(Seq::<HeldView>::empty(), id) =~= Seq::empty());
    let after = session_guard(g, steps);
    assert(of_response(after.shared.hold, id) + own_text(after.apart, id).hold =~= Seq::empty());
    assert(held_of(g, id) =~= Seq::empty());
    assert(sent_of(g, steps, id) + Seq::<Seq<u8>>::empty() =~= sent_of(g, steps, id));
    assert(Seq::<Seq<u8>>::empty() + raw_frames(steps_about(steps, id)) =~= raw_frames(
        steps_about(steps, id),
    ));
}

/// A response that goes on by itself is none of the business of others: what they say, and
/// whether they are blocked, leaves what is held of it alone, and what follows its own frames
/// depends on its own text and on nothing else.
pub proof fn law_responses_apart_go_on_by_themselves(
    g: GuardView,
    h: GuardView,
    step: SessionStep,
    id: Seq<char>,
)
    requires
        is_orderly(g),
        is_orderly(h),
        g.apart.dom().contains(id),
        h.apart.dom().contains(id),
        g.apart[id] == h.apart[id],
    ensures
        ({
            let after = session_step(g, step).next;
            let same = session_step(h, step).next;
            if is_about(step.event, id) {
                &&& on_event(g, step.event, step.raw).window == on_event(
                    h,
                    step.event,
                    step.raw,
                ).window
                &&& session_step(g, step).actions == session_step(h, step).actions
                &&& own_text(after.apart, id) == own_text(same.apart, id)
                &&& after.blocked.contains(id) == same.blocked.contains(id)
            } else {
                &&& after.apart.dom().contains(id)
                &&& after.apart[id] == g.apart[id]
                &&& !after.blocked.contains(id)
            }
        }),
{
    assert(!g.blocked.contains(id));
    assert(!h.blocked.contains(id));
    if !is_about(step.event, id) {
        let out = on_event(g, step.event, step.raw);
        if out.window is Some && step.blocked {
            let mid = out.next;
            law_guard_stays_orderly(g, step.event, step.raw, mid.awaiting->0, step.blocked);
            assert forall|i: int| 0 <= i < mid.shared.hold.len() implies (
            #[trigger] mid.shared.hold[i]).response_id != id by {
                assert(!mid.apart.dom().contains(mid.shared.hold[i].response_id));
            }
            lemma_set_apart_leaves(mid.apart, mid.shared.hold, mid.awaiting->0.response_id, id);
        }
    }
}

proof fn lemma_set_apart_leaves(
    apart: Map<Seq<char>, TextView>,
    hold: Seq<HeldView>,
    gone: Seq<char>,
    id: Seq<char>,
)
    requires
        apart.dom().contains(id),
        forall|i: int| 0 <= i < hold.len() ==> (#[trigger] hold[i]).response_id != id,
    ensures
        set_apart(apart, hold, gone).dom().contains(id),
        set_apart(apart, hold, gone)[id] == apart[id],
    decreases hold.len(),
{
    if hold.len() > 0 {
        let front = hold.drop_last();
        assert forall|i: int| 0 <= i < front.len() implies (#[trigger] front[i]).response_id != id by {
            assert(front[i] == hold[i]);
        }
        lemma_set_apart_leaves(apart, front, gone, id);
        assert(hold[hold.len() - 1].response_id != id);
    }
}

/// The frames with text of responses that the server has sent.
pub open spec fn text_received(steps: Seq<SessionStep>) -> Seq<Seq<u8>>
    decreases steps.len(),
{
    if steps.len() == 0 {
        Seq::empty()
    } else {
        let before = text_received(steps.drop_last());
        if is_text_event(steps.last().event) {
            before.push(steps.last().raw)
        } else {
            before
        }
    }
}

/// The frames with text of responses that the client has got.
pub open spec fn text_sent(g: GuardView, steps: Seq<SessionStep>) -> Seq<Seq<u8>>
    decreases steps.len(),
{
    if steps.len() == 0 {
        Seq::empty()
    } else {
        let front = steps.drop_last();
        text_sent(g, front) + raws(released(session_guard(g, front), steps.last()))
    }
}

/// No text is lost, added or reordered: as long as no window is blocked, the text of all responses
/// that the client has got and the text that is held back is exactly what the server has sent, in
/// the order in which it came.
pub proof fn law_passed_text_is_kept(steps: Seq<SessionStep>)
    requires
        forall|i: int| 0 <= i < steps.len() ==> !(#[trigger] steps[i]).blocked,
    ensures
        text_sent(fresh_guard(), steps) + raws(session_guard(fresh_guard(), steps).shared.hold)
            == text_received(steps),
        session_guard(fresh_guard(), steps).apart == Map::<Seq<char>, TextView>::empty(),
        session_guard(fresh_guard(), steps).blocked == Set::<Seq<char>>::empty(),
    decreases steps.len(),
{
    let g = fresh_guard();
    assert(raws(Seq::<HeldView>::empty()) =~= Seq::empty());
    if steps.len() > 0 {
        let front = steps.drop_last();
        let step = steps.last();
        assert(steps[steps.len() - 1] == step);
        assert forall|i: int| 0 <= i < front.len() implies !(#[trigger] front[i]).blocked by {
            assert(front[i] == steps[i]);
        }
        law_passed_text_is_kept(front);
        let now = session_guard(g, front);
        match step.event {
            ServerEventView::TextDelta { response_id, delta } => {
                let f = HeldView { response_id, text: delta, raw: step.raw };
                assert(raws(now.shared.hold.push(f)) =~= raws(now.shared.hold).push(step.raw));
            },
            ServerEventView::TextDone { response_id } => {
                let f = HeldView { response_id, text: Seq::empty(), raw: step.raw };
                assert(raws(now.shared.hold.push(f)) =~= raws(now.shared.hold).push(step.raw));
            },
            _ => {},
        }
    }
    assert(session_guard(g, steps).apart =~= Map::<Seq<char>, TextView>::empty());
    assert(text_sent(g, steps) + raws(session_guard(g, steps).shared.hold) =~= text_received(steps));
}

/// Whether the text that has not been looked at is that of the frames that are held.
pub open spec fn is_unseen(text: TextView) -> bool {
    text.pending == held_text(text.hold)
}

/// Whether the guardrails look at nothing, and the text that they have not looked at is that of
/// the frames that they hold.
pub open spec fn is_settled(g: GuardView) -> bool {
    &&& g.awaiting is None
    &&& is_unseen(g.shared)
    &&& forall|id: Seq<char>| #[trigger] g.apart.dom().contains(id) ==> is_unseen(g.apart[id])
}

proof fn lemma_grown_is_unseen(text: TextView, f: HeldView)
    requires
        is_unseen(text),
    ensures
        is_unseen(grown(text, f)),
{
    assert(text.hold.push(f).drop_last() =~= text.hold);
}

proof fn lemma_set_apart_is_unseen(
    apart: Map<Seq<char>, TextView>,
    hold: Seq<HeldView>,
    gone: Seq<char>,
    id: Seq<char>,
)
    requires
        forall|x: Seq<char>| #[trigger] apart.dom().contains(x) ==> is_unseen(apart[x]),
        set_apart(apart, hold, gone).dom().contains(id),
    ensures
        is_unseen(set_apart(apart, hold, gone)[id]),
    decreases hold.len(),
{
    if hold.len() > 0 {
        let front = hold.drop_last();
        let before = set_apart(apart, front, gone);
        if before.dom().contains(id) {
            lemma_set_apart_is_unseen(apart, front, gone, id);
        }
        lemma_grown_is_unseen(own_text(before, id), hold.last());
    }
}

proof fn lemma_step_settles(g: GuardView, step: SessionStep)
    requires
        is_settled(g),
    ensures
        is_settled(session_step(g, step).next),
{
    let out = on_event(g, step.event, step.raw);
    let next = session_step(g, step).next;
    match step.event {
        ServerEventView::TextDelta { response_id, delta } => {
            let f = HeldView { response_id, text: delta, raw: step.raw };
            lemma_grown_is_unseen(text_for(g, response_id), f);
        },
        _ => {},
    }
    if out.window is Some && step.blocked {
        let mid = out.next;
        let id = mid.awaiting->0.response_id;
        if !mid.apart.dom().contains(id) {
            assert(mid.apart == g.apart);
            assert forall|x: Seq<char>| #[trigger] next.apart.dom().contains(x) implies is_unseen(
                next.apart[x],
            ) by {
                lemma_set_apart_is_unseen(mid.apart, mid.shared.hold, id, x);
            }
        }
    }
}

proof fn lemma_session_is_settled(steps: Seq<SessionStep>)
    ensures
        is_settled(session_guard(fresh_guard(), steps)),
    decreases steps.len(),
{
    if steps.len() > 0 {
        lemma_session_is_settled(steps.drop_last());
        lemma_step_settles(session_guard(fresh_guard(), steps.drop_last()), steps.last());
    }
}

/// Text is never let go unseen: in any session a window ends with the text of all the frames that
/// it lets go where it passes, and what is let go without a window has no text.
pub proof fn law_text_is_seen_before_it_is_sent(
    steps: Seq<SessionStep>,
    step: SessionStep,
    id: Seq<char>,
)
    requires
        is_about(step.event, id),
    ensures
        ({
            let g = session_guard(fresh_guard(), steps);
            match on_event(g, step.event, step.raw).window {
                Some(window) => !step.blocked ==> window == text_for(g, id).tail + held_text(
                    released(g, step),
                ),
                None => held_text(released(g, step)).len() == 0,
            }
        }),
{
    lemma_session_is_settled(steps);
    let g = session_guard(fresh_guard(), steps);
    let hold = text_for(g, id).hold;
    match step.event {
        ServerEventView::TextDelta { response_id, delta } => {
            let f = HeldView { response_id, text: delta, raw: step.raw };
            assert(hold.push(f).drop_last() =~= hold);
        },
        ServerEventView::TextDone { response_id } => {
            let f = HeldView { response_id, text: Seq::empty(), raw: step.raw };
            assert(hold.push(f).drop_last() =~= hold);
            assert(held_text(hold.push(f)) =~= held_text(hold));
        },
        _ => {},
    }
}

/// Whether the text of a response is completed.
pub open spec fn completes(steps: Seq<SessionStep>, id: Seq<char>) -> bool {
    exists|i: int|
        0 <= i < steps.len() && (#[trigger] steps[i]).event == (ServerEventView::TextDone {
            response_id: id,
        })
}

/// A response that was blocked stays blocked until its text is complete, and the client gets
/// nothing of it, whatever happens.
pub proof fn law_blocked_until_complete(g: GuardView, steps: Seq<SessionStep>, id: Seq<char>)
    requires
        is_orderly(g),
        g.blocked.contains(id),
        !completes(steps, id),
    ensures
        is_orderly(session_guard(g, steps)),
        session_guard(g, steps).blocked.contains(id),
        sent_of(g, steps, id).len() == 0,
    decreases steps.len(),
{
    if steps.len() > 0 {
        let front = steps.drop_last();
        let step = steps.last();
        assert(!completes(front, id)) by {
            if completes(front, id) {
                let i = choose|i: int|
                    0 <= i < front.len() && (#[trigger] front[i]).event == (
                    ServerEventView::TextDone { response_id: id });
                assert(steps[i] == front[i]);
            }
        }
        law_blocked_until_complete(g, front, id);
        assert(steps[steps.len() - 1] == step);
        let now = session_guard(g, front);
        lemma_step_is_orderly(now, step);
        lemma_nothing_released_of_blocked(now, step, id);
    }
}

/// Nothing of a blocked response is let go.
proof fn lemma_nothing_released_of_blocked(g: GuardView, step: SessionStep, id: Seq<char>)
    requires
        is_orderly(g),
        g.blocked.contains(id),
        step.event != (ServerEventView::TextDone { response_id: id }),
    ensures
        of_response(released(g, step), id).len() == 0,
{
    let sent = released(g, step);
    if is_text_event(step.event) && sent.len() > 0 {
        let rid = match step.event {
            ServerEventView::TextDelta { response_id, .. } => response_id,
            ServerEventView::TextDone { response_id } => response_id,
            _ => Seq::empty(),
        };
        let hold = text_for(g, rid).hold;
        assert forall|i: int| 0 <= i < sent.len() implies (#[trigger] sent[i]).response_id != id by {
            if i < hold.len() {
                assert(sent[i] == hold[i]);
                if g.apart.dom().contains(rid) {
                    assert(g.apart[rid].hold[i].response_id == rid);
                } else {
                    assert(!g.blocked.contains(g.shared.hold[i].response_id));
                }
            }
        }
    }
    lemma_none_of_response(sent, id);
}

/// Only a verdict blocks, and it blocks the response whose frame completed the window: nothing
/// else is ever noted as blocked.
pub proof fn law_only_verdicts_block(g: GuardView, step: SessionStep, id: Seq<char>)
    requires
        !g.blocked.contains(id),
        session_step(g, step).next.blocked.contains(id),
    ensures
        is_about(step.event, id),
        on_event(g, step.event, step.raw).window is Some,
        step.blocked,
{
}

/// The text that a frame adds to what was looked at, where it completes a window.
pub open spec fn step_batch(g: GuardView, step: SessionStep) -> Option<Seq<char>> {
    if on_event(g, step.event, step.raw).window is Some {
        match step.event {
            ServerEventView::TextDelta { response_id, delta } => Some(
                text_for(g, response_id).pending + delta,
            ),
            ServerEventView::TextDone { response_id } => Some(text_for(g, response_id).pending),
            _ => None,
        }
    } else {
        None
    }
}

/// The text of all responses in a session.
pub open spec fn text_of(steps: Seq<SessionStep>) -> Seq<char>
    decreases steps.len(),
{
    if steps.len() == 0 {
        Seq::empty()
    } else {
        let before = text_of(steps.drop_last());
        match steps.last().event {
            ServerEventView::TextDelta { delta, .. } => before + delta,
            _ => before,
        }
    }
}

/// The windows that were looked at in a session, in order.
pub open spec fn windows_of(g: GuardView, steps: Seq<SessionStep>) -> Seq<Seq<char>>
    decreases steps.len(),
{
    if steps.len() == 0 {
        Seq::empty()
    } else {
        let front = steps.drop_last();
        let step = steps.last();
        match on_event(session_guard(g, front), step.event, step.raw).window {
            Some(window) => windows_of(g, front).push(window),
            None => windows_of(g, front),
        }
    }
}

/// The text that each window added, in order.
pub open spec fn batches_of(g: GuardView, steps: Seq<SessionStep>) -> Seq<Seq<char>>
    decreases steps.len(),
{
    if steps.len() == 0 {
        Seq::empty()
    } else {
        let front = steps.drop_last();
        match step_batch(session_guard(g, front), steps.last()) {
            Some(batch) => batches_of(g, front).push(batch),
            None => batches_of(g, front),
        }
    }
}

/// Whether the text of any response is completed.
pub open spec fn completes_any(steps: Seq<SessionStep>) -> bool {
    exists|i: int| 0 <= i < steps.len() && (#[trigger] steps[i]).event is TextDone
}

proof fn lemma_completes_before(steps: Seq<SessionStep>)
    requires
        steps.len() > 0,
    ensures
        completes_any(steps) == (completes_any(steps.drop_last()) || steps.last().event is TextDone),
{
    let front = steps.drop_last();
    if completes_any(front) {
        let i = choose|i: int| 0 <= i < front.len() && (#[trigger] front[i]).event is TextDone;
        assert(steps[i].event is TextDone);
    }
    if steps.last().event is TextDone {
        assert(steps[steps.len() - 1].event is TextDone);
    }
    if completes_any(steps) {
        let i = choose|i: int| 0 <= i < steps.len() && (#[trigger] steps[i]).event is TextDone;
        if i < front.len() {
            assert(front[i].event is TextDone);
        }
    }
}

/// The guardrails see all text that they let pass, up to where the text of a response is
/// complete: each window is the end of the one before, of up to the overlap, and then new text,
/// and the new text of all of them, with what is not looked at yet, is all the text. When the text
/// of a response is complete, all text has been looked at, and this begins anew.
pub proof fn law_windows_cover_the_text(g: GuardView, steps: Seq<SessionStep>)
    requires
        g.shared.pending.len() == 0,
        g.shared.tail.len() == 0,
        g.apart == Map::<Seq<char>, TextView>::empty(),
        g.blocked == Set::<Seq<char>>::empty(),
        forall|i: int| 0 <= i < steps.len() ==> !(#[trigger] steps[i]).blocked,
        steps.len() > 0 ==> !completes_any(steps.drop_last()),
    ensures
        windows_overlap(windows_of(g, steps), batches_of(g, steps)),
        concatenated(batches_of(g, steps)) + session_guard(g, steps).shared.pending == text_of(
            steps,
        ),
        session_guard(g, steps).apart == Map::<Seq<char>, TextView>::empty(),
        session_guard(g, steps).blocked == Set::<Seq<char>>::empty(),
        !completes_any(steps) ==> session_guard(g, steps).shared.tail == overlap_after(
            windows_of(g, steps),
        ),
        completes_any(steps) ==> session_guard(g, steps).shared.pending.len() == 0
            && session_guard(g, steps).shared.tail.len() == 0,
    decreases steps.len(),
{
    if steps.len() == 0 {
        assert(concatenated(batches_of(g, steps)) + g.shared.pending =~= text_of(steps));
        assert(g.shared.tail =~= Seq::empty());
    } else {
        let front = steps.drop_last();
        let step = steps.last();
        let now = session_guard(g, front);
        assert forall|i: int| 0 <= i < front.len() implies !(#[trigger] front[i]).blocked by {
            assert(front[i] == steps[i]);
        }
        assert(steps[steps.len() - 1] == step);
        if front.len() > 0 {
            lemma_completes_before(front);
        }
        lemma_completes_before(steps);
        law_windows_cover_the_text(g, front);
        let all = concatenated(batches_of(g, front));
        if let Some(batch) = step_batch(now, step) {
            let window = on_event(now, step.event, step.raw).window->0;
            lemma_one_more_window(windows_of(g, front), batches_of(g, front), window, batch);
            assert(windows_of(g, steps).last() == window);
        }
        if let ServerEventView::TextDelta { delta, .. } = step.event {
            assert(text_of(steps) =~= all + (now.shared.pending + delta));
        }
        assert(session_guard(g, steps).apart =~= Map::<Seq<char>, TextView>::empty());
        assert(concatenated(batches_of(g, steps)) + session_guard(g, steps).shared.pending
            =~= text_of(steps));
    }
}

/// No pattern is missed for standing on the border of two windows: of text that passed, up to
/// where the text of a response is complete, everything that is not longer than the overlap
/// stands whole in a window that the guardrails were given.
pub proof fn law_every_short_text_is_in_a_window(
    g: GuardView,
    steps: Seq<SessionStep>,
    from: int,
    to: int,
)
    requires
        g.shared.pending.len() == 0,
        g.shared.tail.len() == 0,
        g.apart == Map::<Seq<char>, TextView>::empty(),
        g.blocked == Set::<Seq<char>>::empty(),
        forall|i: int| 0 <= i < steps.len() ==> !(#[trigger] steps[i]).blocked,
        steps.len() > 0,
        !completes_any(steps.drop_last()),
        completes_any(steps),
        0 <= from < to <= text_of(steps).len(),
        text_bytes(text_of(steps).subrange(from, to)) <= OVERLAP_BYTES,
    ensures
        exists|i: int|
            0 <= i < windows_of(g, steps).len() && stands_in(
                text_of(steps).subrange(from, to),
                #[trigger] windows_of(g, steps)[i],
            ),
{
    law_windows_cover_the_text(g, steps);
    let all = concatenated(batches_of(g, steps));
    assert(all + session_guard(g, steps).shared.pending =~= all);
    let i = law_some_window_holds(windows_of(g, steps), batches_of(g, steps), from, to);
    assert(stands_in(text_of(steps).subrange(from, to), windows_of(g, steps)[i]));
}

/// The texts of content are those of its beginning and then those of its rest, wherever it is
/// parted.
pub proof fn law_content_is_joined_in_order(
    first: Seq<Option<Seq<char>>>,
    rest: Seq<Option<Seq<char>>>,
)
    ensures
        joined_texts(first + rest) == joined_texts(first) + joined_texts(rest),
    decreases rest.len(),
{
    let all = first + rest;
    if rest.len() == 0 {
        assert(all =~= first);
        assert(joined_texts(first) + joined_texts(rest) =~= joined_texts(first));
    } else {
        law_content_is_joined_in_order(first, rest.drop_last());
        assert(all.drop_last() =~= first + rest.drop_last());
        assert(all.last() == rest.last());
        assert(joined_texts(all) =~= joined_texts(first) + joined_texts(rest));
    }
}

/// Every text of a user message is looked at, whatever stands before and after it: the text that
/// is put together holds it, with a space after it. A part that is no text adds and takes nothing.
pub proof fn law_every_text_is_looked_at(
    before: Seq<Option<Seq<char>>>,
    part: Option<Seq<char>>,
    after: Seq<Option<Seq<char>>>,
)
    ensures
        part matches Some(text) ==> joined_texts(before + seq![part] + after) == joined_texts(
            before,
        ) + text + seq![' '] + joined_texts(after),
        part is None ==> joined_texts(before + seq![part] + after) == joined_texts(before + after),
        joined_texts(Seq::empty()).len() == 0,
{
    law_content_is_joined_in_order(before + seq![part], after);
    law_content_is_joined_in_order(before, seq![part]);
    law_content_is_joined_in_order(before, after);
    assert(seq![part].drop_last() =~= Seq::<Option<Seq<char>>>::empty());
    assert(joined_texts(Seq::<Option<Seq<char>>>::empty()) =~= Seq::empty());
    match part {
        Some(text) => {
            assert(joined_texts(seq![part]) =~= text + seq![' ']);
            assert(joined_texts(before + seq![part] + after) =~= joined_texts(before) + text
                + seq![' '] + joined_texts(after));
        },
        None => {
            assert(joined_texts(seq![part]) =~= Seq::empty());
            assert(joined_texts(before + seq![part] + after) =~= joined_texts(before + after));
        },
    }
}

/// What the guardrails are shown of a user message is all of its texts, but for white space around
/// them; they are shown something exactly if the message has a text, and nothing of any other
/// event.
pub proof fn law_guardrails_are_shown_the_message(content: Seq<Option<Seq<char>>>) -> (white: (
    Seq<char>,
    Seq<char>,
))
    ensures
        forall|i: int| 0 <= i < white.0.len() ==> is_white(#[trigger] white.0[i]),
        forall|i: int| 0 <= i < white.1.len() ==> is_white(#[trigger] white.1[i]),
        guarded_input(ClientEventView::ItemCreate { content: Some(content) }) matches Some(shown)
            ==> joined_texts(content) == white.0 + shown + white.1,
        guarded_input(ClientEventView::ItemCreate { content: Some(content) }) is Some
            <==> exists|i: int| 0 <= i < content.len() && (#[trigger] content[i]) is Some,
        guarded_input(ClientEventView::ItemCreate { content: None }) is None,
        guarded_input(ClientEventView::Other) is None,
{
    let text = joined_texts(content);
    lemma_some_text(content);
    law_trimming_takes_white_space_off(text)
}

proof fn lemma_some_text(content: Seq<Option<Seq<char>>>)
    ensures
        joined_texts(content).len() > 0 <==> exists|i: int|
            0 <= i < content.len() && (#[trigger] content[i]) is Some,
    decreases content.len(),
{
    if content.len() > 0 {
        let d = content.drop_last();
        lemma_some_text(d);
        assert(content[content.len() - 1] == content.last());
        if exists|i: int| 0 <= i < d.len() && (#[trigger] d[i]) is Some {
            let i = choose|i: int| 0 <= i < d.len() && (#[trigger] d[i]) is Some;
            assert(content[i] is Some);
        }
        if exists|i: int| 0 <= i < content.len() && (#[trigger] content[i]) is Some {
            let i = choose|i: int| 0 <= i < content.len() && (#[trigger] content[i]) is Some;
            if i < d.len() {
                assert(d[i] is Some);
            }
        }
    }
}

/// A text frame of either side is read as the event in its text; any other frame, and one whose
/// payload is no text, is passed by.
pub proof fn law_text_frames_are_read(frame: FrameView, text: Seq<char>)
    ensures
        (frame matches FrameView::Text { payload, .. } && payload == vstd::utf8::encode_utf8(text))
            ==> guarded_frame_input(frame) == guarded_input(client_event_of(text)) && frame_event(
            frame,
        ) == server_event_of(text),
        (frame matches FrameView::Text { payload, .. } && !vstd::utf8::valid_utf8(payload))
            || frame is Other ==> guarded_frame_input(frame) is None && frame_event(frame)
            == ServerEventView::Other,
{
    vstd::utf8::encode_utf8_valid_utf8(text);
    vstd::utf8::encode_utf8_decode_utf8(text);
}

/// A piece of text of a response that is not blocked is held where the text of its response goes,
/// after what is held there; its window is due as soon as the text that was not looked at has the
/// size of a batch, and not before. The window is the end of the text that was looked at and then
/// all of the text that was not.
pub proof fn law_windows_are_due(g: GuardView, id: Seq<char>, delta: Seq<char>, raw: Seq<u8>)
    requires
        !g.blocked.contains(id),
    ensures
        ({
            let out = on_event(g, ServerEventView::TextDelta { response_id: id, delta }, raw);
            let before = text_for(g, id);
            let after = text_for(out.next, id);
            let due = text_bytes(before.pending + delta) >= 1024;
            &&& after.hold == before.hold.push(HeldView { response_id: id, text: delta, raw })
            &&& out.window is Some <==> due
            &&& out.window matches Some(window) ==> window == before.tail + (before.pending + delta)
                && after.pending.len() == 0 && after.tail == tail_text(window, 256)
                && out.next.awaiting == Some(PendingView { response_id: id, done: None })
            &&& !due ==> after.pending == before.pending + delta && after.tail == before.tail
                && out.next.awaiting == g.awaiting
            &&& out.next.blocked == g.blocked
        }),
{
}

/// When the text of a response that is not blocked is complete, what was not looked at is looked
/// at, however little it is; where there is nothing to look at, the held frames go at once, and
/// the frame that completes them after them.
pub proof fn law_rest_of_a_text_is_looked_at(g: GuardView, id: Seq<char>, raw: Seq<u8>)
    requires
        !g.blocked.contains(id),
    ensures
        ({
            let out = on_event(g, ServerEventView::TextDone { response_id: id }, raw);
            let before = text_for(g, id);
            &&& out.window is Some <==> before.pending.len() > 0
            &&& out.window matches Some(window) ==> window == before.tail + before.pending
                && out.next.awaiting == Some(PendingView { response_id: id, done: Some(raw) })
                && out.actions.to_client.len() == 0 && text_for(out.next, id).hold == before.hold
            &&& out.window is None ==> out.actions.to_client == raws(before.hold) + seq![raw]
            &&& out.actions.to_server.len() == 0
            &&& out.next.blocked == g.blocked
        }),
{
    let t = text_for(g, id);
    assert(raws(t.hold).push(raw) =~= raws(t.hold) + seq![raw]);
}

/// A response that was blocked may speak again after its text is complete, and no other response
/// is told anything by that.
pub proof fn law_completion_lifts_the_block(g: GuardView, id: Seq<char>, raw: Seq<u8>)
    requires
        g.blocked.contains(id),
    ensures
        ({
            let out = on_event(g, ServerEventView::TextDone { response_id: id }, raw);
            &&& out.next.blocked == g.blocked.remove(id)
            &&& out.actions.to_client.len() == 0 && out.actions.to_server.len() == 0
            &&& out.window is None
            &&& out.next.shared.hold == g.shared.hold && out.next.shared.pending == g.shared.pending
            &&& out.next.apart == g.apart
        }),
{
}

/// The usage of a response is reported when it is complete, and only then.
pub proof fn law_usage_is_reported_once(
    g: GuardView,
    event: ServerEventView,
    raw: Seq<u8>,
    usage: RealtimeUsage,
)
    ensures
        on_event(
            g,
            ServerEventView::ResponseDone { usage: Some(usage) },
            raw,
        ).actions.usage == Some(reported(usage)),
        event is ResponseDone && event->usage is Some || on_event(g, event, raw).actions.usage
            is None,
{
}

/// A response that went on by itself does so no longer once its text is complete and has passed or
/// is blocked; others that do so go on.
pub proof fn law_completed_responses_come_back(
    g: GuardView,
    step: SessionStep,
    id: Seq<char>,
    other: Seq<char>,
)
    requires
        is_orderly(g),
        step.event == (ServerEventView::TextDone { response_id: id }),
        other != id,
    ensures
        ({
            let next = session_step(g, step).next;
            &&& !next.apart.dom().contains(id)
            &&& g.apart.dom().contains(other) ==> next.apart.dom().contains(other)
        }),
{
    if g.apart.dom().contains(other) {
        law_responses_apart_go_on_by_themselves(g, g, step, other);
    }
    if on_event(g, step.event, step.raw).window is Some && step.blocked {
        let out = on_event(g, step.event, step.raw);
        law_guard_stays_orderly(g, step.event, step.raw, out.next.awaiting->0, true);
        law_guard_stays_orderly(out.next, step.event, step.raw, out.next.awaiting->0, true);
    }
}

/// The text that cancels a response names it, and no other: it is the same for all but for that
/// name.
pub proof fn law_cancelling_names_the_response(id: Seq<char>, other: Seq<char>, mask: Seq<u8>)
    requires
        mask.len() == 4,
        vstd::utf8::encode_utf8(cancel_event(id)).len() <= u64::MAX,
    ensures
        contains_text(cancel_event(id), id),
        cancel_event(id) == cancel_event(other) ==> id == other,
        ws_frames(cancel_frame(id, mask), OPCODE_CONTINUATION) == seq![
            FrameView::Text {
                raw: cancel_frame(id, mask),
                payload: vstd::utf8::encode_utf8(cancel_event(id)),
            },
        ],
{
    let before = "{\"type\":\"response.cancel\",\"response_id\":\""@;
    let after = "\"}"@;
    law_parts_are_found(before, id, after);
    if cancel_event(id) == cancel_event(other) {
        let text = cancel_event(id);
        assert(text.len() == before.len() + id.len() + after.len());
        assert(text.len() == before.len() + other.len() + after.len());
        let n = before.len() as int;
        assert(id =~= text.subrange(n, n + id.len()));
        assert(other =~= text.subrange(n, n + other.len()));
    }
    let payload = vstd::utf8::encode_utf8(cancel_event(id));
    law_text_frames_are_read_back(payload, Some(mask), Seq::empty(), OPCODE_CONTINUATION);
    let frame = cancel_frame(id, mask);
    assert(frame + Seq::empty() =~= frame);
    assert(ws_frames(Seq::<u8>::empty(), OPCODE_CONTINUATION) =~= Seq::empty());
    assert(ws_frames(frame, OPCODE_CONTINUATION) =~= seq![
        FrameView::Text { raw: frame, payload },
    ]);
}

} // verus!
