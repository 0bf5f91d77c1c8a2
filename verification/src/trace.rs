//! Runs of the driver over whole sequences of events, and what holds of them.

use vstd::prelude::*;
use crate::cache::{cache_of, CachedView, Frame};
use crate::driver::{
    admits, created, step, ActionView, EventView, Phase, PlaybackView, Stage,
};
use crate::outputs::{lemma_without_shrinks, without};
use crate::resize::{packed_len, Filter};
use crate::timing::duration_of;

verus! {

/// The session after a sequence of events, one step for each, with the
/// actions that the steps gave.
pub open spec fn run(pre: PlaybackView, events: Seq<EventView>) -> (PlaybackView, Seq<ActionView>)
    decreases events.len(),
{
    if events.len() == 0 {
        (pre, Seq::empty())
    } else {
        let (mid, actions) = run(pre, events.drop_last());
        let (post, action) = step(mid, events.last());
        (post, actions.push(action))
    }
}

/// Whether every event of the sequence answers the action given before it.
pub open spec fn admitted(pre: PlaybackView, events: Seq<EventView>) -> bool
    decreases events.len(),
{
    events.len() > 0 ==> admitted(pre, events.drop_last()) && admits(
        run(pre, events.drop_last()).0,
        events.last(),
    )
}

/// The emissions among the actions, in their order.
pub open spec fn emitted(actions: Seq<ActionView>) -> Seq<ActionView>
    decreases actions.len(),
{
    if actions.len() == 0 {
        Seq::empty()
    } else if actions.last() is Emit {
        emitted(actions.drop_last()).push(actions.last())
    } else {
        emitted(actions.drop_last())
    }
}

/// The number of emissions among the actions.
pub open spec fn emissions(actions: Seq<ActionView>) -> nat {
    emitted(actions).len()
}

/// The frames that the actions hand to the cache builder, in their order:
/// each with its buffer and its display time.
pub open spec fn forwarded(actions: Seq<ActionView>) -> Seq<(Seq<u8>, u32)>
    decreases actions.len(),
{
    if actions.len() == 0 {
        Seq::empty()
    } else {
        match actions.last() {
            ActionView::Listen { forward: Some(frame), .. } => forwarded(
                actions.drop_last(),
            ).push(frame),
            _ => forwarded(actions.drop_last()),
        }
    }
}

/// The emissions and the forwarded frames of two runs of actions in a row
/// are those of the first followed by those of the second.
pub proof fn lemma_actions_in_parts(first: Seq<ActionView>, then: Seq<ActionView>)
    ensures
        emitted(first + then) == emitted(first) + emitted(then),
        forwarded(first + then) == forwarded(first) + forwarded(then),
    decreases then.len(),
{
    if then.len() == 0 {
        assert(first + then =~= first);
        assert(emitted(first) + emitted(then) =~= emitted(first));
        assert(forwarded(first) + forwarded(then) =~= forwarded(first));
    } else {
        lemma_actions_in_parts(first, then.drop_last());
        assert((first + then).drop_last() =~= first + then.drop_last());
        assert((first + then).last() == then.last());
        assert(emitted(first + then) =~= emitted(first) + emitted(then));
        assert(forwarded(first + then) =~= forwarded(first) + forwarded(then));
    }
}

/// A new session is well-formed.
pub proof fn lemma_created_is_wf(outputs: Seq<Seq<char>>, width: u32, height: u32, filter: Filter)
    ensures
        created(outputs, width, height, filter).wf(),
{
}

/// A step takes a well-formed session to a well-formed session.
pub proof fn lemma_step_keeps_wf(pre: PlaybackView, event: EventView)
    requires
        pre.wf(),
        admits(pre, event),
    ensures
        step(pre, event).0.wf(),
{
    if let EventView::Removal(gone) = event {
        lemma_without_shrinks(pre.outputs, gone);
    }
}

/// A step changes neither the size of the surfaces nor the filter, and it
/// adds no output: who listens afterwards listened before.
pub proof fn lemma_step_only_shrinks(pre: PlaybackView, event: EventView)
    ensures
        step(pre, event).0.width == pre.width,
        step(pre, event).0.height == pre.height,
        step(pre, event).0.filter == pre.filter,
        step(pre, event).0.outputs.len() <= pre.outputs.len(),
        forall|name: Seq<char>| #[trigger]
            step(pre, event).0.outputs.contains(name) ==> pre.outputs.contains(name),
{
    if let EventView::Removal(gone) = event {
        lemma_without_shrinks(pre.outputs, gone);
    }
}

/// A run of admitted events takes a well-formed session to a well-formed
/// session, for the same surfaces and with no output that was not there
/// before; and as long as the session is not over, someone listens.
pub proof fn lemma_run_keeps_wf(pre: PlaybackView, events: Seq<EventView>)
    requires
        pre.wf(),
        admitted(pre, events),
    ensures
        run(pre, events).0.wf(),
        run(pre, events).0.width == pre.width,
        run(pre, events).0.height == pre.height,
        run(pre, events).0.filter == pre.filter,
        run(pre, events).0.outputs.len() <= pre.outputs.len(),
        forall|name: Seq<char>| #[trigger]
            run(pre, events).0.outputs.contains(name) ==> pre.outputs.contains(name),
        run(pre, events).0.phase != Phase::Terminated ==> run(pre, events).0.outputs.len() > 0,
        run(pre, events).1.len() == events.len(),
    decreases events.len(),
{
    if events.len() > 0 {
        let mid = run(pre, events.drop_last()).0;
        lemma_run_keeps_wf(pre, events.drop_last());
        lemma_step_keeps_wf(mid, events.last());
        lemma_step_only_shrinks(mid, events.last());
    }
}

/// Nothing is emitted but when a wait has run out. What is emitted then is
/// the buffer that waited, and it goes to the outputs that listen after the
/// step, of which there is at least one: nothing is emitted to nobody.
pub proof fn lemma_emission_has_listeners(pre: PlaybackView, event: EventView)
    requires
        pre.wf(),
        admits(pre, event),
    ensures
        step(pre, event).1 matches ActionView::Emit { outputs, buffer } ==> {
            &&& event is TimedOut
            &&& outputs.len() > 0
            &&& outputs == step(pre, event).0.outputs
            &&& buffer == pre.staged
        },
{
}

/// A removal that leaves an output neither ends the session nor cuts a wait
/// short: the outputs named leave, all else stays as it was, and the driver
/// asks to listen on, for the display time of the buffer that waits.
pub proof fn lemma_removal_keeps_waiting(pre: PlaybackView, gone: Seq<Seq<char>>)
    requires
        pre.wf(),
        pre.phase != Phase::Terminated,
        admits(pre, EventView::Removal(gone)),
        without(pre.outputs, gone).len() > 0,
    ensures
        step(pre, EventView::Removal(gone)).0 == (PlaybackView {
            outputs: without(pre.outputs, gone),
            ..pre
        }),
        step(pre, EventView::Removal(gone)).1 == if pre.phase == Phase::LoopedReplay
            && pre.cache.len() == 0 {
            ActionView::Idle
        } else {
            ActionView::Listen { duration_ms: pre.staged_ms, forward: None }
        },
{
}

/// Whenever the driver asks to listen, it asks for the display time of the
/// buffer that waits; during replay that buffer and that time are those of
/// the cached frame under the cursor.
pub proof fn lemma_wait_is_the_staged_frames(pre: PlaybackView, event: EventView)
    requires
        pre.wf(),
        admits(pre, event),
    ensures
        step(pre, event).1 matches ActionView::Listen { duration_ms, .. } ==> {
            let post = step(pre, event).0;
            &&& post.stage == Stage::Listening
            &&& duration_ms == post.staged_ms
            &&& post.phase == Phase::LoopedReplay ==> {
                &&& post.cursor < post.cache.len()
                &&& post.staged == post.cache[post.cursor as int].pixels
                &&& post.staged_ms == post.cache[post.cursor as int].duration_ms
            }
        },
{
    if let EventView::Removal(gone) = event {
        lemma_without_shrinks(pre.outputs, gone);
    }
}

/// A session that is over stays as it is, whatever happens, and only ever
/// asks to stop.
pub proof fn lemma_over_stays_over(pre: PlaybackView, events: Seq<EventView>)
    requires
        pre.phase == Phase::Terminated,
    ensures
        run(pre, events).0 == pre,
        run(pre, events).1.len() == events.len(),
        forall|at: int| 0 <= at < events.len() ==> run(pre, events).1[at] == ActionView::Stop,
        emissions(run(pre, events).1) == 0,
        forwarded(run(pre, events).1).len() == 0,
        admitted(pre, events),
    decreases events.len(),
{
    if events.len() > 0 {
        lemma_over_stays_over(pre, events.drop_last());
        assert(run(pre, events).1.drop_last() =~= run(pre, events.drop_last()).1);
    }
}

/// Running over two sequences of events in a row is running over the first
/// and going on from there over the second.
pub proof fn lemma_run_in_parts(pre: PlaybackView, first: Seq<EventView>, then: Seq<EventView>)
    ensures
        run(pre, first + then).0 == run(run(pre, first).0, then).0,
        run(pre, first + then).1 == run(pre, first).1 + run(run(pre, first).0, then).1,
        emitted(run(pre, first + then).1) == emitted(run(pre, first).1) + emitted(
            run(run(pre, first).0, then).1,
        ),
        forwarded(run(pre, first + then).1) == forwarded(run(pre, first).1) + forwarded(
            run(run(pre, first).0, then).1,
        ),
        emissions(run(pre, first + then).1) == emissions(run(pre, first).1) + emissions(
            run(run(pre, first).0, then).1,
        ),
        admitted(pre, first + then) == (admitted(pre, first) && admitted(run(pre, first).0, then)),
    decreases then.len(),
{
    let mid = run(pre, first).0;
    if then.len() == 0 {
        assert(first + then =~= first);
        assert(run(pre, first).1 + run(mid, then).1 =~= run(pre, first).1);
    } else {
        lemma_run_in_parts(pre, first, then.drop_last());
        assert((first + then).drop_last() =~= first + then.drop_last());
        assert((first + then).last() == then.last());
        let whole = run(pre, first + then).1;
        let tail = run(mid, then).1;
        assert(whole =~= run(pre, first).1 + tail);
    }
    lemma_actions_in_parts(run(pre, first).1, run(mid, then).1);
}

/// A run over one event is one step.
pub proof fn lemma_first_step(pre: PlaybackView, event: EventView)
    ensures
        run(pre, seq![event]).0 == step(pre, event).0,
        run(pre, seq![event]).1 == seq![step(pre, event).1],
        emissions(run(pre, seq![event]).1) == if step(pre, event).1 is Emit {
            1nat
        } else {
            0nat
        },
{
    let events = seq![event];
    assert(events.drop_last() =~= Seq::<EventView>::empty());
    assert(run(pre, events.drop_last()).1 =~= Seq::<ActionView>::empty());
    assert(run(pre, events).1 =~= seq![step(pre, event).1]);
    assert(run(pre, events).1.drop_last() =~= Seq::<ActionView>::empty());
    assert(emitted(run(pre, events).1.drop_last()).len() == 0);
}

/// A run over a sequence with one more event is the run over the sequence
/// and one step more.
pub proof fn lemma_run_push(pre: PlaybackView, events: Seq<EventView>, event: EventView)
    ensures
        run(pre, events.push(event)).0 == step(run(pre, events).0, event).0,
        run(pre, events.push(event)).1 == run(pre, events).1.push(
            step(run(pre, events).0, event).1,
        ),
        run(pre, events.push(event)).1.len() == run(pre, events).1.len() + 1,
        emitted(run(pre, events.push(event)).1) == if step(run(pre, events).0, event).1 is Emit {
            emitted(run(pre, events).1).push(step(run(pre, events).0, event).1)
        } else {
            emitted(run(pre, events).1)
        },
        forwarded(run(pre, events.push(event)).1) == match step(run(pre, events).0, event).1 {
            ActionView::Listen { forward: Some(frame), .. } => forwarded(
                run(pre, events).1,
            ).push(frame),
            _ => forwarded(run(pre, events).1),
        },
        admitted(pre, events.push(event)) == (admitted(pre, events) && admits(
            run(pre, events).0,
            event,
        )),
{
    assert(events.push(event).drop_last() =~= events);
    let action = step(run(pre, events).0, event).1;
    assert(run(pre, events).1.push(action).drop_last() =~= run(pre, events).1);
}

/// When a removal names every output that still listens, the session is over
/// with that step, and nothing is emitted then or at any time after it. This
/// holds wherever the driver listens: while a buffer waits in the first pass
/// or in the replay, and while an empty cache is replayed.
pub proof fn lemma_full_removal_ends_session(
    pre: PlaybackView,
    gone: Seq<Seq<char>>,
    later: Seq<EventView>,
)
    requires
        pre.wf(),
        pre.phase != Phase::Terminated,
        admits(pre, EventView::Removal(gone)),
        forall|name: Seq<char>| pre.outputs.contains(name) ==> gone.contains(name),
    ensures
        step(pre, EventView::Removal(gone)).0.phase == Phase::Terminated,
        step(pre, EventView::Removal(gone)).0.outputs.len() == 0,
        step(pre, EventView::Removal(gone)).1 == ActionView::Stop,
        run(pre, seq![EventView::Removal(gone)] + later).0.phase == Phase::Terminated,
        emissions(run(pre, seq![EventView::Removal(gone)] + later).1) == 0,
{
    let event = EventView::Removal(gone);
    let left = without(pre.outputs, gone);
    lemma_without_shrinks(pre.outputs, gone);
    if left.len() > 0 {
        assert(left.contains(left[0]));
    }
    lemma_first_step(pre, event);
    lemma_run_in_parts(pre, seq![event], later);
    lemma_over_stays_over(step(pre, event).0, later);
}

/// When the consumer has dropped its end of the removal channel, the session
/// is over with the step that hears of it, and nothing is emitted then or at
/// any time after it.
pub proof fn lemma_disconnection_ends_session(pre: PlaybackView, later: Seq<EventView>)
    requires
        pre.wf(),
        admits(pre, EventView::Disconnected),
    ensures
        step(pre, EventView::Disconnected).0.phase == Phase::Terminated,
        step(pre, EventView::Disconnected).1 == ActionView::Stop,
        run(pre, seq![EventView::Disconnected] + later).0.phase == Phase::Terminated,
        emissions(run(pre, seq![EventView::Disconnected] + later).1) == 0,
{
    let event = EventView::Disconnected;
    lemma_first_step(pre, event);
    lemma_run_in_parts(pre, seq![event], later);
    lemma_over_stays_over(step(pre, event).0, later);
}

/// The replay of an empty cache emits nothing, whatever happens, and it can
/// always be ended: it takes a removal and the loss of the consumer at every
/// step.
pub proof fn lemma_empty_replay_never_emits(pre: PlaybackView, events: Seq<EventView>)
    requires
        pre.wf(),
        pre.phase == Phase::LoopedReplay,
        pre.cache.len() == 0,
    ensures
        emissions(run(pre, events).1) == 0,
        forwarded(run(pre, events).1).len() == 0,
        run(pre, events).0.phase == Phase::LoopedReplay || run(pre, events).0.phase
            == Phase::Terminated,
        run(pre, events).0.wf(),
        run(pre, events).0.phase == Phase::LoopedReplay ==> {
            &&& run(pre, events).0.cache.len() == 0
            &&& admits(run(pre, events).0, EventView::Disconnected)
            &&& forall|gone: Seq<Seq<char>>| #[trigger]
                admits(run(pre, events).0, EventView::Removal(gone))
        },
    decreases events.len(),
{
    if events.len() > 0 {
        let mid = run(pre, events.drop_last()).0;
        lemma_empty_replay_never_emits(pre, events.drop_last());
        if let EventView::Removal(gone) = events.last() {
            lemma_without_shrinks(mid.outputs, gone);
        }
        assert(run(pre, events).1.drop_last() =~= run(pre, events.drop_last()).1);
    }
}

/// When the cache that is handed over holds exactly one frame, the session
/// is over with that step: the replay never starts, and nothing is emitted
/// then or at any time after it.
pub proof fn lemma_single_frame_never_replays(
    pre: PlaybackView,
    cache: Seq<CachedView>,
    later: Seq<EventView>,
)
    requires
        pre.phase == Phase::CacheHandoff,
        cache.len() == 1,
    ensures
        step(pre, EventView::Cached(cache)).0.phase == Phase::Terminated,
        step(pre, EventView::Cached(cache)).1 == ActionView::Stop,
        run(pre, seq![EventView::Cached(cache)] + later).0.phase == Phase::Terminated,
        emissions(run(pre, seq![EventView::Cached(cache)] + later).1) == 0,
{
    let event = EventView::Cached(cache);
    lemma_first_step(pre, event);
    lemma_run_in_parts(pre, seq![event], later);
    lemma_over_stays_over(step(pre, event).0, later);
}

/// Whether the session listens while a buffer waits.
pub open spec fn is_waiting(pre: PlaybackView) -> bool {
    &&& pre.stage == Stage::Listening
    &&& pre.phase == Phase::FirstPass || (pre.phase == Phase::LoopedReplay && pre.cache.len() > 0)
}

/// Removals that leave the session alive leave the buffer waiting: after any
/// number of them the session is as it was but for the outputs that left,
/// nothing was emitted and nothing went to the cache builder.
pub proof fn lemma_removals_keep_waiting(pre: PlaybackView, removals: Seq<EventView>)
    requires
        pre.wf(),
        is_waiting(pre),
        forall|at: int| 0 <= at < removals.len() ==> removals[at] is Removal,
        run(pre, removals).0.phase != Phase::Terminated,
    ensures
        admitted(pre, removals),
        run(pre, removals).0 == (PlaybackView { outputs: run(pre, removals).0.outputs, ..pre }),
        run(pre, removals).0.wf(),
        run(pre, removals).0.outputs.len() > 0,
        removals.len() == 0 ==> run(pre, removals).0 == pre,
        run(pre, removals).1.len() == removals.len(),
        emitted(run(pre, removals).1).len() == 0,
        forwarded(run(pre, removals).1).len() == 0,
    decreases removals.len(),
{
    if removals.len() > 0 {
        let mid = run(pre, removals.drop_last()).0;
        if mid.phase == Phase::Terminated {
            assert(false);
        }
        lemma_removals_keep_waiting(pre, removals.drop_last());
        let gone = removals.last()->Removal_0;
        lemma_without_shrinks(mid.outputs, gone);
        assert(run(pre, removals).1.drop_last() =~= run(pre, removals.drop_last()).1);
    }
}

/// A wait that is not cut short by the end of the session ends in one
/// emission: after any removals that leave an output, the buffer that waited
/// is emitted when the wait runs out, to the outputs that are left.
pub proof fn lemma_wait_ends_in_emission(pre: PlaybackView, removals: Seq<EventView>)
    requires
        pre.wf(),
        is_waiting(pre),
        forall|at: int| 0 <= at < removals.len() ==> removals[at] is Removal,
        run(pre, removals.push(EventView::TimedOut)).0.phase != Phase::Terminated,
    ensures
        admitted(pre, removals.push(EventView::TimedOut)),
        run(pre, removals.push(EventView::TimedOut)).0 == (PlaybackView {
            outputs: run(pre, removals.push(EventView::TimedOut)).0.outputs,
            ..pre.cleared(Stage::Emitting)
        }),
        run(pre, removals.push(EventView::TimedOut)).0.wf(),
        run(pre, removals.push(EventView::TimedOut)).0.outputs.len() > 0,
        removals.len() == 0 ==> run(pre, removals.push(EventView::TimedOut)).0.outputs
            == pre.outputs,
        emitted(run(pre, removals.push(EventView::TimedOut)).1) == seq![
            ActionView::Emit {
                outputs: run(pre, removals.push(EventView::TimedOut)).0.outputs,
                buffer: pre.staged,
            },
        ],
        forwarded(run(pre, removals.push(EventView::TimedOut)).1).len() == 0,
{
    let mid = run(pre, removals).0;
    lemma_run_push(pre, removals, EventView::TimedOut);
    if mid.phase == Phase::Terminated {
        assert(false);
    }
    lemma_removals_keep_waiting(pre, removals);
    let action = step(mid, EventView::TimedOut).1;
    assert(emitted(run(pre, removals).1).push(action) =~= seq![action]);
}

/// Whether `event` is a frame of the source that a session for surfaces of
/// `width` by `height` can take.
pub open spec fn is_frame_for(event: EventView, width: u32, height: u32) -> bool {
    event matches EventView::Decoded { buffer, delay_denom, .. } && delay_denom != 0
        && buffer.len() == packed_len(width, height)
}

/// A frame of the source as it goes to the cache builder: its buffer and its
/// display time.
pub open spec fn frame_of(event: EventView) -> (Seq<u8>, u32)
    recommends
        event is Decoded,
{
    (event->buffer, duration_of(event->delay_numer, event->delay_denom) as u32)
}

/// The events of a first pass over `frames` in which the removals at each
/// place were heard while the frame at that place waited: for every frame its
/// decoding, those removals, the end of the wait, and the word that the
/// emission was carried out.
pub open spec fn first_pass_events(frames: Seq<EventView>, heard: Seq<Seq<EventView>>) -> Seq<
    EventView,
>
    recommends
        frames.len() == heard.len(),
    decreases frames.len(),
{
    if frames.len() == 0 {
        Seq::empty()
    } else {
        first_pass_events(frames.drop_last(), heard.drop_last()).push(frames.last())
            + heard.last().push(EventView::TimedOut).push(EventView::Done)
    }
}

/// A first pass that is not cut short emits once for every frame of the
/// source, in the source's order, and each emission carries that frame's
/// buffer. Every frame goes to the cache builder once, in the same order,
/// with its display time. Where no removal arrives, every emission goes to
/// the outputs that the pass began with. Afterwards the session asks for the
/// next frame.
pub proof fn lemma_first_pass_emits_every_frame(
    pre: PlaybackView,
    frames: Seq<EventView>,
    heard: Seq<Seq<EventView>>,
)
    requires
        pre.wf(),
        pre.phase == Phase::FirstPass,
        pre.stage == Stage::Fetching,
        frames.len() == heard.len(),
        forall|at: int| 0 <= at < frames.len() ==> is_frame_for(frames[at], pre.width, pre.height),
        forall|at: int, nth: int|
            0 <= at < heard.len() && 0 <= nth < heard[at].len() ==> heard[at][nth] is Removal,
        run(pre, first_pass_events(frames, heard)).0.phase != Phase::Terminated,
    ensures
        admitted(pre, first_pass_events(frames, heard)),
        run(pre, first_pass_events(frames, heard)).0.wf(),
        run(pre, first_pass_events(frames, heard)).0.phase == Phase::FirstPass,
        run(pre, first_pass_events(frames, heard)).0.stage == Stage::Fetching,
        run(pre, first_pass_events(frames, heard)).0.width == pre.width,
        run(pre, first_pass_events(frames, heard)).0.height == pre.height,
        run(pre, first_pass_events(frames, heard)).0.filter == pre.filter,
        emissions(run(pre, first_pass_events(frames, heard)).1) == frames.len(),
        forall|at: int|
            0 <= at < frames.len() ==> {
                let emission = #[trigger] emitted(run(pre, first_pass_events(frames, heard)).1)[at];
                &&& emission is Emit
                &&& emission->buffer == frames[at]->buffer
                &&& emission->outputs.len() > 0
            },
        forwarded(run(pre, first_pass_events(frames, heard)).1).len() == frames.len(),
        forall|at: int|
            0 <= at < frames.len() ==> #[trigger] forwarded(
                run(pre, first_pass_events(frames, heard)).1,
            )[at] == frame_of(frames[at]),
        (forall|at: int| 0 <= at < heard.len() ==> heard[at].len() == 0) ==> {
            &&& run(pre, first_pass_events(frames, heard)).0.outputs == pre.outputs
            &&& forall|at: int|
                0 <= at < frames.len() ==> (#[trigger] emitted(
                    run(pre, first_pass_events(frames, heard)).1,
                )[at])->outputs == pre.outputs
        },
    decreases frames.len(),
{
    if frames.len() > 0 {
        let earlier = first_pass_events(frames.drop_last(), heard.drop_last());
        let frame = frames.last();
        let removals = heard.last();
        let wait = removals.push(EventView::TimedOut);
        let block = wait.push(EventView::Done);
        let last = frames.len() - 1;
        let began = run(pre, earlier).0;
        let staged = run(pre, earlier.push(frame)).0;
        lemma_run_push(pre, earlier, frame);
        lemma_run_in_parts(pre, earlier.push(frame), block);
        lemma_run_push(staged, wait, EventView::Done);
        assert(is_frame_for(frame, pre.width, pre.height));
        if began.phase == Phase::Terminated {
            lemma_over_stays_over(staged, block);
            assert(false);
        }
        assert forall|at: int, nth: int|
            0 <= at < heard.drop_last().len() && 0 <= nth < heard.drop_last()[at].len() implies heard.drop_last()[at][nth] is Removal by {
            assert(heard.drop_last()[at] == heard[at]);
        }
        lemma_first_pass_emits_every_frame(pre, frames.drop_last(), heard.drop_last());
        assert forall|nth: int| 0 <= nth < removals.len() implies removals[nth] is Removal by {
            assert(removals == heard[last]);
        }
        if run(staged, wait).0.phase == Phase::Terminated {
            assert(false);
        }
        lemma_wait_ends_in_emission(staged, removals);
        let actions = run(pre, first_pass_events(frames, heard)).1;
        let before = run(pre, earlier).1;
        let emission = ActionView::Emit { outputs: run(staged, wait).0.outputs, buffer: staged.staged };
        assert(emitted(run(staged, block).1) == seq![emission]);
        assert(emitted(actions) =~= emitted(before).push(emission));
        assert(forwarded(actions) =~= forwarded(before).push(frame_of(frame)));
        assert forall|at: int| 0 <= at < frames.len() implies {
            let shown = #[trigger] emitted(actions)[at];
            &&& shown is Emit
            &&& shown->buffer == frames[at]->buffer
            &&& shown->outputs.len() > 0
        } by {
            if at < last {
                assert(frames.drop_last()[at] == frames[at]);
                assert(emitted(actions)[at] == emitted(before)[at]);
            }
        }
        assert forall|at: int| 0 <= at < frames.len() implies #[trigger] forwarded(actions)[at]
            == frame_of(frames[at]) by {
            if at < last {
                assert(frames.drop_last()[at] == frames[at]);
                assert(forwarded(actions)[at] == forwarded(before)[at]);
            }
        }
        if forall|at: int| 0 <= at < heard.len() ==> heard[at].len() == 0 {
            assert forall|at: int| 0 <= at < heard.drop_last().len() implies heard.drop_last()[at].len()
                == 0 by {
                assert(heard.drop_last()[at] == heard[at]);
            }
            assert(heard[last].len() == 0);
            assert forall|at: int| 0 <= at < frames.len() implies (#[trigger] emitted(
                actions,
            )[at])->outputs == pre.outputs by {
                if at < last {
                    assert(emitted(actions)[at] == emitted(before)[at]);
                }
            }
        }
    }
}

/// The events of a replay in which the removals at each place were heard
/// while the frame emitted at that place waited: for every emission those
/// removals, the end of the wait, and the word that the emission was carried
/// out.
pub open spec fn replay_events(heard: Seq<Seq<EventView>>) -> Seq<EventView>
    decreases heard.len(),
{
    if heard.len() == 0 {
        Seq::empty()
    } else {
        replay_events(heard.drop_last()) + heard.last().push(EventView::TimedOut).push(
            EventView::Done,
        )
    }
}

/// One place further round a cycle of `len` places.
proof fn lemma_next_place(place: int, len: int)
    requires
        len > 0,
        place >= 0,
    ensures
        (place + 1) % len == if place % len + 1 < len {
            place % len + 1
        } else {
            0
        },
{
    vstd::arithmetic::div_mod::lemma_add_mod_noop(place, 1, len);
    vstd::arithmetic::div_mod::lemma_mod_bound(place, len);
    if len == 1 {
        vstd::arithmetic::div_mod::lemma_mod_self_0(len);
    } else {
        vstd::arithmetic::div_mod::lemma_small_mod(1, len as nat);
        if place % len + 1 < len {
            vstd::arithmetic::div_mod::lemma_small_mod((place % len + 1) as nat, len as nat);
        } else {
            vstd::arithmetic::div_mod::lemma_mod_self_0(len);
        }
    }
}

/// A replay that is not cut short goes round the cache: its emissions carry
/// the cached frames in the order of the cache, the first one again after the
/// last, and nothing is cached again. Where no removal arrives, every
/// emission goes to the outputs that the replay began with. The cache itself
/// stays as it was handed over, and the frame that waits afterwards is the
/// one that follows the last emission.
pub proof fn lemma_replay_goes_round(pre: PlaybackView, heard: Seq<Seq<EventView>>)
    requires
        pre.wf(),
        pre.phase == Phase::LoopedReplay,
        pre.stage == Stage::Listening,
        pre.cache.len() > 0,
        forall|at: int, nth: int|
            0 <= at < heard.len() && 0 <= nth < heard[at].len() ==> heard[at][nth] is Removal,
        run(pre, replay_events(heard)).0.phase != Phase::Terminated,
    ensures
        admitted(pre, replay_events(heard)),
        run(pre, replay_events(heard)).0.wf(),
        run(pre, replay_events(heard)).0.phase == Phase::LoopedReplay,
        run(pre, replay_events(heard)).0.stage == Stage::Listening,
        run(pre, replay_events(heard)).0.cache == pre.cache,
        run(pre, replay_events(heard)).0.cursor == (pre.cursor + heard.len()) as int % (
        pre.cache.len() as int),
        emissions(run(pre, replay_events(heard)).1) == heard.len(),
        forwarded(run(pre, replay_events(heard)).1).len() == 0,
        forall|at: int|
            0 <= at < heard.len() ==> {
                let emission = #[trigger] emitted(run(pre, replay_events(heard)).1)[at];
                &&& emission is Emit
                &&& emission->buffer == pre.cache[(pre.cursor + at) % (
                pre.cache.len() as int)].pixels
                &&& emission->outputs.len() > 0
            },
        (forall|at: int| 0 <= at < heard.len() ==> heard[at].len() == 0) ==> {
            &&& run(pre, replay_events(heard)).0.outputs == pre.outputs
            &&& forall|at: int|
                0 <= at < heard.len() ==> (#[trigger] emitted(
                    run(pre, replay_events(heard)).1,
                )[at])->outputs == pre.outputs
        },
    decreases heard.len(),
{
    let len = pre.cache.len() as int;
    if heard.len() == 0 {
        vstd::arithmetic::div_mod::lemma_small_mod(pre.cursor, pre.cache.len());
    } else {
        let earlier = replay_events(heard.drop_last());
        let removals = heard.last();
        let wait = removals.push(EventView::TimedOut);
        let block = wait.push(EventView::Done);
        let last = heard.len() - 1;
        let began = run(pre, earlier).0;
        lemma_run_in_parts(pre, earlier, block);
        lemma_run_push(began, wait, EventView::Done);
        if began.phase == Phase::Terminated {
            lemma_over_stays_over(began, block);
            assert(false);
        }
        assert forall|at: int, nth: int|
            0 <= at < heard.drop_last().len() && 0 <= nth < heard.drop_last()[at].len() implies heard.drop_last()[at][nth] is Removal by {
            assert(heard.drop_last()[at] == heard[at]);
        }
        lemma_replay_goes_round(pre, heard.drop_last());
        assert forall|nth: int| 0 <= nth < removals.len() implies removals[nth] is Removal by {
            assert(removals == heard[last]);
        }
        if run(began, wait).0.phase == Phase::Terminated {
            assert(false);
        }
        lemma_wait_ends_in_emission(began, removals);
        lemma_next_place(pre.cursor + last, len);
        let actions = run(pre, replay_events(heard)).1;
        let before = run(pre, earlier).1;
        let emission = ActionView::Emit { outputs: run(began, wait).0.outputs, buffer: began.staged };
        assert(emitted(run(began, block).1) == seq![emission]);
        assert(emitted(actions) =~= emitted(before).push(emission));
        assert(forwarded(actions) =~= forwarded(before));
        assert forall|at: int| 0 <= at < heard.len() implies {
            let shown = #[trigger] emitted(actions)[at];
            &&& shown is Emit
            &&& shown->buffer == pre.cache[(pre.cursor + at) % len].pixels
            &&& shown->outputs.len() > 0
        } by {
            if at < last {
                assert(emitted(actions)[at] == emitted(before)[at]);
            }
        }
        if forall|at: int| 0 <= at < heard.len() ==> heard[at].len() == 0 {
            assert forall|at: int| 0 <= at < heard.drop_last().len() implies heard.drop_last()[at].len()
                == 0 by {
                assert(heard.drop_last()[at] == heard[at]);
            }
            assert(heard[last].len() == 0);
            assert forall|at: int| 0 <= at < heard.len() implies (#[trigger] emitted(
                actions,
            )[at])->outputs == pre.outputs by {
                if at < last {
                    assert(emitted(actions)[at] == emitted(before)[at]);
                }
            }
        }
    }
}

/// Where the cache was built from the frames of the first pass, a replay that
/// is not cut short shows those frames again: its emissions carry the very
/// buffers of the frames, unchanged, in their order and going round, and the
/// frame that waits afterwards waits for its own display time.
pub proof fn lemma_replay_shows_the_frames_again(
    pre: PlaybackView,
    frames: Seq<Frame>,
    heard: Seq<Seq<EventView>>,
)
    requires
        pre.wf(),
        pre.phase == Phase::LoopedReplay,
        pre.stage == Stage::Listening,
        pre.cache == cache_of(frames),
        frames.len() > 0,
        forall|at: int, nth: int|
            0 <= at < heard.len() && 0 <= nth < heard[at].len() ==> heard[at][nth] is Removal,
        run(pre, replay_events(heard)).0.phase != Phase::Terminated,
    ensures
        emissions(run(pre, replay_events(heard)).1) == heard.len(),
        forall|at: int|
            0 <= at < heard.len() ==> {
                let emission = #[trigger] emitted(run(pre, replay_events(heard)).1)[at];
                &&& emission is Emit
                &&& emission->buffer == frames[(pre.cursor + at) % (frames.len() as int)].buffer@
            },
        run(pre, replay_events(heard)).0.staged == frames[(pre.cursor + heard.len()) as int % (
        frames.len() as int)].buffer@,
        run(pre, replay_events(heard)).0.staged_ms == frames[(pre.cursor + heard.len()) as int % (
        frames.len() as int)].duration_ms,
{
    lemma_replay_goes_round(pre, heard);
    let len = frames.len() as int;
    let actions = run(pre, replay_events(heard)).1;
    vstd::arithmetic::div_mod::lemma_mod_bound((pre.cursor + heard.len()) as int, len);
    assert forall|at: int| 0 <= at < heard.len() implies {
        let emission = #[trigger] emitted(actions)[at];
        &&& emission is Emit
        &&& emission->buffer == frames[(pre.cursor + at) % len].buffer@
    } by {
        vstd::arithmetic::div_mod::lemma_mod_bound(pre.cursor + at, len);
    }
}

} // verus!
