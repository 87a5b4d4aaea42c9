//! Whole runs of the program: events, each followed by the drawing that it asks for.
use crate::laws::{
    all_wf, countable, law_closed_surface_is_gone, law_destroyed_output_is_gone,
    law_first_window_is_wf, law_no_drawing_while_waiting, lemma_drawable_indices,
};
use crate::output::{law_position_is_the_first, position, Output};
use crate::state::{
    after_configure, after_frame, after_scale, after_update, configure_reaction, draw_request,
    drawable_indices, frame_reaction, lemma_filter_keeps_wf, scale_reaction, without_output,
    without_surface, ConfigureReaction,
};
use vstd::prelude::*;

verus! {

/// What can happen to the monitors.
pub enum Event<L, W, S> {
    /// A chosen monitor is taken in.
    Added { output_id: u32, surface_id: u32, layer: L, scale: i32 },
    Scale { surface_id: u32, factor: i32 },
    Frame { surface_id: u32 },
    /// With the window and the EGL surface that are made if there is none.
    Configure { surface_id: u32, size: (u32, u32), window: W, surface: S },
    Update,
    Destroyed { output_id: u32 },
    Closed { surface_id: u32 },
}

/// An event, and the monitors on which drawing then succeeds.
pub struct Turn<L, W, S> {
    pub event: Event<L, W, S>,
    pub succeeds: Set<int>,
}

/// The monitors after the event, before anything is drawn.
pub open spec fn after_event<L, W, S>(
    outputs: Seq<Output<L, W, S>>,
    event: Event<L, W, S>,
) -> Seq<Output<L, W, S>> {
    match event {
        Event::Added { output_id, surface_id, layer, scale } => outputs.push(
            Output::fresh(output_id, surface_id, layer, scale),
        ),
        Event::Scale { surface_id, factor } => after_scale(outputs, surface_id, factor),
        Event::Frame { surface_id } => after_frame(outputs, surface_id),
        Event::Configure { surface_id, size, window, surface } => {
            let after = after_configure(outputs, surface_id, size);
            match configure_reaction(outputs, surface_id, size) {
                ConfigureReaction::CreateWindow { index, .. } => after.update(
                    index as int,
                    after[index as int].attached(window, surface),
                ),
                _ => after,
            }
        },
        Event::Update => after_update(outputs),
        Event::Destroyed { output_id } => without_output(outputs, output_id),
        Event::Closed { surface_id } => without_surface(outputs, surface_id),
    }
}

/// The event asks to draw on monitor `i`.
pub open spec fn asks_for<L, W, S>(
    outputs: Seq<Output<L, W, S>>,
    event: Event<L, W, S>,
    i: int,
) -> bool {
    match event {
        Event::Scale { surface_id, factor } => scale_reaction(outputs, surface_id, factor) matches
            Some(r) && r.render && r.index == i,
        Event::Frame { surface_id } => frame_reaction(outputs, surface_id) == Some(i as usize) && 0
            <= i < outputs.len(),
        Event::Configure { surface_id, size, .. } => match configure_reaction(
            outputs,
            surface_id,
            size,
        ) {
            ConfigureReaction::CreateWindow { index, .. } => index == i,
            ConfigureReaction::Resize { index, render, .. } => render && index == i,
            ConfigureReaction::Ignore => false,
        },
        Event::Update => 0 <= i < outputs.len() && drawable_indices(outputs).contains(i as usize),
        _ => false,
    }
}

/// A frame is drawn on monitor `i` and handed to the compositor: it was asked for, there is a
/// surface, and drawing succeeds.
pub open spec fn draws_on<L, W, S>(
    outputs: Seq<Output<L, W, S>>,
    turn: Turn<L, W, S>,
    i: int,
) -> bool {
    &&& asks_for(outputs, turn.event, i)
    &&& draw_request(after_event(outputs, turn.event)[i]) is Some
    &&& turn.succeeds.contains(i)
}

/// The monitors after the event and the drawing that it asks for.
pub open spec fn after_turn<L, W, S>(
    outputs: Seq<Output<L, W, S>>,
    turn: Turn<L, W, S>,
) -> Seq<Output<L, W, S>> {
    let after = after_event(outputs, turn.event);
    Seq::new(
        after.len(),
        |i: int|
            if draws_on(outputs, turn, i) {
                after[i].drawn().presented()
            } else {
                after[i]
            },
    )
}

/// The monitors after all turns.
pub open spec fn run_from<L, W, S>(
    outputs: Seq<Output<L, W, S>>,
    turns: Seq<Turn<L, W, S>>,
) -> Seq<Output<L, W, S>>
    decreases turns.len(),
{
    if turns.len() == 0 {
        outputs
    } else {
        after_turn(run_from(outputs, turns.drop_last()), turns.last())
    }
}

/// The monitors after all turns, starting with none.
pub open spec fn run<L, W, S>(turns: Seq<Turn<L, W, S>>) -> Seq<Output<L, W, S>> {
    run_from(Seq::empty(), turns)
}

/// The event takes away the monitors that it concerns.
pub open spec fn removes<L, W, S>(event: Event<L, W, S>) -> bool {
    event is Destroyed || event is Closed
}

/// Both are the same monitor, perhaps at different times: neither number ever changes.
pub open spec fn same_monitor<L, W, S>(a: Output<L, W, S>, b: Output<L, W, S>) -> bool {
    a.output_id == b.output_id && a.surface_id == b.surface_id
}

/// Among the monitors, this one is marked.
pub open spec fn marked<L, W, S>(
    outputs: Seq<Output<L, W, S>>,
    monitor: Output<L, W, S>,
    i: int,
) -> bool {
    &&& 0 <= i < outputs.len()
    &&& same_monitor(outputs[i], monitor)
    &&& outputs[i].redraw_needed
}

/// In turn `k` of a run, a frame is drawn on this monitor, at index `i`, and handed over.
pub open spec fn draws_in_turn<L, W, S>(
    outputs: Seq<Output<L, W, S>>,
    turns: Seq<Turn<L, W, S>>,
    k: int,
    monitor: Output<L, W, S>,
    i: int,
) -> bool {
    let before = run_from(outputs, turns.take(k));
    &&& 0 <= k < turns.len()
    &&& 0 <= i < before.len()
    &&& same_monitor(before[i], monitor)
    &&& draws_on(before, turns[k], i)
}

/// The event takes away this monitor.
pub open spec fn removes_this<L, W, S>(event: Event<L, W, S>, output: Output<L, W, S>) -> bool {
    match event {
        Event::Destroyed { output_id } => output.output_id == output_id,
        Event::Closed { surface_id } => output.surface_id == surface_id,
        _ => false,
    }
}

/// One turn keeps every monitor well-formed.
pub proof fn law_turns_keep_monitors_wf<L, W, S>(
    outputs: Seq<Output<L, W, S>>,
    turn: Turn<L, W, S>,
)
    requires
        all_wf(outputs),
        countable(outputs),
    ensures
        all_wf(after_turn(outputs, turn)),
{
    let after = after_event(outputs, turn.event);
    match turn.event {
        Event::Scale { surface_id, .. } => {
            law_position_is_the_first(outputs, surface_id);
        },
        Event::Frame { surface_id } => {
            law_position_is_the_first(outputs, surface_id);
        },
        Event::Configure { surface_id, size, window, surface } => {
            law_position_is_the_first(outputs, surface_id);
            law_first_window_is_wf(outputs, surface_id, size, window, surface);
        },
        Event::Destroyed { output_id } => {
            lemma_filter_keeps_wf(outputs, |o: Output<L, W, S>| o.output_id != output_id);
        },
        Event::Closed { surface_id } => {
            lemma_filter_keeps_wf(outputs, |o: Output<L, W, S>| o.surface_id != surface_id);
        },
        _ => {},
    }
    assert(all_wf(after));
}

/// Whatever happens, every monitor stays well-formed.
pub proof fn law_every_run_is_wf<L, W, S>(turns: Seq<Turn<L, W, S>>)
    requires
        turns.len() <= usize::MAX,
    ensures
        all_wf(run(turns)),
        run(turns).len() <= turns.len(),
    decreases turns.len(),
{
    if turns.len() > 0 {
        let before = run(turns.drop_last());
        law_every_run_is_wf(turns.drop_last());
        law_turns_keep_monitors_wf(before, turns.last());
        lemma_turn_grows_by_one(before, turns.last());
    }
}

/// A turn takes in one monitor at most.
proof fn lemma_turn_grows_by_one<L, W, S>(outputs: Seq<Output<L, W, S>>, turn: Turn<L, W, S>)
    ensures
        after_turn(outputs, turn).len() <= outputs.len() + 1,
{
    match turn.event {
        Event::Scale { surface_id, .. } => {
            law_position_is_the_first(outputs, surface_id);
        },
        Event::Frame { surface_id } => {
            law_position_is_the_first(outputs, surface_id);
        },
        Event::Configure { surface_id, .. } => {
            law_position_is_the_first(outputs, surface_id);
        },
        Event::Destroyed { output_id } => {
            outputs.lemma_filter_len(|o: Output<L, W, S>| o.output_id != output_id);
        },
        Event::Closed { surface_id } => {
            outputs.lemma_filter_len(|o: Output<L, W, S>| o.surface_id != surface_id);
        },
        _ => {},
    }
}

/// Whatever has happened, a frame is drawn only on a monitor for which no frame callback is
/// outstanding; from then on one is, until the compositor sends it.
pub proof fn law_the_compositor_sets_the_pace<L, W, S>(
    turns: Seq<Turn<L, W, S>>,
    turn: Turn<L, W, S>,
    i: int,
)
    requires
        turns.len() < usize::MAX,
        draws_on(run(turns), turn, i),
    ensures
        0 <= i < run(turns).len(),
        run(turns)[i].frame_pending ==> (turn.event matches Event::Frame { surface_id }
            && run(turns)[i].surface_id == surface_id),
        !after_event(run(turns), turn.event)[i].frame_pending,
        after_turn(run(turns), turn)[i].frame_pending,
{
    let outputs = run(turns);
    law_every_run_is_wf(turns);
    lemma_drawable_indices(outputs);
    match turn.event {
        Event::Scale { surface_id, factor } => {
            law_position_is_the_first(outputs, surface_id);
            law_no_drawing_while_waiting(outputs, surface_id, factor, (0, 0));
        },
        Event::Frame { surface_id } => {
            law_position_is_the_first(outputs, surface_id);
        },
        Event::Configure { surface_id, size, .. } => {
            law_position_is_the_first(outputs, surface_id);
            law_no_drawing_while_waiting(outputs, surface_id, 1, size);
        },
        _ => {},
    }
}

/// A frame callback that is outstanding stays so until the compositor sends it: no other event
/// takes it away from a monitor, and one that takes monitors away leaves those that stay as they
/// are.
pub proof fn law_only_the_compositor_ends_the_wait<L, W, S>(
    outputs: Seq<Output<L, W, S>>,
    turn: Turn<L, W, S>,
    i: int,
)
    requires
        0 <= i < outputs.len(),
        outputs[i].frame_pending,
        !removes_this(turn.event, outputs[i]),
        turn.event matches Event::Frame { surface_id } ==> surface_id != outputs[i].surface_id,
    ensures
        !removes(turn.event) ==> i < after_turn(outputs, turn).len() && after_turn(
            outputs,
            turn,
        )[i].frame_pending,
        removes(turn.event) ==> after_turn(outputs, turn).contains(outputs[i]),
{
    lemma_turn_keeps_places(outputs, turn);
    if removes(turn.event) {
        law_removal_leaves_the_rest_alone(outputs, turn);
        assert(outputs.contains(outputs[i]));
    }
}

/// A turn that removes monitors draws nothing and changes none that it leaves: what is left are
/// the monitors that it does not concern, as they were.
pub proof fn law_removal_leaves_the_rest_alone<L, W, S>(
    outputs: Seq<Output<L, W, S>>,
    turn: Turn<L, W, S>,
)
    requires
        removes(turn.event),
    ensures
        after_turn(outputs, turn) == after_event(outputs, turn.event),
        forall|o: Output<L, W, S>| #[trigger]
            after_turn(outputs, turn).contains(o) <==> outputs.contains(o) && !removes_this(
                turn.event,
                o,
            ),
        forall|i: int|
            0 <= i < after_turn(outputs, turn).len() ==> outputs.contains(
                #[trigger] after_turn(outputs, turn)[i],
            ),
{
    let after = after_turn(outputs, turn);
    assert(after =~= after_event(outputs, turn.event));
    match turn.event {
        Event::Destroyed { output_id } => {
            law_destroyed_output_is_gone(outputs, output_id);
        },
        Event::Closed { surface_id } => {
            law_closed_surface_is_gone(outputs, surface_id, 1, (0, 0));
        },
        _ => {},
    }
    assert forall|i: int| 0 <= i < after.len() implies outputs.contains(#[trigger] after[i]) by {
        assert(after.contains(after[i]));
    }
}

/// A turn without removal leaves every monitor in its place.
proof fn lemma_turn_keeps_places<L, W, S>(outputs: Seq<Output<L, W, S>>, turn: Turn<L, W, S>)
    ensures
        !removes(turn.event) ==> {
            let after = after_event(outputs, turn.event);
            &&& outputs.len() <= after.len()
            &&& forall|i: int|
                0 <= i < outputs.len() ==> {
                    &&& same_monitor(#[trigger] after[i], outputs[i])
                    &&& outputs[i].redraw_needed ==> after[i].redraw_needed
                    &&& outputs[i].egl_surface is Some ==> after[i].egl_surface is Some
                    &&& outputs[i].frame_pending ==> after[i].frame_pending || (
                    turn.event matches Event::Frame { surface_id } && surface_id
                        == outputs[i].surface_id)
                }
        },
{
    match turn.event {
        Event::Scale { surface_id, .. } => {
            law_position_is_the_first(outputs, surface_id);
        },
        Event::Frame { surface_id } => {
            law_position_is_the_first(outputs, surface_id);
        },
        Event::Configure { surface_id, .. } => {
            law_position_is_the_first(outputs, surface_id);
        },
        _ => {},
    }
}

/// Nothing new is lost in a turn: the mark of a monitor stays until a frame is drawn on it and
/// handed over, a new frame of the player is drawn at once or leaves a mark, and the frame
/// callback of a marked monitor asks to draw on it.
pub proof fn law_news_outlast_every_turn<L, W, S>(
    outputs: Seq<Output<L, W, S>>,
    turn: Turn<L, W, S>,
    i: int,
)
    requires
        countable(outputs),
        0 <= i < outputs.len(),
        !removes(turn.event),
    ensures
        i < after_turn(outputs, turn).len(),
        outputs[i].redraw_needed ==> after_turn(outputs, turn)[i].redraw_needed || draws_on(
            outputs,
            turn,
            i,
        ),
        turn.event is Update && outputs[i].egl_surface is Some ==> after_turn(
            outputs,
            turn,
        )[i].redraw_needed || asks_for(outputs, turn.event, i),
        turn.event matches Event::Frame { surface_id } ==> position(outputs, surface_id) == Some(i)
            && outputs[i].redraw_needed ==> asks_for(outputs, turn.event, i),
{
    lemma_turn_keeps_places(outputs, turn);
    lemma_drawable_indices(outputs);
}

/// Nothing new is lost in a run: whatever happens, other monitors coming and going included, as
/// long as this monitor is not removed, its mark is there in the end, or in some turn a frame has
/// been drawn on it and handed over.
pub proof fn law_news_outlast_every_run<L, W, S>(
    outputs: Seq<Output<L, W, S>>,
    turns: Seq<Turn<L, W, S>>,
    i: int,
)
    requires
        outputs.len() + turns.len() <= usize::MAX,
        0 <= i < outputs.len(),
        outputs[i].redraw_needed,
        forall|k: int|
            0 <= k < turns.len() ==> !removes_this((#[trigger] turns[k]).event, outputs[i]),
    ensures
        run_from(outputs, turns).len() <= outputs.len() + turns.len(),
        (exists|j: int| marked(run_from(outputs, turns), outputs[i], j)) || (exists|k: int, j: int|
            draws_in_turn(outputs, turns, k, outputs[i], j)),
    decreases turns.len(),
{
    if turns.len() == 0 {
        assert(marked(run_from(outputs, turns), outputs[i], i));
    } else {
        let front = turns.drop_last();
        let turn = turns.last();
        let last = turns.len() - 1;
        let before = run_from(outputs, front);
        assert forall|k: int| 0 <= k < front.len() implies !removes_this(
            (#[trigger] front[k]).event,
            outputs[i],
        ) by {
            assert(!removes_this(turns[k].event, outputs[i]));
        }
        law_news_outlast_every_run(outputs, front, i);
        lemma_turn_grows_by_one(before, turn);
        assert(turns.take(last) =~= front);
        if exists|k: int, j: int| draws_in_turn(outputs, front, k, outputs[i], j) {
            let (k, j) = choose|k: int, j: int| draws_in_turn(outputs, front, k, outputs[i], j);
            assert(front.take(k) =~= turns.take(k));
            assert(draws_in_turn(outputs, turns, k, outputs[i], j));
        } else {
            let j = choose|j: int| marked(before, outputs[i], j);
            let after = after_turn(before, turn);
            assert(!removes_this(turns[last].event, outputs[i]));
            if removes(turn.event) {
                law_removal_leaves_the_rest_alone(before, turn);
                assert(before.contains(before[j]));
                assert(after.contains(before[j]));
                let m = choose|m: int| 0 <= m < after.len() && after[m] == before[j];
                assert(marked(after, outputs[i], m));
            } else {
                law_news_outlast_every_turn(before, turn, j);
                lemma_turn_keeps_places(before, turn);
                assert(same_monitor(after_event(before, turn.event)[j], before[j]));
                if after[j].redraw_needed {
                    assert(marked(after, outputs[i], j));
                } else {
                    assert(draws_in_turn(outputs, turns, last, outputs[i], j));
                }
            }
        }
    }
}

} // verus!
