//! What holds of the monitors across events: frames are paced by the compositor, nothing new is
//! lost, and every frame has the size of its buffer.
//!
//! The laws on single operations, in the second half, speak of any call: `call_ensures` relates the
//! arguments of a call to its result, and the state before it to the state after it.
use crate::geometry::is_product;
use crate::output::{law_position_is_the_first, position, Output};
use crate::selection::{monitor_selects, Layer, OutputInfo, SurfaceRequest};
use crate::state::{
    after_configure, after_frame, after_scale, after_update, configure_reaction, draw_request,
    drawable_indices, frame_reaction, scale_reaction, without_output, without_surface, AppState,
    ConfigureReaction, DrawOutcome, DrawRequest, ScaleReaction, Startup,
};
use vstd::prelude::*;

verus! {

/// Every monitor is well-formed.
pub open spec fn all_wf<L, W, S>(outputs: Seq<Output<L, W, S>>) -> bool {
    forall|i: int| 0 <= i < outputs.len() ==> (#[trigger] outputs[i]).wf()
}

/// There are no more monitors than a vector can hold.
pub open spec fn countable<L, W, S>(outputs: Seq<Output<L, W, S>>) -> bool {
    outputs.len() <= usize::MAX
}

/// Where a surface is found depends on the surfaces alone.
proof fn lemma_same_surfaces<L, W, S>(
    a: Seq<Output<L, W, S>>,
    b: Seq<Output<L, W, S>>,
    surface_id: u32,
)
    requires
        a.len() == b.len(),
        forall|i: int| 0 <= i < a.len() ==> (#[trigger] a[i]).surface_id == b[i].surface_id,
    ensures
        position(a, surface_id) == position(b, surface_id),
    decreases a.len(),
{
    if a.len() > 0 {
        assert forall|i: int| 0 <= i < a.len() - 1 implies (#[trigger] a.drop_last()[i]).surface_id
            == b.drop_last()[i].surface_id by {
            assert(a[i].surface_id == b[i].surface_id);
        }
        lemma_same_surfaces(a.drop_last(), b.drop_last(), surface_id);
        assert(a[a.len() - 1].surface_id == b[b.len() - 1].surface_id);
    }
}

/// The indices that are drawn upon an update are those of the drawable monitors.
pub(crate) proof fn lemma_drawable_indices<L, W, S>(outputs: Seq<Output<L, W, S>>)
    requires
        countable(outputs),
    ensures
        forall|k: int|
            0 <= k < drawable_indices(outputs).len() ==> {
                &&& (#[trigger] drawable_indices(outputs)[k]) < outputs.len()
                &&& outputs[drawable_indices(outputs)[k] as int].drawable()
            },
        forall|j: int, k: int|
            0 <= j < k < drawable_indices(outputs).len() ==> (#[trigger] drawable_indices(
                outputs,
            )[j]) < (#[trigger] drawable_indices(outputs)[k]),
        forall|i: int|
            0 <= i < outputs.len() && (#[trigger] outputs[i]).drawable() ==> drawable_indices(
                outputs,
            ).contains(i as usize),
    decreases outputs.len(),
{
    if outputs.len() > 0 {
        let front = outputs.drop_last();
        let indices = drawable_indices(front);
        lemma_drawable_indices(front);
        assert forall|i: int|
            0 <= i < outputs.len() && (#[trigger] outputs[i]).drawable() implies drawable_indices(
            outputs,
        ).contains(i as usize) by {
            if i < front.len() {
                assert(front[i].drawable());
                let k = choose|k: int| 0 <= k < indices.len() && indices[k] == i as usize;
                assert(drawable_indices(outputs)[k] == i as usize);
            } else {
                assert(drawable_indices(outputs)[indices.len() as int] == i as usize);
            }
        }
        assert forall|k: int| 0 <= k < drawable_indices(outputs).len() implies {
            &&& (#[trigger] drawable_indices(outputs)[k]) < outputs.len()
            &&& outputs[drawable_indices(outputs)[k] as int].drawable()
        } by {
            if k < indices.len() {
                assert(drawable_indices(outputs)[k] == indices[k]);
                assert(front[indices[k] as int].drawable());
            }
        }
        assert forall|j: int, k: int|
            0 <= j < k < drawable_indices(outputs).len() implies (#[trigger] drawable_indices(
            outputs,
        )[j]) < (#[trigger] drawable_indices(outputs)[k]) by {
            assert(drawable_indices(outputs)[j] == indices[j]);
            if k < indices.len() {
                assert(drawable_indices(outputs)[k] == indices[k]);
            }
        }
    }
}

/// A frame is drawn only while no frame callback is outstanding: whatever event asks for
/// drawing, the monitor to draw on is not waiting. So there is at most one outstanding callback
/// for each monitor, and the compositor sets the pace.
pub proof fn law_no_drawing_while_waiting<L, W, S>(
    outputs: Seq<Output<L, W, S>>,
    surface_id: u32,
    scale: i32,
    size: (u32, u32),
)
    requires
        all_wf(outputs),
        countable(outputs),
    ensures
        scale_reaction(outputs, surface_id, scale) matches Some(r) ==> r.render ==> after_scale(
            outputs,
            surface_id,
            scale,
        )[r.index as int].drawable(),
        frame_reaction(outputs, surface_id) matches Some(index) ==> !after_frame(
            outputs,
            surface_id,
        )[index as int].frame_pending,
        match configure_reaction(outputs, surface_id, size) {
            ConfigureReaction::Ignore => true,
            ConfigureReaction::CreateWindow { index, .. } => !after_configure(
                outputs,
                surface_id,
                size,
            )[index as int].frame_pending,
            ConfigureReaction::Resize { index, render, .. } => render ==> after_configure(
                outputs,
                surface_id,
                size,
            )[index as int].drawable(),
        },
        forall|k: int|
            0 <= k < drawable_indices(outputs).len() ==> after_update(outputs)[(
            #[trigger] drawable_indices(outputs)[k]) as int].drawable(),
{
    law_position_is_the_first(outputs, surface_id);
    lemma_drawable_indices(outputs);
}

/// Something new that comes up while a monitor waits is drawn as soon as the compositor is
/// ready: a frame of the player, a new scale factor or a new size, followed by the frame
/// callback of that monitor, asks to draw on it.
pub proof fn law_redraw_is_not_lost<L, W, S>(
    outputs: Seq<Output<L, W, S>>,
    surface_id: u32,
    scale: i32,
    size: (u32, u32),
)
    requires
        all_wf(outputs),
        countable(outputs),
        position(outputs, surface_id) is Some,
        outputs[position(outputs, surface_id)->0].frame_pending,
    ensures
        ({
            let index = Some(position(outputs, surface_id)->0 as usize);
            &&& frame_reaction(after_update(outputs), surface_id) == index
            &&& frame_reaction(after_scale(outputs, surface_id, scale), surface_id) == index
            &&& frame_reaction(after_configure(outputs, surface_id, size), surface_id) == index
        }),
{
    law_position_is_the_first(outputs, surface_id);
    lemma_same_surfaces(outputs, after_update(outputs), surface_id);
    lemma_same_surfaces(outputs, after_scale(outputs, surface_id, scale), surface_id);
    lemma_same_surfaces(outputs, after_configure(outputs, surface_id, size), surface_id);
}

/// The mark of something new stays through every event; only a frame handed to the compositor
/// takes it away.
pub proof fn law_mark_stays<L, W, S>(
    output: Output<L, W, S>,
    scale: i32,
    size: (u32, u32),
    window: W,
    surface: S,
)
    requires
        output.redraw_needed,
    ensures
        output.rescaled(scale).redraw_needed,
        output.configured(size).redraw_needed,
        output.attached(window, surface).redraw_needed,
        output.called_back().redraw_needed,
        output.notified().redraw_needed,
        output.drawn().redraw_needed,
        !output.presented().redraw_needed,
{
}

/// Without anything new there is no drawing: after a frame has been drawn and handed over, the
/// monitor waits for its frame callback, an update of the player does not draw on it, and the
/// callback asks for nothing.
pub proof fn law_idle_without_news<L, W, S>(outputs: Seq<Output<L, W, S>>, surface_id: u32)
    requires
        countable(outputs),
        position(outputs, surface_id) is Some,
    ensures
        ({
            let i = position(outputs, surface_id)->0;
            let after = outputs.update(i, outputs[i].drawn().presented());
            &&& after[i].frame_pending
            &&& !drawable_indices(after).contains(i as usize)
            &&& frame_reaction(after, surface_id) is None
        }),
{
    law_position_is_the_first(outputs, surface_id);
    let i = position(outputs, surface_id)->0;
    let after = outputs.update(i, outputs[i].drawn().presented());
    lemma_same_surfaces(outputs, after, surface_id);
    lemma_drawable_indices(after);
}

/// A new frame of the player reaches every monitor that can show it, and each once: those that
/// are free are drawn on, in order, and those that wait are marked.
pub proof fn law_update_reaches_every_monitor<L, W, S>(outputs: Seq<Output<L, W, S>>)
    requires
        countable(outputs),
    ensures
        forall|i: int|
            0 <= i < outputs.len() && (#[trigger] outputs[i]).egl_surface is Some ==> {
                ||| drawable_indices(outputs).contains(i as usize)
                ||| after_update(outputs)[i].redraw_needed
            },
        forall|i: int|
            0 <= i < outputs.len() && (#[trigger] outputs[i]).egl_surface is None ==> {
                &&& !drawable_indices(outputs).contains(i as usize)
                &&& after_update(outputs)[i] == outputs[i]
            },
        forall|j: int, k: int|
            0 <= j < k < drawable_indices(outputs).len() ==> (#[trigger] drawable_indices(
                outputs,
            )[j]) < (#[trigger] drawable_indices(outputs)[k]),
{
    lemma_drawable_indices(outputs);
}

/// Every frame has the size of its buffer: what changes the pixel size of a monitor that has a
/// window also asks to give the window the new size, and a window is made with the size that its
/// frames are drawn with.
pub proof fn law_buffer_follows_the_size<L, W, S>(
    outputs: Seq<Output<L, W, S>>,
    surface_id: u32,
    scale: i32,
    size: (u32, u32),
    i: int,
)
    requires
        countable(outputs),
        0 <= i < outputs.len(),
    ensures
        outputs[i].egl_window is Some ==> {
            ||| after_scale(outputs, surface_id, scale)[i].pixels() == outputs[i].pixels()
            ||| scale_reaction(outputs, surface_id, scale) matches Some(r) && r.index == i
                && r.resize == Some(after_scale(outputs, surface_id, scale)[i].pixels())
        },
        outputs[i].egl_window is Some ==> {
            ||| after_configure(outputs, surface_id, size)[i].pixels() == outputs[i].pixels()
            ||| configure_reaction(outputs, surface_id, size) matches ConfigureReaction::Resize {
                index,
                width,
                height,
                ..
            } && index == i && (width, height) == after_configure(
                outputs,
                surface_id,
                size,
            )[i].pixels()
        },
        configure_reaction(outputs, surface_id, size) matches ConfigureReaction::CreateWindow {
            index,
            width,
            height,
            ..
        } ==> index == i ==> (width, height) == after_configure(
            outputs,
            surface_id,
            size,
        )[i].pixels(),
        after_frame(outputs, surface_id)[i].pixels() == outputs[i].pixels(),
        after_update(outputs)[i].pixels() == outputs[i].pixels(),
{
    law_position_is_the_first(outputs, surface_id);
}

/// Drawing, handing over and attaching a window leave the pixel size as it is, and that size is
/// what a frame is drawn with.
pub proof fn law_drawing_keeps_the_size<L, W, S>(
    output: Output<L, W, S>,
    window: W,
    surface: S,
)
    ensures
        output.attached(window, surface).pixels() == output.pixels(),
        output.drawn().pixels() == output.pixels(),
        output.presented().pixels() == output.pixels(),
        draw_request(output) matches Some(r) ==> (r.width, r.height) == output.pixels(),
        draw_request(output.attached(window, surface)) is Some,
{
}

/// The window that a configure event asks for belongs on a surface that is not empty: attaching
/// it leaves every monitor well-formed.
pub proof fn law_first_window_is_wf<L, W, S>(
    outputs: Seq<Output<L, W, S>>,
    surface_id: u32,
    size: (u32, u32),
    window: W,
    surface: S,
)
    requires
        all_wf(outputs),
        countable(outputs),
    ensures
        configure_reaction(outputs, surface_id, size) matches ConfigureReaction::CreateWindow {
            index,
            ..
        } ==> {
            let after = after_configure(outputs, surface_id, size);
            &&& index < after.len()
            &&& 1 <= after[index as int].size.0
            &&& 1 <= after[index as int].size.1
            &&& all_wf(after.update(index as int, after[index as int].attached(window, surface)))
        },
{
    law_position_is_the_first(outputs, surface_id);
}

/// An event for one surface leaves all monitors alone but one, and every monitor where it is.
pub proof fn law_events_touch_one_monitor<L, W, S>(
    outputs: Seq<Output<L, W, S>>,
    surface_id: u32,
    scale: i32,
    size: (u32, u32),
    i: int,
)
    requires
        0 <= i < outputs.len(),
        position(outputs, surface_id) != Some(i),
    ensures
        after_scale(outputs, surface_id, scale).len() == outputs.len(),
        after_frame(outputs, surface_id).len() == outputs.len(),
        after_configure(outputs, surface_id, size).len() == outputs.len(),
        after_scale(outputs, surface_id, scale)[i] == outputs[i],
        after_frame(outputs, surface_id)[i] == outputs[i],
        after_configure(outputs, surface_id, size)[i] == outputs[i],
{
    law_position_is_the_first(outputs, surface_id);
}

/// A closed surface is gone for good, and every other monitor stays: no monitor has the surface
/// any more, so later events for it change nothing and ask for nothing.
pub proof fn law_closed_surface_is_gone<L, W, S>(
    outputs: Seq<Output<L, W, S>>,
    surface_id: u32,
    scale: i32,
    size: (u32, u32),
)
    ensures
        ({
            let left = without_surface(outputs, surface_id);
            &&& forall|o: Output<L, W, S>| #[trigger]
                left.contains(o) <==> outputs.contains(o) && o.surface_id != surface_id
            &&& scale_reaction(left, surface_id, scale) is None
            &&& frame_reaction(left, surface_id) is None
            &&& configure_reaction(left, surface_id, size) == ConfigureReaction::Ignore
            &&& after_scale(left, surface_id, scale) == left
            &&& after_frame(left, surface_id) == left
            &&& after_configure(left, surface_id, size) == left
        }),
{
    let pred = |o: Output<L, W, S>| o.surface_id != surface_id;
    let left = without_surface(outputs, surface_id);
    lemma_filter_members(outputs, pred);
    law_position_is_the_first(left, surface_id);
    assert forall|i: int| 0 <= i < left.len() implies (#[trigger] left[i]).surface_id
        != surface_id by {
        assert(left.contains(left[i]));
        assert(pred(left[i]));
    }
}

/// A monitor that is gone carries no wallpaper any more, and every other monitor stays.
pub proof fn law_destroyed_output_is_gone<L, W, S>(outputs: Seq<Output<L, W, S>>, output_id: u32)
    ensures
        forall|o: Output<L, W, S>| #[trigger]
            without_output(outputs, output_id).contains(o) <==> outputs.contains(o) && o.output_id
                != output_id,
{
    let pred = |o: Output<L, W, S>| o.output_id != output_id;
    lemma_filter_members(outputs, pred);
    assert forall|o: Output<L, W, S>| #[trigger]
        without_output(outputs, output_id).contains(o) <==> outputs.contains(o) && o.output_id
            != output_id by {
        assert(pred(o) <==> o.output_id != output_id);
    }
}

/// The program ends when its last surface is closed, and not before: nothing is left exactly if
/// every monitor was drawn on that surface.
pub proof fn law_exit_with_the_last_surface<L, W, S>(
    outputs: Seq<Output<L, W, S>>,
    surface_id: u32,
)
    ensures
        without_surface(outputs, surface_id).len() == 0 <==> forall|i: int|
            0 <= i < outputs.len() ==> (#[trigger] outputs[i]).surface_id == surface_id,
{
    let left = without_surface(outputs, surface_id);
    law_closed_surface_is_gone(outputs, surface_id, 1, (0, 0));
    if left.len() == 0 {
        assert forall|i: int| 0 <= i < outputs.len() implies (#[trigger] outputs[i]).surface_id
            == surface_id by {
            assert(outputs.contains(outputs[i]));
            assert(!left.contains(outputs[i]));
        }
    } else {
        assert(left.contains(left[0]));
        let i = choose|i: int| 0 <= i < outputs.len() && outputs[i] == left[0];
        assert(outputs[i].surface_id != surface_id);
    }
}

/// A filtered sequence holds the elements that satisfy the predicate.
proof fn lemma_filter_members<T>(s: Seq<T>, pred: spec_fn(T) -> bool)
    ensures
        forall|x: T| #[trigger] s.filter(pred).contains(x) <==> s.contains(x) && pred(x),
{
    assert forall|x: T| #[trigger] s.filter(pred).contains(x) <==> s.contains(x) && pred(x) by {
        if s.filter(pred).contains(x) {
            s.lemma_filter_contains_rev(pred, x);
            let k = choose|k: int| 0 <= k < s.filter(pred).len() && s.filter(pred)[k] == x;
            s.lemma_filter_pred(pred, k);
        }
        if s.contains(x) && pred(x) {
            let k = choose|k: int| 0 <= k < s.len() && s[k] == x;
            s.lemma_filter_contains(pred, k);
        }
    }
}

/// The monitor at index `i` is the first that is drawn on the given surface.
pub open spec fn is_first_on<L, W, S>(
    outputs: Seq<Output<L, W, S>>,
    surface_id: u32,
    i: int,
) -> bool {
    &&& 0 <= i < outputs.len()
    &&& outputs[i].surface_id == surface_id
    &&& forall|j: int| 0 <= j < i ==> (#[trigger] outputs[j]).surface_id != surface_id
}

/// All monitors but the one at index `i` are as they were, and where they were.
pub open spec fn only_differs_at<L, W, S>(
    before: Seq<Output<L, W, S>>,
    after: Seq<Output<L, W, S>>,
    i: int,
) -> bool {
    &&& after.len() == before.len()
    &&& forall|j: int| 0 <= j < before.len() && j != i ==> #[trigger] after[j] == before[j]
}

/// The first monitor on a surface is where `position` says.
proof fn lemma_first_is_position<L, W, S>(
    outputs: Seq<Output<L, W, S>>,
    surface_id: u32,
    i: int,
)
    requires
        is_first_on(outputs, surface_id, i),
    ensures
        position(outputs, surface_id) == Some(i),
{
    law_position_is_the_first(outputs, surface_id);
}

/// A call of `frame` ends the wait of the first monitor on the surface, at whatever scale and
/// whether or not there is something new to show. It leaves all else as it was, and names the
/// monitor exactly if there is something new to show on it.
pub proof fn law_frame_ends_the_wait<L, W, S>(
    state: &mut AppState<L, W, S>,
    surface_id: u32,
    render: Option<usize>,
    i: int,
)
    requires
        call_ensures(AppState::<L, W, S>::frame, (state, surface_id), render),
        is_first_on(old(state).outputs@, surface_id, i),
    ensures
        ({
            let before = old(state).outputs@[i];
            let after = final(state).outputs@[i];
            &&& !after.frame_pending
            &&& after.output_id == before.output_id
            &&& after.surface_id == before.surface_id
            &&& after.layer == before.layer
            &&& after.egl_window == before.egl_window
            &&& after.egl_surface == before.egl_surface
            &&& after.size == before.size
            &&& after.scale == before.scale
            &&& after.redraw_needed == before.redraw_needed
            &&& render is Some <==> before.redraw_needed
            &&& render matches Some(index) ==> index == i
        }),
        only_differs_at(old(state).outputs@, final(state).outputs@, i),
{
    lemma_first_is_position(old(state).outputs@, surface_id, i);
    assert(old(state).outputs.len() == old(state).outputs@.len());
}

/// A frame callback frees its monitor: if the player has a new frame after a call of `frame`, the
/// monitor is drawn on at once, as long as it has an EGL surface.
pub proof fn law_frame_frees_the_monitor<L, W, S>(
    state: &mut AppState<L, W, S>,
    surface_id: u32,
    render: Option<usize>,
    next: &mut AppState<L, W, S>,
    drawn: Vec<usize>,
    i: int,
)
    requires
        call_ensures(AppState::<L, W, S>::frame, (state, surface_id), render),
        old(next).outputs@ == final(state).outputs@,
        call_ensures(AppState::<L, W, S>::player_update, (next,), drawn),
        is_first_on(old(state).outputs@, surface_id, i),
        old(state).outputs@[i].egl_surface is Some,
    ensures
        exists|k: int| 0 <= k < drawn@.len() && #[trigger] drawn@[k] == i,
{
    law_frame_ends_the_wait(state, surface_id, render, i);
    law_player_update(next, drawn, i);
}

/// A call of `configure` keeps the size that the compositor gave, width as width and height as
/// height, with one in place of zero. A monitor without a window gets one, with the swap interval
/// zero, and the window of another is resized; either way its size in pixels is that size times the
/// scale factor. A monitor with a window is drawn on at once or marked, depending on whether it
/// waits. All else stays as it was.
pub proof fn law_configure_keeps_the_given_size<L, W, S>(
    state: &mut AppState<L, W, S>,
    surface_id: u32,
    size: (u32, u32),
    reaction: ConfigureReaction,
    i: int,
)
    requires
        call_ensures(AppState::<L, W, S>::configure, (state, surface_id, size), reaction),
        is_first_on(old(state).outputs@, surface_id, i),
    ensures
        ({
            let before = old(state).outputs@[i];
            let after = final(state).outputs@[i];
            &&& size.0 >= 1 ==> after.size.0 == size.0
            &&& size.1 >= 1 ==> after.size.1 == size.1
            &&& size.0 == 0 ==> after.size.0 == 1
            &&& size.1 == 0 ==> after.size.1 == 1
            &&& after.output_id == before.output_id
            &&& after.surface_id == before.surface_id
            &&& after.layer == before.layer
            &&& after.egl_window == before.egl_window
            &&& after.egl_surface == before.egl_surface
            &&& after.scale == before.scale
            &&& after.frame_pending == before.frame_pending
            &&& before.redraw_needed ==> after.redraw_needed
            &&& !before.redraw_needed ==> (after.redraw_needed <==> before.egl_window is Some
                && before.frame_pending)
            &&& before.egl_window is None ==> {
                &&& reaction matches ConfigureReaction::CreateWindow {
                    index,
                    width,
                    height,
                    swap_interval,
                }
                &&& index == i
                &&& is_product((width, height), after.size, before.scale)
                &&& swap_interval == 0
            }
            &&& before.egl_window is Some ==> {
                &&& reaction matches ConfigureReaction::Resize { index, width, height, render }
                &&& index == i
                &&& is_product((width, height), after.size, before.scale)
                &&& render == !before.frame_pending
            }
        }),
        only_differs_at(old(state).outputs@, final(state).outputs@, i),
{
    lemma_first_is_position(old(state).outputs@, surface_id, i);
    assert(old(state).outputs.len() == old(state).outputs@.len());
}

/// Where the products fit in an `i32`, the window that a call of `configure` makes or resizes has
/// the given width times the scale factor and the given height times the scale factor.
pub proof fn law_window_has_the_given_size<L, W, S>(
    state: &mut AppState<L, W, S>,
    surface_id: u32,
    size: (u32, u32),
    reaction: ConfigureReaction,
    i: int,
)
    requires
        call_ensures(AppState::<L, W, S>::configure, (state, surface_id, size), reaction),
        is_first_on(old(state).outputs@, surface_id, i),
        1 <= size.0,
        1 <= size.1,
        i32::MIN <= size.0 * old(state).outputs@[i].scale <= i32::MAX,
        i32::MIN <= size.1 * old(state).outputs@[i].scale <= i32::MAX,
    ensures
        match reaction {
            ConfigureReaction::Ignore => false,
            ConfigureReaction::CreateWindow { width, height, .. } => {
                &&& width == size.0 * old(state).outputs@[i].scale
                &&& height == size.1 * old(state).outputs@[i].scale
            },
            ConfigureReaction::Resize { width, height, .. } => {
                &&& width == size.0 * old(state).outputs@[i].scale
                &&& height == size.1 * old(state).outputs@[i].scale
            },
        },
{
    law_configure_keeps_the_given_size(state, surface_id, size, reaction, i);
}

/// A call of `scale_factor_changed` gives the first monitor on the surface the new scale factor. A
/// window is resized to the size of the monitor times that factor. The monitor is drawn on at once
/// if it has an EGL surface and does not wait, and is marked otherwise. All else stays as it was.
pub proof fn law_scale_factor_takes_hold<L, W, S>(
    state: &mut AppState<L, W, S>,
    surface_id: u32,
    factor: i32,
    reaction: Option<ScaleReaction>,
    i: int,
)
    requires
        call_ensures(
            AppState::<L, W, S>::scale_factor_changed,
            (state, surface_id, factor),
            reaction,
        ),
        is_first_on(old(state).outputs@, surface_id, i),
    ensures
        ({
            let before = old(state).outputs@[i];
            let after = final(state).outputs@[i];
            &&& after.scale == factor
            &&& after.output_id == before.output_id
            &&& after.surface_id == before.surface_id
            &&& after.layer == before.layer
            &&& after.egl_window == before.egl_window
            &&& after.egl_surface == before.egl_surface
            &&& after.size == before.size
            &&& after.frame_pending == before.frame_pending
            &&& reaction matches Some(r)
            &&& r.index == i
            &&& r.resize is Some <==> before.egl_window is Some
            &&& r.resize matches Some(pixels) ==> is_product(pixels, before.size, factor)
            &&& r.render <==> before.egl_surface is Some && !before.frame_pending
            &&& after.redraw_needed <==> before.redraw_needed || !r.render
        }),
        only_differs_at(old(state).outputs@, final(state).outputs@, i),
{
    lemma_first_is_position(old(state).outputs@, surface_id, i);
    assert(old(state).outputs.len() == old(state).outputs@.len());
}

/// Events for a surface that no monitor is drawn on change nothing and ask for nothing.
pub proof fn law_strange_surface_is_ignored<L, W, S>(
    rescaled: &mut AppState<L, W, S>,
    factor: i32,
    resize: Option<ScaleReaction>,
    called_back: &mut AppState<L, W, S>,
    render: Option<usize>,
    configured: &mut AppState<L, W, S>,
    size: (u32, u32),
    reaction: ConfigureReaction,
    surface_id: u32,
)
    requires
        call_ensures(
            AppState::<L, W, S>::scale_factor_changed,
            (rescaled, surface_id, factor),
            resize,
        ),
        call_ensures(AppState::<L, W, S>::frame, (called_back, surface_id), render),
        call_ensures(AppState::<L, W, S>::configure, (configured, surface_id, size), reaction),
        old(called_back).outputs@ == old(rescaled).outputs@,
        old(configured).outputs@ == old(rescaled).outputs@,
        forall|j: int|
            0 <= j < old(rescaled).outputs@.len() ==> (
            #[trigger] old(rescaled).outputs@[j]).surface_id != surface_id,
    ensures
        final(rescaled).outputs@ == old(rescaled).outputs@,
        resize is None,
        final(called_back).outputs@ == old(called_back).outputs@,
        render is None,
        final(configured).outputs@ == old(configured).outputs@,
        reaction is Ignore,
{
    law_position_is_the_first(old(rescaled).outputs@, surface_id);
}

/// A call of `player_update` names exactly the monitors that have an EGL surface and do not wait,
/// each once and in order. It marks exactly those that have one and wait, and leaves all else as it
/// was.
pub proof fn law_player_update<L, W, S>(
    state: &mut AppState<L, W, S>,
    drawn: Vec<usize>,
    i: int,
)
    requires
        call_ensures(AppState::<L, W, S>::player_update, (state,), drawn),
        0 <= i < old(state).outputs@.len(),
    ensures
        final(state).outputs@.len() == old(state).outputs@.len(),
        ({
            let before = old(state).outputs@[i];
            let after = final(state).outputs@[i];
            &&& after.output_id == before.output_id
            &&& after.surface_id == before.surface_id
            &&& after.layer == before.layer
            &&& after.egl_window == before.egl_window
            &&& after.egl_surface == before.egl_surface
            &&& after.size == before.size
            &&& after.scale == before.scale
            &&& after.frame_pending == before.frame_pending
            &&& after.redraw_needed <==> before.redraw_needed || (before.egl_surface is Some
                && before.frame_pending)
            &&& before.egl_surface is Some && !before.frame_pending <==> exists|k: int|
                0 <= k < drawn@.len() && #[trigger] drawn@[k] == i
        }),
        forall|k: int|
            0 <= k < drawn@.len() ==> (#[trigger] drawn@[k]) < old(state).outputs@.len(),
        forall|j: int, k: int|
            0 <= j < k < drawn@.len() ==> (#[trigger] drawn@[j]) < (#[trigger] drawn@[k]),
{
    let outputs = old(state).outputs@;
    assert(old(state).outputs.len() == outputs.len());
    lemma_drawable_indices(outputs);
    if outputs[i].egl_surface is Some && !outputs[i].frame_pending {
        assert(outputs[i].drawable());
        let k = choose|k: int| 0 <= k < drawn@.len() && drawn@[k] == i as usize;
        assert(drawn@[k] == i);
    }
}

/// Every frame that a call of `render_output` asks for is drawn upright on the framebuffer of the
/// current surface, with the size of the monitor times its scale factor; and there is one exactly
/// if the monitor has an EGL surface.
pub proof fn law_frames_are_drawn_upright<L, W, S>(
    state: &AppState<L, W, S>,
    index: usize,
    request: Option<DrawRequest>,
)
    requires
        index < state.outputs@.len(),
        call_ensures(AppState::<L, W, S>::render_output, (state, index), request),
    ensures
        request is Some <==> state.outputs@[index as int].egl_surface is Some,
        request matches Some(r) ==> {
            &&& r.flip
            &&& r.framebuffer == 0
            &&& is_product(
                (r.width, r.height),
                state.outputs@[index as int].size,
                state.outputs@[index as int].scale,
            )
        },
{
}

/// A call of `attach_window` gives the monitor this window and this EGL surface, and changes
/// nothing else.
pub proof fn law_window_is_attached<L, W, S>(
    state: &mut AppState<L, W, S>,
    index: usize,
    window: W,
    surface: S,
)
    requires
        index < old(state).outputs@.len(),
        call_ensures(AppState::<L, W, S>::attach_window, (state, index, window, surface), ()),
    ensures
        ({
            let before = old(state).outputs@[index as int];
            let after = final(state).outputs@[index as int];
            &&& after.egl_window == Some(window)
            &&& after.egl_surface == Some(surface)
            &&& after.output_id == before.output_id
            &&& after.surface_id == before.surface_id
            &&& after.layer == before.layer
            &&& after.size == before.size
            &&& after.scale == before.scale
            &&& after.frame_pending == before.frame_pending
            &&& after.redraw_needed == before.redraw_needed
        }),
        only_differs_at(old(state).outputs@, final(state).outputs@, index as int),
{
}

/// A frame that has been drawn is to be handed over, and the monitor waits from then on; a frame
/// that has not been drawn changes nothing. Drawing touches no other field and no other monitor.
pub proof fn law_only_a_drawn_frame_counts<L, W, S>(
    state: &mut AppState<L, W, S>,
    index: usize,
    outcome: DrawOutcome,
    present: bool,
)
    requires
        index < old(state).outputs@.len(),
        call_ensures(AppState::<L, W, S>::draw_finished, (state, index, outcome), present),
    ensures
        present <==> outcome is Drawn,
        !(outcome is Drawn) ==> final(state).outputs@ == old(state).outputs@,
        outcome is Drawn ==> {
            let before = old(state).outputs@[index as int];
            let after = final(state).outputs@[index as int];
            &&& after.frame_pending
            &&& after.output_id == before.output_id
            &&& after.surface_id == before.surface_id
            &&& after.layer == before.layer
            &&& after.egl_window == before.egl_window
            &&& after.egl_surface == before.egl_surface
            &&& after.size == before.size
            &&& after.scale == before.scale
            &&& after.redraw_needed == before.redraw_needed
        },
        only_differs_at(old(state).outputs@, final(state).outputs@, index as int),
{
}

/// A frame that has been handed over leaves nothing new to show, and changes nothing else.
pub proof fn law_handing_over_clears_the_mark<L, W, S>(
    state: &mut AppState<L, W, S>,
    index: usize,
)
    requires
        index < old(state).outputs@.len(),
        call_ensures(AppState::<L, W, S>::buffers_swapped, (state, index), ()),
    ensures
        ({
            let before = old(state).outputs@[index as int];
            let after = final(state).outputs@[index as int];
            &&& !after.redraw_needed
            &&& after.output_id == before.output_id
            &&& after.surface_id == before.surface_id
            &&& after.layer == before.layer
            &&& after.egl_window == before.egl_window
            &&& after.egl_surface == before.egl_surface
            &&& after.size == before.size
            &&& after.scale == before.scale
            &&& after.frame_pending == before.frame_pending
        }),
        only_differs_at(old(state).outputs@, final(state).outputs@, index as int),
{
}

/// A call of `add_output` puts the new monitor behind all others, which it leaves alone: with the
/// given identifiers and layer surface, the scale factor of the request, and nothing else yet.
pub proof fn law_new_monitor_comes_last<L, W, S>(
    state: &mut AppState<L, W, S>,
    output_id: u32,
    surface_id: u32,
    layer: L,
    request: &SurfaceRequest,
)
    requires
        call_ensures(
            AppState::<L, W, S>::add_output,
            (state, output_id, surface_id, layer, request),
            (),
        ),
    ensures
        final(state).outputs@.len() == old(state).outputs@.len() + 1,
        forall|j: int|
            0 <= j < old(state).outputs@.len() ==> #[trigger] final(state).outputs@[j] == old(
                state,
            ).outputs@[j],
        ({
            let added = final(state).outputs@[old(state).outputs@.len() as int];
            &&& added.output_id == output_id
            &&& added.surface_id == surface_id
            &&& added.layer == layer
            &&& added.scale == request.scale
            &&& added.egl_window is None
            &&& added.egl_surface is None
            &&& added.size.0 == 0
            &&& added.size.1 == 0
            &&& !added.frame_pending
            &&& !added.redraw_needed
        }),
{
}

/// A program that has just started has no monitor, and the settings that it was given.
pub proof fn law_starts_with_the_given_settings<L, W, S>(
    monitor: String,
    surface_layer: Layer,
    show_outputs: bool,
    verbose: bool,
    state: AppState<L, W, S>,
)
    requires
        call_ensures(
            AppState::<L, W, S>::new,
            (monitor, surface_layer, show_outputs, verbose),
            state,
        ),
    ensures
        state.outputs@.len() == 0,
        state.monitor@ == monitor@,
        state.surface_layer == surface_layer,
        state.show_outputs == show_outputs,
        state.verbose == verbose,
{
}

/// `output_info_matches` agrees with `monitor_selects` on the monitor argument of the program.
pub proof fn law_selection_goes_by_the_argument<L, W, S>(
    state: &AppState<L, W, S>,
    info: &OutputInfo,
    selected: bool,
    monitor: &str,
    expected: bool,
)
    requires
        call_ensures(AppState::<L, W, S>::output_info_matches, (state, info), selected),
        call_ensures(monitor_selects, (monitor, info), expected),
        monitor@ == state.monitor@,
    ensures
        selected == expected,
{
}

/// A surface is asked for exactly if the monitors are not merely listed, the compositor has
/// described the monitor, and the description is selected. It is the surface of a wallpaper: on the
/// layer of the settings, at all four edges, over panels, of the size that the compositor likes,
/// without a keyboard. It has the scale factor of the monitor, and a notice with its name exactly
/// if there is to be one.
pub proof fn law_selected_monitor_gets_a_wallpaper<L, W, S>(
    state: &AppState<L, W, S>,
    info: OutputInfo,
    selected: bool,
    request: Option<SurfaceRequest>,
)
    requires
        call_ensures(AppState::<L, W, S>::output_info_matches, (state, &info), selected),
        call_ensures(AppState::<L, W, S>::maybe_create_output, (state, &Some(info)), request),
    ensures
        request is Some <==> !state.show_outputs && selected,
        request matches Some(r) ==> {
            &&& r.layer == state.surface_layer
            &&& r.namespace@ == "mpvpaper"@
            &&& r.anchor.top && r.anchor.right && r.anchor.bottom && r.anchor.left
            &&& r.exclusive_zone == -1
            &&& r.size.0 == 0 && r.size.1 == 0
            &&& !r.keyboard
            &&& r.scale == info.scale_factor
            &&& r.notice is Some <==> state.verbose
            &&& r.notice is Some && info.name is Some ==> r.notice->0@
                == "[mpvpaper] Selected output: "@ + info.name->0@
            &&& r.notice is Some && info.name is None ==> r.notice->0@
                == "[mpvpaper] Selected output: "@ + "?"@
        },
{
    reveal_strlit("?");
    assert("?"@ =~= seq!['?']);
}

/// A monitor that the compositor has said nothing of gets no surface.
pub proof fn law_unknown_monitor_gets_nothing<L, W, S>(
    state: &AppState<L, W, S>,
    request: Option<SurfaceRequest>,
)
    requires
        call_ensures(
            AppState::<L, W, S>::maybe_create_output,
            (state, &None::<OutputInfo>),
            request,
        ),
    ensures
        request is None,
{
}

/// A call of `output_destroyed` looks at each monitor by itself and keeps their order: what is left
/// of a list is what is left of its parts, and a single monitor goes exactly if it has the given
/// identifier.
pub proof fn law_removal_of_an_output_is_piecewise<L, W, S>(
    whole: &mut AppState<L, W, S>,
    front: &mut AppState<L, W, S>,
    back: &mut AppState<L, W, S>,
    output_id: u32,
)
    requires
        call_ensures(AppState::<L, W, S>::output_destroyed, (whole, output_id), ()),
        call_ensures(AppState::<L, W, S>::output_destroyed, (front, output_id), ()),
        call_ensures(AppState::<L, W, S>::output_destroyed, (back, output_id), ()),
        old(whole).outputs@ == old(front).outputs@ + old(back).outputs@,
    ensures
        final(whole).outputs@ == final(front).outputs@ + final(back).outputs@,
        old(back).outputs@.len() == 1 ==> final(back).outputs@ == if old(back).outputs@[0].output_id
            == output_id {
            Seq::empty()
        } else {
            old(back).outputs@
        },
{
    let pred = |o: Output<L, W, S>| o.output_id != output_id;
    Seq::filter_distributes_over_add(old(front).outputs@, old(back).outputs@, pred);
    lemma_filter_one(old(back).outputs@, pred);
}

/// A call of `closed` removes likewise by the surface, and it ends the program exactly if it leaves
/// no monitor.
pub proof fn law_removal_of_a_surface_is_piecewise<L, W, S>(
    whole: &mut AppState<L, W, S>,
    exit: bool,
    front: &mut AppState<L, W, S>,
    exit_front: bool,
    back: &mut AppState<L, W, S>,
    exit_back: bool,
    surface_id: u32,
)
    requires
        call_ensures(AppState::<L, W, S>::closed, (whole, surface_id), exit),
        call_ensures(AppState::<L, W, S>::closed, (front, surface_id), exit_front),
        call_ensures(AppState::<L, W, S>::closed, (back, surface_id), exit_back),
        old(whole).outputs@ == old(front).outputs@ + old(back).outputs@,
    ensures
        final(whole).outputs@ == final(front).outputs@ + final(back).outputs@,
        old(back).outputs@.len() == 1 ==> final(back).outputs@ == if old(
            back,
        ).outputs@[0].surface_id == surface_id {
            Seq::empty()
        } else {
            old(back).outputs@
        },
        exit <==> final(whole).outputs@.len() == 0,
        exit <==> exit_front && exit_back,
{
    let pred = |o: Output<L, W, S>| o.surface_id != surface_id;
    Seq::filter_distributes_over_add(old(front).outputs@, old(back).outputs@, pred);
    lemma_filter_one(old(back).outputs@, pred);
}

/// Filtering a sequence of one element keeps it or leaves nothing.
proof fn lemma_filter_one<T>(s: Seq<T>, pred: spec_fn(T) -> bool)
    ensures
        s.len() == 1 ==> s.filter(pred) == if pred(s[0]) {
            s
        } else {
            Seq::empty()
        },
{
    reveal(Seq::filter);
    if s.len() == 1 {
        assert(s.drop_last() =~= Seq::empty());
        assert(s.drop_last().filter(pred) =~= Seq::empty());
        assert(s.filter(pred) =~= if pred(s[0]) {
            s
        } else {
            Seq::empty()
        });
    }
}

/// Once the monitors are known, they are listed if that was asked for; otherwise the player starts
/// if some monitor was selected, and else the user is told which argument has selected none.
pub proof fn law_startup_goes_by_the_monitors<L, W, S>(state: &AppState<L, W, S>, next: Startup)
    requires
        call_ensures(AppState::<L, W, S>::startup, (state,), next),
    ensures
        next is ListOutputs <==> state.show_outputs,
        next is Run <==> !state.show_outputs && state.outputs@.len() >= 1,
        next is NoMatch <==> !state.show_outputs && state.outputs@.len() == 0,
        next matches Startup::NoMatch { message } ==> message@ == "No matching output found for '"@
            + state.monitor@ + "'"@,
{
}

/// `after` has the settings of `before`.
pub open spec fn keeps_settings<L, W, S>(
    before: AppState<L, W, S>,
    after: AppState<L, W, S>,
) -> bool {
    &&& after.monitor@ == before.monitor@
    &&& after.surface_layer == before.surface_layer
    &&& after.show_outputs == before.show_outputs
    &&& after.verbose == before.verbose
}

/// No event of a surface changes the settings.
pub proof fn law_surface_events_keep_the_settings<L, W, S>(
    rescaled: &mut AppState<L, W, S>,
    factor: i32,
    resize: Option<ScaleReaction>,
    called_back: &mut AppState<L, W, S>,
    render: Option<usize>,
    configured: &mut AppState<L, W, S>,
    size: (u32, u32),
    reaction: ConfigureReaction,
    closed: &mut AppState<L, W, S>,
    exit: bool,
    surface_id: u32,
)
    requires
        call_ensures(
            AppState::<L, W, S>::scale_factor_changed,
            (rescaled, surface_id, factor),
            resize,
        ),
        call_ensures(AppState::<L, W, S>::frame, (called_back, surface_id), render),
        call_ensures(AppState::<L, W, S>::configure, (configured, surface_id, size), reaction),
        call_ensures(AppState::<L, W, S>::closed, (closed, surface_id), exit),
    ensures
        keeps_settings(*old(rescaled), *final(rescaled)),
        keeps_settings(*old(called_back), *final(called_back)),
        keeps_settings(*old(configured), *final(configured)),
        keeps_settings(*old(closed), *final(closed)),
{
}

/// Drawing does not change the settings either.
pub proof fn law_drawing_keeps_the_settings<L, W, S>(
    attached: &mut AppState<L, W, S>,
    window: W,
    surface: S,
    drawn: &mut AppState<L, W, S>,
    outcome: DrawOutcome,
    present: bool,
    swapped: &mut AppState<L, W, S>,
    updated: &mut AppState<L, W, S>,
    render: Vec<usize>,
    index: usize,
)
    requires
        call_ensures(AppState::<L, W, S>::attach_window, (attached, index, window, surface), ()),
        call_ensures(AppState::<L, W, S>::draw_finished, (drawn, index, outcome), present),
        call_ensures(AppState::<L, W, S>::buffers_swapped, (swapped, index), ()),
        call_ensures(AppState::<L, W, S>::player_update, (updated,), render),
    ensures
        keeps_settings(*old(attached), *final(attached)),
        keeps_settings(*old(drawn), *final(drawn)),
        keeps_settings(*old(swapped), *final(swapped)),
        keeps_settings(*old(updated), *final(updated)),
{
}

/// Monitors come and go without a change of the settings.
pub proof fn law_monitors_keep_the_settings<L, W, S>(
    grown: &mut AppState<L, W, S>,
    surface_id: u32,
    layer: L,
    request: &SurfaceRequest,
    shrunk: &mut AppState<L, W, S>,
    output_id: u32,
)
    requires
        call_ensures(
            AppState::<L, W, S>::add_output,
            (grown, output_id, surface_id, layer, request),
            (),
        ),
        call_ensures(AppState::<L, W, S>::output_destroyed, (shrunk, output_id), ()),
    ensures
        keeps_settings(*old(grown), *final(grown)),
        keeps_settings(*old(shrunk), *final(shrunk)),
{
}

} // verus!
