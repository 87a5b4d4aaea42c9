//! The monitors that carry the wallpaper, and how they answer each event.
use crate::geometry::{buffer_size, drawn_size};
use crate::output::{find_surface, position, Output};
use crate::selection::{
    monitor_selects, or_unknown, selected_notice, selects, text_of, unknown_if_missing, Anchor,
    Layer, OutputInfo, SurfaceRequest,
};
use vstd::prelude::*;

verus! {

/// The settings of the wallpaper and the monitors that carry it.
///
/// `L`, `W` and `S` are the handles that `Output` keeps.
pub struct AppState<L, W, S> {
    pub outputs: Vec<Output<L, W, S>>,
    /// Which monitors were asked for.
    pub monitor: String,
    pub surface_layer: Layer,
    /// Only list the monitors.
    pub show_outputs: bool,
    pub verbose: bool,
}

/// What a change of the scale factor asks for.
#[derive(Clone, Copy, Debug, PartialEq, Eq)]
pub struct ScaleReaction {
    /// The monitor.
    pub index: usize,
    /// New size of the window, where there is one.
    pub resize: Option<(i32, i32)>,
    /// Draw a frame at once.
    pub render: bool,
}

/// How many refreshes of the screen a swap of buffers waits for: none, since the frame callback
/// sets the pace.
pub const SWAP_INTERVAL: i32 = 0;

/// What a configure event asks for.
#[derive(Clone, Copy, Debug, PartialEq, Eq)]
pub enum ConfigureReaction {
    /// The surface is not one of ours.
    Ignore,
    /// Make a window of this size and an EGL surface on it, make the surface current with this
    /// swap interval, attach both, and draw a frame.
    CreateWindow { index: usize, width: i32, height: i32, swap_interval: i32 },
    /// Give the window this size; draw a frame at once if `render` holds.
    Resize { index: usize, width: i32, height: i32, render: bool },
}

/// A frame for the player to draw.
#[derive(Clone, Copy, Debug, PartialEq, Eq)]
pub struct DrawRequest {
    /// The framebuffer; zero is that of the current surface.
    pub framebuffer: i32,
    pub width: i32,
    pub height: i32,
    /// Put the first line of the video at the top, where GL counts from the bottom.
    pub flip: bool,
}

/// How an attempt to draw a frame has ended.
#[derive(Clone, Copy, Debug, PartialEq, Eq)]
pub enum DrawOutcome {
    Drawn,
    Failed,
    /// The player has no render context yet.
    NoContext,
}

/// What to do once the monitors are known.
pub enum Startup {
    /// Print the monitors and end.
    ListOutputs,
    /// Print the message and end with a failure.
    NoMatch { message: String },
    /// Start the player.
    Run,
}

/// The message for a monitor argument that selects nothing.
pub open spec fn no_match_message(monitor: Seq<char>) -> Seq<char> {
    "No matching output found for '"@ + monitor + "'"@
}

/// The monitors after a change of the scale factor of one surface.
pub open spec fn after_scale<L, W, S>(
    outputs: Seq<Output<L, W, S>>,
    surface_id: u32,
    scale: i32,
) -> Seq<Output<L, W, S>> {
    match position(outputs, surface_id) {
        Some(i) => outputs.update(i, outputs[i].rescaled(scale)),
        None => outputs,
    }
}

/// What that change asks for.
pub open spec fn scale_reaction<L, W, S>(
    outputs: Seq<Output<L, W, S>>,
    surface_id: u32,
    scale: i32,
) -> Option<ScaleReaction> {
    match position(outputs, surface_id) {
        Some(i) => Some(
            ScaleReaction {
                index: i as usize,
                resize: if outputs[i].egl_window is Some {
                    Some(outputs[i].rescaled(scale).pixels())
                } else {
                    None
                },
                render: outputs[i].drawable(),
            },
        ),
        None => None,
    }
}

/// The monitors after a frame callback for one surface.
pub open spec fn after_frame<L, W, S>(
    outputs: Seq<Output<L, W, S>>,
    surface_id: u32,
) -> Seq<Output<L, W, S>> {
    match position(outputs, surface_id) {
        Some(i) => outputs.update(i, outputs[i].called_back()),
        None => outputs,
    }
}

/// The monitor that is drawn upon that callback: the one that it is for, if something new has
/// come up while it waited.
pub open spec fn frame_reaction<L, W, S>(
    outputs: Seq<Output<L, W, S>>,
    surface_id: u32,
) -> Option<usize> {
    match position(outputs, surface_id) {
        Some(i) => if outputs[i].redraw_needed {
            Some(i as usize)
        } else {
            None
        },
        None => None,
    }
}

/// The monitors after a configure event for one surface.
pub open spec fn after_configure<L, W, S>(
    outputs: Seq<Output<L, W, S>>,
    surface_id: u32,
    size: (u32, u32),
) -> Seq<Output<L, W, S>> {
    match position(outputs, surface_id) {
        Some(i) => outputs.update(i, outputs[i].configured(size)),
        None => outputs,
    }
}

/// What that event asks for.
pub open spec fn configure_reaction<L, W, S>(
    outputs: Seq<Output<L, W, S>>,
    surface_id: u32,
    size: (u32, u32),
) -> ConfigureReaction {
    match position(outputs, surface_id) {
        Some(i) => {
            let (width, height) = outputs[i].configured(size).pixels();
            if outputs[i].egl_window is None {
                ConfigureReaction::CreateWindow {
                    index: i as usize,
                    width,
                    height,
                    swap_interval: SWAP_INTERVAL,
                }
            } else {
                ConfigureReaction::Resize {
                    index: i as usize,
                    width,
                    height,
                    render: !outputs[i].frame_pending,
                }
            }
        },
        None => ConfigureReaction::Ignore,
    }
}

/// The monitors after the player has announced a new frame.
pub open spec fn after_update<L, W, S>(outputs: Seq<Output<L, W, S>>) -> Seq<Output<L, W, S>> {
    outputs.map_values(|o: Output<L, W, S>| o.notified())
}

/// The indices of the monitors that can be drawn at once, in order.
pub open spec fn drawable_indices<L, W, S>(outputs: Seq<Output<L, W, S>>) -> Seq<usize>
    decreases outputs.len(),
{
    if outputs.len() == 0 {
        Seq::empty()
    } else {
        let front = drawable_indices(outputs.drop_last());
        if outputs.last().drawable() {
            front.push((outputs.len() - 1) as usize)
        } else {
            front
        }
    }
}

/// The frame that is drawn on a monitor: on its surface, if it has one, and of the size of its
/// buffers.
pub open spec fn draw_request<L, W, S>(output: Output<L, W, S>) -> Option<DrawRequest> {
    if output.egl_surface is Some {
        let (width, height) = output.pixels();
        Some(DrawRequest { framebuffer: 0, width, height, flip: true })
    } else {
        None
    }
}

/// The monitors without those that have the given identifier.
pub open spec fn without_output<L, W, S>(
    outputs: Seq<Output<L, W, S>>,
    output_id: u32,
) -> Seq<Output<L, W, S>> {
    outputs.filter(|o: Output<L, W, S>| o.output_id != output_id)
}

/// The monitors without those that are drawn on the given surface.
pub open spec fn without_surface<L, W, S>(
    outputs: Seq<Output<L, W, S>>,
    surface_id: u32,
) -> Seq<Output<L, W, S>> {
    outputs.filter(|o: Output<L, W, S>| o.surface_id != surface_id)
}

/// Keeps the elements that satisfy `keep`, in order.
fn retain<T>(v: &mut Vec<T>, keep: impl Fn(&T) -> bool, Ghost(pred): Ghost<spec_fn(T) -> bool>)
    requires
        forall|x: &T| #[trigger] call_requires(keep, (x,)),
        forall|x: &T, kept: bool| #[trigger] call_ensures(keep, (x,), kept) ==> kept == pred(*x),
    ensures
        final(v)@ == old(v)@.filter(pred),
{
    let ghost all = v@;
    let ghost mut seen: int = 0;
    let mut i: usize = 0;
    proof {
        assert(all.take(0).filter(pred) =~= Seq::empty()) by {
            reveal(Seq::filter);
        }
        assert(all.skip(0) =~= all);
    }
    while i < v.len()
        invariant
            forall|x: &T| #[trigger] call_requires(keep, (x,)),
            forall|x: &T, kept: bool| #[trigger]
                call_ensures(keep, (x,), kept) ==> kept == pred(*x),
            i <= v@.len(),
            0 <= seen <= all.len(),
            v@.len() - i == all.len() - seen,
            v@.take(i as int) == all.take(seen).filter(pred),
            v@.skip(i as int) == all.skip(seen),
        decreases v@.len() - i,
    {
        proof {
            assert(v@.skip(i as int)[0] == all.skip(seen)[0]);
            assert(v@[i as int] == all[seen]);
            assert(all.take(seen + 1).drop_last() =~= all.take(seen));
            assert(all.skip(seen + 1) =~= all.skip(seen).drop_first());
            assert(all.take(seen + 1).filter(pred) == if pred(all[seen]) {
                all.take(seen).filter(pred).push(all[seen])
            } else {
                all.take(seen).filter(pred)
            }) by {
                reveal(Seq::filter);
            }
        }
        let ghost before = v@;
        if keep(&v[i]) {
            i += 1;
            assert(v@.take(i as int) =~= before.take(i - 1).push(before[i - 1]));
            assert(v@.skip(i as int) =~= before.skip(i - 1).drop_first());
        } else {
            v.remove(i);
            assert(v@.take(i as int) =~= before.take(i as int));
            assert(v@.skip(i as int) =~= before.skip(i as int).drop_first());
        }
        proof {
            seen = seen + 1;
        }
    }
    assert(v@.take(i as int) =~= v@);
    assert(all.take(seen) =~= all);
}

impl<L, W, S> AppState<L, W, S> {
    /// Every monitor is well-formed.
    pub open spec fn wf(self) -> bool {
        forall|i: int| 0 <= i < self.outputs@.len() ==> (#[trigger] self.outputs@[i]).wf()
    }

    /// The settings are those of `other`.
    pub open spec fn same_settings(self, other: Self) -> bool {
        &&& self.monitor == other.monitor
        &&& self.surface_layer == other.surface_layer
        &&& self.show_outputs == other.show_outputs
        &&& self.verbose == other.verbose
    }

    /// No monitor yet.
    pub fn new(monitor: String, surface_layer: Layer, show_outputs: bool, verbose: bool) -> (state:
        Self)
        ensures
            state.outputs@ == Seq::<Output<L, W, S>>::empty(),
            state.monitor == monitor,
            state.surface_layer == surface_layer,
            state.show_outputs == show_outputs,
            state.verbose == verbose,
            state.wf(),
    {
        AppState { outputs: Vec::new(), monitor, surface_layer, show_outputs, verbose }
    }

    /// Whether the described monitor was asked for.
    pub fn output_info_matches(&self, info: &OutputInfo) -> (selected: bool)
        ensures
            selected == selects(self.monitor@, text_of(info.name), text_of(info.description)),
    {
        monitor_selects(self.monitor.as_str(), info)
    }

    /// A monitor that the compositor announces is chosen.
    pub open spec fn chooses(self, info: Option<OutputInfo>) -> bool {
        &&& !self.show_outputs
        &&& info is Some
        &&& selects(self.monitor@, text_of(info->0.name), text_of(info->0.description))
    }

    /// The surface for a monitor that the compositor has announced, if it is to carry the
    /// wallpaper. `info` is what the compositor has said of it so far.
    pub fn maybe_create_output(&self, info: &Option<OutputInfo>) -> (request: Option<
        SurfaceRequest,
    >)
        ensures
            request is Some <==> self.chooses(*info),
            request matches Some(r) ==> {
                &&& r.is_wallpaper(self.surface_layer)
                &&& r.scale == info->0.scale_factor
                &&& text_of(r.notice) == if self.verbose {
                    Some(selected_notice(or_unknown(info->0.name)))
                } else {
                    None
                }
            },
    {
        if self.show_outputs {
            return None;
        }
        let info: &OutputInfo = match info {
            Some(info) => info,
            None => {
                return None;
            },
        };
        if !self.output_info_matches(info) {
            return None;
        }
        let notice: Option<String> = if self.verbose {
            let name: String = unknown_if_missing(&info.name);
            let start: String = "[mpvpaper] Selected output: ".to_owned();
            Some(start.concat(name.as_str()))
        } else {
            None
        };
        Some(
            SurfaceRequest {
                layer: self.surface_layer,
                namespace: "mpvpaper".to_owned(),
                anchor: Anchor { top: true, right: true, bottom: true, left: true },
                exclusive_zone: -1,
                size: (0, 0),
                keyboard: false,
                scale: info.scale_factor,
                notice,
            },
        )
    }

    /// Takes in a chosen monitor, once its layer surface has been made.
    pub fn add_output(
        &mut self,
        output_id: u32,
        surface_id: u32,
        layer: L,
        request: &SurfaceRequest,
    )
        ensures
            final(self).outputs@ == old(self).outputs@.push(
                Output::fresh(output_id, surface_id, layer, request.scale),
            ),
            final(self).same_settings(*old(self)),
            old(self).wf() ==> final(self).wf(),
    {
        self.outputs.push(Output::new(output_id, surface_id, layer, request.scale));
    }

    /// The scale factor of a surface has changed.
    pub fn scale_factor_changed(&mut self, surface_id: u32, new_factor: i32) -> (reaction: Option<
        ScaleReaction,
    >)
        ensures
            final(self).outputs@ == after_scale(old(self).outputs@, surface_id, new_factor),
            reaction == scale_reaction(old(self).outputs@, surface_id, new_factor),
            final(self).same_settings(*old(self)),
            old(self).wf() ==> final(self).wf(),
    {
        let i: usize = match find_surface(&self.outputs, surface_id) {
            Some(i) => i,
            None => {
                return None;
            },
        };
        self.outputs[i].scale = new_factor;
        let resize: Option<(i32, i32)> = if self.outputs[i].egl_window.is_some() {
            Some(buffer_size(self.outputs[i].size, new_factor))
        } else {
            None
        };
        let render: bool = !self.outputs[i].frame_pending && self.outputs[i].egl_surface.is_some();
        if !render {
            self.outputs[i].redraw_needed = true;
        }
        Some(ScaleReaction { index: i, resize, render })
    }

    /// The compositor is ready for the next frame of a surface. The result is the monitor to
    /// draw on.
    pub fn frame(&mut self, surface_id: u32) -> (render: Option<usize>)
        ensures
            final(self).outputs@ == after_frame(old(self).outputs@, surface_id),
            render == frame_reaction(old(self).outputs@, surface_id),
            final(self).same_settings(*old(self)),
            old(self).wf() ==> final(self).wf(),
    {
        let i: usize = match find_surface(&self.outputs, surface_id) {
            Some(i) => i,
            None => {
                return None;
            },
        };
        self.outputs[i].frame_pending = false;
        if self.outputs[i].redraw_needed {
            Some(i)
        } else {
            None
        }
    }

    /// The compositor has given a layer surface its size.
    pub fn configure(&mut self, surface_id: u32, new_size: (u32, u32)) -> (reaction:
        ConfigureReaction)
        ensures
            final(self).outputs@ == after_configure(old(self).outputs@, surface_id, new_size),
            reaction == configure_reaction(old(self).outputs@, surface_id, new_size),
            final(self).same_settings(*old(self)),
            old(self).wf() ==> final(self).wf(),
    {
        let index: usize = match find_surface(&self.outputs, surface_id) {
            Some(i) => i,
            None => {
                return ConfigureReaction::Ignore;
            },
        };
        let w: u32 = if new_size.0 < 1 {
            1
        } else {
            new_size.0
        };
        let h: u32 = if new_size.1 < 1 {
            1
        } else {
            new_size.1
        };
        self.outputs[index].size = (w, h);
        let (width, height): (i32, i32) = buffer_size((w, h), self.outputs[index].scale);
        if self.outputs[index].egl_window.is_none() {
            ConfigureReaction::CreateWindow { index, width, height, swap_interval: SWAP_INTERVAL }
        } else {
            let render: bool = !self.outputs[index].frame_pending;
            if !render {
                self.outputs[index].redraw_needed = true;
            }
            ConfigureReaction::Resize { index, width, height, render }
        }
    }

    /// Takes in the window and the EGL surface that `CreateWindow` asked for.
    pub fn attach_window(&mut self, index: usize, window: W, surface: S)
        requires
            index < old(self).outputs@.len(),
        ensures
            final(self).outputs@ == old(self).outputs@.update(
                index as int,
                old(self).outputs@[index as int].attached(window, surface),
            ),
            final(self).same_settings(*old(self)),
            old(self).wf() && 1 <= old(self).outputs@[index as int].size.0 && 1 <= old(
                self,
            ).outputs@[index as int].size.1 ==> final(self).wf(),
    {
        self.outputs[index].egl_window = Some(window);
        self.outputs[index].egl_surface = Some(surface);
    }

    /// The frame to draw on a monitor, if it has a surface to draw on.
    pub fn render_output(&self, index: usize) -> (request: Option<DrawRequest>)
        requires
            index < self.outputs@.len(),
        ensures
            request == draw_request(self.outputs@[index as int]),
    {
        if self.outputs[index].egl_surface.is_none() {
            return None;
        }
        let (width, height): (i32, i32) = drawn_size(
            self.outputs[index].size,
            self.outputs[index].scale,
        );
        Some(DrawRequest { framebuffer: 0, width, height, flip: true })
    }

    /// Takes in how drawing has ended. If the result holds, request a frame callback and swap
    /// the buffers; otherwise leave it at that.
    pub fn draw_finished(&mut self, index: usize, outcome: DrawOutcome) -> (present: bool)
        requires
            index < old(self).outputs@.len(),
            old(self).outputs@[index as int].egl_surface is Some,
        ensures
            present == (outcome == DrawOutcome::Drawn),
            final(self).outputs@ == if outcome == DrawOutcome::Drawn {
                old(self).outputs@.update(index as int, old(self).outputs@[index as int].drawn())
            } else {
                old(self).outputs@
            },
            final(self).same_settings(*old(self)),
            old(self).wf() ==> final(self).wf(),
    {
        match outcome {
            DrawOutcome::Drawn => {
                self.outputs[index].frame_pending = true;
                true
            },
            DrawOutcome::Failed => false,
            DrawOutcome::NoContext => false,
        }
    }

    /// The frame has been handed to the compositor.
    pub fn buffers_swapped(&mut self, index: usize)
        requires
            index < old(self).outputs@.len(),
        ensures
            final(self).outputs@ == old(self).outputs@.update(
                index as int,
                old(self).outputs@[index as int].presented(),
            ),
            final(self).same_settings(*old(self)),
            old(self).wf() ==> final(self).wf(),
    {
        self.outputs[index].redraw_needed = false;
    }

    /// The player has a new frame. The result holds the monitors to draw on, in order; those
    /// that wait for the compositor are marked instead.
    pub fn player_update(&mut self) -> (render: Vec<usize>)
        ensures
            final(self).outputs@ == after_update(old(self).outputs@),
            render@ == drawable_indices(old(self).outputs@),
            final(self).same_settings(*old(self)),
            old(self).wf() ==> final(self).wf(),
    {
        let mut render: Vec<usize> = Vec::new();
        let ghost before = self.outputs@;
        let count: usize = self.outputs.len();
        for i in 0..count
            invariant
                count == before.len(),
                self.outputs@.len() == count,
                self.same_settings(*old(self)),
                before == old(self).outputs@,
                forall|j: int| 0 <= j < i ==> self.outputs@[j] == (#[trigger] before[j]).notified(),
                forall|j: int| i <= j < count ==> self.outputs@[j] == before[j],
                render@ == drawable_indices(before.take(i as int)),
        {
            assert(before.take(i + 1).drop_last() =~= before.take(i as int));
            assert(before[i as int] == self.outputs@[i as int]);
            if self.outputs[i].egl_surface.is_some() {
                if !self.outputs[i].frame_pending {
                    render.push(i);
                } else {
                    self.outputs[i].redraw_needed = true;
                }
            }
        }
        assert(before.take(count as int) =~= before);
        assert(self.outputs@ =~= after_update(before));
        render
    }

    /// A monitor is gone.
    pub fn output_destroyed(&mut self, output_id: u32)
        ensures
            final(self).outputs@ == without_output(old(self).outputs@, output_id),
            final(self).same_settings(*old(self)),
            old(self).wf() ==> final(self).wf(),
    {
        let ghost before = self.outputs@;
        let ghost pred = |o: Output<L, W, S>| o.output_id != output_id;
        let keep = |o: &Output<L, W, S>| -> (kept: bool)
            ensures
                kept == (o.output_id != output_id),
        {
            o.output_id != output_id
        };
        retain(&mut self.outputs, keep, Ghost(pred));
        proof {
            lemma_filter_keeps_wf(before, pred);
        }
    }

    /// The compositor has closed a layer surface. If the result holds, no monitor is left and
    /// the program ends.
    pub fn closed(&mut self, surface_id: u32) -> (exit: bool)
        ensures
            final(self).outputs@ == without_surface(old(self).outputs@, surface_id),
            exit == (final(self).outputs@.len() == 0),
            final(self).same_settings(*old(self)),
            old(self).wf() ==> final(self).wf(),
    {
        let ghost before = self.outputs@;
        let ghost pred = |o: Output<L, W, S>| o.surface_id != surface_id;
        let keep = |o: &Output<L, W, S>| -> (kept: bool)
            ensures
                kept == (o.surface_id != surface_id),
        {
            o.surface_id != surface_id
        };
        retain(&mut self.outputs, keep, Ghost(pred));
        proof {
            lemma_filter_keeps_wf(before, pred);
        }
        self.outputs.is_empty()
    }

    /// What to do once the compositor has announced its monitors.
    pub fn startup(&self) -> (next: Startup)
        ensures
            match next {
                Startup::ListOutputs => self.show_outputs,
                Startup::NoMatch { message } => {
                    &&& !self.show_outputs
                    &&& self.outputs@.len() == 0
                    &&& message@ == no_match_message(self.monitor@)
                },
                Startup::Run => !self.show_outputs && self.outputs@.len() > 0,
            },
    {
        if self.show_outputs {
            return Startup::ListOutputs;
        }
        if self.outputs.is_empty() {
            let start: String = "No matching output found for '".to_owned();
            let message: String = start.concat(self.monitor.as_str()).concat("'");
            return Startup::NoMatch { message };
        }
        Startup::Run
    }
}

/// What is left of well-formed monitors is well-formed.
pub(crate) proof fn lemma_filter_keeps_wf<L, W, S>(
    outputs: Seq<Output<L, W, S>>,
    pred: spec_fn(Output<L, W, S>) -> bool,
)
    ensures
        (forall|i: int| 0 <= i < outputs.len() ==> (#[trigger] outputs[i]).wf()) ==> (forall|i: int|
            0 <= i < outputs.filter(pred).len() ==> (#[trigger] outputs.filter(pred)[i]).wf()),
{
    assert forall|i: int| 0 <= i < outputs.filter(pred).len() implies outputs.contains(
        #[trigger] outputs.filter(pred)[i],
    ) by {
        outputs.lemma_filter_contains_rev(pred, outputs.filter(pred)[i]);
    }
}

} // verus!
