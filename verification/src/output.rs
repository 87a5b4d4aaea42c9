//! One monitor that the wallpaper is shown on.
use crate::geometry::scaled_size;
use vstd::prelude::*;

verus! {

/// What is known of a monitor that carries the wallpaper.
///
/// `L` is the handle of the layer surface, `W` that of the window that EGL renders to, and `S`
/// that of the EGL surface on it: the library keeps them and hands them back, nothing more.
pub struct Output<L, W, S> {
    /// Identifies the monitor among those that the compositor announced.
    pub output_id: u32,
    /// Identifies the surface that the wallpaper is drawn on. A layer surface has exactly one.
    pub surface_id: u32,
    pub layer: L,
    pub egl_window: Option<W>,
    pub egl_surface: Option<S>,
    /// Size in logical pixels, from the last configure event.
    pub size: (u32, u32),
    /// Pixels of the buffer for each logical pixel.
    pub scale: i32,
    /// The compositor still owes a frame callback.
    pub frame_pending: bool,
    /// There is something new to show, and it waits for that callback.
    pub redraw_needed: bool,
}

/// The larger of an extent and one: a compositor may leave the size to the client.
pub open spec fn at_least_one(extent: u32) -> u32 {
    if extent == 0 {
        1
    } else {
        extent
    }
}

impl<L, W, S> Output<L, W, S> {
    /// What holds of every monitor, whatever events it has seen: window and EGL surface come
    /// together and never on an empty surface, and only what has been drawn to can wait for a
    /// frame callback.
    pub open spec fn wf(self) -> bool {
        &&& self.egl_window is Some <==> self.egl_surface is Some
        &&& self.egl_window is Some ==> 1 <= self.size.0 && 1 <= self.size.1
        &&& self.frame_pending ==> self.egl_surface is Some
    }

    /// A frame may be drawn now: there is a surface, and no frame callback is outstanding.
    pub open spec fn drawable(self) -> bool {
        self.egl_surface is Some && !self.frame_pending
    }

    /// Size of the buffers in pixels.
    pub open spec fn pixels(self) -> (i32, i32) {
        scaled_size(self.size, self.scale)
    }

    /// A monitor that has just been chosen.
    pub open spec fn fresh(output_id: u32, surface_id: u32, layer: L, scale: i32) -> Self {
        Output {
            output_id,
            surface_id,
            layer,
            egl_window: None,
            egl_surface: None,
            size: (0, 0),
            scale,
            frame_pending: false,
            redraw_needed: false,
        }
    }

    /// After the scale factor has changed. What cannot be drawn at once is left for later.
    pub open spec fn rescaled(self, scale: i32) -> Self {
        Output { scale, redraw_needed: self.redraw_needed || !self.drawable(), ..self }
    }

    /// After a configure event with the given size. A window that waits for a frame callback
    /// is redrawn later.
    pub open spec fn configured(self, size: (u32, u32)) -> Self {
        Output {
            size: (at_least_one(size.0), at_least_one(size.1)),
            redraw_needed: self.redraw_needed || (self.egl_window is Some && self.frame_pending),
            ..self
        }
    }

    /// After its window and EGL surface have been made.
    pub open spec fn attached(self, window: W, surface: S) -> Self {
        Output { egl_window: Some(window), egl_surface: Some(surface), ..self }
    }

    /// After the frame callback has come.
    pub open spec fn called_back(self) -> Self {
        Output { frame_pending: false, ..self }
    }

    /// After the player has announced a new frame.
    pub open spec fn notified(self) -> Self {
        Output {
            redraw_needed: self.redraw_needed || (self.egl_surface is Some && self.frame_pending),
            ..self
        }
    }

    /// After a frame has been drawn and the next frame callback requested.
    pub open spec fn drawn(self) -> Self {
        Output { frame_pending: true, ..self }
    }

    /// After the drawn frame has been handed to the compositor.
    pub open spec fn presented(self) -> Self {
        Output { redraw_needed: false, ..self }
    }

    /// A monitor that has just been chosen: without a window until the first configure event.
    pub fn new(output_id: u32, surface_id: u32, layer: L, scale: i32) -> (output: Self)
        ensures
            output == Self::fresh(output_id, surface_id, layer, scale),
            output.wf(),
    {
        Output {
            output_id,
            surface_id,
            layer,
            egl_window: None,
            egl_surface: None,
            size: (0, 0),
            scale,
            frame_pending: false,
            redraw_needed: false,
        }
    }
}

/// The index of the first monitor whose wallpaper is drawn on the given surface.
pub open spec fn position<L, W, S>(outputs: Seq<Output<L, W, S>>, surface_id: u32) -> Option<int>
    decreases outputs.len(),
{
    if outputs.len() == 0 {
        None
    } else {
        match position(outputs.drop_last(), surface_id) {
            Some(i) => Some(i),
            None => if outputs.last().surface_id == surface_id {
                Some(outputs.len() - 1)
            } else {
                None
            },
        }
    }
}

/// `position` is the least index with the given surface, and there is one if and only if some
/// monitor has that surface.
pub proof fn law_position_is_the_first<L, W, S>(outputs: Seq<Output<L, W, S>>, surface_id: u32)
    ensures
        match position(outputs, surface_id) {
            Some(i) => {
                &&& 0 <= i < outputs.len()
                &&& outputs[i].surface_id == surface_id
                &&& forall|j: int| 0 <= j < i ==> outputs[j].surface_id != surface_id
            },
            None => forall|j: int|
                0 <= j < outputs.len() ==> outputs[j].surface_id != surface_id,
        },
    decreases outputs.len(),
{
    if outputs.len() > 0 {
        let front = outputs.drop_last();
        law_position_is_the_first(front, surface_id);
        assert forall|j: int| 0 <= j < front.len() implies front[j] == outputs[j] by {}
    }
}

/// The index of the first monitor whose wallpaper is drawn on the given surface.
pub fn find_surface<L, W, S>(outputs: &Vec<Output<L, W, S>>, surface_id: u32) -> (found: Option<
    usize,
>)
    ensures
        match found {
            Some(i) => i < outputs@.len() && position(outputs@, surface_id) == Some(i as int),
            None => position(outputs@, surface_id) is None,
        },
{
    for i in 0..outputs.len()
        invariant
            position(outputs@.take(i as int), surface_id) is None,
    {
        assert(outputs@.take(i + 1).drop_last() =~= outputs@.take(i as int));
        if outputs[i].surface_id == surface_id {
            proof {
                lemma_position_stays(outputs@, surface_id, i + 1);
            }
            return Some(i);
        }
    }
    assert(outputs@.take(outputs@.len() as int) =~= outputs@);
    None
}

/// What is found among the first `n` monitors is found among all of them.
proof fn lemma_position_stays<L, W, S>(outputs: Seq<Output<L, W, S>>, surface_id: u32, n: int)
    requires
        0 <= n <= outputs.len(),
        position(outputs.take(n), surface_id) is Some,
    ensures
        position(outputs, surface_id) == position(outputs.take(n), surface_id),
    decreases outputs.len() - n,
{
    if n == outputs.len() {
        assert(outputs.take(n) =~= outputs);
    } else {
        assert(outputs.take(n + 1).drop_last() =~= outputs.take(n));
        lemma_position_stays(outputs, surface_id, n + 1);
    }
}

/// A call of `find_surface` gives the first monitor on the surface, and none only if there is none.
pub proof fn law_first_surface_is_found<L, W, S>(
    outputs: &Vec<Output<L, W, S>>,
    surface_id: u32,
    found: Option<usize>,
)
    requires
        call_ensures(find_surface::<L, W, S>, (outputs, surface_id), found),
    ensures
        match found {
            Some(i) => {
                &&& i < outputs@.len()
                &&& outputs@[i as int].surface_id == surface_id
                &&& forall|j: int|
                    0 <= j < i ==> (#[trigger] outputs@[j]).surface_id != surface_id
            },
            None => forall|j: int|
                0 <= j < outputs@.len() ==> (#[trigger] outputs@[j]).surface_id != surface_id,
        },
{
    law_position_is_the_first(outputs@, surface_id);
}

/// A new monitor has what it is given and nothing else: no window, no size, nothing to wait for
/// and nothing to show.
pub proof fn law_new_monitor_is_blank<L, W, S>(
    output_id: u32,
    surface_id: u32,
    layer: L,
    scale: i32,
    output: Output<L, W, S>,
)
    requires
        call_ensures(Output::<L, W, S>::new, (output_id, surface_id, layer, scale), output),
    ensures
        output.output_id == output_id,
        output.surface_id == surface_id,
        output.layer == layer,
        output.scale == scale,
        output.egl_window is None,
        output.egl_surface is None,
        output.size.0 == 0,
        output.size.1 == 0,
        !output.frame_pending,
        !output.redraw_needed,
{
}

/// What it means that a monitor is well-formed: it has a window exactly if it has an EGL surface,
/// both only where there is something to show them on, and it waits only if it has them.
pub proof fn law_well_formed_monitors<L, W, S>(output: Output<L, W, S>)
    ensures
        output.wf() && output.egl_window is Some ==> output.egl_surface is Some && output.size.0 > 0
            && output.size.1 > 0,
        output.wf() && output.egl_surface is Some ==> output.egl_window is Some,
        output.wf() && output.frame_pending ==> output.egl_surface is Some,
        output.egl_window is None && output.egl_surface is None && !output.frame_pending
            ==> output.wf(),
        output.egl_window is Some && output.egl_surface is Some && output.size.0 > 0
            && output.size.1 > 0 ==> output.wf(),
{
}

} // verus!
