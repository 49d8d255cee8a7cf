//! What every client-side resize starts from, shared by all that can start one: the
//! pointer, the client itself, touch and the trackpad.

use vstd::prelude::*;

use crate::geometry::{Point, Size};
use crate::scalar::Scalar;
use crate::state::{
    entry_index, has_id, law_search_finds_the_first, law_search_looks_at_matches_alone, unfilled,
    unfit, DriftWm, Momentum, Output, OutputState, ResizeEdge, ResizeState, Stage, StageEntry,
    Toplevel, Window,
};

verus! {

broadcast use vstd::std_specs::hash::group_hash_axioms;

/// A viewport out of flight: its camera and zoom stay where they are. Edge panning
/// goes on, since a grab drives that itself.
pub open spec fn grounded<S>(state: OutputState<S>) -> OutputState<S> {
    OutputState {
        camera_target: None,
        zoom_target: None,
        zoom_animation_anchor: None,
        momentum: Momentum { velocity: None },
        ..state
    }
}

/// Outputs with every viewport out of flight.
pub open spec fn all_grounded<S>(outputs: Seq<Output<S>>) -> Seq<Output<S>> {
    outputs.map_values(|output: Output<S>| Output { state: grounded(output.state), ..output })
}

impl<S: Scalar> DriftWm<S> {
    /// Take every viewport out of flight. The active output alone is not enough: the
    /// focus moves during a grab, and a flight left running elsewhere would become
    /// the active one.
    pub fn cancel_animations_everywhere(&mut self)
        ensures
            final(self).outputs@ == all_grounded(old(self).outputs@),
            *final(self) == (DriftWm { outputs: final(self).outputs, ..*old(self) }),
    {
        let count: usize = self.outputs.len();
        for k in 0..count
            invariant
                count == self.outputs.len() == old(self).outputs.len(),
                forall|j: int|
                    0 <= j < k ==> (#[trigger] self.outputs[j]) == (Output {
                        state: grounded(old(self).outputs[j].state),
                        ..old(self).outputs[j]
                    }),
                forall|j: int|
                    k <= j < count ==> (#[trigger] self.outputs[j]) == old(self).outputs[j],
                *self == (DriftWm { outputs: self.outputs, ..*old(self) }),
        {
            let state = &mut self.outputs[k].state;
            state.camera_target = None;
            state.zoom_target = None;
            state.zoom_animation_anchor = None;
            state.momentum.stop();
        }
        assert(self.outputs@ =~= all_grounded(old(self).outputs@));
    }

    /// Enter a client-side resize of `window`: end every camera flight, take the
    /// window out of its fit and fill, note where the resize starts, and put the
    /// toplevel into resizing without maximized. A window left maximized after its
    /// fit is gone could never shed that state.
    pub fn begin_client_resize(
        &mut self,
        window: &mut Window,
        surface: u64,
        edges: ResizeEdge,
        initial_window_location: Point<i32>,
        initial_window_size: Size<i32>,
        pinned_initial_screen_pos: Option<Point<i32>>,
    )
        ensures
            final(self).outputs@ == all_grounded(old(self).outputs@),
            final(self).stage.windows@ == unfilled(
                unfit(old(self).stage.windows@, old(window).id),
                old(window).id,
            ),
            final(self).resize_states@ == old(self).resize_states@.insert(
                surface,
                ResizeState::Resizing {
                    edges,
                    initial_window_location,
                    initial_window_size,
                    initial_screen_pos: pinned_initial_screen_pos,
                    last_committed_size: initial_window_size,
                },
            ),
            *final(self) == (DriftWm {
                outputs: final(self).outputs,
                stage: Stage { windows: final(self).stage.windows, ..old(self).stage },
                resize_states: final(self).resize_states,
                ..*old(self)
            }),
            *final(window) == (Window {
                toplevel: match old(window).toplevel {
                    Some(toplevel) => Some(
                        Toplevel { resizing: true, maximized: false, ..toplevel },
                    ),
                    None => None,
                },
                ..*old(window)
            }),
    {
        self.cancel_animations_everywhere();
        self.stage.clear_fit(window.id);
        self.stage.clear_fill(window.id);
        self.resize_states.insert(
            surface,
            ResizeState::Resizing {
                edges,
                initial_window_location,
                initial_window_size,
                initial_screen_pos: pinned_initial_screen_pos,
                last_committed_size: initial_window_size,
            },
        );
        if let Some(toplevel) = &mut window.toplevel {
            toplevel.resizing = true;
            toplevel.maximized = false;
        }
    }
}

/// After a resize has begun no camera is in flight on any output, and none has moved.
pub proof fn law_resize_grounds_every_output<S>(outputs: Seq<Output<S>>, k: int)
    requires
        0 <= k < outputs.len(),
    ensures
        ({
            let after = all_grounded(outputs)[k].state;
            &&& after.camera_target is None
            &&& after.zoom_target is None
            &&& after.zoom_animation_anchor is None
            &&& after.momentum.velocity is None
            &&& after.camera == outputs[k].state.camera
            &&& after.zoom == outputs[k].state.zoom
            &&& after.edge_pan_velocity == outputs[k].state.edge_pan_velocity
        }),
        all_grounded(outputs).len() == outputs.len(),
{
}

/// A window that a resize has begun on is out of its fit and its fill, where it was,
/// and no other element is touched.
pub proof fn law_resize_takes_out_of_fit_and_fill(windows: Seq<StageEntry>, id: u64, k: int)
    requires
        0 <= k < windows.len(),
    ensures
        ({
            let after = unfilled(unfit(windows, id), id);
            &&& after.len() == windows.len()
            &&& entry_index(windows, id) == Some(k) ==> after[k] == (StageEntry {
                fit: false,
                fill: false,
                ..windows[k]
            })
            &&& entry_index(windows, id) != Some(k) ==> after[k] == windows[k]
        }),
{
    law_search_finds_the_first(windows, has_id(id));
    law_search_looks_at_matches_alone(windows, unfit(windows, id), has_id(id));
}

} // verus!
