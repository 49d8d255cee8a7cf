//! What the compositor knows: its outputs and their viewports, the windows on the
//! stage, and the promises it still owes them.

use std::collections::{HashMap, HashSet};

use vstd::prelude::*;

use crate::geometry::{Point, Rect, Size};
use crate::time::Instant;
use crate::window_animation::WindowAnimations;

verus! {

/// The canvas point that a zoom animation holds at a screen point.
#[derive(Debug, PartialEq)]
pub struct ZoomAnimationAnchor<S> {
    pub canvas: Point<S>,
    pub screen: Point<S>,
}

impl<S: Copy> Clone for ZoomAnimationAnchor<S> {
    fn clone(&self) -> (r: Self)
        ensures
            r == *self,
    {
        ZoomAnimationAnchor { canvas: self.canvas, screen: self.screen }
    }
}

impl<S: Copy> Copy for ZoomAnimationAnchor<S> {

}

/// The glide of a camera that was let go while moving: its velocity, until it stops.
#[derive(Debug, PartialEq)]
pub struct Momentum<S> {
    pub velocity: Option<Point<S>>,
}

impl<S> Momentum<S> {
    /// End the glide.
    pub fn stop(&mut self)
        ensures
            final(self).velocity is None,
    {
        self.velocity = None;
    }
}

/// Where a screen-pinned window sits: its output and its position there.
#[derive(Debug, PartialEq)]
pub struct PinnedSite {
    pub output: String,
    pub screen_pos: Point<i32>,
}

/// What a fullscreen window returns to.
#[derive(Debug, PartialEq)]
pub struct FullscreenReturn {
    /// The pin that fullscreen suspended.
    pub pinned: Option<PinnedSite>,
}

/// The viewport of one output.
#[derive(Debug, PartialEq)]
pub struct OutputState<S> {
    pub camera: Point<S>,
    pub zoom: S,
    pub zoom_target: Option<S>,
    pub zoom_animation_anchor: Option<ZoomAnimationAnchor<S>>,
    /// The camera and zoom that leaving a zoom-to-fit view returns to.
    pub overview_return: Option<(Point<S>, S)>,
    pub camera_target: Option<Point<S>>,
    pub edge_pan_velocity: Option<Point<S>>,
    pub last_scroll_pan: Option<Instant>,
    pub panning: bool,
    pub last_frame_instant: Instant,
    pub momentum: Momentum<S>,
    pub fullscreen_return: Option<FullscreenReturn>,
}

/// One output.
#[derive(Debug, PartialEq)]
pub struct Output<S> {
    pub name: String,
    /// Its extent in logical pixels.
    pub size: Size<i32>,
    /// What panels and bars leave of it.
    pub usable: Rect<i32>,
    pub state: OutputState<S>,
}

/// The protocol state of a window that a client may resize.
#[derive(Debug, PartialEq)]
pub struct Toplevel {
    /// The size last sent to the client, acknowledged or not.
    pub pending_size: Option<Size<i32>>,
    pub resizing: bool,
    pub maximized: bool,
}

/// A live client window.
#[derive(Debug, PartialEq)]
pub struct Window {
    pub id: u64,
    /// Its surface, while that is alive.
    pub surface: Option<u64>,
    /// The size of its last committed buffer.
    pub geometry: Size<i32>,
    pub toplevel: Option<Toplevel>,
}

/// The stand-in for an application that was suspended.
#[derive(Debug, PartialEq)]
pub struct SuspendedWindow {
    pub id: u64,
    pub geometry: Size<i32>,
}

/// Anything on the stage.
#[derive(Debug, PartialEq)]
pub enum StageWindow {
    Client(Window),
    Suspended(SuspendedWindow),
}

impl StageWindow {
    /// The id of the element.
    pub open spec fn id_spec(self) -> u64 {
        match self {
            StageWindow::Client(w) => w.id,
            StageWindow::Suspended(w) => w.id,
        }
    }

    /// The surface of the element; a stand-in has none.
    pub open spec fn surface_spec(self) -> Option<u64> {
        match self {
            StageWindow::Client(w) => w.surface,
            StageWindow::Suspended(_) => None,
        }
    }

    /// The committed size of the element.
    pub open spec fn geometry_spec(self) -> Size<i32> {
        match self {
            StageWindow::Client(w) => w.geometry,
            StageWindow::Suspended(w) => w.geometry,
        }
    }

    /// The id of the element.
    pub fn id(&self) -> (r: u64)
        ensures
            r == self.id_spec(),
    {
        match self {
            StageWindow::Client(w) => w.id,
            StageWindow::Suspended(w) => w.id,
        }
    }

    /// The surface of the element; a stand-in has none.
    pub fn surface(&self) -> (r: Option<u64>)
        ensures
            r == self.surface_spec(),
    {
        match self {
            StageWindow::Client(w) => w.surface,
            StageWindow::Suspended(_) => None,
        }
    }

    /// The committed size of the element.
    pub fn geometry(&self) -> (r: Size<i32>)
        ensures
            r == self.geometry_spec(),
    {
        match self {
            StageWindow::Client(w) => w.geometry,
            StageWindow::Suspended(w) => w.geometry,
        }
    }
}

/// One element of the stage.
#[derive(Debug, PartialEq)]
pub struct StageEntry {
    pub id: u64,
    /// The canvas position of its content.
    pub position: Point<i32>,
    /// Its committed size, as of its last mapping or recorded commit.
    pub size: Size<i32>,
    pub pin: Option<PinnedSite>,
    pub fit: bool,
    pub fill: bool,
}

/// A window that covers an output, and the size it had before.
#[derive(Debug, PartialEq)]
pub struct FullscreenEntry {
    pub output: String,
    pub saved_size: Size<i32>,
}

/// The windows on the canvas, bottom-most first.
#[derive(Debug, PartialEq)]
pub struct Stage {
    pub windows: Vec<StageEntry>,
    pub fullscreen: Vec<FullscreenEntry>,
    /// The element last mapped with activation.
    pub activated: Option<u64>,
}

/// The first element of a sequence that `matches` holds of.
pub open spec fn first_index<A>(s: Seq<A>, matches: spec_fn(A) -> bool) -> Option<int>
    decreases s.len(),
{
    if s.len() == 0 {
        None
    } else {
        match first_index(s.drop_last(), matches) {
            Some(k) => Some(k),
            None => if matches(s.last()) {
                Some(s.len() - 1)
            } else {
                None
            },
        }
    }
}

/// Whether an element has the given id.
pub open spec fn has_id(id: u64) -> spec_fn(StageEntry) -> bool {
    |entry: StageEntry| entry.id == id
}

/// Whether a fullscreen window is on the named output.
pub open spec fn is_on(name: Seq<char>) -> spec_fn(FullscreenEntry) -> bool {
    |entry: FullscreenEntry| entry.output@ == name
}

/// Whether an output has the given name.
pub open spec fn is_named<S>(name: Seq<char>) -> spec_fn(Output<S>) -> bool {
    |output: Output<S>| output.name@ == name
}

/// The first element of a stage with the given id.
pub open spec fn entry_index(windows: Seq<StageEntry>, id: u64) -> Option<int> {
    first_index(windows, has_id(id))
}

/// The first fullscreen window on the named output.
pub open spec fn fullscreen_index(fullscreen: Seq<FullscreenEntry>, name: Seq<char>) -> Option<
    int,
> {
    first_index(fullscreen, is_on(name))
}

/// The first output with the given name.
pub open spec fn output_index<S>(outputs: Seq<Output<S>>, name: Seq<char>) -> Option<int> {
    first_index(outputs, is_named(name))
}

/// A search finds the first element that matches, and finds one if any does.
pub proof fn law_search_finds_the_first<A>(s: Seq<A>, matches: spec_fn(A) -> bool)
    ensures
        match first_index(s, matches) {
            Some(k) => 0 <= k < s.len() && matches(s[k]) && forall|j: int|
                0 <= j < k ==> !matches(#[trigger] s[j]),
            None => forall|j: int| 0 <= j < s.len() ==> !matches(#[trigger] s[j]),
        },
    decreases s.len(),
{
    if s.len() > 0 {
        let shorter = s.drop_last();
        law_search_finds_the_first(shorter, matches);
        assert forall|j: int| 0 <= j < shorter.len() implies shorter[j] == #[trigger] s[j] by {}
    }
}

/// A search of two sequences whose elements match alike finds the same place in both.
pub proof fn law_search_looks_at_matches_alone<A>(
    a: Seq<A>,
    b: Seq<A>,
    matches: spec_fn(A) -> bool,
)
    requires
        a.len() == b.len(),
        forall|k: int| 0 <= k < a.len() ==> matches(#[trigger] a[k]) == matches(b[k]),
    ensures
        first_index(a, matches) == first_index(b, matches),
    decreases a.len(),
{
    if a.len() > 0 {
        let (a_shorter, b_shorter) = (a.drop_last(), b.drop_last());
        assert forall|k: int| 0 <= k < a_shorter.len() implies matches(#[trigger] a_shorter[k])
            == matches(b_shorter[k]) by {
            assert(matches(a[k]) == matches(b[k]));
        }
        law_search_looks_at_matches_alone(a_shorter, b_shorter, matches);
        assert(matches(a[a.len() - 1]) == matches(b[b.len() - 1]));
    }
}

/// A stage with the element `id` mapped at `loc` with the committed size `size`: raised
/// to the top, or added there.
pub open spec fn mapped(
    windows: Seq<StageEntry>,
    id: u64,
    size: Size<i32>,
    loc: Point<i32>,
) -> Seq<StageEntry> {
    match entry_index(windows, id) {
        Some(k) => windows.remove(k).push(StageEntry { position: loc, size, ..windows[k] }),
        None => windows.push(
            StageEntry { id, position: loc, size, pin: None, fit: false, fill: false },
        ),
    }
}

/// Mapping an element puts it at the given position on top of everything, with the
/// given size; the others keep their order and nothing of them changes, and neither does
/// anything else of it.
pub proof fn law_mapped_is_raised(
    windows: Seq<StageEntry>,
    id: u64,
    size: Size<i32>,
    loc: Point<i32>,
)
    ensures
        ({
            let after = mapped(windows, id, size, loc);
            &&& after.len() > 0
            &&& after.last().id == id
            &&& after.last().position == loc
            &&& after.last().size == size
            &&& match entry_index(windows, id) {
                Some(k) => {
                    &&& after.drop_last() == windows.remove(k)
                    &&& after.last() == (StageEntry { position: loc, size, ..windows[k] })
                },
                None => after.drop_last() == windows,
            }
        }),
{
    law_search_finds_the_first(windows, has_id(id));
    let after = mapped(windows, id, size, loc);
    match entry_index(windows, id) {
        Some(k) => assert(after.drop_last() =~= windows.remove(k)),
        None => assert(after.drop_last() =~= windows),
    }
}

/// A stage with a commit of `size` by the element `id` on record.
pub open spec fn resized(windows: Seq<StageEntry>, id: u64, size: Size<i32>) -> Seq<StageEntry> {
    match entry_index(windows, id) {
        Some(k) => windows.update(k, StageEntry { size, ..windows[k] }),
        None => windows,
    }
}

/// A stage with the element `id` out of its fit.
pub open spec fn unfit(windows: Seq<StageEntry>, id: u64) -> Seq<StageEntry> {
    match entry_index(windows, id) {
        Some(k) => windows.update(k, StageEntry { fit: false, ..windows[k] }),
        None => windows,
    }
}

/// A stage with the element `id` out of its fill.
pub open spec fn unfilled(windows: Seq<StageEntry>, id: u64) -> Seq<StageEntry> {
    match entry_index(windows, id) {
        Some(k) => windows.update(k, StageEntry { fill: false, ..windows[k] }),
        None => windows,
    }
}

impl Stage {
    /// The index of the element `id`.
    pub fn index_of(&self, id: u64) -> (r: Option<usize>)
        ensures
            match r {
                Some(k) => entry_index(self.windows@, id) == Some(k as int),
                None => entry_index(self.windows@, id) is None,
            },
            r matches Some(k) ==> k < self.windows.len() && self.windows[k as int].id == id,
    {
        proof {
            law_search_finds_the_first(self.windows@, has_id(id));
        }
        for k in 0..self.windows.len()
            invariant
                forall|j: int| 0 <= j < k ==> (#[trigger] self.windows[j]).id != id,
        {
            if self.windows[k].id == id {
                proof {
                    law_search_finds_the_first(self.windows@, has_id(id));
                }
                return Some(k);
            }
        }
        None
    }

    /// The canvas position of the element `id`.
    pub fn position_of(&self, id: u64) -> (r: Option<Point<i32>>)
        ensures
            r == match entry_index(self.windows@, id) {
                Some(k) => Some(self.windows[k].position),
                None => None,
            },
    {
        match self.index_of(id) {
            Some(k) => Some(self.windows[k].position),
            None => None,
        }
    }

    /// The size that the window covering the named output had before.
    pub fn fullscreen_on(&self, output: &String) -> (r: Option<Size<i32>>)
        ensures
            r == match fullscreen_index(self.fullscreen@, output@) {
                Some(k) => Some(self.fullscreen[k].saved_size),
                None => None,
            },
    {
        proof {
            law_search_finds_the_first(self.fullscreen@, is_on(output@));
        }
        for k in 0..self.fullscreen.len()
            invariant
                forall|j: int| 0 <= j < k ==> (#[trigger] self.fullscreen[j]).output@ != output@,
        {
            if self.fullscreen[k].output.eq(output) {
                proof {
                    law_search_finds_the_first(self.fullscreen@, is_on(output@));
                }
                return Some(self.fullscreen[k].saved_size);
            }
        }
        None
    }

    /// Record that the element `id` has committed a buffer of extent `size`.
    pub fn record_commit(&mut self, id: u64, size: Size<i32>)
        ensures
            final(self).windows@ == resized(old(self).windows@, id, size),
            final(self).activated == old(self).activated,
            final(self).fullscreen == old(self).fullscreen,
    {
        if let Some(k) = self.index_of(id) {
            self.windows[k].size = size;
        }
    }

    /// Map the element `id` at `loc`, with `size` its committed size, on top of
    /// everything.
    pub fn map_window(&mut self, id: u64, size: Size<i32>, loc: Point<i32>, activate: bool)
        ensures
            final(self).windows@ == mapped(old(self).windows@, id, size, loc),
            final(self).activated == if activate {
                Some(id)
            } else {
                old(self).activated
            },
            final(self).fullscreen == old(self).fullscreen,
    {
        match self.index_of(id) {
            Some(k) => {
                let mut entry = self.windows.remove(k);
                entry.position = loc;
                entry.size = size;
                self.windows.push(entry);
            },
            None => {
                self.windows.push(
                    StageEntry { id, position: loc, size, pin: None, fit: false, fill: false },
                );
            },
        }
        if activate {
            self.activated = Some(id);
        }
    }

    /// Take the element `id` out of its fit.
    pub fn clear_fit(&mut self, id: u64)
        ensures
            final(self).windows@ == unfit(old(self).windows@, id),
            final(self).activated == old(self).activated,
            final(self).fullscreen == old(self).fullscreen,
    {
        if let Some(k) = self.index_of(id) {
            self.windows[k].fit = false;
        }
    }

    /// Take the element `id` out of its fill.
    pub fn clear_fill(&mut self, id: u64)
        ensures
            final(self).windows@ == unfilled(old(self).windows@, id),
            final(self).activated == old(self).activated,
            final(self).fullscreen == old(self).fullscreen,
    {
        if let Some(k) = self.index_of(id) {
            self.windows[k].fill = false;
        }
    }
}

/// The recenter that a window owes: the visual center its next resize lands on, and
/// the size it was still committing when the promise was made.
#[derive(Debug, PartialEq)]
pub struct PendingRecenter<S> {
    pub target_center: Point<S>,
    pub pre_exit_size: Size<i32>,
}

impl<S: Copy> Clone for PendingRecenter<S> {
    fn clone(&self) -> (r: Self)
        ensures
            r == *self,
    {
        PendingRecenter { target_center: self.target_center, pre_exit_size: self.pre_exit_size }
    }
}

impl<S: Copy> Copy for PendingRecenter<S> {

}

/// Who draws the frame around a window.
#[derive(Clone, Copy, Debug, PartialEq)]
pub enum DecorationMode {
    /// The client draws its own.
    Client,
    /// The compositor draws a title bar and a border.
    Server,
    /// Nobody does.
    Off,
}

/// What the matching window rule sets for one window.
#[derive(Clone, Copy, Debug, PartialEq)]
pub struct AppliedRule {
    pub decoration: Option<DecorationMode>,
    pub border_width: Option<i32>,
}

/// The decoration settings.
#[derive(Clone, Copy, Debug, PartialEq)]
pub struct DecorationConfig {
    pub title_bar_height: i32,
    pub border_width: i32,
    pub default_mode: DecorationMode,
}

/// The edge or corner a resize drags.
#[derive(Clone, Copy, Debug, PartialEq)]
pub enum ResizeEdge {
    Unset,
    Top,
    Bottom,
    Left,
    TopLeft,
    BottomLeft,
    Right,
    TopRight,
    BottomRight,
}

/// The client-side resize of a surface.
#[derive(Clone, Copy, Debug, PartialEq)]
pub enum ResizeState {
    Idle,
    Resizing {
        edges: ResizeEdge,
        initial_window_location: Point<i32>,
        initial_window_size: Size<i32>,
        initial_screen_pos: Option<Point<i32>>,
        last_committed_size: Size<i32>,
    },
}

/// The compositor.
pub struct DriftWm<S> {
    pub outputs: Vec<Output<S>>,
    /// The output that has the focus.
    pub focused_output: Option<usize>,
    pub stage: Stage,
    /// The recenters still owed, by surface.
    pub pending_recenter: HashMap<u64, PendingRecenter<S>>,
    /// The surfaces that carry a title bar drawn by the compositor.
    pub decorations: HashSet<u64>,
    /// The rule applied to each surface that has one.
    pub rules: HashMap<u64, AppliedRule>,
    /// The resize in progress on each surface that has had one.
    pub resize_states: HashMap<u64, ResizeState>,
    pub decoration_config: DecorationConfig,
    pub window_animations: WindowAnimations<S>,
}

impl<S> DriftWm<S> {
    /// The output that getters and setters act on. There may be none: a hotplug
    /// leaves the compositor without outputs for a moment.
    pub open spec fn active(&self) -> Option<int> {
        match self.focused_output {
            Some(k) if k < self.outputs.len() => Some(k as int),
            _ => None,
        }
    }

    /// The output that getters and setters act on.
    pub fn active_output(&self) -> (r: Option<usize>)
        ensures
            match r {
                Some(k) => self.active() == Some(k as int),
                None => self.active() is None,
            },
    {
        match self.focused_output {
            Some(k) => if k < self.outputs.len() {
                Some(k)
            } else {
                None
            },
            None => None,
        }
    }

    /// The first output with the given name.
    pub fn output_by_name(&self, name: &String) -> (r: Option<usize>)
        ensures
            match r {
                Some(k) => output_index(self.outputs@, name@) == Some(k as int),
                None => output_index(self.outputs@, name@) is None,
            },
            r matches Some(k) ==> k < self.outputs.len() && self.outputs[k as int].name@ == name@,
    {
        proof {
            law_search_finds_the_first(self.outputs@, is_named(name@));
        }
        for k in 0..self.outputs.len()
            invariant
                forall|j: int| 0 <= j < k ==> (#[trigger] self.outputs[j]).name@ != name@,
        {
            if self.outputs[k].name.eq(name) {
                proof {
                    law_search_finds_the_first(self.outputs@, is_named(name@));
                }
                return Some(k);
            }
        }
        None
    }

    /// Whether a fullscreen window covers output `k`.
    pub open spec fn fullscreen_at(&self, k: int) -> bool {
        fullscreen_index(self.stage.fullscreen@, self.outputs[k].name@) is Some
    }

    /// Whether a fullscreen window covers `output`.
    pub fn is_output_fullscreen(&self, output: usize) -> (r: bool)
        requires
            output < self.outputs.len(),
        ensures
            r == self.fullscreen_at(output as int),
    {
        self.stage.fullscreen_on(&self.outputs[output].name).is_some()
    }
}

/// The outputs with the viewport of one of them replaced.
pub open spec fn with_state<S>(outputs: Seq<Output<S>>, k: int, state: OutputState<S>) -> Seq<
    Output<S>,
> {
    outputs.update(k, Output { state, ..outputs[k] })
}

} // verus!
