//! What the compositor does when windows come and go, when clients commit, and
//! when outputs change.

use std::time::Instant;
use vstd::prelude::*;

use crate::element::{ClientState, SurfaceKind, WindowElement};
use crate::geometry::output_work_area;
use crate::grabs::resize_target_location;
use crate::resize::advance_resize_configure;
use crate::space::{Action, Output, Placed, Space};
use crate::state::{AnvilState, CursorStatus, DndIcon};
use crate::utils::{difference, larger, sum, FixedPoint, Point, Rectangle, Serial, Size};
use crate::xdg::fullscreen_content_size;

verus! {

use crate::grabs::anchored;
use crate::space::{placed_index, Layout};
use crate::state::Desk;
use crate::utils::{max, sat32};
use crate::xdg::fullscreen_size;

/// The width and height of the area that windows are placed in while there is
/// no output.
pub const FALLBACK_AREA: i32 = 800;

/// Where a window of `size` is in the middle of `area`; a window that is too
/// large starts at its corner.
pub open spec fn centered(area: Rectangle, size: Size) -> Point {
    Point {
        x: sat32(area.loc.x + max(sat32(area.size.w - size.w), 0) / 2) as i32,
        y: sat32(area.loc.y + max(sat32(area.size.h - size.h), 0) / 2) as i32,
    }
}

/// Where a window of `size` is in the middle of `area`.
pub fn center_in(area: Rectangle, size: Size) -> (r: Point)
    ensures
        r == centered(area, size),
{
    Point {
        x: sum(area.loc.x, larger(difference(area.size.w, size.w), 0) / 2),
        y: sum(area.loc.y, larger(difference(area.size.h, size.h), 0) / 2),
    }
}

/// What a commit can be made to wait for: the client's rendering.
#[derive(Debug, Clone, Copy, PartialEq, Eq, Structural)]
pub enum Wait {
    /// The point in time that the client names.
    AcquirePoint,
    /// The fences of the buffer.
    Buffer,
}

/// What became of an attempt to wait.
#[derive(Debug, Clone, Copy, PartialEq, Eq, Structural)]
pub enum WaitOutcome {
    /// There is nothing to wait for.
    NothingToWaitFor,
    /// The client is gone.
    NoClient,
    /// The event loop does not watch for it.
    NotWatched,
    /// The commit waits.
    Waiting,
}

/// What a commit is to wait for first: only one with a buffer of the graphics
/// device waits, and the point that the client names goes before the buffer's
/// own fences.
pub fn first_wait(dmabuf: bool, acquire_point: bool) -> (r: Option<Wait>)
    ensures
        r == (if !dmabuf {
            None
        } else if acquire_point {
            Some(Wait::AcquirePoint)
        } else {
            Some(Wait::Buffer)
        }),
{
    if !dmabuf {
        return None;
    }
    if acquire_point {
        Some(Wait::AcquirePoint)
    } else {
        Some(Wait::Buffer)
    }
}

/// What a commit is to wait for after an attempt: the buffer's fences, where the
/// client's point cannot be waited for and the client is still there.
pub fn next_wait(tried: Wait, outcome: WaitOutcome) -> (r: Option<Wait>)
    ensures
        r == (if tried is AcquirePoint && (outcome is NothingToWaitFor || outcome is NotWatched) {
            Some(Wait::Buffer)
        } else {
            None::<Wait>
        }),
{
    match (tried, outcome) {
        (Wait::AcquirePoint, WaitOutcome::NothingToWaitFor) => Some(Wait::Buffer),
        (Wait::AcquirePoint, WaitOutcome::NotWatched) => Some(Wait::Buffer),
        _ => None,
    }
}

/// The role of a surface that was committed.
#[derive(Debug, Clone, Copy, PartialEq, Eq, Structural)]
pub enum SurfaceRole {
    /// The surface of a mapped window.
    Window { window: u64 },
    /// A popup, which may have had its first configure.
    Popup { configured: bool },
    /// A popup of an input method, which needs no configure.
    InputPopup,
    /// A layer surface, which may have had its first configure.
    Layer { output: u64, configured: bool },
    /// Anything else.
    Other,
}

/// A commit of a surface.
#[derive(Debug, Clone, Copy, PartialEq, Eq, Structural)]
pub struct Commit {
    pub surface: u64,
    pub role: SurfaceRole,
    /// The mapped window that the surface belongs to, unless it is a subsurface
    /// that waits for its parent.
    pub window: Option<u64>,
    /// Whether the surface is the root of that window.
    pub is_root: bool,
    /// The geometry of the frame that the commit completed, if the window has
    /// anything to show.
    pub frame: Option<Rectangle>,
    /// By how much the commit moves the buffer.
    pub buffer_delta: Option<Point>,
}

impl Layout {
    /// The area that a window opened at `pointer` is placed in: the work area of
    /// the output under the pointer, or of the first output.
    pub open spec fn placing_area(self, pointer: FixedPoint) -> Rectangle {
        let output = match self.output_under(pointer) {
            Some(output) => Some(output),
            None => self.primary(),
        };
        let area = match output {
            Some(output) => self.work_area(output),
            None => None,
        };
        match area {
            Some(area) => area,
            None => Rectangle {
                loc: Point { x: 0, y: 0 },
                size: Size { w: FALLBACK_AREA, h: FALLBACK_AREA },
            },
        }
    }

    /// The first window, from the `i`th mapped one on, that `surface` belongs to.
    pub open spec fn owner(self, surface: u64, i: int) -> Option<u64>
        decreases self.elements.len() - i,
    {
        if i < 0 || i >= self.elements.len() {
            None
        } else {
            match self.window(self.elements[i].window) {
                Some(window) if window.owns(surface) => Some(self.elements[i].window),
                _ => self.owner(surface, i + 1),
            }
        }
    }

    /// The layout with the window `id` in the middle of the area at `pointer`. A
    /// Wayland client is told the bounds.
    pub open spec fn placing(self, pointer: FixedPoint, id: u64, activate: bool, now: Instant) -> Layout {
        match self.window(id) {
            Some(window) => {
                let area = self.placing_area(pointer);
                let bounded = if window.kind == SurfaceKind::Wayland {
                    self.configuring(
                        window.telling(ClientState { bounds: Some(area.size), ..window.client }),
                        false,
                    )
                } else {
                    self
                };
                bounded.mapped(id, centered(area, window.geometry_at(now).size), activate)
            },
            None => self,
        }
    }

    /// The layout with the outputs from the `i`th on side by side, from `x` on.
    pub open spec fn lined_up(self, i: int, x: int) -> Layout
        decreases self.outputs.len() - i,
    {
        if i < 0 || i >= self.outputs.len() {
            self
        } else {
            let output = self.outputs[i];
            let loc = Point { x: x as i32, y: 0 };
            let width = match output.geometry {
                Some(geo) => geo.size.w as int,
                None => 0,
            };
            Layout {
                outputs: self.outputs.update(i, moved_output(output, loc)),
                actions: self.actions.push(Action::MapOutput { output: output.id, loc }).push(
                    Action::ArrangeLayers { output: output.id },
                ),
                ..self
            }.lined_up(i + 1, sat32(x + width))
        }
    }

    /// Whether the pixel `p` lies on the free part of some output.
    pub open spec fn on_some_area(self, p: Point) -> bool {
        exists|k: int|
            0 <= k < self.outputs.len() && #[trigger] self.outputs[k].geometry is Some
                && free_area(self.outputs[k]).has(p)
    }

    /// Whether the window `id` has its corner on no output.
    pub open spec fn is_orphan(self, id: u64, now: Instant) -> bool {
        match (self.window(id), self.location(id)) {
            (Some(window), Some(loc)) => !window.ghosting() && !self.on_some_area(
                window.bbox_at(now).loc.moved(loc),
            ),
            _ => false,
        }
    }

    /// The windows, from the `i`th mapped one on, that are on no output.
    pub open spec fn orphans(self, i: int, now: Instant) -> Seq<u64>
        decreases self.elements.len() - i,
    {
        if i < 0 || i >= self.elements.len() {
            Seq::empty()
        } else if self.is_orphan(self.elements[i].window, now) {
            seq![self.elements[i].window] + self.orphans(i + 1, now)
        } else {
            self.orphans(i + 1, now)
        }
    }

    /// The layout with `windows`, from `i` on, placed anew.
    pub open spec fn all_placing(
        self,
        windows: Seq<u64>,
        i: int,
        pointer: FixedPoint,
        now: Instant,
    ) -> Layout
        decreases windows.len() - i,
    {
        if i < 0 || i >= windows.len() {
            self
        } else {
            self.placing(pointer, windows[i], false, now).all_placing(windows, i + 1, pointer, now)
        }
    }

    /// The layout with the outputs side by side and every window on one of
    /// them.
    pub open spec fn fixed_up(self, pointer: FixedPoint, now: Instant) -> Layout {
        let lined = self.lined_up(0, 0);
        lined.all_placing(lined.orphans(0, now), 0, pointer, now)
    }

    /// The layout after the client of the window `id` committed a buffer: the
    /// size of the buffer is the one that is displayed, a window whose top or
    /// left edge is dragged moves with it, a transition that waited for the
    /// client's size goes on, and the resize advances.
    pub open spec fn committed(self, id: u64, now: Instant) -> Layout {
        match (self.window(id), self.location(id)) {
            (Some(window), Some(loc)) if window.surfaced() => {
                let size = window.committed_size();
                let shown = window.with_resize(window.resize_state().showing(size)).sized(size, now);
                let kept = self.with_window(shown);
                let moved = match window.resize_state().active() {
                    Some(resize) if resize.edges.left || resize.edges.top => kept.mapped(
                        id,
                        anchored(
                            resize.edges,
                            resize.initial_window_location,
                            resize.initial_window_size,
                            size,
                            loc,
                        ),
                        false,
                    ),
                    _ => kept,
                };
                moved.advancing(id).landed(id)
            },
            _ => self,
        }
    }

    /// The layout with a resize of the window `id` over whose final commit has
    /// landed.
    pub open spec fn landed(self, id: u64) -> Layout {
        match self.window(id) {
            Some(window) => self.with_window(window.with_resize(window.resize_state().landed())),
            None => self,
        }
    }

    /// The layout with the resizes of the windows followed that draw to `surface`,
    /// mapped or not.
    #[verifier::opaque]
    pub open spec fn following(self, surface: u64) -> Layout {
        Layout {
            windows: Seq::new(self.windows.len(), |i: int| self.windows[i].followed(surface)),
            ..self
        }
    }

    /// The layout after `surface` was committed: its resizes are followed, and the
    /// first configure went out that it needs.
    pub open spec fn initially_configured(self, surface: u64, role: SurfaceRole) -> Layout {
        self.following(surface).first_told(role)
    }

    /// The layout after the first configure went out that a surface needs.
    pub open spec fn first_told(self, role: SurfaceRole) -> Layout {
        match role {
            SurfaceRole::Window { window } => match self.window(window) {
                Some(found) => if found.kind == SurfaceKind::Wayland {
                    if found.configured {
                        self
                    } else {
                        self.configuring(found, true)
                    }
                } else {
                    self.landed(window)
                },
                None => self,
            },
            SurfaceRole::Popup { configured } => if configured {
                self
            } else {
                self.acting(Action::ConfigurePopup)
            },
            SurfaceRole::InputPopup => self,
            SurfaceRole::Layer { output, configured } => {
                let arranged = self.acting(Action::ArrangeLayers { output });
                if configured {
                    arranged
                } else {
                    arranged.acting(Action::ConfigureLayer { output })
                }
            },
            SurfaceRole::Other => self,
        }
    }

    /// The layout after the client of the window `id` acknowledged a configure
    /// with `serial` that says who draws its decorations. A fullscreen window is
    /// told its size again if that changes it.
    pub open spec fn acknowledged(self, id: u64, serial: Serial, server_side: bool) -> Layout {
        match self.window(id) {
            Some(found) => {
                let acked = found.with_resize(
                    found.resize_state().acked(serial, found.acked_resizing),
                );
                if self.location(id) is None {
                    self.with_window(acked)
                } else {
                    let window = acked.with_ssd(server_side);
                    let kept = self.with_window(window);
                    match kept.fullscreen_fit(window) {
                        Some(size) if window.client.size != Some(size) => kept.configuring(
                            window.telling(ClientState { size: Some(size), ..window.client }),
                            true,
                        ),
                        _ => kept,
                    }
                }
            },
            None => self,
        }
    }

    /// The size that a fullscreen Wayland window has on the first output it
    /// reaches onto.
    pub open spec fn fullscreen_fit(self, window: WindowElement) -> Option<Size> {
        let outputs = self.outputs_for(window.id);
        if window.state.header_bar.fullscreen && window.kind == SurfaceKind::Wayland && outputs.len()
            > 0 {
            match self.output_geometry(outputs[0]) {
                Some(geo) => Some(fullscreen_size(geo.size, window.state.is_ssd)),
                None => None,
            }
        } else {
            None
        }
    }
}

impl WindowElement {
    /// The window once `surface` was committed: from the first commit of its own
    /// surface on, its resizes are followed.
    pub open spec fn followed(self, surface: u64) -> WindowElement {
        if self.surface == Some(surface) {
            WindowElement { has_resize_data: true, ..self }
        } else {
            self
        }
    }

    /// The window once its client committed `size`: a transition that waits for
    /// the client to choose a size other than the one it left goes on from
    /// `now`.
    pub open spec fn sized(self, size: Size, now: Instant) -> WindowElement {
        match self.state.animation {
            Some(animation) if animation.content_pending && size != animation.start.content =>
                self.animated(animation.resolved(size, now)),
            _ => self,
        }
    }

    /// The window once its client committed `size`.
    fn with_committed(self, size: Size, now: Instant) -> (r: WindowElement)
        requires
            self.wf(),
        ensures
            r == self.sized(size, now),
            r.wf(),
    {
        if let Some(animation) = self.state.animation {
            if animation.content_pending() && size != animation.start.content {
                let mut animation = animation;
                animation.resolve_content(size, now);
                return self.with_animation(animation);
            }
        }
        self
    }
}

/// The free part of a mapped output.
pub open spec fn free_area(output: Output) -> Rectangle {
    Rectangle { loc: output.geometry->0.loc.moved(output.zone.loc), size: output.zone.size }
}

/// The output at `loc`.
pub open spec fn moved_output(output: Output, loc: Point) -> Output {
    Output {
        geometry: match output.geometry {
            Some(geo) => Some(Rectangle { loc, ..geo }),
            None => None,
        },
        ..output
    }
}

/// Place a window that was just opened, or that lost its output: in the middle
/// of the work area under the pointer (the monitor the mouse is on), falling
/// back to the first output, then a fixed area.
pub fn place_new_window(
    space: &mut Space,
    pointer_location: FixedPoint,
    window: u64,
    activate: bool,
    now: Instant,
)
    requires
        old(space)@.wf(),
    ensures
        final(space)@ == old(space)@.placing(pointer_location, window, activate, now),
        final(space)@.wf(),
{
    let found = match space.window(window) {
        Some(found) => found,
        None => return,
    };
    let output = match space.output_under(pointer_location) {
        Some(output) => Some(output),
        None => space.primary_output(),
    };
    let area = match output {
        Some(output) => output_work_area(space, output),
        None => None,
    };
    let area = match area {
        Some(area) => area,
        None => Rectangle::from_size(Size { w: FALLBACK_AREA, h: FALLBACK_AREA }),
    };
    // `geometry` is the decorated size, so the whole frame ends up centered.
    let size = found.geometry(now).size;
    // Set the initial toplevel bounds.
    if found.is_wayland() {
        let client = ClientState { bounds: Some(area.size), ..found.client };
        space.configure(found.with_client(client), false);
    }
    space.map_element(window, center_in(area, size), activate);
}

/// Whether the pixel `p` lies on the free part of some output.
fn is_on_some_area(space: &Space, p: Point) -> (r: bool)
    ensures
        r == space@.on_some_area(p),
{
    let mut i: usize = 0;
    while i < space.outputs.len()
        invariant
            i <= space.outputs.len(),
            forall|k: int|
                0 <= k < i ==> !(#[trigger] space@.outputs[k].geometry is Some && free_area(
                    space@.outputs[k],
                ).has(p)),
        decreases space.outputs.len() - i,
    {
        let output = space.outputs[i];
        if let Some(geo) = output.geometry {
            let area = Rectangle { loc: geo.loc.plus(output.zone.loc), size: output.zone.size };
            if area.contains(p) {
                assert(space@.outputs[i as int].geometry is Some);
                return true;
            }
        }
        i += 1;
    }
    false
}

/// Put the outputs side by side.
fn line_up_outputs(space: &mut Space)
    requires
        old(space)@.wf(),
    ensures
        final(space)@ == old(space)@.lined_up(0, 0),
        final(space)@.wf(),
{
    let mut x: i32 = 0;
    let mut i: usize = 0;
    while i < space.outputs.len()
        invariant
            i <= space.outputs.len(),
            space@.wf(),
            space@.lined_up(i as int, x as int) == old(space)@.lined_up(0, 0),
        decreases space.outputs.len() - i,
    {
        let mut output = space.outputs[i];
        let id = output.id;
        let loc = Point { x, y: 0 };
        let width = match output.geometry {
            Some(geo) => {
                output.geometry = Some(Rectangle { loc, ..geo });
                geo.size.w
            },
            None => 0,
        };
        let ghost before = space@;
        space.outputs.set(i, output);
        assert(space@ =~= (Layout { outputs: before.outputs.update(i as int, output), ..before }));
        assert(space@.wf()) by {
            reveal(Layout::wf);
            assert(space@.windows == before.windows && space@.elements == before.elements);
        }
        reveal(Layout::acting);
        space.act(Action::MapOutput { output: id, loc });
        space.act(Action::ArrangeLayers { output: id });
        x = sum(x, width);
        i += 1;
    }
}

/// Put the outputs side by side, and bring every window whose corner is on none
/// of them back.
pub fn fixup_positions(space: &mut Space, pointer_location: FixedPoint, now: Instant)
    requires
        old(space)@.wf(),
    ensures
        final(space)@ == old(space)@.fixed_up(pointer_location, now),
        final(space)@.wf(),
{
    line_up_outputs(space);
    let ghost lined = space@;
    let mut orphans: Vec<u64> = Vec::new();
    let mut i: usize = 0;
    while i < space.elements.len()
        invariant
            i <= space.elements.len(),
            space@ == lined,
            space@.wf(),
            orphans@ + lined.orphans(i as int, now) =~= lined.orphans(0, now),
        decreases space.elements.len() - i,
    {
        let id = space.elements[i].window;
        if let (Some(window), Some(loc)) = (space.window(id), space.element_location(id)) {
            if !window.is_ghosting() {
                let corner = window.bbox(now).loc.plus(loc);
                if !is_on_some_area(space, corner) {
                    orphans.push(id);
                }
            }
        }
        i += 1;
    }
    let mut k: usize = 0;
    while k < orphans.len()
        invariant
            k <= orphans.len(),
            space@.wf(),
            space@.all_placing(orphans@, k as int, pointer_location, now) == lined.all_placing(
                orphans@,
                0,
                pointer_location,
                now,
            ),
        decreases orphans.len() - k,
    {
        place_new_window(space, pointer_location, orphans[k], false, now);
        k += 1;
    }
}

/// Leave a resize whose final commit has landed.
fn land_resize(window: u64, space: &mut Space)
    requires
        old(space)@.wf(),
    ensures
        final(space)@ == old(space)@.landed(window),
        final(space)@.wf(),
{
    if let Some(found) = space.window(window) {
        let mut found = found;
        let mut resize = found.surface_resize();
        resize.land();
        found.set_surface_resize(resize);
        space.put(found);
    }
}

/// Update a toplevel's committed geometry and drive the resize pipeline after a
/// buffer commit. Must run once the window's facts match the buffer that will be
/// rendered.
pub fn handle_toplevel_commit(space: &mut Space, window: u64, now: Instant)
    requires
        old(space)@.wf(),
    ensures
        final(space)@ == old(space)@.committed(window, now),
        final(space)@.wf(),
{
    let found = match space.window(window) {
        Some(found) => found,
        None => return,
    };
    let window_loc = match space.element_location(window) {
        Some(loc) => loc,
        None => return,
    };
    if !found.has_live_surface() {
        return;
    }
    let geometry = found.committed_content_size();
    // Snapshot the committed geometry atomically with the buffer. The displayed
    // frame is always taken from this snapshot, so a request can never advance
    // what is drawn. This covers the in-progress state and the final ack/commit
    // states.
    let mut resize = found.surface_resize();
    let active = resize.data();
    resize.committed(geometry);
    let mut shown = found;
    shown.set_surface_resize(resize);
    space.put(shown.with_committed(geometry, now));
    if let Some(data) = active {
        // If TOP or LEFT side of the window got resized, we have to move it: the
        // edge opposite the one being dragged stays fixed.
        if data.edges.left || data.edges.top {
            let loc = resize_target_location(
                data.edges,
                data.initial_window_location,
                data.initial_window_size,
                geometry,
                window_loc,
            );
            space.map_element(window, loc, false);
        }
    }
    // Advance the serialized resize pipeline immediately: if the latest intended
    // size differs from the size that was just committed, request it now instead
    // of waiting for another pointer frame. This runs for every resize edge.
    advance_resize_configure(window, space);
    // The final commit has landed; leave the resize state so the displayed
    // geometry becomes the plain committed geometry.
    land_resize(window, space);
}

/// Follow the resizes of the windows that draw to `surface`.
fn follow_surface(space: &mut Space, surface: u64)
    ensures
        final(space)@ == old(space)@.following(surface),
        old(space)@.wf() ==> final(space)@.wf(),
{
    reveal(Layout::wf);
    reveal(Layout::following);
    let mut i: usize = 0;
    while i < space.windows.len()
        invariant
            i <= space.windows.len(),
            space.windows.len() == old(space).windows.len(),
            space@ == (Layout { windows: space@.windows, ..old(space)@ }),
            forall|k: int|
                0 <= k < i ==> #[trigger] space@.windows[k] == old(space)@.windows[k].followed(surface),
            forall|k: int|
                i <= k < space.windows.len() ==> #[trigger] space@.windows[k]
                    == old(space)@.windows[k],
        decreases space.windows.len() - i,
    {
        let window = space.windows[i];
        if window.surface == Some(surface) {
            space.windows.set(i, WindowElement { has_resize_data: true, ..window });
        }
        i += 1;
    }
    assert(space@ =~= old(space)@.following(surface));
}

/// Send the first configure that a committed surface needs, and follow its
/// resizes from now on.
///
/// For xdg toplevels [`handle_toplevel_commit`] ends a resize *after* it has
/// anchored the final location, so the move stays atomic with the commit.
/// Windows without a toplevel (e.g. X11) have no such hook and finish here.
pub fn ensure_initial_configure(space: &mut Space, surface: u64, role: SurfaceRole)
    requires
        old(space)@.wf(),
    ensures
        final(space)@ == old(space)@.initially_configured(surface, role),
        final(space)@.wf(),
{
    follow_surface(space, surface);
    match role {
        SurfaceRole::Window { window } => {
            if let Some(found) = space.window(window) {
                if !found.is_wayland() {
                    land_resize(window, space);
                } else if !found.configured {
                    space.configure(found, true);
                }
            }
        },
        SurfaceRole::Popup { configured } => {
            if !configured {
                space.act(Action::ConfigurePopup);
            }
        },
        SurfaceRole::InputPopup => {},
        SurfaceRole::Layer { output, configured } => {
            // arrange the layers before sending the initial configure
            // to respect any size the client may have sent
            space.act(Action::ArrangeLayers { output });
            if !configured {
                space.act(Action::ConfigureLayer { output });
            }
        },
        SurfaceRole::Other => {},
    }
}

impl Desk {
    /// The state with the window `id` placed, and waiting for the keyboard focus
    /// if it is activated.
    pub open spec fn placing(self, id: u64, activate: bool, now: Instant) -> Desk {
        Desk {
            layout: self.layout.placing(self.pointer, id, activate, now),
            pending_focus: if activate && self.layout.window(id) is Some {
                Some(id)
            } else {
                self.pending_focus
            },
            ..self
        }
    }

    /// The state with the keyboard focus on the window that waits for it.
    pub open spec fn focusing(self) -> Desk {
        match self.pending_focus {
            Some(window) => Desk {
                pending_focus: None,
                ..(if self.has_keyboard {
                    Desk {
                        focus: Some(window),
                        layout: self.layout.acting(Action::SetFocus { focus: Some(window) }),
                        ..self
                    }
                } else {
                    self
                })
            },
            None => self,
        }
    }

    /// The state with a new Wayland window `id`.
    pub open spec fn opening(self, id: u64, surface: u64, now: Instant) -> Desk {
        let window = WindowElement::fresh(id, SurfaceKind::Wayland, Some(surface)).opening();
        self.over(self.layout.with_new_window(window)).placing(id, true, now).focusing()
    }

    /// The state with the window `id` minimized, unless it is not mapped or is
    /// minimized already.
    pub open spec fn minimizing(self, id: u64) -> Desk {
        match self.layout.location(id) {
            Some(loc) if placed_index(self.minimized, id, 0) is None => {
                let unmapped = self.layout.unmapped(id);
                Desk {
                    minimized: self.minimized.push(Placed { window: id, loc }),
                    layout: match unmapped.window(id) {
                        Some(window) => unmapped.with_window(window.with_frame(None)),
                        None => unmapped,
                    },
                    ..self
                }.unfocused(id)
            },
            _ => self,
        }
    }

    /// The state with the minimized window `id` back where it was.
    pub open spec fn unminimizing(self, id: u64) -> Desk {
        match placed_index(self.minimized, id, 0) {
            Some(i) => Desk {
                minimized: self.minimized.remove(i),
                layout: self.layout.mapped(id, self.minimized[i].loc, true),
                ..self
            },
            None => self,
        }
    }

    /// The state with the window that was minimized last back where it was.
    pub open spec fn last_unminimized(self) -> Desk {
        if self.minimized.len() > 0 {
            let last = self.minimized.last();
            Desk {
                minimized: self.minimized.drop_last(),
                layout: self.layout.mapped(last.window, last.loc, true),
                ..self
            }
        } else {
            self
        }
    }

    /// The state with the window `id` closing, and without the keyboard focus.
    pub open spec fn closing(self, id: u64, now: Instant) -> Desk {
        match self.layout.window(id) {
            Some(window) if !window.state.visibility.closing => self.over(
                self.layout.with_window(window.closed(now)),
            ).unfocused(id),
            _ => self,
        }
    }

    /// The layout after the part of a commit that is about a window.
    pub open spec fn window_committed(self, commit: Commit, now: Instant) -> Layout {
        match commit.window {
            Some(id) => match self.layout.window(id) {
                Some(window) => {
                    let framed = match commit.frame {
                        Some(frame) => self.layout.with_window(window.with_frame(Some(frame))),
                        None => self.layout,
                    };
                    if commit.is_root && window.kind == SurfaceKind::Wayland {
                        let shown = framed.committed(id, now);
                        match (commit.buffer_delta, shown.location(id)) {
                            (Some(delta), Some(loc)) => shown.mapped(id, loc.moved(delta), false),
                            _ => shown,
                        }
                    } else {
                        framed
                    }
                },
                None => self.layout,
            },
            None => self.layout,
        }
    }

    /// Whether the window that a commit belongs to takes the buffer's move.
    pub open spec fn moves_window(self, commit: Commit) -> bool {
        commit.is_root && match commit.window {
            Some(id) => match self.layout.window(id) {
                Some(window) => window.kind == SurfaceKind::Wayland,
                None => false,
            },
            None => false,
        }
    }

    /// The state after a commit. The buffer's move is taken by the window, else
    /// by the cursor's hotspot, else by the drag-and-drop icon.
    pub open spec fn committed(self, commit: Commit, now: Instant) -> Desk {
        let delta = if self.moves_window(commit) {
            None
        } else {
            commit.buffer_delta
        };
        let on_cursor = self.cursor_status == CursorStatus::Surface(commit.surface);
        Desk {
            layout: self.window_committed(commit, now).initially_configured(
                commit.surface,
                commit.role,
            ),
            cursor_hotspot: match delta {
                Some(by) if on_cursor => Point {
                    x: sat32(self.cursor_hotspot.x - by.x) as i32,
                    y: sat32(self.cursor_hotspot.y - by.y) as i32,
                },
                _ => self.cursor_hotspot,
            },
            dnd_icon: match (self.dnd_icon, delta) {
                (Some(icon), Some(by)) if icon.surface == commit.surface && !on_cursor => Some(
                    DndIcon { offset: icon.offset.moved(by), ..icon },
                ),
                _ => self.dnd_icon,
            },
            ..self
        }
    }
}

impl AnvilState {
    /// Place a window. One that is activated gets the keyboard focus too, in
    /// [`Self::focus_new_windows`].
    pub(crate) fn place_window(&mut self, window: u64, activate: bool, now: Instant)
        requires
            old(self)@.wf(),
        ensures
            final(self)@ == old(self)@.placing(window, activate, now),
            final(self)@.wf(),
    {
        let known = self.space.window(window).is_some();
        place_new_window(&mut self.space, self.pointer, window, activate, now);
        if activate && known {
            self.pending_focus = Some(window);
        }
    }

    /// Give keyboard focus to any window that was just mapped.
    pub fn focus_new_windows(&mut self)
        ensures
            final(self)@ == old(self)@.focusing(),
            old(self)@.wf() ==> final(self)@.wf(),
    {
        if let Some(window) = self.pending_focus {
            self.pending_focus = None;
            if self.has_keyboard {
                self.focus = Some(window);
                self.space.act(Action::SetFocus { focus: Some(window) });
            }
        }
    }

    /// A Wayland client opened the window `id` with `surface`.
    ///
    /// No configure is sent here, the initial configure of a xdg_surface has to
    /// be sent during the commit if the surface is not already configured.
    pub fn new_toplevel(&mut self, id: u64, surface: u64, now: Instant)
        requires
            old(self)@.wf(),
        ensures
            final(self)@ == old(self)@.opening(id, surface, now),
            final(self)@.wf(),
    {
        let mut window = WindowElement::new(id, SurfaceKind::Wayland, Some(surface));
        window.begin_open();
        self.space.add_window(window);
        self.place_window(id, true, now);
        self.focus_new_windows();
    }

    /// The mapped window that `surface` belongs to.
    pub fn window_for_surface(&self, surface: u64) -> (r: Option<u64>)
        ensures
            r == self@.layout.owner(surface, 0),
    {
        let mut i: usize = 0;
        while i < self.space.elements.len()
            invariant
                i <= self.space.elements.len(),
                self@.layout.owner(surface, 0) == self@.layout.owner(surface, i as int),
            decreases self.space.elements.len() - i,
        {
            let id = self.space.elements[i].window;
            if let Some(window) = self.space.window(id) {
                if window.owns_surface(surface) {
                    return Some(id);
                }
            }
            i += 1;
        }
        None
    }

    /// The output that a new layer surface is shown on: the one it asks for, or
    /// the first. Without an output there is none.
    pub fn new_layer_surface(&self, requested: Option<u64>) -> (r: Option<u64>)
        ensures
            r == (if requested is Some {
                requested
            } else {
                self@.layout.primary()
            }),
    {
        match requested {
            Some(output) => Some(output),
            None => self.space.primary_output(),
        }
    }

    /// The client of the window `id` is gone (or closing itself); play the close
    /// transition from the cached frame, if the window is mapped.
    pub fn toplevel_destroyed(&mut self, id: u64, now: Instant)
        requires
            old(self)@.wf(),
        ensures
            final(self)@ == (if old(self)@.layout.location(id) is Some {
                old(self)@.abandoning(id, now)
            } else {
                old(self)@
            }),
            final(self)@.wf(),
    {
        if self.space.element_location(id).is_some() {
            self.abandon_window(id, now);
        }
    }

    /// Where the window `id` is in the list of minimized windows.
    fn find_minimized(&self, id: u64) -> (r: Option<usize>)
        ensures
            match (r, placed_index(self@.minimized, id, 0)) {
                (Some(i), Some(k)) => i == k && i < self.minimized.len(),
                (None, None) => true,
                _ => false,
            },
    {
        let mut i: usize = 0;
        while i < self.minimized.len()
            invariant
                i <= self.minimized.len(),
                placed_index(self@.minimized, id, 0) == placed_index(
                    self@.minimized,
                    id,
                    i as int,
                ),
            decreases self.minimized.len() - i,
        {
            if self.minimized[i].window == id {
                return Some(i);
            }
            i += 1;
        }
        None
    }

    pub fn minimize_request(&mut self, window: u64)
        requires
            old(self)@.wf(),
        ensures
            final(self)@ == old(self)@.minimizing(window),
            final(self)@.wf(),
    {
        let loc = match self.space.element_location(window) {
            Some(loc) => loc,
            None => return,
        };
        if self.find_minimized(window).is_some() {
            return;
        }
        self.minimized.push(Placed { window, loc });
        self.space.unmap_elem(window);
        // While minimized the window isn't rendered, so don't keep holding the
        // client's buffers (and let it recycle them).
        if let Some(found) = self.space.window(window) {
            let mut found = found;
            found.state.last_frame = None;
            self.space.put(found);
        }
        self.clear_window_focus(window);
    }

    pub fn unminimize_request(&mut self, window: u64)
        requires
            old(self)@.wf(),
        ensures
            final(self)@ == old(self)@.unminimizing(window),
            final(self)@.wf(),
    {
        if let Some(index) = self.find_minimized(window) {
            let placed = self.minimized.remove(index);
            self.space.map_element(window, placed.loc, true);
        }
    }

    pub fn restore_last_minimized(&mut self)
        requires
            old(self)@.wf(),
        ensures
            final(self)@ == old(self)@.last_unminimized(),
            final(self)@.wf(),
    {
        if let Some(placed) = self.minimized.pop() {
            assert(self.minimized@ =~= old(self)@.minimized.drop_last());
            self.space.map_element(placed.window, placed.loc, true);
        }
    }

    /// Close a window: play the close transition first; the client is told to
    /// close once it has finished (see [`Self::tick_animations`]).
    pub fn close_window(&mut self, window: u64, now: Instant)
        requires
            old(self)@.wf(),
        ensures
            final(self)@ == old(self)@.closing(window, now),
            final(self)@.wf(),
    {
        if let Some(found) = self.space.window(window) {
            if found.is_closing() {
                return;
            }
            let mut found = found;
            found.begin_close(now);
            self.space.put(found);
            // The window is no longer interactive, so move focus off it.
            self.clear_window_focus(window);
        }
    }

    /// Take note of a configure that the client of `window` acknowledged.
    ///
    /// When a resize is let go, the client receives a configure without the
    /// resize state, and acknowledging it moves the resize on. A fullscreen
    /// configure may have been sent before the client's decoration preference
    /// was known (clients often request fullscreen and server-side decorations
    /// in the same batch). Now that the mode is acked, re-send the size so
    /// client-decorated windows fill the whole output instead of reserving space
    /// for a header bar that is never drawn.
    pub fn ack_configure(&mut self, window: u64, serial: Serial, server_side: bool)
        requires
            old(self)@.wf(),
        ensures
            final(self)@ == old(self)@.over(
                old(self)@.layout.acknowledged(window, serial, server_side),
            ),
            final(self)@.wf(),
    {
        let found = match self.space.window(window) {
            Some(found) => found,
            None => return,
        };
        let mut resize = found.surface_resize();
        resize.ack(serial, found.acked_resizing);
        let acked = found.resized(resize);
        if self.space.element_location(window).is_none() {
            self.space.put(acked);
            return;
        }
        let told = acked.decorated_by_server(server_side);
        self.space.put(told);
        if let Some(desired) = self.fullscreen_size_of(&told) {
            if told.client.size != Some(desired) {
                let client = ClientState { size: Some(desired), ..told.client };
                self.space.configure(told.with_client(client), true);
            }
        }
    }

    /// The size that a fullscreen Wayland window has on the first output it
    /// reaches onto.
    fn fullscreen_size_of(&self, window: &WindowElement) -> (r: Option<Size>)
        ensures
            r == self@.layout.fullscreen_fit(*window),
    {
        if !window.state.header_bar.fullscreen || !window.is_wayland() {
            return None;
        }
        let outputs = self.space.outputs_for_element(window.id);
        if outputs.len() == 0 {
            return None;
        }
        match self.space.output_geometry(outputs[0]) {
            Some(geo) => Some(fullscreen_content_size(geo.size, window.is_ssd())),
            None => None,
        }
    }

    /// The part of a commit that is about a window. Returns whether the window
    /// took the buffer's move.
    fn commit_window(&mut self, commit: Commit, now: Instant) -> (r: bool)
        requires
            old(self)@.wf(),
        ensures
            final(self)@ == old(self)@.over(old(self)@.window_committed(commit, now)),
            final(self)@.wf(),
            r == old(self)@.moves_window(commit),
    {
        let id = match commit.window {
            Some(id) => id,
            None => return false,
        };
        let window = match self.space.window(id) {
            Some(window) => window,
            None => return false,
        };
        // Keep the buffers the client just committed alive, so an app-triggered
        // close can be drawn from them after the surface is gone. Done for any
        // surface in the window so subsurface content (e.g. Firefox) is captured
        // too.
        if let Some(frame) = commit.frame {
            let mut framed = window;
            framed.set_last_frame(frame);
            self.space.put(framed);
        }
        // X11 windows have no Wayland resize pipeline: only refresh their frame
        // cache (done above) and skip the toplevel path.
        if !commit.is_root || !window.is_wayland() {
            return false;
        }
        handle_toplevel_commit(&mut self.space, id, now);
        if let Some(delta) = commit.buffer_delta {
            if let Some(loc) = self.space.element_location(id) {
                self.space.map_element(id, loc.plus(delta), false);
            }
        }
        true
    }

    /// A client committed a surface.
    pub fn commit(&mut self, commit: Commit, now: Instant)
        requires
            old(self)@.wf(),
        ensures
            final(self)@ == old(self)@.committed(commit, now),
            final(self)@.wf(),
    {
        let taken = self.commit_window(commit, now);
        let mut delta = if taken { None } else { commit.buffer_delta };
        if self.cursor_status == CursorStatus::Surface(commit.surface) {
            if let Some(by) = delta {
                self.cursor_hotspot = Point {
                    x: difference(self.cursor_hotspot.x, by.x),
                    y: difference(self.cursor_hotspot.y, by.y),
                };
                delta = None;
            }
        }
        if let Some(icon) = self.dnd_icon {
            if icon.surface == commit.surface {
                if let Some(by) = delta {
                    self.dnd_icon = Some(DndIcon { offset: icon.offset.plus(by), ..icon });
                }
            }
        }
        ensure_initial_configure(&mut self.space, commit.surface, commit.role);
    }
}

} // verus!
