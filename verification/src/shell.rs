//! Window-management rules: transitions, snapping, focus and placement.

use std::time::Instant;
use vstd::prelude::*;

use crate::animation::{WindowAnimation, WindowRect, WINDOW_ANIMATION_NANOS};
use crate::clock::elapsed_nanos;
use crate::element::{ClientState, SurfaceKind};
use crate::geometry::{output_work_area, work_area_for_window};
use crate::snap::{
    zone_at, SnapGrid, SnapPreviewState, SnapTarget, SnapZone, SNAP_PREVIEW_DWELL_NANOS,
};
use crate::space::{Action, Output};
use crate::state::AnvilState;
use crate::utils::{near, FixedPoint, Point, Rectangle, Size};
use crate::xdg::{decorated_content_size, undecorated_content_size};

verus! {

use crate::clock::elapsed;
use crate::snap::zone_of;
use crate::space::Layout;
use crate::state::Desk;
use crate::utils::abs;
use crate::xdg::{decorated, undecorated};

/// How far, in pixels, a window may be off the bottom half and still fill it.
pub const OCCUPIED_TOLERANCE: i32 = 4;

/// The grid of the first of `windows`, from `i` on, that is snapped.
pub open spec fn first_grid(layout: Layout, windows: Seq<u64>, i: int) -> Option<SnapGrid>
    decreases windows.len() - i,
{
    if i < 0 || i >= windows.len() {
        None
    } else {
        match layout.window(windows[i]) {
            Some(window) if window.state.snap is Some => Some(window.state.snap->0.grid),
            _ => first_grid(layout, windows, i + 1),
        }
    }
}

impl Layout {
    /// The layout with the window `id` on its way to `content` at `loc`. A
    /// window that is there already stays as it is.
    #[verifier::opaque]
    pub open spec fn gliding(self, id: u64, content: Size, loc: Point, now: Instant) -> Layout {
        match (self.location(id), self.window(id)) {
            (Some(start_loc), Some(window)) => {
                let start = WindowRect { loc: start_loc, content: window.content_size() };
                let end = WindowRect { loc, content };
                if start == end {
                    self
                } else {
                    self.with_window(
                        window.animated(
                            WindowAnimation::fresh(start, end, WINDOW_ANIMATION_NANOS, now),
                        ),
                    )
                }
            },
            _ => self,
        }
    }

    /// The layout with the window `id` raised and waiting for its client to
    /// choose the size it goes to `loc` with.
    #[verifier::opaque]
    pub open spec fn unmaximizing(self, id: u64, loc: Point, now: Instant) -> Layout {
        match (self.location(id), self.window(id)) {
            (Some(start_loc), Some(window)) => {
                let content = window.content_size();
                let start = WindowRect { loc: start_loc, content };
                let end = WindowRect { loc, content };
                let raised = self.mapped(id, start_loc, true);
                match raised.window(id) {
                    Some(window) => raised.with_window(
                        window.animated(
                            WindowAnimation {
                                content_pending: true,
                                ..WindowAnimation::fresh(start, end, WINDOW_ANIMATION_NANOS, now)
                            },
                        ),
                    ),
                    None => raised,
                }
            },
            _ => self,
        }
    }

    /// The layout with any transition of the window `id` kept where the window
    /// is.
    #[verifier::opaque]
    pub open spec fn pinned(self, id: u64) -> Layout {
        match (self.location(id), self.window(id)) {
            (Some(loc), Some(window)) => match window.state.animation {
                Some(animation) => self.with_window(window.animated(animation.pinned(loc))),
                None => self,
            },
            _ => self,
        }
    }

    /// Whether the window `id` fills `target`, give or take the tolerance.
    pub open spec fn fills(self, id: u64, target: Rectangle, now: Instant) -> bool {
        match (self.window(id), self.element_geometry(id, now)) {
            (Some(window), Some(geo)) => {
                &&& !window.ghosting()
                &&& abs(geo.loc.x - target.loc.x) <= OCCUPIED_TOLERANCE
                &&& abs(geo.loc.y - target.loc.y) <= OCCUPIED_TOLERANCE
                &&& abs(geo.size.w - target.size.w) <= OCCUPIED_TOLERANCE
                &&& abs(geo.size.h - target.size.h) <= OCCUPIED_TOLERANCE
            },
            _ => false,
        }
    }

    /// Whether a window other than `exclude` fills the bottom half of `area` on
    /// `output`.
    #[verifier::opaque]
    pub open spec fn bottom_occupied(
        self,
        output: u64,
        area: Rectangle,
        exclude: Option<u64>,
        now: Instant,
    ) -> bool {
        let windows = self.elements_for(output);
        let target = SnapGrid::center(area).cell(SnapZone::BottomHalf, area);
        exists|k: int|
            0 <= k < windows.len() && exclude != Some(windows[k]) && self.fills(
                #[trigger] windows[k],
                target,
                now,
            )
    }

    /// The snap target under `global` for a window that `exclude` is dragged
    /// as. The top edge maximizes unless the bottom half is taken.
    #[verifier::opaque]
    pub open spec fn snap_target(self, global: FixedPoint, exclude: Option<u64>, now: Instant) -> Option<
        SnapTarget,
    > {
        match self.output_under(global) {
            Some(output) => match self.work_area(output) {
                Some(area) => match zone_of(area, global) {
                    Some(zone) => Some(
                        SnapTarget {
                            output,
                            area,
                            zone: if zone == SnapZone::TopHalf && !self.bottom_occupied(
                                output,
                                area,
                                exclude,
                                now,
                            ) {
                                SnapZone::Maximize
                            } else {
                                zone
                            },
                        },
                    ),
                    None => None,
                },
                None => None,
            },
            None => None,
        }
    }

    /// The divider grid that the snapped windows on `output` share.
    pub open spec fn shared_grid(self, output: u64) -> Option<SnapGrid> {
        first_grid(self, self.elements_for(output), 0)
    }

    /// The divider grid that a window joining the snapped windows on `output`
    /// is laid out on.
    pub open spec fn joined_grid(self, output: u64, area: Rectangle) -> SnapGrid {
        match self.shared_grid(output) {
            Some(grid) => grid,
            None => SnapGrid::center(area),
        }
    }

    /// The rectangle that a window tiled into `target` fills.
    pub open spec fn snap_rect(self, target: SnapTarget) -> Rectangle {
        self.joined_grid(target.output, target.area).cell(target.zone, target.area)
    }

    /// The layout after every preview started to fade out.
    #[verifier::opaque]
    pub open spec fn previews_hidden(self) -> Layout {
        Layout {
            outputs: Seq::new(self.outputs.len(), |i: int| hidden_preview(self.outputs[i])),
            ..self
        }
    }

    /// The preview of `output` at `now`, when `show` is to be shown.
    pub open spec fn preview_ticked(self, output: Output, show: Option<SnapTarget>, now: Instant) -> Output {
        let shown = match show {
            Some(target) if target.output == output.id => {
                let base = match output.preview {
                    Some(preview) => preview,
                    None => SnapPreviewState {
                        rect: None,
                        level: 0,
                        shown: false,
                        last_update: now,
                    },
                };
                Some(
                    SnapPreviewState {
                        rect: Some(self.snap_rect(target)),
                        shown: true,
                        ..base
                    },
                )
            },
            _ => output.preview,
        };
        Output {
            preview: match shown {
                Some(preview) => Some(preview.advanced(now)),
                None => None,
            },
            ..output
        }
    }

    /// The layout with every preview advanced to `now`.
    #[verifier::opaque]
    pub open spec fn previews_ticked(self, show: Option<SnapTarget>, now: Instant) -> Layout {
        Layout {
            outputs: Seq::new(
                self.outputs.len(),
                |i: int| self.preview_ticked(self.outputs[i], show, now),
            ),
            ..self
        }
    }

    /// The layout after the client of the window `id` was told to fill `rect`
    /// with its frame.
    #[verifier::opaque]
    pub open spec fn filling(self, id: u64, rect: Rectangle, maximized: bool) -> Layout {
        match self.window(id) {
            Some(window) => match window.kind {
                SurfaceKind::Wayland => self.configuring(
                    window.telling(
                        ClientState {
                            maximized,
                            size: Some(undecorated(rect.size, window.state.is_ssd)),
                            ..window.client
                        },
                    ),
                    window.configured,
                ),
                SurfaceKind::X11 => self.acting(Action::ConfigureX11 { window: id, rect }),
            },
            None => self,
        }
    }

    /// The size to animate the window `id` to when it fills `rect`: the content
    /// size of a Wayland window, the frame of an X11 one.
    #[verifier::opaque]
    pub open spec fn filled_size(self, id: u64, rect: Rectangle) -> Size {
        match self.window(id) {
            Some(window) if window.kind == SurfaceKind::Wayland => undecorated(
                rect.size,
                window.state.is_ssd,
            ),
            _ => rect.size,
        }
    }

    /// The layout after the window `id` left its zone for its floating geometry.
    #[verifier::opaque]
    pub open spec fn unsnapping(self, id: u64, loc: Point, content: Size, now: Instant) -> Layout {
        match self.window(id) {
            Some(window) => {
                let rect = Rectangle { loc, size: decorated(content, window.state.is_ssd) };
                self.with_window(window.snapped(None)).filling(id, rect, false).mapped(
                    id,
                    loc,
                    true,
                ).gliding(id, content, loc, now)
            },
            None => self,
        }
    }

    /// The work area that the window `id` is snapped into.
    pub open spec fn snap_area(self, id: u64) -> Option<Rectangle> {
        match self.window(id) {
            Some(window) if window.state.snap is Some => self.home_area(id),
            _ => None,
        }
    }
}

/// The output with its preview fading out.
pub open spec fn hidden_preview(output: Output) -> Output {
    Output {
        preview: match output.preview {
            Some(preview) => Some(SnapPreviewState { shown: false, ..preview }),
            None => None,
        },
        ..output
    }
}

impl Desk {
    /// The state with `target` under the pointer since `now`, unless it was
    /// there before.
    pub open spec fn noting(self, target: Option<SnapTarget>, now: Instant) -> Desk {
        if self.snap_candidate == target {
            self
        } else {
            Desk {
                snap_candidate: target,
                snap_candidate_since: now,
                layout: self.layout.previews_hidden(),
                ..self
            }
        }
    }

    /// The state without a snap candidate.
    pub open spec fn preview_cleared(self) -> Desk {
        Desk { snap_candidate: None, layout: self.layout.previews_hidden(), ..self }
    }

    /// The target to preview at `now`: the one the pointer has dwelled in for
    /// long enough.
    pub open spec fn previewed(self, now: Instant) -> Option<SnapTarget> {
        if elapsed(now, self.snap_candidate_since) >= SNAP_PREVIEW_DWELL_NANOS {
            self.snap_candidate
        } else {
            None
        }
    }
}

impl AnvilState {
    /// Start an ease-out transition of `window` from its current geometry to
    /// the given content size and location. The client keeps drawing at its own
    /// pace; the frame and content are stretched to the animated rect until it
    /// catches up.
    pub fn animate_window(
        &mut self,
        window: u64,
        target_content: Size,
        target_loc: Point,
        now: Instant,
    )
        requires
            old(self)@.wf(),
        ensures
            final(self)@ == old(self)@.over(
                old(self)@.layout.gliding(window, target_content, target_loc, now),
            ),
            final(self)@.wf(),
    {
        reveal(Layout::gliding);
        if let (Some(start_loc), Some(found)) = (
            self.space.element_location(window),
            self.space.window(window),
        ) {
            let start = WindowRect::from_geometry(start_loc, found.resize_content_size());
            let end = WindowRect::from_geometry(target_loc, target_content);
            if start.loc == end.loc && start.content == end.content {
                return;
            }
            let animation = WindowAnimation::starting_at(start, end, WINDOW_ANIMATION_NANOS, now);
            self.space.put(found.with_animation(animation));
        }
    }

    /// Start an unmaximize transition for a client-decorated window, whose
    /// restored size is chosen by the client and so isn't known yet. The window
    /// is frozen at its current (maximized) geometry, keeping the pre-maximize
    /// frame for the crossfade, and the commit handler fills in the final size
    /// with [`WindowAnimation::resolve_content`] once the client commits it.
    pub fn animate_client_unmaximize(&mut self, window: u64, target_loc: Point, now: Instant)
        requires
            old(self)@.wf(),
        ensures
            final(self)@ == old(self)@.over(
                old(self)@.layout.unmaximizing(window, target_loc, now),
            ),
            final(self)@.wf(),
    {
        reveal(Layout::unmaximizing);
        if let (Some(start_loc), Some(found)) = (
            self.space.element_location(window),
            self.space.window(window),
        ) {
            let content = found.resize_content_size();
            let start = WindowRect::from_geometry(start_loc, content);
            let end = WindowRect::from_geometry(target_loc, content);
            let mut animation = WindowAnimation::starting_at(
                start,
                end,
                WINDOW_ANIMATION_NANOS,
                now,
            );
            animation.wait_for_content();
            // Raise/activate without moving: the animation drives the location
            // once the client has chosen its size.
            self.space.map_element(window, start_loc, true);
            if let Some(raised) = self.space.window(window) {
                self.space.put(raised.with_animation(animation));
            }
        }
    }

    /// Pin any in-flight transition of `window` to its current location. Called
    /// when an interactive drag ends so the window stays where it was dropped
    /// while the size transition finishes.
    pub fn pin_window_animation(&mut self, window: u64)
        requires
            old(self)@.wf(),
        ensures
            final(self)@ == old(self)@.over(old(self)@.layout.pinned(window)),
            final(self)@.wf(),
    {
        reveal(Layout::pinned);
        if let (Some(loc), Some(found)) = (
            self.space.element_location(window),
            self.space.window(window),
        ) {
            if let Some(animation) = found.state.animation {
                let mut animation = animation;
                animation.pin_location(loc);
                self.space.put(found.with_animation(animation));
            }
        }
    }

    /// Whether `window` fills `target`, give or take the tolerance.
    fn window_fills(&self, window: u64, target: Rectangle, now: Instant) -> (r: bool)
        requires
            self@.wf(),
        ensures
            r == self@.layout.fills(window, target, now),
    {
        match (self.space.window(window), self.space.element_geometry(window, now)) {
            (Some(found), Some(geo)) => !found.is_ghosting() && near(
                geo.loc.x,
                target.loc.x,
                OCCUPIED_TOLERANCE,
            ) && near(geo.loc.y, target.loc.y, OCCUPIED_TOLERANCE) && near(
                geo.size.w,
                target.size.w,
                OCCUPIED_TOLERANCE,
            ) && near(geo.size.h, target.size.h, OCCUPIED_TOLERANCE),
            _ => false,
        }
    }

    /// Whether any window other than `exclude` currently fills the bottom half
    /// of `area` on `output`.
    pub fn bottom_half_occupied(
        &self,
        output: u64,
        area: Rectangle,
        exclude: Option<u64>,
        now: Instant,
    ) -> (r: bool)
        requires
            self@.wf(),
        ensures
            r == self@.layout.bottom_occupied(output, area, exclude, now),
    {
        reveal(Layout::bottom_occupied);
        let target = SnapZone::BottomHalf.rect(area);
        let windows = self.space.elements_for_output(output);
        let mut i: usize = 0;
        while i < windows.len()
            invariant
                i <= windows.len(),
                self@.wf(),
                windows@ == self@.layout.elements_for(output),
                target == SnapGrid::center(area).cell(SnapZone::BottomHalf, area),
                forall|k: int|
                    0 <= k < i ==> exclude == Some(windows@[k]) || !self@.layout.fills(
                        #[trigger] windows@[k],
                        target,
                        now,
                    ),
            decreases windows.len() - i,
        {
            if exclude != Some(windows[i]) && self.window_fills(windows[i], target, now) {
                reveal(Layout::bottom_occupied);
                return true;
            }
            i += 1;
        }
        false
    }

    /// Resolve the snap target under `global`. `exclude` is the window being
    /// dragged: it is ignored when deciding whether the bottom half is
    /// occupied, which is what turns a top-edge slam into a top-half snap
    /// instead of fullscreen.
    pub fn snap_zone_at(&self, global: FixedPoint, exclude: Option<u64>, now: Instant) -> (r: Option<
        SnapTarget,
    >)
        requires
            self@.wf(),
        ensures
            r == self@.layout.snap_target(global, exclude, now),
    {
        reveal(Layout::snap_target);
        let output = match self.space.output_under(global) {
            Some(output) => output,
            None => return None,
        };
        let area = match output_work_area(&self.space, output) {
            Some(area) => area,
            None => return None,
        };
        let mut zone = match zone_at(area, global) {
            Some(zone) => zone,
            None => return None,
        };
        if zone == SnapZone::TopHalf && !self.bottom_half_occupied(output, area, exclude, now) {
            zone = SnapZone::Maximize;
        }
        Some(SnapTarget { output, area, zone })
    }

    /// Record the snap zone under the pointer. Whenever the zone changes the
    /// dwell timer restarts and any preview starts fading out; the preview for
    /// the new zone is shown by [`Self::tick_snap_preview`] once the pointer
    /// has stayed there long enough.
    pub fn note_snap_target(&mut self, target: Option<SnapTarget>, now: Instant)
        ensures
            final(self)@ == old(self)@.noting(target, now),
            old(self)@.wf() ==> final(self)@.wf(),
    {
        if self.snap_candidate == target {
            return;
        }
        self.snap_candidate = target;
        self.snap_candidate_since = now;
        // Fade out whatever was showing; the new zone fades in after the dwell.
        self.hide_snap_preview();
    }

    /// Fade every snap preview out.
    pub fn hide_snap_preview(&mut self)
        ensures
            final(self)@ == old(self)@.over(old(self)@.layout.previews_hidden()),
            old(self)@.wf() ==> final(self)@.wf(),
    {
        reveal(Layout::previews_hidden);
        reveal(Layout::wf);
        let mut i: usize = 0;
        while i < self.space.outputs.len()
            invariant
                i <= self.space.outputs.len(),
                self.space.outputs.len() == old(self).space.outputs.len(),
                self@ == old(self)@.over(
                    Layout { outputs: self.space.outputs@, ..old(self)@.layout },
                ),
                forall|k: int|
                    0 <= k < i ==> #[trigger] self.space.outputs@[k] == hidden_preview(
                        old(self).space.outputs@[k],
                    ),
                forall|k: int|
                    i <= k < self.space.outputs.len() ==> #[trigger] self.space.outputs@[k]
                        == old(self).space.outputs@[k],
            decreases self.space.outputs.len() - i,
        {
            let mut output = self.space.outputs[i];
            if let Some(preview) = output.preview {
                let mut preview = preview;
                preview.fade_out();
                output.preview = Some(preview);
            }
            self.space.outputs.set(i, output);
            i += 1;
        }
        assert(self@ =~= old(self)@.over(old(self)@.layout.previews_hidden()));
    }

    /// Drop the snap candidate and fade the preview out.
    pub fn clear_snap_preview(&mut self)
        ensures
            final(self)@ == old(self)@.preview_cleared(),
            old(self)@.wf() ==> final(self)@.wf(),
    {
        self.snap_candidate = None;
        self.hide_snap_preview();
    }

    /// The preview of one output at `now`.
    fn ticked_preview(&self, output: Output, show: Option<SnapTarget>, now: Instant) -> (r: Output)
        requires
            self@.wf(),
        ensures
            r == self@.layout.preview_ticked(output, show, now),
    {
        let mut output = output;
        if let Some(target) = show {
            if target.output == output.id {
                let mut preview = match output.preview {
                    Some(preview) => preview,
                    None => SnapPreviewState::hidden_at(now),
                };
                // Preview the cell the window will actually occupy: reuse the
                // group's current divider grid so the box matches the result,
                // not a freshly centered zone.
                let grid = match self.group_grid(output.id) {
                    Some(grid) => grid,
                    None => SnapGrid::centered(target.area),
                };
                preview.show(grid.rect(target.zone, target.area));
                output.preview = Some(preview);
            }
        }
        if let Some(preview) = output.preview {
            let mut preview = preview;
            preview.tick(now);
            output.preview = Some(preview);
        }
        output
    }

    /// Advance the snap preview: show it once the pointer has dwelled in the
    /// current zone for long enough, and fade all previews toward their target.
    pub fn tick_snap_preview(&mut self, now: Instant)
        requires
            old(self)@.wf(),
        ensures
            final(self)@ == old(self)@.over(
                old(self)@.layout.previews_ticked(old(self)@.previewed(now), now),
            ),
            final(self)@.wf(),
    {
        reveal(Layout::previews_ticked);
        let dwelled = elapsed_nanos(now, self.snap_candidate_since) >= SNAP_PREVIEW_DWELL_NANOS;
        let show = if dwelled { self.snap_candidate } else { None };
        let mut outputs: Vec<Output> = Vec::new();
        let mut i: usize = 0;
        while i < self.space.outputs.len()
            invariant
                i <= self.space.outputs.len(),
                outputs.len() == i,
                self@.wf(),
                forall|k: int|
                    0 <= k < i ==> #[trigger] outputs@[k] == self@.layout.preview_ticked(
                        self@.layout.outputs[k],
                        show,
                        now,
                    ),
            decreases self.space.outputs.len() - i,
        {
            outputs.push(self.ticked_preview(self.space.outputs[i], show, now));
            i += 1;
        }
        reveal(Layout::wf);
        self.space.outputs = outputs;
        assert(self@ =~= old(self)@.over(old(self)@.layout.previews_ticked(show, now)));
    }

    /// The divider grid shared by the snapped windows on `output`, if any.
    pub fn group_grid(&self, output: u64) -> (r: Option<SnapGrid>)
        ensures
            r == self@.layout.shared_grid(output),
    {
        let windows = self.space.elements_for_output(output);
        let mut i: usize = 0;
        while i < windows.len()
            invariant
                i <= windows.len(),
                windows@ == self@.layout.elements_for(output),
                first_grid(self@.layout, windows@, 0) == first_grid(
                    self@.layout,
                    windows@,
                    i as int,
                ),
            decreases windows.len() - i,
        {
            if let Some(window) = self.space.window(windows[i]) {
                if let Some(snap) = window.state.snap {
                    return Some(snap.grid);
                }
            }
            i += 1;
        }
        None
    }

    /// Configure `window`'s client to occupy the decorated rectangle `rect`.
    /// Wayland clients are given the undecorated content size; X11's
    /// `configure` takes the frame rectangle directly. Returns the size to
    /// animate the frame to. When `maximized` is true the Wayland client is
    /// also told it is in maximized state (so CSD apps tile correctly).
    pub fn configure_snapped(&mut self, window: u64, rect: Rectangle, maximized: bool) -> (r: Size)
        requires
            old(self)@.wf(),
        ensures
            final(self)@ == old(self)@.over(old(self)@.layout.filling(window, rect, maximized)),
            final(self)@.wf(),
            r == old(self)@.layout.filled_size(window, rect),
    {
        reveal(Layout::filling);
        reveal(Layout::filled_size);
        let found = match self.space.window(window) {
            Some(found) => found,
            None => return rect.size,
        };
        match found.kind {
            SurfaceKind::Wayland => {
                let content = undecorated_content_size(rect.size, found.is_ssd());
                let client = ClientState { maximized, size: Some(content), ..found.client };
                self.space.configure(found.with_client(client), found.configured);
                content
            },
            SurfaceKind::X11 => {
                self.space.act(Action::ConfigureX11 { window, rect });
                rect.size
            },
        }
    }

    /// Restore a snapped window to its floating geometry at `loc`, animating
    /// the transition like an unmaximize. `content` is the undecorated client
    /// size.
    pub fn restore_snapped(&mut self, window: u64, loc: Point, content: Size, now: Instant)
        requires
            old(self)@.wf(),
        ensures
            final(self)@ == old(self)@.over(
                old(self)@.layout.unsnapping(window, loc, content, now),
            ),
            final(self)@.wf(),
    {
        reveal(Layout::unsnapping);
        if let Some(found) = self.space.window(window) {
            // Restoring supersedes the snap, so stop treating it as tiled.
            self.space.put(found.with_snap(None));
            let rect = Rectangle { loc, size: decorated_content_size(content, found.is_ssd()) };
            self.configure_snapped(window, rect, false);
            self.space.map_element(window, loc, true);
            self.animate_window(window, content, loc, now);
        }
    }

    /// The work area `window` is snapped into, or `None` when it floats.
    pub fn snap_area_for(&self, window: u64) -> (r: Option<Rectangle>)
        ensures
            r == self@.layout.snap_area(window),
            r is Some ==> r->0.size.w > 0 && r->0.size.h > 0,
    {
        match self.space.window(window) {
            Some(found) => if found.state.is_snapped() {
                work_area_for_window(&self.space, window)
            } else {
                None
            },
            None => None,
        }
    }
}

} // verus!
