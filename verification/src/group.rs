//! Snap groups: the windows tiled on one output share a divider grid, and a
//! resize of one of them moves the dividers for all.

use std::time::Instant;
use vstd::prelude::*;

use crate::element::WindowElement;
use crate::geometry::{absolute_geometry, work_area_for_window};
use crate::grabs::ResizeEdge;
use crate::resize::{drive_sibling_resize, finish_sibling_resize, toplevel_min_max_size};
use crate::snap::{clamped, SnapGrid, SnapZone};
use crate::state::AnvilState;
use crate::utils::{difference, larger, smaller, sum, FixedPoint, Point, Rectangle, Serial, Size};
use crate::xdg::{decorated_content_size, restore_drag_location};

verus! {

use crate::resize::size_limits;
use crate::space::Layout;
use crate::utils::{clamp, max, min, sat32};
use crate::xdg::{decorated, drag_origin};

/// Whether an area has room for a divider on both axes.
pub open spec fn splittable(area: Rectangle) -> bool {
    area.edges_fit() && area.size.w >= 2 && area.size.h >= 2
}

/// The smallest decorated size of a window.
pub open spec fn smallest(window: WindowElement) -> Size {
    let least = size_limits(window).0;
    let chrome = decorated(Size { w: 0, h: 0 }, window.state.is_ssd);
    Size { w: sat32(least.w + chrome.w) as i32, h: sat32(least.h + chrome.h) as i32 }
}

/// The smallest decorated size of a window.
fn smallest_size(window: &WindowElement) -> (r: Size)
    ensures
        r == smallest(*window),
{
    let (min_size, _) = toplevel_min_max_size(window);
    let chrome = decorated_content_size(Size { w: 0, h: 0 }, window.is_ssd());
    Size { w: sum(min_size.w, chrome.w), h: sum(min_size.h, chrome.h) }
}

impl SnapGrid {
    /// The grid with its dividers moved just far enough for the cell of `zone`
    /// to hold `least`.
    pub open spec fn making_room(self, zone: SnapZone, least: Size, area: Rectangle) -> SnapGrid {
        SnapGrid {
            x: (if (zone.is_left() && zone.is_right()) || least.w <= 0 {
                self.x as int
            } else if zone.is_left() {
                max(self.x as int, sat32(area.loc.x + least.w))
            } else {
                min(self.x as int, sat32(area.right_edge() - least.w))
            }) as i32,
            y: (if (zone.is_above() && zone.is_below()) || least.h <= 0 {
                self.y as int
            } else if zone.is_above() {
                max(self.y as int, sat32(area.loc.y + least.h))
            } else {
                min(self.y as int, sat32(area.bottom_edge() - least.h))
            }) as i32,
        }
    }

    /// The grid with its dividers moved just far enough for the cell of `zone`
    /// to hold `least`.
    fn with_room(self, zone: SnapZone, least: Size, area: Rectangle) -> (r: Self)
        ensures
            r == self.making_room(zone, least, area),
    {
        let right = sum(area.loc.x, area.size.w);
        let bottom = sum(area.loc.y, area.size.h);
        let mut grid = self;
        // A left cell's width is (grid.x - left); a right cell's is
        // (right - grid.x). Same on the other axis.
        if !zone.spans_width() && least.w > 0 {
            if zone.left_of_center() {
                grid.x = larger(grid.x, sum(area.loc.x, least.w));
            } else {
                grid.x = smaller(grid.x, difference(right, least.w));
            }
        }
        if !zone.spans_height() && least.h > 0 {
            if zone.above_center() {
                grid.y = larger(grid.y, sum(area.loc.y, least.h));
            } else {
                grid.y = smaller(grid.y, difference(bottom, least.h));
            }
        }
        grid
    }

    /// The grid with both dividers strictly inside `area`.
    pub open spec fn brought_inside(self, area: Rectangle) -> SnapGrid {
        SnapGrid {
            x: clamp(self.x as int, area.loc.x + 1, area.right() - 1) as i32,
            y: clamp(self.y as int, area.loc.y + 1, area.bottom() - 1) as i32,
        }
    }
}

impl Layout {
    /// Whether the window `id` is tiled and still there.
    pub open spec fn is_member(self, id: u64) -> bool {
        match self.window(id) {
            Some(window) => !window.ghosting() && window.state.snap is Some,
            None => false,
        }
    }

    /// The tiled windows, back to front, from the `i`th mapped one on.
    pub open spec fn members(self, i: int) -> Seq<u64>
        decreases self.elements.len() - i,
    {
        if i < 0 || i >= self.elements.len() {
            Seq::empty()
        } else if self.is_member(self.elements[i].window) {
            seq![self.elements[i].window] + self.members(i + 1)
        } else {
            self.members(i + 1)
        }
    }

    /// `grid` with room for the smallest sizes of `members`, from `i` on, other
    /// than `resizing`.
    pub open spec fn roomy_grid(
        self,
        grid: SnapGrid,
        members: Seq<u64>,
        i: int,
        area: Rectangle,
        resizing: u64,
    ) -> SnapGrid
        decreases members.len() - i,
    {
        if i < 0 || i >= members.len() {
            grid
        } else {
            self.roomy_grid(
                self.making_room_for(grid, members[i], area, resizing),
                members,
                i + 1,
                area,
                resizing,
            )
        }
    }

    /// `grid` with room for the smallest size of the window `id`, unless it is
    /// `resizing`.
    pub open spec fn making_room_for(
        self,
        grid: SnapGrid,
        id: u64,
        area: Rectangle,
        resizing: u64,
    ) -> SnapGrid {
        match self.window(id) {
            Some(window) if id != resizing && window.state.snap is Some => grid.making_room(
                window.state.snap->0.zone,
                smallest(window),
                area,
            ),
            _ => grid,
        }
    }

    /// `grid` with room for every tiled window other than `resizing`, and its
    /// dividers inside `area`.
    pub open spec fn clamped_grid(self, grid: SnapGrid, area: Rectangle, resizing: u64) -> SnapGrid {
        self.roomy_grid(grid, self.members(0), 0, area, resizing).brought_inside(area)
    }

    /// The layout after the member `id` was driven into its cell of `grid`,
    /// unless it is `window` or covers its output.
    pub open spec fn reflowing(self, id: u64, window: u64, grid: SnapGrid, area: Rectangle) -> Layout {
        match self.window(id) {
            Some(other) if id != window && !other.state.header_bar.fullscreen && other.state.snap
                is Some => {
                let zone = other.state.snap->0.zone;
                self.with_window(other.regridded(grid)).driving(
                    id,
                    edges_facing_divider(zone),
                    grid.cell(zone, area),
                )
            },
            _ => self,
        }
    }

    /// The layout after each of `members`, from `i` on, was driven into its cell.
    pub open spec fn reflowed(
        self,
        members: Seq<u64>,
        i: int,
        window: u64,
        grid: SnapGrid,
        area: Rectangle,
    ) -> Layout
        decreases members.len() - i,
    {
        if i < 0 || i >= members.len() {
            self
        } else {
            self.reflowing(members[i], window, grid, area).reflowed(
                members,
                i + 1,
                window,
                grid,
                area,
            )
        }
    }

    /// The layout after `window` was dragged to the content size `intended`: if
    /// it is tiled, the dividers follow and the others are driven along.
    pub open spec fn splitting(
        self,
        window: u64,
        area: Rectangle,
        edges: ResizeEdge,
        intended: Size,
    ) -> Layout {
        match self.window(window) {
            Some(found) => match found.state.snap {
                Some(snap) if snap.zone != SnapZone::Maximize => {
                    let frame = decorated(intended, found.state.is_ssd);
                    let dragged = snap.grid.dragged_to(snap.zone, area, edges.dragged(), frame);
                    let grid = self.clamped_grid(dragged, area, window);
                    let kept = self.with_window(found.regridded(grid));
                    kept.reflowed(kept.members(0), 0, window, grid, area)
                },
                _ => self,
            },
            None => self,
        }
    }

    /// The layout after the member `id` glided into its cell of `grid`, unless
    /// it is `window` or covers its output.
    pub open spec fn recentering(
        self,
        id: u64,
        window: u64,
        grid: SnapGrid,
        area: Rectangle,
        now: Instant,
    ) -> Layout {
        match self.window(id) {
            Some(other) if id != window && !other.state.header_bar.fullscreen && other.state.snap
                is Some => {
                let rect = grid.cell(other.state.snap->0.zone, area);
                let kept = self.with_window(other.regridded(grid));
                kept.filling(id, rect, true).gliding(id, kept.filled_size(id, rect), rect.loc, now)
            },
            _ => self,
        }
    }

    /// The group that the window `window` left, back on the centered grid of its
    /// work area.
    pub open spec fn closing_ranks(self, window: u64, now: Instant) -> Layout {
        match self.home_area(window) {
            Some(area) => self.recentered(
                self.members(0),
                0,
                window,
                SnapGrid::center(area),
                area,
                now,
            ),
            None => self,
        }
    }

    /// The layout after each of `members`, from `i` on, glided into its cell.
    pub open spec fn recentered(
        self,
        members: Seq<u64>,
        i: int,
        window: u64,
        grid: SnapGrid,
        area: Rectangle,
        now: Instant,
    ) -> Layout
        decreases members.len() - i,
    {
        if i < 0 || i >= members.len() {
            self
        } else {
            self.recentering(members[i], window, grid, area, now).recentered(
                members,
                i + 1,
                window,
                grid,
                area,
                now,
            )
        }
    }

    /// The layout after the driven resize of the member `id` was let go, unless
    /// it is `window` or covers its output.
    pub open spec fn member_finished(self, id: u64, window: u64, serial: Serial) -> Layout {
        match self.window(id) {
            Some(other) if id != window && !other.state.header_bar.fullscreen => self.finishing(
                id,
                serial,
            ),
            _ => self,
        }
    }

    /// The layout after the driven resizes of `members`, from `i` on, were let
    /// go.
    pub open spec fn group_finished(
        self,
        members: Seq<u64>,
        i: int,
        window: u64,
        serial: Serial,
    ) -> Layout
        decreases members.len() - i,
    {
        if i < 0 || i >= members.len() {
            self
        } else {
            self.member_finished(members[i], window, serial).group_finished(
                members,
                i + 1,
                window,
                serial,
            )
        }
    }

    /// Where a tiled window that is dragged at `grab` goes, and the size it gets
    /// back.
    pub open spec fn drag_restore(self, window: u64, grab: FixedPoint, now: Instant) -> Option<
        (Point, Size),
    > {
        match self.window(window) {
            Some(found) => match (found.state.snap, self.element_geometry(window, now)) {
                (Some(snap), Some(geo)) => match self.absolute(
                    window,
                    snap.floating,
                    found.state.is_ssd,
                ) {
                    Some((_, content)) => Some(
                        (
                            drag_origin(geo.loc, geo.size, grab, Some(content), found.state.is_ssd),
                            content,
                        ),
                    ),
                    None => None,
                },
                _ => None,
            },
            None => None,
        }
    }

    /// The layout after a tiled window was taken out of its zone by a drag. The
    /// snap is over even where there is nothing to restore.
    pub open spec fn drag_unsnapped(self, window: u64, grab: FixedPoint, now: Instant) -> Layout {
        match self.window(window) {
            Some(found) if found.state.snap is Some => {
                let freed = self.with_window(found.snapped(None));
                match self.drag_restore(window, grab, now) {
                    Some((loc, content)) => freed.unsnapping(window, loc, content, now),
                    None => freed,
                }
            },
            _ => self,
        }
    }
}

/// The edges of a cell that face a divider.
pub open spec fn edges_facing_divider(zone: SnapZone) -> ResizeEdge {
    ResizeEdge {
        right: zone.is_left() && !zone.is_right(),
        left: zone.is_right() && !zone.is_left(),
        bottom: zone.is_above() && !zone.is_below(),
        top: zone.is_below() && !zone.is_above(),
    }
}

impl AnvilState {
    /// The tiled windows, back to front.
    fn snap_members(&self) -> (r: Vec<u64>)
        ensures
            r@ == self@.layout.members(0),
    {
        let mut members: Vec<u64> = Vec::new();
        let mut i: usize = 0;
        while i < self.space.elements.len()
            invariant
                i <= self.space.elements.len(),
                members@ + self@.layout.members(i as int) =~= self@.layout.members(0),
            decreases self.space.elements.len() - i,
        {
            let id = self.space.elements[i].window;
            if let Some(window) = self.space.window(id) {
                if !window.is_ghosting() && window.state.is_snapped() {
                    members.push(id);
                }
            }
            i += 1;
        }
        members
    }

    /// Clamp the moved dividers so no present member's cell is smaller than that
    /// member's minimum decorated size. Returns the adjusted grid.
    pub fn clamp_grid_to_minimums(&self, grid: SnapGrid, area: Rectangle, resizing: u64) -> (r:
        SnapGrid)
        requires
            splittable(area),
        ensures
            r == self@.layout.clamped_grid(grid, area, resizing),
    {
        let members = self.snap_members();
        let mut roomy = grid;
        let mut i: usize = 0;
        while i < members.len()
            invariant
                i <= members.len(),
                self@.layout.roomy_grid(roomy, members@, i as int, area, resizing)
                    == self@.layout.roomy_grid(grid, members@, 0, area, resizing),
            decreases members.len() - i,
        {
            let id = members[i];
            // The dragged window's own min is already applied to its size.
            if id != resizing {
                if let Some(window) = self.space.window(id) {
                    if let Some(zone) = window.state.snap_zone() {
                        roomy = roomy.with_room(zone, smallest_size(&window), area);
                    }
                }
            }
            i += 1;
        }
        // Keep the dividers inside the area after clamping.
        SnapGrid {
            x: clamped(roomy.x, area.loc.x + 1, area.loc.x + area.size.w - 1),
            y: clamped(roomy.y, area.loc.y + 1, area.loc.y + area.size.h - 1),
        }
    }

    /// The edges a sibling in `zone` moves when the group divider changes: the
    /// divider-facing edge(s) of its cell.
    pub fn sibling_edges(zone: SnapZone) -> (r: ResizeEdge)
        ensures
            r == edges_facing_divider(zone),
    {
        let mut edges = ResizeEdge::none();
        if zone.left_of_center() && !zone.right_of_center() {
            edges.right = true;
        } else if zone.right_of_center() && !zone.left_of_center() {
            edges.left = true;
        }
        if zone.above_center() && !zone.below_center() {
            edges.bottom = true;
        } else if zone.below_center() && !zone.above_center() {
            edges.top = true;
        }
        edges
    }

    /// Drive one member into its cell of `grid`.
    fn reflow_member(&mut self, id: u64, window: u64, grid: SnapGrid, area: Rectangle)
        requires
            old(self)@.wf(),
        ensures
            final(self)@ == old(self)@.over(
                old(self)@.layout.reflowing(id, window, grid, area),
            ),
            final(self)@.wf(),
    {
        if id == window {
            return;
        }
        if let Some(other) = self.space.window(id) {
            if other.state.header_bar.fullscreen {
                return;
            }
            if let Some(zone) = other.state.snap_zone() {
                let rect = grid.rect(zone, area);
                self.space.put(other.with_grid(grid));
                drive_sibling_resize(id, &mut self.space, Self::sibling_edges(zone), rect);
            }
        }
    }

    /// Push a moved division edge to the zones across it, reconfiguring
    /// neighbours from the updated grid.
    pub fn reflow_group(&mut self, window: u64, grid: SnapGrid, area: Rectangle)
        requires
            old(self)@.wf(),
        ensures
            final(self)@ == old(self)@.over(
                old(self)@.layout.reflowed(old(self)@.layout.members(0), 0, window, grid, area),
            ),
            final(self)@.wf(),
    {
        let members = self.snap_members();
        let mut i: usize = 0;
        while i < members.len()
            invariant
                i <= members.len(),
                self@.wf(),
                self@ == old(self)@.over(self@.layout),
                self@.layout.reflowed(members@, i as int, window, grid, area)
                    == old(self)@.layout.reflowed(members@, 0, window, grid, area),
            decreases members.len() - i,
        {
            self.reflow_member(members[i], window, grid, area);
            i += 1;
        }
    }

    /// Push a moved division edge to the zones across it, reconfiguring
    /// neighbours from the updated grid. Called from the resize grab each frame.
    pub fn split_resize_neighbours_from_intent(
        &mut self,
        window: u64,
        area: Rectangle,
        edges: ResizeEdge,
        intended_size: Size,
    )
        requires
            old(self)@.wf(),
            splittable(area),
        ensures
            final(self)@ == old(self)@.over(
                old(self)@.layout.splitting(window, area, edges, intended_size),
            ),
            final(self)@.wf(),
    {
        let found = match self.space.window(window) {
            Some(found) => found,
            None => return,
        };
        let snap = match found.state.snap {
            Some(snap) => snap,
            None => return,
        };
        if snap.zone == SnapZone::Maximize {
            return;
        }
        // The grid dividers live in work-area (decorated) coordinates, but the
        // resize intent is a *content* size. Grow it by the SSD chrome so the
        // divider lands where the decorated frame will be.
        let frame = decorated_content_size(intended_size, found.is_ssd());
        let grid = snap.grid.with_dragged_edges(snap.zone, area, edges.edges(), frame);
        // Stop the whole group if any member can't shrink enough to fit its new
        // cell: clamp the divider so every present member stays at or above its
        // minimum size.
        let grid = self.clamp_grid_to_minimums(grid, area, window);
        self.space.put(found.with_grid(grid));
        self.reflow_group(window, grid, area);
    }

    /// Glide one member into its cell of `grid`.
    fn recenter_member(
        &mut self,
        id: u64,
        window: u64,
        grid: SnapGrid,
        area: Rectangle,
        now: Instant,
    )
        requires
            old(self)@.wf(),
        ensures
            final(self)@ == old(self)@.over(
                old(self)@.layout.recentering(id, window, grid, area, now),
            ),
            final(self)@.wf(),
    {
        if id == window {
            return;
        }
        if let Some(other) = self.space.window(id) {
            if other.state.header_bar.fullscreen {
                return;
            }
            if let Some(zone) = other.state.snap_zone() {
                self.space.put(other.with_grid(grid));
                let rect = grid.rect(zone, area);
                let content = self.configure_snapped(id, rect, true);
                self.animate_window(id, content, rect.loc, now);
            }
        }
    }

    /// Re-tile the members left in `window`'s snap group after it leaves it, on
    /// a fresh centered grid over the output's work area. Their old grid may
    /// have had driven dividers, so resetting keeps the remaining group aligned
    /// now that one member is gone. Each member is reconfigured and animated
    /// into its new cell.
    pub fn recenter_snap_group(&mut self, window: u64, now: Instant)
        requires
            old(self)@.wf(),
        ensures
            final(self)@ == (match old(self)@.layout.home_area(window) {
                Some(area) => old(self)@.over(
                    old(self)@.layout.recentered(
                        old(self)@.layout.members(0),
                        0,
                        window,
                        SnapGrid::center(area),
                        area,
                        now,
                    ),
                ),
                None => old(self)@,
            }),
            final(self)@ == old(self)@.over(old(self)@.layout.closing_ranks(window, now)),
            final(self)@.wf(),
    {
        let area = match work_area_for_window(&self.space, window) {
            Some(area) => area,
            None => return,
        };
        let grid = SnapGrid::centered(area);
        let members = self.snap_members();
        let mut i: usize = 0;
        while i < members.len()
            invariant
                i <= members.len(),
                self@.wf(),
                self@ == old(self)@.over(self@.layout),
                self@.layout.recentered(members@, i as int, window, grid, area, now)
                    == old(self)@.layout.recentered(members@, 0, window, grid, area, now),
            decreases members.len() - i,
        {
            self.recenter_member(members[i], window, grid, area, now);
            i += 1;
        }
    }

    /// Finalize every sibling that was driven along with `window`'s resize, so
    /// they leave the special `Resizing` state and settle on their final size.
    pub fn finish_group_resizes(&mut self, window: u64, serial: Serial)
        requires
            old(self)@.wf(),
        ensures
            final(self)@ == old(self)@.over(
                old(self)@.layout.group_finished(old(self)@.layout.members(0), 0, window, serial),
            ),
            final(self)@.wf(),
    {
        let members = self.snap_members();
        let mut i: usize = 0;
        while i < members.len()
            invariant
                i <= members.len(),
                self@.wf(),
                self@ == old(self)@.over(self@.layout),
                self@.layout.group_finished(members@, i as int, window, serial)
                    == old(self)@.layout.group_finished(members@, 0, window, serial),
            decreases members.len() - i,
        {
            let id = members[i];
            if let Some(other) = self.space.window(id) {
                if id != window && !other.state.header_bar.fullscreen {
                    finish_sibling_resize(id, &mut self.space, serial);
                }
            }
            i += 1;
        }
    }

    /// Take a snapped window out of its zone as a drag starts, restore its
    /// floating size, and return the window origin the drag should start from,
    /// keeping the pointer over the same spot on the titlebar. Returns `None`
    /// for a floating window. Used by the client-initiated move grabs.
    pub fn take_snap_restore_for_drag(
        &mut self,
        window: u64,
        pointer_global: FixedPoint,
        now: Instant,
    ) -> (r: Option<Point>)
        requires
            old(self)@.wf(),
        ensures
            final(self)@ == old(self)@.over(
                old(self)@.layout.drag_unsnapped(window, pointer_global, now),
            ),
            final(self)@.wf(),
            r == (match old(self)@.layout.drag_restore(window, pointer_global, now) {
                Some((loc, _)) => Some(loc),
                None => None,
            }),
    {
        let found = match self.space.window(window) {
            Some(found) => found,
            None => return None,
        };
        let snap = match found.state.snap {
            Some(snap) => snap,
            None => return None,
        };
        let geometry = self.space.element_geometry(window, now);
        let absolute = absolute_geometry(&self.space, &found, snap.floating);
        self.space.put(found.with_snap(None));
        match (geometry, absolute) {
            (Some(geo), Some((_, content))) => {
                let restored = restore_drag_location(
                    geo.loc,
                    geo.size,
                    pointer_global,
                    Some(content),
                    found.is_ssd(),
                );
                self.restore_snapped(window, restored, content, now);
                Some(restored)
            },
            _ => None,
        }
    }
}

/// Whether `grid` leaves the cell of `zone` at least `least`.
pub open spec fn has_room(grid: SnapGrid, zone: SnapZone, least: Size, area: Rectangle) -> bool {
    &&& zone.is_left() && !zone.is_right() ==> least.w <= 0 || grid.x - area.loc.x >= least.w
    &&& zone.is_right() && !zone.is_left() ==> least.w <= 0 || area.right() - grid.x >= least.w
    &&& zone.is_above() && !zone.is_below() ==> least.h <= 0 || grid.y - area.loc.y >= least.h
    &&& zone.is_below() && !zone.is_above() ==> least.h <= 0 || area.bottom() - grid.y >= least.h
}

/// Whether every one of `members`, other than `resizing`, can have its smallest
/// size with the dividers at `grid`.
pub open spec fn all_have_room(
    layout: Layout,
    grid: SnapGrid,
    members: Seq<u64>,
    area: Rectangle,
    resizing: u64,
) -> bool {
    forall|k: int|
        0 <= k < members.len() && members[k] != resizing && layout.window(members[k]) is Some
            && layout.window(members[k])->0.state.snap is Some ==> has_room(
            grid,
            layout.window(#[trigger] members[k])->0.state.snap->0.zone,
            smallest(layout.window(members[k])->0),
            area,
        )
}

/// Where some position of the dividers leaves every member its smallest size,
/// the clamped grid does, whatever was asked for.
pub proof fn clamping_keeps_every_minimum(
    layout: Layout,
    grid: SnapGrid,
    area: Rectangle,
    resizing: u64,
    possible: SnapGrid,
)
    requires
        splittable(area),
        possible.inside(area),
        all_have_room(layout, possible, layout.members(0), area, resizing),
    ensures
        ({
            let clamped = layout.clamped_grid(grid, area, resizing);
            &&& clamped.inside(area)
            &&& all_have_room(layout, clamped, layout.members(0), area, resizing)
        }),
{
    let members = layout.members(0);
    lemma_roomy(layout, grid, members, 0, area, resizing, possible);
    let roomy = layout.roomy_grid(grid, members, 0, area, resizing);
    assert forall|k: int|
        0 <= k < members.len() && members[k] != resizing && layout.window(members[k]) is Some
            && layout.window(members[k])->0.state.snap is Some implies has_room(
        roomy.brought_inside(area),
        layout.window(#[trigger] members[k])->0.state.snap->0.zone,
        smallest(layout.window(members[k])->0),
        area,
    ) by {
        let window = layout.window(members[k])->0;
        assert(has_room(possible, window.state.snap->0.zone, smallest(window), area));
        assert(has_room(roomy, window.state.snap->0.zone, smallest(window), area));
    }
}

/// Making room for each member in turn leaves all of them room, and takes none
/// from any that `possible` has room for.
proof fn lemma_roomy(
    layout: Layout,
    grid: SnapGrid,
    members: Seq<u64>,
    i: int,
    area: Rectangle,
    resizing: u64,
    possible: SnapGrid,
)
    requires
        splittable(area),
        possible.inside(area),
        0 <= i <= members.len(),
        all_have_room(layout, possible, members, area, resizing),
        all_have_room(layout, grid, members.take(i), area, resizing),
    ensures
        all_have_room(
            layout,
            layout.roomy_grid(grid, members, i, area, resizing),
            members,
            area,
            resizing,
        ),
    decreases members.len() - i,
{
    if i < members.len() {
        let next = layout.making_room_for(grid, members[i], area, resizing);
        let seen = members.take(i + 1);
        assert forall|k: int|
            0 <= k < seen.len() && seen[k] != resizing && layout.window(seen[k]) is Some
                && layout.window(seen[k])->0.state.snap is Some implies has_room(
            next,
            layout.window(#[trigger] seen[k])->0.state.snap->0.zone,
            smallest(layout.window(seen[k])->0),
            area,
        ) by {
            assert(seen[k] == members[k]);
            let window = layout.window(members[k])->0;
            assert(has_room(possible, window.state.snap->0.zone, smallest(window), area));
            if layout.window(members[i]) is Some {
                let other = layout.window(members[i])->0;
                if members[i] != resizing && other.state.snap is Some {
                    assert(has_room(possible, other.state.snap->0.zone, smallest(other), area));
                }
            }
            if k < i {
                assert(members.take(i)[k] == members[k]);
                assert(has_room(grid, window.state.snap->0.zone, smallest(window), area));
            }
        }
        lemma_roomy(layout, next, members, i + 1, area, resizing, possible);
    } else {
        assert(members.take(i) =~= members);
    }
}

} // verus!
