//! Pointer-driven window snapping.
//!
//! While a window is being dragged, the pointer position is resolved against
//! the work area of the output under it. Releasing the drag inside one of the
//! edge bands tiles the window there:
//!
//! ```text
//!  +-----+-----+   corners  -> quarters
//!  | TL  | TR  |   sides    -> halves
//!  +-----+-----+   bottom   -> bottom half
//!  | BL  | BR  |   top      -> maximize (like the titlebar button), or top
//!  +-----+-----+               half when the bottom half is already occupied
//! ```

use std::time::Instant;
use vstd::prelude::*;

use crate::animation::Ratio;
use crate::clock::elapsed_nanos;
use crate::geometry::{Fraction, RelativeGeometry};
use crate::utils::{difference, sum, FixedPoint, Point, Rectangle, Size, FIXED_ONE};

verus! {

use crate::clock::elapsed;
use crate::utils::{clamp, max, min, sat32, trunc_ratio};

/// How far (in logical pixels) from a work-area edge the pointer must be for
/// that edge to count as "slammed".
pub const SNAP_EDGE_MARGIN: i32 = 16;

/// How long the pointer must stay in a zone before its preview appears, in
/// nanoseconds.
pub const SNAP_PREVIEW_DWELL_NANOS: u128 = 100_000_000;

/// How long the preview takes to fade in or out, in nanoseconds.
pub const SNAP_PREVIEW_FADE_NANOS: u128 = 150_000_000;

/// One of the tile targets a dragged window can snap to.
#[derive(Debug, Clone, Copy, PartialEq, Eq, Structural)]
pub enum SnapZone {
    LeftHalf,
    RightHalf,
    TopHalf,
    BottomHalf,
    TopLeft,
    TopRight,
    BottomLeft,
    BottomRight,
    Maximize,
}

impl SnapZone {
    /// Whether this zone reaches the work area's left edge.
    pub open spec fn is_left(self) -> bool {
        !(self is RightHalf || self is TopRight || self is BottomRight)
    }

    /// Whether this zone reaches the work area's right edge.
    pub open spec fn is_right(self) -> bool {
        !(self is LeftHalf || self is TopLeft || self is BottomLeft)
    }

    /// Whether this zone reaches the work area's top edge.
    pub open spec fn is_above(self) -> bool {
        !(self is BottomHalf || self is BottomLeft || self is BottomRight)
    }

    /// Whether this zone reaches the work area's bottom edge.
    pub open spec fn is_below(self) -> bool {
        !(self is TopHalf || self is TopLeft || self is TopRight)
    }

    /// The zone as fractions of a work area: the left and top edge it starts
    /// at, and the share of the width and height it takes, all in halves.
    pub open spec fn halves(self) -> (int, int, int, int) {
        (
            if self.is_left() { 0 } else { 1 },
            if self.is_above() { 0 } else { 1 },
            if self.is_left() && self.is_right() { 2 } else { 1 },
            if self.is_above() && self.is_below() { 2 } else { 1 },
        )
    }

    /// The zone as fractions of a work area.
    pub fn relative(self) -> (r: RelativeGeometry)
        ensures
            r.x.den == 2 && r.y.den == 2 && r.w.den == 2 && r.h.den == 2,
            (r.x.num as int, r.y.num as int, r.w.num as int, r.h.num as int) == self.halves(),
    {
        let (x, y, w, h): (i32, i32, i32, i32) = match self {
            SnapZone::LeftHalf => (0, 0, 1, 2),
            SnapZone::RightHalf => (1, 0, 1, 2),
            SnapZone::TopHalf => (0, 0, 2, 1),
            SnapZone::BottomHalf => (0, 1, 2, 1),
            SnapZone::TopLeft => (0, 0, 1, 1),
            SnapZone::TopRight => (1, 0, 1, 1),
            SnapZone::BottomLeft => (0, 1, 1, 1),
            SnapZone::BottomRight => (1, 1, 1, 1),
            SnapZone::Maximize => (0, 0, 2, 2),
        };
        RelativeGeometry {
            x: Fraction { num: x, den: 2 },
            y: Fraction { num: y, den: 2 },
            w: Fraction { num: w, den: 2 },
            h: Fraction { num: h, den: 2 },
        }
    }

    /// Whether this zone includes the work area's left edge.
    pub fn left_of_center(self) -> (r: bool)
        ensures
            r == self.is_left(),
    {
        matches!(
            self,
            SnapZone::LeftHalf | SnapZone::TopLeft | SnapZone::BottomLeft | SnapZone::TopHalf
                | SnapZone::BottomHalf | SnapZone::Maximize
        )
    }

    /// Whether this zone includes the work area's right edge.
    pub fn right_of_center(self) -> (r: bool)
        ensures
            r == self.is_right(),
    {
        matches!(
            self,
            SnapZone::RightHalf | SnapZone::TopRight | SnapZone::BottomRight | SnapZone::TopHalf
                | SnapZone::BottomHalf | SnapZone::Maximize
        )
    }

    /// Whether this zone includes the work area's top edge.
    pub fn above_center(self) -> (r: bool)
        ensures
            r == self.is_above(),
    {
        matches!(
            self,
            SnapZone::TopHalf | SnapZone::TopLeft | SnapZone::TopRight | SnapZone::LeftHalf
                | SnapZone::RightHalf | SnapZone::Maximize
        )
    }

    /// Whether this zone includes the work area's bottom edge.
    pub fn below_center(self) -> (r: bool)
        ensures
            r == self.is_below(),
    {
        matches!(
            self,
            SnapZone::BottomHalf | SnapZone::BottomLeft | SnapZone::BottomRight | SnapZone::LeftHalf
                | SnapZone::RightHalf | SnapZone::Maximize
        )
    }

    /// Whether the zone spans the full width (a horizontal half or maximize).
    pub fn spans_width(self) -> (r: bool)
        ensures
            r == (self.is_left() && self.is_right()),
    {
        self.left_of_center() && self.right_of_center()
    }

    /// Whether the zone spans the full height (a vertical half or maximize).
    pub fn spans_height(self) -> (r: bool)
        ensures
            r == (self.is_above() && self.is_below()),
    {
        self.above_center() && self.below_center()
    }

    /// The absolute rectangle this zone covers within `area`.
    ///
    /// A zone that spans a full axis (a half or maximize) ignores that axis's
    /// divider; quarters use both dividers.
    pub fn rect(self, area: Rectangle) -> (r: Rectangle)
        ensures
            r == SnapGrid::center(area).cell(self, area),
    {
        SnapGrid::centered(area).rect(self, area)
    }
}

/// The two dividers (column x, row y) a snapped layout is built from. Any zone
/// is a region of the work area cut by these dividers; a zone spanning an axis
/// ignores that axis's divider.
#[derive(Debug, Clone, Copy, PartialEq, Eq, Structural)]
pub struct SnapGrid {
    pub x: i32,
    pub y: i32,
}

impl SnapGrid {
    /// The even grid: both dividers in the middle of `area`.
    pub open spec fn center(area: Rectangle) -> SnapGrid {
        SnapGrid {
            x: sat32(area.loc.x + trunc_ratio(area.size.w as int, 2)) as i32,
            y: sat32(area.loc.y + trunc_ratio(area.size.h as int, 2)) as i32,
        }
    }

    /// The default even grid for a work area.
    pub fn centered(area: Rectangle) -> (r: Self)
        ensures
            r == Self::center(area),
    {
        SnapGrid { x: sum(area.loc.x, half(area.size.w)), y: sum(area.loc.y, half(area.size.h)) }
    }

    /// The columns `zone` takes: where it starts and where it ends.
    pub open spec fn columns(self, zone: SnapZone, area: Rectangle) -> (int, int) {
        (
            if zone.is_left() { area.loc.x as int } else { self.x as int },
            if zone.is_right() { area.right_edge() } else { self.x as int },
        )
    }

    /// The rows `zone` takes: where it starts and where it ends.
    pub open spec fn rows(self, zone: SnapZone, area: Rectangle) -> (int, int) {
        (
            if zone.is_above() { area.loc.y as int } else { self.y as int },
            if zone.is_below() { area.bottom_edge() } else { self.y as int },
        )
    }

    /// The rectangle `zone` occupies within `area` for this grid: the region
    /// between its columns and rows, at least one pixel in each direction. A
    /// maximized window takes the area as it is.
    pub open spec fn cell(self, zone: SnapZone, area: Rectangle) -> Rectangle {
        if zone is Maximize {
            area
        } else {
            let (x0, x1) = self.columns(zone, area);
            let (y0, y1) = self.rows(zone, area);
            Rectangle {
                loc: Point { x: x0 as i32, y: y0 as i32 },
                size: Size { w: max(sat32(x1 - x0), 1) as i32, h: max(sat32(y1 - y0), 1) as i32 },
            }
        }
    }

    /// The rectangle `zone` occupies within `area` for this grid.
    pub fn rect(self, zone: SnapZone, area: Rectangle) -> (r: Rectangle)
        ensures
            r == self.cell(zone, area),
    {
        if zone == SnapZone::Maximize {
            return area;
        }
        let left = area.loc.x;
        let top = area.loc.y;
        let right = sum(area.loc.x, area.size.w);
        let bottom = sum(area.loc.y, area.size.h);
        let (x0, x1) = if zone.spans_width() {
            (left, right)
        } else if zone.left_of_center() {
            (left, self.x)
        } else {
            (self.x, right)
        };
        let (y0, y1) = if zone.spans_height() {
            (top, bottom)
        } else if zone.above_center() {
            (top, self.y)
        } else {
            (self.y, bottom)
        };
        let w = difference(x1, x0);
        let h = difference(y1, y0);
        Rectangle {
            loc: Point { x: x0, y: y0 },
            size: Size { w: if w > 1 { w } else { 1 }, h: if h > 1 { h } else { 1 } },
        }
    }

    /// Whether dragging moves the column divider of `zone`.
    pub open spec fn moves_column(zone: SnapZone, dragged: Edges) -> bool {
        (dragged.left || dragged.right) && !(zone.is_left() && zone.is_right())
    }

    /// Whether dragging moves the row divider of `zone`.
    pub open spec fn moves_row(zone: SnapZone, dragged: Edges) -> bool {
        (dragged.top || dragged.bottom) && !(zone.is_above() && zone.is_below())
    }

    /// Where the column divider has to be for `zone` to be `width` wide.
    pub open spec fn column_for(zone: SnapZone, area: Rectangle, width: int) -> int {
        if zone.is_left() {
            area.loc.x + width
        } else {
            area.right() - width
        }
    }

    /// Where the row divider has to be for `zone` to be `height` tall.
    pub open spec fn row_for(zone: SnapZone, area: Rectangle, height: int) -> int {
        if zone.is_above() {
            area.loc.y + height
        } else {
            area.bottom() - height
        }
    }

    /// Whether the area has room for a divider on each axis that a drag moves.
    pub open spec fn drag_fits(zone: SnapZone, area: Rectangle, dragged: Edges) -> bool {
        &&& area.edges_fit()
        &&& Self::moves_column(zone, dragged) ==> area.size.w >= 2
        &&& Self::moves_row(zone, dragged) ==> area.size.h >= 2
    }

    /// The grid after `zone` was dragged to its `intended` size: each divider
    /// that moves goes where the zone has that size, kept inside the area.
    pub open spec fn dragged_to(
        self,
        zone: SnapZone,
        area: Rectangle,
        dragged: Edges,
        intended: Size,
    ) -> SnapGrid {
        SnapGrid {
            x: if Self::moves_column(zone, dragged) {
                clamp(
                    Self::column_for(zone, area, intended.w as int),
                    area.loc.x + 1,
                    area.right() - 1,
                ) as i32
            } else {
                self.x
            },
            y: if Self::moves_row(zone, dragged) {
                clamp(
                    Self::row_for(zone, area, intended.h as int),
                    area.loc.y + 1,
                    area.bottom() - 1,
                ) as i32
            } else {
                self.y
            },
        }
    }

    /// Move the divider(s) the resized `zone` controls to match its `intended`
    /// size, keeping the dividers inside the area.
    ///
    /// A left/above cell pushes the divider right/down as it grows; a
    /// right/below cell pushes it left/up. A zone spanning an axis has no
    /// divider to move on that axis.
    pub fn with_dragged_edges(
        self,
        zone: SnapZone,
        area: Rectangle,
        dragged: Edges,
        intended: Size,
    ) -> (r: Self)
        requires
            Self::drag_fits(zone, area, dragged),
        ensures
            r == self.dragged_to(zone, area, dragged, intended),
    {
        let left = area.loc.x;
        let top = area.loc.y;
        let right = area.loc.x + area.size.w;
        let bottom = area.loc.y + area.size.h;
        let mut grid = self;

        if (dragged.left || dragged.right) && !zone.spans_width() {
            let moved = if zone.left_of_center() {
                sum(left, intended.w)
            } else {
                difference(right, intended.w)
            };
            grid.x = clamped(moved, left + 1, right - 1);
        }
        if (dragged.top || dragged.bottom) && !zone.spans_height() {
            let moved = if zone.above_center() {
                sum(top, intended.h)
            } else {
                difference(bottom, intended.h)
            };
            grid.y = clamped(moved, top + 1, bottom - 1);
        }
        grid
    }

    /// Whether both dividers lie strictly inside `area`.
    pub open spec fn inside(self, area: Rectangle) -> bool {
        &&& area.loc.x < self.x < area.right()
        &&& area.loc.y < self.y < area.bottom()
    }
}

/// `v / 2` with the fraction dropped.
fn half(v: i32) -> (r: i32)
    ensures
        r == trunc_ratio(v as int, 2),
{
    if v >= 0 {
        v / 2
    } else {
        -((-(v as i64)) / 2) as i32
    }
}

/// `v` limited to `lo..=hi`.
pub fn clamped(v: i32, lo: i32, hi: i32) -> (r: i32)
    requires
        lo <= hi,
    ensures
        r == clamp(v as int, lo as int, hi as int),
{
    if v < lo {
        lo
    } else if v > hi {
        hi
    } else {
        v
    }
}

/// Which edges an interactive resize is dragging.
#[derive(Debug, Clone, Copy, PartialEq, Eq, Structural)]
pub struct Edges {
    pub left: bool,
    pub right: bool,
    pub top: bool,
    pub bottom: bool,
}

impl Default for Edges {
    fn default() -> (r: Self)
        ensures
            r == (Edges { left: false, right: false, top: false, bottom: false }),
    {
        Edges { left: false, right: false, top: false, bottom: false }
    }
}

/// Whether `point` is in the band along the left edge of `area`.
pub open spec fn near_left(area: Rectangle, point: FixedPoint) -> bool {
    point.x <= (area.loc.x + SNAP_EDGE_MARGIN) * FIXED_ONE
}

/// Whether `point` is in the band along the right edge of `area`.
pub open spec fn near_right(area: Rectangle, point: FixedPoint) -> bool {
    point.x >= (area.right() - SNAP_EDGE_MARGIN) * FIXED_ONE
}

/// Whether `point` is in the band along the top edge of `area`.
pub open spec fn near_top(area: Rectangle, point: FixedPoint) -> bool {
    point.y <= (area.loc.y + SNAP_EDGE_MARGIN) * FIXED_ONE
}

/// Whether `point` is in the band along the bottom edge of `area`.
pub open spec fn near_bottom(area: Rectangle, point: FixedPoint) -> bool {
    point.y >= (area.bottom() - SNAP_EDGE_MARGIN) * FIXED_ONE
}

/// The zone of a point by the edge bands it is in. Corners win over sides; on
/// an area too narrow to tell opposite edges apart, left and top win, and a
/// corner on the top row wins over one on the bottom row.
pub open spec fn zone_of(area: Rectangle, point: FixedPoint) -> Option<SnapZone> {
    let left = near_left(area, point);
    let right = near_right(area, point);
    let top = near_top(area, point);
    let bottom = near_bottom(area, point);
    if left && top {
        Some(SnapZone::TopLeft)
    } else if right && top {
        Some(SnapZone::TopRight)
    } else if left && bottom {
        Some(SnapZone::BottomLeft)
    } else if right && bottom {
        Some(SnapZone::BottomRight)
    } else if left {
        Some(SnapZone::LeftHalf)
    } else if right {
        Some(SnapZone::RightHalf)
    } else if top {
        Some(SnapZone::TopHalf)
    } else if bottom {
        Some(SnapZone::BottomHalf)
    } else {
        None
    }
}

/// The zone a global pointer position falls into within `area`, if any.
///
/// The top edge alone yields [`SnapZone::TopHalf`]; the caller may downgrade
/// that to fullscreen when the bottom half is free.
pub fn zone_at(area: Rectangle, point: FixedPoint) -> (r: Option<SnapZone>)
    ensures
        r == zone_of(area, point),
{
    let left = point.x <= (area.loc.x as i64 + SNAP_EDGE_MARGIN as i64) * FIXED_ONE;
    let right = point.x >= (area.loc.x as i64 + area.size.w as i64 - SNAP_EDGE_MARGIN as i64) * FIXED_ONE;
    let top = point.y <= (area.loc.y as i64 + SNAP_EDGE_MARGIN as i64) * FIXED_ONE;
    let bottom = point.y >= (area.loc.y as i64 + area.size.h as i64 - SNAP_EDGE_MARGIN as i64) * FIXED_ONE;
    match (left, right, top, bottom) {
        (true, _, true, _) => Some(SnapZone::TopLeft),
        (_, true, true, _) => Some(SnapZone::TopRight),
        (true, _, _, true) => Some(SnapZone::BottomLeft),
        (_, true, _, true) => Some(SnapZone::BottomRight),
        (true, _, _, _) => Some(SnapZone::LeftHalf),
        (_, true, _, _) => Some(SnapZone::RightHalf),
        (_, _, true, _) => Some(SnapZone::TopHalf),
        (_, _, _, true) => Some(SnapZone::BottomHalf),
        _ => None,
    }
}

/// Where a dragged window would land if released right now.
#[derive(Debug, Clone, Copy, PartialEq, Eq, Structural)]
pub struct SnapTarget {
    pub output: u64,
    pub area: Rectangle,
    pub zone: SnapZone,
}

/// The snap a window is tiled by.
#[derive(Debug, Clone, Copy, PartialEq, Eq, Structural)]
pub struct Snap {
    /// The zone the window is tiled into.
    pub zone: SnapZone,
    /// The divider grid the window's snap group is laid out on. Shared by the
    /// group, updated when a resize moves a divider.
    pub grid: SnapGrid,
    /// The floating geometry to restore when the window leaves its zone.
    pub floating: RelativeGeometry,
}

/// The translucent preview of the active snap target, kept with the output it
/// belongs to.
///
/// The rectangle is kept while the preview fades out, and cleared once it is
/// fully transparent.
#[derive(Debug, Clone, Copy)]
pub struct SnapPreviewState {
    pub rect: Option<Rectangle>,
    /// How much of the fade-in has played, in nanoseconds.
    pub level: u128,
    /// Whether the preview fades in rather than out.
    pub shown: bool,
    pub last_update: Instant,
}

impl Default for SnapPreviewState {
    fn default() -> (r: Self)
        ensures
            r.rect is None,
            r.level == 0,
            !r.shown,
    {
        Self::hidden_at(Instant::now())
    }
}

impl SnapPreviewState {
    /// An invisible preview that was last advanced at `now`.
    pub fn hidden_at(now: Instant) -> (r: Self)
        ensures
            r == (SnapPreviewState { rect: None, level: 0, shown: false, last_update: now }),
    {
        SnapPreviewState { rect: None, level: 0, shown: false, last_update: now }
    }

    /// Whether the level lies within the fade.
    pub open spec fn wf(self) -> bool {
        self.level <= SNAP_PREVIEW_FADE_NANOS
    }

    /// Show `rect`, fading in from the current alpha.
    pub fn show(&mut self, rect: Rectangle)
        ensures
            *final(self) == (SnapPreviewState { rect: Some(rect), shown: true, ..*old(self) }),
    {
        self.rect = Some(rect);
        self.shown = true;
    }

    /// Fade the preview out; the rectangle is retained until it is invisible.
    pub fn fade_out(&mut self)
        ensures
            *final(self) == (SnapPreviewState { shown: false, ..*old(self) }),
    {
        self.shown = false;
    }

    /// The current opacity.
    pub fn alpha(&self) -> (r: Ratio)
        ensures
            r == (Ratio { num: self.level, den: SNAP_PREVIEW_FADE_NANOS }),
    {
        Ratio { num: self.level, den: SNAP_PREVIEW_FADE_NANOS }
    }

    /// The preview rectangle, present while it is visible or fading out.
    pub fn get(&self) -> (r: Option<Rectangle>)
        ensures
            r == self.rect,
    {
        self.rect
    }

    /// The level the fade is heading for.
    pub open spec fn target(self) -> int {
        if self.shown {
            SNAP_PREVIEW_FADE_NANOS as int
        } else {
            0
        }
    }

    /// The level `dt` nanoseconds further towards the target.
    pub open spec fn level_after(self, dt: int) -> int {
        if self.level < self.target() {
            min(self.level + dt, self.target())
        } else {
            max(self.level - dt, self.target())
        }
    }

    /// The preview at `now`: the fade has moved by the time since the last
    /// update, and the rectangle of a preview that fades out is gone once nothing
    /// of it is visible.
    pub open spec fn advanced(self, now: Instant) -> SnapPreviewState {
        let level = self.level_after(elapsed(now, self.last_update));
        SnapPreviewState {
            rect: if level == 0 && !self.shown { None } else { self.rect },
            level: level as u128,
            shown: self.shown,
            last_update: now,
        }
    }

    /// Advance the fade towards its target. Returns whether it changed.
    pub fn tick(&mut self, now: Instant) -> (r: bool)
        ensures
            *final(self) == old(self).advanced(now),
            r == (final(self).level != old(self).level),
    {
        let dt = elapsed_nanos(now, self.last_update);
        self.last_update = now;
        let target = if self.shown { SNAP_PREVIEW_FADE_NANOS } else { 0 };
        if self.level == target {
            if target == 0 {
                self.rect = None;
            }
            return false;
        }
        let next = if self.level < target {
            if dt < target - self.level { self.level + dt } else { target }
        } else {
            if dt < self.level - target { self.level - dt } else { target }
        };
        let changed = next != self.level;
        self.level = next;
        if next == 0 && !self.shown {
            self.rect = None;
        }
        changed
    }
}

/// The halves of an even grid tile the work area without a gap or an overlap.
pub proof fn halves_tile_the_area(area: Rectangle)
    requires
        area.edges_fit(),
        area.size.w >= 2,
        area.size.h >= 2,
    ensures
        ({
            let grid = SnapGrid::center(area);
            let left = grid.cell(SnapZone::LeftHalf, area);
            let right = grid.cell(SnapZone::RightHalf, area);
            let top = grid.cell(SnapZone::TopHalf, area);
            let bottom = grid.cell(SnapZone::BottomHalf, area);
            &&& grid.inside(area)
            &&& left.size.w + right.size.w == area.size.w
            &&& left.right() == right.loc.x
            &&& left.size.h == area.size.h && right.size.h == area.size.h
            &&& top.size.h + bottom.size.h == area.size.h
            &&& top.bottom() == bottom.loc.y
            &&& top.size.w == area.size.w && bottom.size.w == area.size.w
        }),
{
}

/// With both dividers inside the work area, every pixel of it lies in exactly
/// one of the four quarters, and no quarter reaches outside it.
pub proof fn quarters_tile_the_area(grid: SnapGrid, area: Rectangle, p: Point)
    requires
        area.edges_fit(),
        grid.inside(area),
    ensures
        ({
            let tl = grid.cell(SnapZone::TopLeft, area).has(p);
            let tr = grid.cell(SnapZone::TopRight, area).has(p);
            let bl = grid.cell(SnapZone::BottomLeft, area).has(p);
            let br = grid.cell(SnapZone::BottomRight, area).has(p);
            &&& area.has(p) <==> (tl || tr || bl || br)
            &&& !(tl && (tr || bl || br))
            &&& !(tr && (bl || br))
            &&& !(bl && br)
        }),
{
}

/// A drag keeps dividers that are inside the work area inside it, so every cell
/// of the group stays inside too and keeps at least one pixel.
pub proof fn dragging_keeps_dividers_inside(
    grid: SnapGrid,
    zone: SnapZone,
    area: Rectangle,
    dragged: Edges,
    intended: Size,
    member: SnapZone,
)
    requires
        area.edges_fit(),
        grid.inside(area),
        SnapGrid::drag_fits(zone, area, dragged),
    ensures
        ({
            let moved = grid.dragged_to(zone, area, dragged, intended);
            let cell = moved.cell(member, area);
            &&& moved.inside(area)
            &&& area.loc.x <= cell.loc.x && cell.right() <= area.right()
            &&& area.loc.y <= cell.loc.y && cell.bottom() <= area.bottom()
            &&& cell.size.w >= 1 && cell.size.h >= 1
        }),
{
}

/// A quarter dragged on both axes to a size that leaves its neighbours at least
/// one pixel gets exactly that size, and its neighbours share what is left.
pub proof fn dragged_quarter_gets_its_size(
    grid: SnapGrid,
    zone: SnapZone,
    area: Rectangle,
    dragged: Edges,
    intended: Size,
)
    requires
        area.edges_fit(),
        SnapGrid::moves_column(zone, dragged),
        SnapGrid::moves_row(zone, dragged),
        1 <= intended.w < area.size.w,
        1 <= intended.h < area.size.h,
    ensures
        SnapGrid::drag_fits(zone, area, dragged),
        grid.dragged_to(zone, area, dragged, intended).cell(zone, area).size == intended,
        ({
            let moved = grid.dragged_to(zone, area, dragged, intended);
            forall|other: SnapZone|
                #![trigger moved.cell(other, area)]
                !(other is Maximize) ==> {
                    let cell = moved.cell(other, area);
                    &&& cell.size.w == (if other.is_left() && other.is_right() {
                        area.size.w as int
                    } else if other.is_left() == zone.is_left() {
                        intended.w as int
                    } else {
                        area.size.w - intended.w
                    })
                    &&& cell.size.h == (if other.is_above() && other.is_below() {
                        area.size.h as int
                    } else if other.is_above() == zone.is_above() {
                        intended.h as int
                    } else {
                        area.size.h - intended.h
                    })
                }
        }),
{
}

/// A preview keeps its rectangle for as long as it is shown or anything of it is
/// visible, and drops it once it has faded out.
pub proof fn preview_keeps_its_rect_while_visible(preview: SnapPreviewState, now: Instant)
    requires
        preview.wf(),
    ensures
        preview.shown || preview.advanced(now).level > 0 ==> preview.advanced(now).rect
            == preview.rect,
        !preview.shown && preview.advanced(now).level == 0 ==> preview.advanced(now).rect is None,
{
}

/// A preview that is shown, or hidden, for the length of the fade is fully
/// opaque, or gone.
pub proof fn preview_fade_completes(preview: SnapPreviewState, now: Instant)
    requires
        preview.wf(),
        elapsed(now, preview.last_update) >= SNAP_PREVIEW_FADE_NANOS,
    ensures
        preview.advanced(now).level == preview.target(),
{
}

} // verus!
