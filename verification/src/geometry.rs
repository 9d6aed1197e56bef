//! Work-area and fractional-geometry helpers.
//!
//! Windows remember their floating geometry as fractions of their output's
//! *work area* (the output minus layer-shell exclusive zones), so the layout
//! survives resolution changes and monitor rearrangements. These helpers turn
//! between absolute coordinates and those fractions, and reapply them when an
//! output's mode changes.

use std::time::Instant;
use vstd::prelude::*;

use crate::element::{ClientState, WindowElement};
use crate::snap::SnapGrid;
use crate::space::Space;
use crate::utils::{
    difference, larger, rounded_ratio, saturate, FixedPoint, Point, Rectangle, Size,
};
use crate::xdg::{fullscreen_content_size, maximize_content_size, undecorated_content_size};

verus! {

use crate::element::SurfaceKind;
use crate::space::Layout;
use crate::utils::{fits, lemma_round_between, lemma_round_exact, max, round_ratio, sat32};
use crate::xdg::{fullscreen_size, maximized_size, undecorated};

/// A fraction of a work area's width or height.
#[derive(Debug, Clone, Copy, PartialEq, Eq, Structural)]
pub struct Fraction {
    pub num: i32,
    pub den: i32,
}

impl Fraction {
    /// Whether this is a fraction: its denominator is positive.
    pub open spec fn wf(self) -> bool {
        self.den > 0
    }

    /// This fraction of `length`, counted from `origin`, to the nearest pixel.
    #[verifier::opaque]
    pub open spec fn along(self, origin: int, length: int) -> int {
        sat32(round_ratio(origin * self.den + self.num * length, self.den as int))
    }

    /// This fraction of `length`, counted from `origin`.
    fn of(self, origin: i32, length: i32) -> (r: i32)
        requires
            self.wf(),
        ensures
            r == self.along(origin as int, length as int),
    {
        proof {
            reveal(Fraction::along);
            lemma_products(origin as int, self.den as int);
            lemma_products(self.num as int, length as int);
        }
        let at = origin as i128 * self.den as i128 + self.num as i128 * length as i128;
        saturate(rounded_ratio(at, self.den as i128))
    }
}

proof fn lemma_products(a: int, b: int)
    requires
        fits(a),
        fits(b),
    ensures
        -0x4000_0000_0000_0000 <= a * b <= 0x4000_0000_0000_0000,
{
    assert(-0x4000_0000_0000_0000 <= a * b <= 0x4000_0000_0000_0000) by (nonlinear_arith)
        requires
            -0x8000_0000 <= a <= 0x7fff_ffff,
            -0x8000_0000 <= b <= 0x7fff_ffff,
    ;
}

/// A window's geometry expressed relative to its output's work area.
#[derive(Debug, Clone, Copy, PartialEq, Eq, Structural)]
pub struct RelativeGeometry {
    pub x: Fraction,
    pub y: Fraction,
    pub w: Fraction,
    pub h: Fraction,
}

impl RelativeGeometry {
    /// Whether all four parts are fractions.
    pub open spec fn wf(self) -> bool {
        self.x.wf() && self.y.wf() && self.w.wf() && self.h.wf()
    }

    /// The geometry of a window of `size` at `loc` as fractions of `area`.
    pub open spec fn of_area(loc: Point, size: Size, area: Rectangle) -> RelativeGeometry {
        RelativeGeometry {
            x: Fraction { num: sat32(loc.x - area.loc.x) as i32, den: area.size.w },
            y: Fraction { num: sat32(loc.y - area.loc.y) as i32, den: area.size.h },
            w: Fraction { num: size.w, den: area.size.w },
            h: Fraction { num: size.h, den: area.size.h },
        }
    }

    /// Express a window's geometry as fractions of `area`.
    pub fn capture(loc: Point, size: Size, area: Rectangle) -> (r: Self)
        requires
            area.size.w > 0,
            area.size.h > 0,
        ensures
            r == Self::of_area(loc, size, area),
            r.wf(),
    {
        RelativeGeometry {
            x: Fraction { num: difference(loc.x, area.loc.x), den: area.size.w },
            y: Fraction { num: difference(loc.y, area.loc.y), den: area.size.h },
            w: Fraction { num: size.w, den: area.size.w },
            h: Fraction { num: size.h, den: area.size.h },
        }
    }

    /// Where the window goes in `area`.
    pub open spec fn location_in(self, area: Rectangle) -> Point {
        Point {
            x: self.x.along(area.loc.x as int, area.size.w as int) as i32,
            y: self.y.along(area.loc.y as int, area.size.h as int) as i32,
        }
    }

    /// Turn the position back into an absolute location within `area`.
    pub fn location(&self, area: Rectangle) -> (r: Point)
        requires
            self.wf(),
        ensures
            r == self.location_in(area),
    {
        Point { x: self.x.of(area.loc.x, area.size.w), y: self.y.of(area.loc.y, area.size.h) }
    }

    /// The decorated size the window takes in `area`.
    pub open spec fn size_in(self, area: Rectangle) -> Size {
        Size {
            w: self.w.along(0, area.size.w as int) as i32,
            h: self.h.along(0, area.size.h as int) as i32,
        }
    }

    /// Turn the size back into the (undecorated) content size to configure the
    /// client with.
    pub fn content_size(&self, area: Rectangle, is_ssd: bool) -> (r: Size)
        requires
            self.wf(),
        ensures
            r == undecorated(self.size_in(area), is_ssd),
    {
        let size = Size { w: self.w.of(0, area.size.w), h: self.h.of(0, area.size.h) };
        undecorated_content_size(size, is_ssd)
    }

    /// Whether there is a real size to restore.
    pub open spec fn has_size(self) -> bool {
        self.w.num > 0 && self.h.num > 0
    }
}

/// Where a window returns to.
#[derive(Debug, Clone, Copy, PartialEq, Eq, Structural)]
pub struct RestoreTarget {
    pub loc: Point,
    /// The content size, unless the client keeps its own.
    pub content: Option<Size>,
}

/// The first of `outputs`, from `i` on, that the pixel `loc` lies on.
pub open spec fn first_holding(layout: Layout, outputs: Seq<u64>, loc: Point, i: int) -> Option<u64>
    decreases outputs.len() - i,
{
    if i < 0 || i >= outputs.len() {
        None
    } else {
        match layout.output_geometry(outputs[i]) {
            Some(geo) if geo.has(loc) => Some(outputs[i]),
            _ => first_holding(layout, outputs, loc, i + 1),
        }
    }
}

impl Layout {
    /// The area of the output `id` that floating windows are laid out within.
    #[verifier::opaque]
    pub open spec fn work_area(self, id: u64) -> Option<Rectangle> {
        match self.output(id) {
            Some(output) => match output.geometry {
                Some(geo) if output.zone.size.w > 0 && output.zone.size.h > 0 => Some(
                    Rectangle { loc: geo.loc.moved(output.zone.loc), size: output.zone.size },
                ),
                _ => None,
            },
            None => None,
        }
    }

    /// The output the window `id` belongs to: the first it reaches onto that
    /// holds its corner, else the first it reaches onto, else the first output.
    #[verifier::opaque]
    pub open spec fn home(self, id: u64) -> Option<u64> {
        let outputs = self.outputs_for(id);
        let held = match self.location(id) {
            Some(loc) => first_holding(self, outputs, loc, 0),
            None => None,
        };
        if held is Some {
            held
        } else if outputs.len() > 0 {
            Some(outputs[0])
        } else {
            self.primary()
        }
    }

    /// The work area of the output the window `id` belongs to.
    pub open spec fn home_area(self, id: u64) -> Option<Rectangle> {
        match self.home(id) {
            Some(output) => self.work_area(output),
            None => None,
        }
    }

    /// Where a window dragged to `proposed` may go: not above the work area of
    /// the output under the pointer, or of its own where there is none.
    #[verifier::opaque]
    pub open spec fn kept_below_top(self, id: u64, pointer: FixedPoint, proposed: Point) -> Point {
        let output = match self.output_under(pointer) {
            Some(output) => Some(output),
            None => self.home(id),
        };
        let area = match output {
            Some(output) => self.work_area(output),
            None => None,
        };
        match area {
            Some(area) => Point { x: proposed.x, y: max(proposed.y as int, area.loc.y as int) as i32 },
            None => proposed,
        }
    }

    /// The geometry of the window `id` as fractions of the work area of
    /// `output`.
    #[verifier::opaque]
    pub open spec fn relative_on(self, output: u64, id: u64, now: Instant) -> Option<RelativeGeometry> {
        match (self.work_area(output), self.element_geometry(id, now)) {
            (Some(area), Some(geo)) => Some(RelativeGeometry::of_area(geo.loc, geo.size, area)),
            _ => None,
        }
    }

    /// The geometry of the window `id` as fractions of its output's work area.
    pub open spec fn relative(self, id: u64, now: Instant) -> Option<RelativeGeometry> {
        match self.home(id) {
            Some(output) => self.relative_on(output, id, now),
            None => None,
        }
    }

    /// Where `rel` is on `output`, and the content size it gives.
    #[verifier::opaque]
    pub open spec fn absolute_on(
        self,
        output: u64,
        rel: RelativeGeometry,
        is_ssd: bool,
    ) -> Option<(Point, Size)> {
        match self.work_area(output) {
            Some(area) => Some((rel.location_in(area), undecorated(rel.size_in(area), is_ssd))),
            None => None,
        }
    }

    /// Where `rel` is on the output of the window `id`, and the content size it
    /// gives.
    pub open spec fn absolute(self, id: u64, rel: RelativeGeometry, is_ssd: bool) -> Option<
        (Point, Size),
    > {
        match self.home(id) {
            Some(output) => self.absolute_on(output, rel, is_ssd),
            None => None,
        }
    }

    /// Where the window `id` returns to from `rel`.
    pub open spec fn restored(self, id: u64, rel: RelativeGeometry, is_ssd: bool) -> Option<
        RestoreTarget,
    > {
        match self.home_area(id) {
            Some(area) if !is_ssd || rel.has_size() => Some(
                RestoreTarget {
                    loc: rel.location_in(area),
                    content: if is_ssd {
                        Some(undecorated(rel.size_in(area), true))
                    } else {
                        None
                    },
                },
            ),
            _ => None,
        }
    }
}

/// The area of an output that floating windows are laid out within, i.e. its
/// geometry minus any layer-shell exclusive zones (panels, docks, ...).
pub fn output_work_area(space: &Space, output: u64) -> (r: Option<Rectangle>)
    ensures
        r == space@.work_area(output),
        r is Some ==> r->0.size.w > 0 && r->0.size.h > 0,
{
    reveal(Layout::work_area);
    match space.output(output) {
        Some(output) => match output.geometry {
            Some(geo) => {
                let zone = output.zone;
                if zone.size.w > 0 && zone.size.h > 0 {
                    Some(Rectangle { loc: geo.loc.plus(zone.loc), size: zone.size })
                } else {
                    None
                }
            },
            None => None,
        },
        None => None,
    }
}

/// The output a window belongs to.
///
/// A window may overlap more than one output, e.g. a fullscreen window on a
/// secondary monitor, and its outputs come in no particular order. Prefer the
/// output under the window's top-left corner and only fall back to the arbitrary
/// order/primary output when nothing contains it.
pub fn output_for_window(space: &Space, window: u64) -> (r: Option<u64>)
    ensures
        r == space@.home(window),
{
    reveal(Layout::home);
    let outputs = space.outputs_for_element(window);
    if let Some(loc) = space.element_location(window) {
        let mut i: usize = 0;
        while i < outputs.len()
            invariant
                i <= outputs.len(),
                outputs@ == space@.outputs_for(window),
                first_holding(space@, outputs@, loc, 0) == first_holding(
                    space@,
                    outputs@,
                    loc,
                    i as int,
                ),
                space@.location(window) == Some(loc),
            decreases outputs.len() - i,
        {
            if let Some(geo) = space.output_geometry(outputs[i]) {
                if geo.contains(loc) {
                    reveal(Layout::home);
                    return Some(outputs[i]);
                }
            }
            i += 1;
        }
    }
    if outputs.len() > 0 {
        Some(outputs[0])
    } else {
        space.primary_output()
    }
}

/// The work area of the output a window belongs to.
pub fn work_area_for_window(space: &Space, window: u64) -> (r: Option<Rectangle>)
    ensures
        r == space@.home_area(window),
        r is Some ==> r->0.size.w > 0 && r->0.size.h > 0,
{
    match output_for_window(space, window) {
        Some(output) => output_work_area(space, output),
        None => None,
    }
}

/// Clamp a dragged window's proposed top-left so its titlebar can't be moved
/// under a layer-shell exclusive zone (e.g. a top panel), keeping it grabbable.
/// The output under `pointer` decides which work area applies.
pub fn clamp_window_position(
    space: &Space,
    window: u64,
    pointer: FixedPoint,
    proposed: Point,
) -> (r: Point)
    ensures
        r == space@.kept_below_top(window, pointer, proposed),
{
    reveal(Layout::kept_below_top);
    let output = match space.output_under(pointer) {
        Some(output) => Some(output),
        None => output_for_window(space, window),
    };
    let area = match output {
        Some(output) => output_work_area(space, output),
        None => None,
    };
    match area {
        Some(area) => Point { x: proposed.x, y: larger(proposed.y, area.loc.y) },
        None => proposed,
    }
}

/// Compute a window's geometry as fractions of a specific output's work area.
pub fn relative_geometry_of_output(
    space: &Space,
    output: u64,
    window: u64,
    now: Instant,
) -> (r: Option<RelativeGeometry>)
    requires
        space@.wf(),
    ensures
        r == space@.relative_on(output, window, now),
        r is Some ==> r->0.wf(),
{
    reveal(Layout::relative_on);
    match (output_work_area(space, output), space.element_geometry(window, now)) {
        (Some(area), Some(geo)) => Some(RelativeGeometry::capture(geo.loc, geo.size, area)),
        _ => None,
    }
}

/// Compute a window's geometry as fractions of its output's work area.
pub fn relative_geometry_of(space: &Space, window: u64, now: Instant) -> (r: Option<
    RelativeGeometry,
>)
    requires
        space@.wf(),
    ensures
        r == space@.relative(window, now),
        r is Some ==> r->0.wf(),
{
    match output_for_window(space, window) {
        Some(output) => relative_geometry_of_output(space, output, window, now),
        None => None,
    }
}

/// Turn a fractional geometry's position back into an absolute location against
/// a specific output's work area, without needing a committed size. Used by
/// client-decorated windows, which restore their own size after unmaximizing.
pub fn absolute_location_for_output(space: &Space, output: u64, rel: RelativeGeometry) -> (r: Option<
    Point,
>)
    requires
        rel.wf(),
    ensures
        r == (match space@.work_area(output) {
            Some(area) => Some(rel.location_in(area)),
            None => None,
        }),
{
    match output_work_area(space, output) {
        Some(area) => Some(rel.location(area)),
        None => None,
    }
}

/// Turn a fractional geometry's position back into an absolute location.
pub fn absolute_location(space: &Space, window: u64, rel: RelativeGeometry) -> (r: Option<Point>)
    requires
        rel.wf(),
    ensures
        r == (match space@.home_area(window) {
            Some(area) => Some(rel.location_in(area)),
            None => None,
        }),
{
    match output_for_window(space, window) {
        Some(output) => absolute_location_for_output(space, output, rel),
        None => None,
    }
}

/// Turn a fractional geometry back into an absolute location and the
/// (undecorated) content size to configure the client with, against a specific
/// output's work area.
pub fn absolute_geometry_for_output(
    space: &Space,
    output: u64,
    rel: RelativeGeometry,
    is_ssd: bool,
) -> (r: Option<(Point, Size)>)
    requires
        rel.wf(),
    ensures
        r == space@.absolute_on(output, rel, is_ssd),
{
    reveal(Layout::absolute_on);
    match output_work_area(space, output) {
        Some(area) => Some((rel.location(area), rel.content_size(area, is_ssd))),
        None => None,
    }
}

/// Turn a fractional geometry back into an absolute location and the
/// (undecorated) content size to configure the client with.
pub fn absolute_geometry(space: &Space, window: &WindowElement, rel: RelativeGeometry) -> (r: Option<
    (Point, Size),
>)
    requires
        rel.wf(),
    ensures
        r == space@.absolute(window.id, rel, window.state.is_ssd),
{
    match output_for_window(space, window.id) {
        Some(output) => absolute_geometry_for_output(space, output, rel, window.is_ssd()),
        None => None,
    }
}

/// Resolve where `window` should return to for the given floating geometry.
/// Server-decorated windows restore the compositor-owned content size;
/// client-decorated windows keep their own size (`content: None`), so only the
/// position is restored. A server-decorated window with no real geometry
/// recorded (it maximized before committing) has nothing to restore; the client
/// picks the size.
pub fn restore_target(space: &Space, window: &WindowElement, rel: RelativeGeometry) -> (r: Option<
    RestoreTarget,
>)
    requires
        rel.wf(),
    ensures
        r == space@.restored(window.id, rel, window.state.is_ssd),
{
    match work_area_for_window(space, window.id) {
        Some(area) => {
            let is_ssd = window.is_ssd();
            if is_ssd && (rel.w.num <= 0 || rel.h.num <= 0) {
                return None;
            }
            let content = if is_ssd { Some(rel.content_size(area, true)) } else { None };
            Some(RestoreTarget { loc: rel.location(area), content })
        },
        None => None,
    }
}

impl Layout {
    /// The layout after the window `id` remembered its fractional geometry.
    /// Ghosts, fullscreen and maximized windows do not.
    pub open spec fn captured(self, id: u64, now: Instant) -> Layout {
        match self.window(id) {
            Some(window) if !window.ghosting() && !window.state.header_bar.fullscreen
                && !window.maximized() => match self.relative(id, now) {
                Some(rel) => self.with_window(window.remembering(rel)),
                None => self,
            },
            _ => self,
        }
    }

    /// The layout after each of `windows`, from `i` on, remembered its
    /// fractional geometry.
    pub open spec fn all_captured(self, windows: Seq<u64>, i: int, now: Instant) -> Layout
        decreases windows.len() - i,
    {
        if i < 0 || i >= windows.len() {
            self
        } else {
            self.captured(windows[i], now).all_captured(windows, i + 1, now)
        }
    }

    /// The layout after the Wayland window `window` was told `client` and put at
    /// `loc`.
    pub open spec fn retold(self, window: WindowElement, client: ClientState, loc: Point) -> Layout {
        self.configuring(WindowElement { client, ..window }, true).mapped(window.id, loc, false)
    }

    /// The layout after a floating window went to the fractional geometry it
    /// remembers, if it does.
    pub open spec fn refloated(self, window: WindowElement) -> Layout {
        match window.state.relative {
            Some(rel) => match self.absolute(window.id, rel, window.state.is_ssd) {
                Some((loc, size)) => if window.kind == SurfaceKind::Wayland {
                    self.retold(window, ClientState { size: Some(size), ..window.client }, loc)
                } else {
                    self.mapped(window.id, loc, false)
                },
                None => self,
            },
            None => self,
        }
    }

    /// The layout after the window `id` was laid out anew on an output at `geo`
    /// with the work area `area`. A fullscreen window takes the whole output, a
    /// snapped one its cell of an even grid, a maximized one the area less its
    /// frame; a floating window goes to the fractional geometry it remembers.
    /// Transitions are superseded, and ghosts stay as they are.
    pub open spec fn reapplied(self, id: u64, geo: Rectangle, area: Rectangle) -> Layout {
        match self.window(id) {
            Some(window) if !window.ghosting() => {
                let still = window.stilled();
                let client = window.client;
                let is_ssd = window.state.is_ssd;
                if window.kind == SurfaceKind::Wayland && window.state.header_bar.fullscreen {
                    let size = Some(fullscreen_size(geo.size, is_ssd));
                    self.retold(still, ClientState { fullscreen: true, size, ..client }, geo.loc)
                } else if window.kind == SurfaceKind::Wayland && window.state.snap is Some {
                    let rect = SnapGrid::center(area).cell(window.state.snap->0.zone, area);
                    let size = Some(undecorated(rect.size, is_ssd));
                    self.retold(
                        still.regridded(SnapGrid::center(area)),
                        ClientState { maximized: true, size, ..client },
                        rect.loc,
                    )
                } else if window.kind == SurfaceKind::Wayland && client.maximized {
                    let size = Some(maximized_size(area.size, is_ssd));
                    self.retold(still, ClientState { maximized: true, size, ..client }, area.loc)
                } else {
                    self.with_window(still).refloated(still)
                }
            },
            _ => self,
        }
    }

    /// The layout after each of `windows`, from `i` on, was laid out anew.
    pub open spec fn all_reapplied(
        self,
        windows: Seq<u64>,
        i: int,
        geo: Rectangle,
        area: Rectangle,
    ) -> Layout
        decreases windows.len() - i,
    {
        if i < 0 || i >= windows.len() {
            self
        } else {
            self.reapplied(windows[i], geo, area).all_reapplied(windows, i + 1, geo, area)
        }
    }
}

/// Remember one window's fractional geometry.
fn capture_relative_geometry(space: &mut Space, id: u64, now: Instant)
    requires
        old(space)@.wf(),
    ensures
        final(space)@ == old(space)@.captured(id, now),
        final(space)@.wf(),
{
    if let Some(window) = space.window(id) {
        // Fullscreen and maximized windows are re-configured to the output
        // rather than scaled, so they don't need a snapshot.
        if window.is_ghosting() || window.state.header_bar.fullscreen || window.is_maximized() {
            return;
        }
        if let Some(rel) = relative_geometry_of(space, id, now) {
            space.put(window.with_relative(rel));
        }
    }
}

/// Snapshot every floating window's position and size as a fraction of its
/// output's work area. Call this *before* changing the output's mode.
pub fn capture_relative_geometries(space: &mut Space, output: u64, now: Instant)
    requires
        old(space)@.wf(),
    ensures
        final(space)@ == old(space)@.all_captured(old(space)@.elements_for(output), 0, now),
        final(space)@.wf(),
{
    let windows = space.elements_for_output(output);
    let mut i: usize = 0;
    while i < windows.len()
        invariant
            i <= windows.len(),
            space@.wf(),
            space@.all_captured(windows@, i as int, now) == old(space)@.all_captured(
                windows@,
                0,
                now,
            ),
        decreases windows.len() - i,
    {
        capture_relative_geometry(space, windows[i], now);
        i += 1;
    }
}

/// Tell the client of a Wayland window its new state and put the window at
/// `loc`.
fn retell(space: &mut Space, window: WindowElement, client: ClientState, loc: Point)
    ensures
        final(space)@ == old(space)@.retold(window, client, loc),
        old(space)@.wf() && window.wf() ==> final(space)@.wf(),
{
    space.configure(WindowElement { client, ..window }, true);
    space.map_element(window.id, loc, false);
}

/// Put a floating window back at the fractional geometry it remembers.
fn refloat(space: &mut Space, window: WindowElement)
    requires
        old(space)@.wf(),
        window.wf(),
    ensures
        final(space)@ == old(space)@.refloated(window),
        final(space)@.wf(),
{
    if let Some(rel) = window.state.relative {
        if let Some((loc, size)) = absolute_geometry(space, &window, rel) {
            if window.is_wayland() {
                retell(space, window, ClientState { size: Some(size), ..window.client }, loc);
            } else {
                space.map_element(window.id, loc, false);
            }
        }
    }
}

/// Lay one window out anew on an output at `geo` with the work area `area`.
fn reapply_relative_geometry(space: &mut Space, id: u64, geo: Rectangle, area: Rectangle)
    requires
        old(space)@.wf(),
    ensures
        final(space)@ == old(space)@.reapplied(id, geo, area),
        final(space)@.wf(),
{
    let window = match space.window(id) {
        Some(window) => window,
        None => return,
    };
    if window.is_ghosting() {
        return;
    }
    // An output mode change re-lays out every window, so any in-flight
    // transition is superseded by the new geometry.
    let still = window.without_animation();
    let is_ssd = window.is_ssd();
    let client = window.client;
    if window.is_wayland() {
        if window.state.header_bar.fullscreen {
            // It covers the whole output, including any exclusive zone.
            let size = Some(fullscreen_content_size(geo.size, is_ssd));
            retell(space, still, ClientState { fullscreen: true, size, ..client }, geo.loc);
            return;
        }
        // A snapped window is reconfigured to its cell in the new work area, not
        // maximized to the whole output.
        if let Some(zone) = window.state.snap_zone() {
            let grid = SnapGrid::centered(area);
            let rect = grid.rect(zone, area);
            let size = Some(undecorated_content_size(rect.size, is_ssd));
            retell(
                space,
                still.with_grid(grid),
                ClientState { maximized: true, size, ..client },
                rect.loc,
            );
            return;
        }
        if window.is_maximized() {
            let size = Some(maximize_content_size(area.size, is_ssd));
            retell(space, still, ClientState { maximized: true, size, ..client }, area.loc);
            return;
        }
    }
    space.put(still);
    refloat(space, still);
}

/// Reapply fractional geometry against the output's (possibly new) work area,
/// and refresh fullscreen/maximized windows to the new output size. Call this
/// *after* the output's mode has changed.
pub fn apply_relative_geometries(space: &mut Space, output: u64)
    requires
        old(space)@.wf(),
    ensures
        final(space)@ == (match old(space)@.output_geometry(output) {
            Some(geo) => {
                let area = match old(space)@.work_area(output) {
                    Some(area) => area,
                    None => geo,
                };
                old(space)@.all_reapplied(old(space)@.elements_for(output), 0, geo, area)
            },
            None => old(space)@,
        }),
        final(space)@.wf(),
{
    let geo = match space.output_geometry(output) {
        Some(geo) => geo,
        None => return,
    };
    let area = match output_work_area(space, output) {
        Some(area) => area,
        None => geo,
    };
    let windows = space.elements_for_output(output);
    let mut i: usize = 0;
    while i < windows.len()
        invariant
            i <= windows.len(),
            space@.wf(),
            space@.all_reapplied(windows@, i as int, geo, area) == old(space)@.all_reapplied(
                windows@,
                0,
                geo,
                area,
            ),
        decreases windows.len() - i,
    {
        reapply_relative_geometry(space, windows[i], geo, area);
        i += 1;
    }
}

/// A dragged window never goes above the work area it is dragged over, and only
/// its height is ever corrected.
pub proof fn dragged_windows_stay_below_the_top(
    layout: Layout,
    id: u64,
    pointer: FixedPoint,
    proposed: Point,
)
    requires
        layout.output_under(pointer) is Some,
        layout.work_area(layout.output_under(pointer)->0) is Some,
    ensures
        ({
            let area = layout.work_area(layout.output_under(pointer)->0)->0;
            let kept = layout.kept_below_top(id, pointer, proposed);
            &&& kept.x == proposed.x
            &&& kept.y >= area.loc.y
            &&& proposed.y >= area.loc.y ==> kept == proposed
        }),
{
    reveal(Layout::kept_below_top);
}

/// A floating window whose geometry is captured and reapplied on an unchanged
/// work area gets back to the place and the frame it had.
pub proof fn unchanged_output_keeps_floating_windows(
    layout: Layout,
    id: u64,
    is_ssd: bool,
    now: Instant,
)
    requires
        layout.relative(id, now) is Some,
        layout.home_area(id) is Some,
        layout.element_geometry(id, now) is Some,
        ({
            let area = layout.home_area(id)->0;
            let loc = layout.element_geometry(id, now)->0.loc;
            fits(loc.x - area.loc.x) && fits(loc.y - area.loc.y)
        }),
    ensures
        ({
            let geo = layout.element_geometry(id, now)->0;
            layout.absolute(id, layout.relative(id, now)->0, is_ssd) == Some(
                (geo.loc, undecorated(geo.size, is_ssd)),
            )
        }),
{
    reveal(Layout::relative_on);
    reveal(Layout::absolute_on);
    reveal(Layout::work_area);
    let geo = layout.element_geometry(id, now)->0;
    let area = layout.home_area(id)->0;
    capture_then_restore_is_exact(geo.loc, geo.size, area);
}

/// Restoring a geometry against the work area it was captured on puts the
/// window back where it was, at the size it had.
pub proof fn capture_then_restore_is_exact(loc: Point, size: Size, area: Rectangle)
    requires
        area.size.w > 0,
        area.size.h > 0,
        fits(loc.x - area.loc.x),
        fits(loc.y - area.loc.y),
    ensures
        RelativeGeometry::of_area(loc, size, area).location_in(area) == loc,
        RelativeGeometry::of_area(loc, size, area).size_in(area) == size,
{
    reveal(Fraction::along);
    let rel = RelativeGeometry::of_area(loc, size, area);
    let w = area.size.w as int;
    let h = area.size.h as int;
    assert(area.loc.x * w + rel.x.num * w == loc.x * w) by (nonlinear_arith)
        requires
            rel.x.num == loc.x - area.loc.x,
    ;
    assert(area.loc.y * h + rel.y.num * h == loc.y * h) by (nonlinear_arith)
        requires
            rel.y.num == loc.y - area.loc.y,
    ;
    lemma_round_exact(loc.x as int, w);
    lemma_round_exact(loc.y as int, h);
    lemma_round_exact(size.w as int, w);
    lemma_round_exact(size.h as int, h);
    assert(0 * w == 0 && 0 * h == 0);
}

/// A window whose top-left corner was inside the work area it was captured on
/// is restored inside whatever work area it comes back to.
pub proof fn restored_corner_stays_in_the_area(rel: RelativeGeometry, area: Rectangle)
    requires
        rel.wf(),
        0 <= rel.x.num <= rel.x.den,
        0 <= rel.y.num <= rel.y.den,
        area.size.w >= 0,
        area.size.h >= 0,
        area.edges_fit(),
    ensures
        area.loc.x <= rel.location_in(area).x <= area.right(),
        area.loc.y <= rel.location_in(area).y <= area.bottom(),
{
    lemma_along_stays(rel.x, area.loc.x as int, area.size.w as int);
    lemma_along_stays(rel.y, area.loc.y as int, area.size.h as int);
}

proof fn lemma_along_stays(fraction: Fraction, origin: int, length: int)
    requires
        fraction.wf(),
        0 <= fraction.num <= fraction.den,
        0 <= length,
        fits(origin),
        fits(origin + length),
    ensures
        origin <= fraction.along(origin, length) <= origin + length,
{
    reveal(Fraction::along);
    let den = fraction.den as int;
    let at = origin * den + fraction.num * length;
    assert(origin * den <= at <= (origin + length) * den) by (nonlinear_arith)
        requires
            0 <= fraction.num <= den,
            0 <= length,
            at == origin * den + fraction.num * length,
    ;
    lemma_round_between(at, den, origin, origin + length);
}

} // verus!
