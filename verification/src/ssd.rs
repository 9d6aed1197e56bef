//! Server-side decorations: the titlebar, its buttons, the borders and the
//! resize grips, and the state that a window keeps for them.

use std::time::Instant;
use vstd::prelude::*;

use crate::animation::{VisibilityAnimation, WindowAnimation};
use crate::geometry::RelativeGeometry;
use crate::grabs::ResizeEdge;
use crate::snap::{Snap, SnapTarget, SnapZone};
use crate::utils::{
    larger, rounded_ratio, saturate, sum, FixedPoint, Point, Rectangle, Size, FIXED_ONE,
};

verus! {

use crate::utils::{abs, lemma_round_near, max, round_ratio, sat32};

/// Height of the titlebar.
pub const HEADER_BAR_HEIGHT: i32 = 30;

/// Height of a titlebar button.
pub const BUTTON_HEIGHT: i32 = 30;

/// Width of a titlebar button.
pub const BUTTON_WIDTH: u32 = 30;

/// Space between the title and the window edge / buttons.
pub const TITLE_PADDING: i32 = 8;

/// Width and height of a button's icon.
pub const ICON_SIZE: i32 = 10;

/// Width of the frame's side and bottom borders.
pub const BORDER_WIDTH: i32 = 2;

/// Width of the resize grab band just outside the decorated window.
pub const RESIZE_MARGIN: i32 = 4;

/// evdev code for the left mouse button, used to guard interactive resizes.
pub const BTN_LEFT: u32 = 0x110;

/// How long to wait for a client to honour a close request before un-hiding
/// it, in nanoseconds.
pub const CLOSE_TIMEOUT_NANOS: u128 = 2_000_000_000;

/// Everything the compositor remembers about how a window is decorated, laid
/// out and animated.
#[derive(Debug, Clone, Copy)]
pub struct WindowState {
    pub is_ssd: bool,
    /// Where to restore the window after fullscreen, as a fraction of the work
    /// area of the output it was fullscreened on. The output is named by its
    /// id, since it may be unplugged while the window is fullscreen.
    pub fullscreen_restore: Option<(u64, RelativeGeometry)>,
    pub maximize_restore: Option<RelativeGeometry>,
    /// Position and size of the window as fractions of its output's work area.
    /// Captured before an output resize and reapplied against the new work area
    /// so floating windows keep their relative placement across resolution
    /// changes and monitor layouts.
    pub relative: Option<RelativeGeometry>,
    /// An in-flight maximize/unmaximize transition, if any. While set, the
    /// window is drawn at the sampled geometry instead of its committed size.
    pub animation: Option<WindowAnimation>,
    /// The window's open/close fade-and-scale transition.
    pub visibility: VisibilityState,
    /// The client-declared window geometry of the last frame the client
    /// committed, while that frame is kept: its offset within the root buffer
    /// (the CSD shadow padding) and the content size.
    pub last_frame: Option<Rectangle>,
    /// Stable identifier used by the panel to refer to this window. Assigned
    /// lazily the first time the window list is published.
    pub panel_id: Option<u64>,
    /// The snap this window is tiled by, while it remains snapped.
    pub snap: Option<Snap>,
    /// The geometry an X11 window had before it was maximized.
    pub old_geometry: Option<Rectangle>,
    pub header_bar: HeaderBar,
}

impl WindowState {
    /// Whether the remembered geometries are fractions.
    pub open spec fn wf(self) -> bool {
        &&& match self.fullscreen_restore {
            Some((_, rel)) => rel.wf(),
            None => true,
        }
        &&& self.maximize_restore is Some ==> self.maximize_restore->0.wf()
        &&& self.relative is Some ==> self.relative->0.wf()
        &&& self.snap is Some ==> self.snap->0.floating.wf()
    }

    /// The state of a window that nothing is known of yet.
    pub open spec fn fresh() -> WindowState {
        WindowState {
            is_ssd: false,
            fullscreen_restore: None,
            maximize_restore: None,
            relative: None,
            animation: None,
            visibility: VisibilityState::idle(),
            last_frame: None,
            panel_id: None,
            snap: None,
            old_geometry: None,
            header_bar: HeaderBar::fresh(),
        }
    }

    /// The state a window starts with.
    pub fn new() -> (r: Self)
        ensures
            r == Self::fresh(),
            r.wf(),
    {
        WindowState {
            is_ssd: false,
            fullscreen_restore: None,
            maximize_restore: None,
            relative: None,
            animation: None,
            visibility: VisibilityState::default(),
            last_frame: None,
            panel_id: None,
            snap: None,
            old_geometry: None,
            header_bar: HeaderBar::new(),
        }
    }

    /// Whether the window is tiled.
    pub fn is_snapped(&self) -> (r: bool)
        ensures
            r == self.snap is Some,
    {
        self.snap.is_some()
    }

    /// The zone the window is tiled into.
    pub open spec fn zone(self) -> Option<SnapZone> {
        match self.snap {
            Some(snap) => Some(snap.zone),
            None => None,
        }
    }

    /// The zone the window is tiled into.
    pub fn snap_zone(&self) -> (r: Option<SnapZone>)
        ensures
            r == self.zone(),
    {
        match self.snap {
            Some(snap) => Some(snap.zone),
            None => None,
        }
    }
}

/// How the pointer is anchored to a window during a client-initiated move, so
/// the window can be re-placed under the pointer for any committed size: the
/// horizontal fraction of the width and the vertical offset from the top stay
/// fixed, matching [`crate::xdg::restore_drag_location`].
#[derive(Debug, Clone, Copy, PartialEq, Eq, Structural)]
pub struct DragAnchor {
    /// Horizontal fraction of the window width the pointer grabbed at: how far
    /// into the window, in fixed-point steps ...
    pub fraction_num: i128,
    /// ... out of this many.
    pub fraction_den: i128,
    /// Vertical offset (from the window top) the pointer grabbed at, in
    /// fixed-point steps.
    pub rel_y: i128,
}

impl DragAnchor {
    /// Whether the fraction is one, and the numbers are small enough to work
    /// with.
    pub open spec fn wf(self) -> bool {
        &&& 0 < self.fraction_den <= 0x8000_0000_0000
        &&& -0x1_0000_0000_0000_0000 <= self.fraction_num <= 0x1_0000_0000_0000_0000
        &&& -0x1_0000_0000_0000_0000 <= self.rel_y <= 0x1_0000_0000_0000_0000
    }

    /// The anchor of a grab on a window of `decorated_size` at `window_loc`. A
    /// window without any width counts as grabbed in the middle.
    pub open spec fn of_grab(window_loc: Point, decorated_size: Size, grab: FixedPoint) -> DragAnchor {
        let rel_x = grab.x - window_loc.x * FIXED_ONE;
        DragAnchor {
            fraction_num: (if decorated_size.w > 0 { rel_x } else { 1 }) as i128,
            fraction_den: (if decorated_size.w > 0 { decorated_size.w * FIXED_ONE } else { 2 }) as i128,
            rel_y: (grab.y - window_loc.y * FIXED_ONE) as i128,
        }
    }

    /// Capture the anchor from a grab on a window of `decorated_size` at
    /// `window_loc`.
    pub fn capture(window_loc: Point, decorated_size: Size, grab: FixedPoint) -> (r: Self)
        ensures
            r == Self::of_grab(window_loc, decorated_size, grab),
            r.wf(),
    {
        let one = FIXED_ONE as i128;
        let rel_x = grab.x as i128 - window_loc.x as i128 * one;
        let rel_y = grab.y as i128 - window_loc.y as i128 * one;
        if decorated_size.w > 0 {
            DragAnchor {
                fraction_num: rel_x,
                fraction_den: decorated_size.w as i128 * one,
                rel_y,
            }
        } else {
            DragAnchor { fraction_num: 1, fraction_den: 2, rel_y }
        }
    }

    /// The window origin for a window of `decorated` size under `pointer`.
    #[verifier::opaque]
    pub open spec fn origin(self, pointer: FixedPoint, decorated: Size) -> Point {
        Point {
            x: sat32(
                round_ratio(
                    pointer.x * self.fraction_den - self.fraction_num * (decorated.w * FIXED_ONE),
                    self.fraction_den * FIXED_ONE,
                ),
            ) as i32,
            y: sat32(round_ratio(pointer.y - self.rel_y, FIXED_ONE as int)) as i32,
        }
    }

    /// The window origin that keeps the anchored titlebar spot under the
    /// pointer for a window of `decorated` size. `pointer` is the current
    /// pointer position, so the window follows it while adapting to any size
    /// the client committed.
    pub fn locate(&self, pointer: FixedPoint, decorated: Size) -> (r: Point)
        requires
            self.wf(),
        ensures
            r == self.origin(pointer, decorated),
    {
        let one = FIXED_ONE as i128;
        let width = decorated.w as i128 * one;
        proof {
            reveal(DragAnchor::origin);
            let (p, d, n, w) = (
                pointer.x as int,
                self.fraction_den as int,
                self.fraction_num as int,
                width as int,
            );
            assert(-0x4000_0000_0000_0000_0000_0000_0000 <= p * d
                <= 0x4000_0000_0000_0000_0000_0000_0000) by (nonlinear_arith)
                requires
                    -0x8000_0000_0000_0000 <= p <= 0x7fff_ffff_ffff_ffff,
                    0 < d <= 0x8000_0000_0000,
            ;
            assert(-0x8000_0000_0000_0000_0000_0000_0000 <= n * w
                <= 0x8000_0000_0000_0000_0000_0000_0000) by (nonlinear_arith)
                requires
                    -0x1_0000_0000_0000_0000 <= n <= 0x1_0000_0000_0000_0000,
                    -0x8000_0000_0000 <= w <= 0x8000_0000_0000,
            ;
        }
        let x = rounded_ratio(
            pointer.x as i128 * self.fraction_den - self.fraction_num * width,
            self.fraction_den * one,
        );
        let y = rounded_ratio(pointer.y as i128 - self.rel_y, one);
        Point { x: saturate(x), y: saturate(y) }
    }
}

/// The anchored spot stays under the pointer for every size the window takes:
/// to within half a pixel, in both directions.
pub proof fn anchored_spot_stays_under_the_pointer(
    anchor: DragAnchor,
    pointer: FixedPoint,
    decorated: Size,
)
    requires
        anchor.wf(),
        crate::utils::fits(
            round_ratio(
                pointer.x * anchor.fraction_den - anchor.fraction_num * (decorated.w * FIXED_ONE),
                anchor.fraction_den * FIXED_ONE,
            ),
        ),
        crate::utils::fits(round_ratio(pointer.y - anchor.rel_y, FIXED_ONE as int)),
    ensures
        ({
            let origin = anchor.origin(pointer, decorated);
            // The horizontal distance is scaled by the fraction's denominator to
            // stay in whole numbers.
            let spot_x = origin.x * (anchor.fraction_den * FIXED_ONE) + anchor.fraction_num * (
            decorated.w * FIXED_ONE);
            let spot_y = origin.y * FIXED_ONE + anchor.rel_y;
            &&& abs(2 * (pointer.x * anchor.fraction_den - spot_x)) <= anchor.fraction_den * FIXED_ONE
            &&& abs(2 * (pointer.y - spot_y)) <= FIXED_ONE
        }),
{
    reveal(DragAnchor::origin);
    assert(0 < anchor.fraction_den * FIXED_ONE);
    lemma_round_near(
        pointer.x * anchor.fraction_den - anchor.fraction_num * (decorated.w * FIXED_ONE),
        anchor.fraction_den * FIXED_ONE,
    );
    lemma_round_near(pointer.y - anchor.rel_y, FIXED_ONE as int);
}

/// Per-window state for a window whose client is gone but whose close
/// transition is still playing from its cached frame.
#[derive(Debug, Clone, Copy, PartialEq, Eq, Structural)]
pub struct GhostState {
    pub active: bool,
    pub size: Size,
}

impl Default for GhostState {
    fn default() -> (r: Self)
        ensures
            r == Self::inactive(),
    {
        GhostState { active: false, size: Size { w: 0, h: 0 } }
    }
}

impl GhostState {
    /// The state of a window that is no ghost.
    pub open spec fn inactive() -> GhostState {
        GhostState { active: false, size: Size { w: 0, h: 0 } }
    }

    pub fn is_active(&self) -> (r: bool)
        ensures
            r == self.active,
    {
        self.active
    }

    /// The size of the ghost, while it is one.
    pub open spec fn shown(self) -> Option<Size> {
        if self.active {
            Some(self.size)
        } else {
            None
        }
    }

    /// The size of the ghost, while it is one.
    pub fn size(&self) -> (r: Option<Size>)
        ensures
            r == self.shown(),
    {
        if self.active {
            Some(self.size)
        } else {
            None
        }
    }

    pub fn begin(&mut self, size: Size)
        ensures
            *final(self) == (GhostState { active: true, size }),
    {
        self.size = size;
        self.active = true;
    }

    pub fn end(&mut self)
        ensures
            *final(self) == (GhostState { active: false, ..*old(self) }),
    {
        self.active = false;
    }
}

/// State backing a window's open/close transition.
#[derive(Debug, Clone, Copy)]
pub struct VisibilityState {
    /// The in-flight transition, if any. Kept set at the end of a close so the
    /// window stays hidden until the client actually destroys it.
    pub animation: Option<VisibilityAnimation>,
    /// A newly mapped window waits for its first buffer before the open
    /// transition starts, so a slow client doesn't waste the animation.
    pub open_pending: bool,
    /// Set as soon as a close is requested: the window stops taking input and
    /// the client is told to close once the transition finishes.
    pub closing: bool,
    /// When the close request was actually sent to the client, used to give up
    /// waiting and un-hide a client that ignores the request.
    pub close_sent_at: Option<Instant>,
}

impl Default for VisibilityState {
    fn default() -> (r: Self)
        ensures
            r == Self::idle(),
    {
        VisibilityState { animation: None, open_pending: false, closing: false, close_sent_at: None }
    }
}

impl VisibilityState {
    /// The state of a window that is simply there.
    pub open spec fn idle() -> VisibilityState {
        VisibilityState { animation: None, open_pending: false, closing: false, close_sent_at: None }
    }
}

/// A window that is dragged by its titlebar.
#[derive(Debug, Clone, Copy, PartialEq, Eq, Structural)]
pub struct SSDDrag {
    /// The window being dragged
    pub window: u64,
    /// Pointer position in the global compositor space at the start of the drag
    pub start_global: FixedPoint,
    /// Window position in the global compositor space at the start of the drag
    pub start_origin: Point,
    /// The snap target the pointer is currently over, resolved on each motion
    /// and applied when the drag ends.
    pub snap_target: Option<SnapTarget>,
}

/// The colors that decorations are painted in.
#[derive(Debug, Clone, Copy, PartialEq, Eq, Structural)]
pub enum Paint {
    /// Nothing was painted yet.
    Clear,
    Background,
    FocusedBackground,
    ButtonHover,
}

/// A rectangle of one color.
#[derive(Debug, Clone, Copy, PartialEq, Eq, Structural)]
pub struct Fill {
    pub size: Size,
    pub paint: Paint,
}

impl Fill {
    /// A rectangle that was not painted yet.
    pub open spec fn unpainted() -> Fill {
        Fill { size: Size { w: 0, h: 0 }, paint: Paint::Clear }
    }
}

/// The decoration of one window.
#[derive(Debug, Clone, Copy, PartialEq, Eq, Structural)]
pub struct HeaderBar {
    pub pointer_loc: Option<FixedPoint>,
    pub width: u32,
    pub fullscreen: bool,
    pub focused: bool,
    pub close_button_hover: bool,
    pub maximize_button_hover: bool,
    pub minimize_button_hover: bool,
    pub background: Fill,
    pub close_button: Fill,
    pub maximize_button: Fill,
    pub minimize_button: Fill,
    pub borders: Borders,
}

/// The borders around a window's content.
#[derive(Debug, Clone, Copy, PartialEq, Eq, Structural)]
pub struct Borders {
    pub bottom: Fill,
    pub left: Fill,
    pub right: Fill,
    pub width: u32,
    pub height: u32,
}

/// The shape of the cursor.
#[derive(Debug, Clone, Copy, PartialEq, Eq, Structural)]
pub enum CursorIcon {
    Default,
    NResize,
    SResize,
    EResize,
    WResize,
    NeResize,
    NwResize,
    SeResize,
    SwResize,
}

/// The cursor shape that points at the corner or edge that `edges` name. Left
/// goes before right and top before bottom.
pub open spec fn cursor_for(edges: ResizeEdge) -> CursorIcon {
    match (edges.left, edges.right, edges.top, edges.bottom) {
        (true, _, true, _) => CursorIcon::NwResize,
        (true, _, false, true) => CursorIcon::SwResize,
        (false, true, true, _) => CursorIcon::NeResize,
        (false, true, false, true) => CursorIcon::SeResize,
        (true, _, false, false) => CursorIcon::WResize,
        (false, true, false, false) => CursorIcon::EResize,
        (false, false, true, _) => CursorIcon::NResize,
        (false, false, false, true) => CursorIcon::SResize,
        (false, false, false, false) => CursorIcon::Default,
    }
}

/// Map a resize edge to the cursor shape shown while hovering it.
pub fn resize_cursor(edges: ResizeEdge) -> (r: CursorIcon)
    ensures
        r == cursor_for(edges),
{
    let horizontal = edges.left || edges.right;
    let vertical = edges.top || edges.bottom;
    match (horizontal, vertical) {
        (true, false) => if edges.left {
            CursorIcon::WResize
        } else {
            CursorIcon::EResize
        },
        (false, true) => if edges.top {
            CursorIcon::NResize
        } else {
            CursorIcon::SResize
        },
        (true, true) => match (edges.left, edges.top) {
            (true, true) => CursorIcon::NwResize,
            (false, true) => CursorIcon::NeResize,
            (true, false) => CursorIcon::SwResize,
            (false, false) => CursorIcon::SeResize,
        },
        (false, false) => CursorIcon::Default,
    }
}

/// Where the content of a decorated window starts.
pub fn content_offset() -> (r: Point)
    ensures
        r == (Point { x: BORDER_WIDTH, y: HEADER_BAR_HEIGHT }),
{
    Point { x: BORDER_WIDTH, y: HEADER_BAR_HEIGHT }
}

/// Where the content of a decorated fullscreen window starts.
pub fn fullscreen_content_offset() -> (r: Point)
    ensures
        r == (Point { x: 0, y: HEADER_BAR_HEIGHT }),
{
    Point { x: 0, y: HEADER_BAR_HEIGHT }
}

/// Where an icon sits within its button: in the middle.
pub fn icon_offset() -> (r: Point)
    ensures
        2 * r.x + ICON_SIZE == BUTTON_WIDTH,
        2 * r.y + ICON_SIZE == HEADER_BAR_HEIGHT,
{
    Point { x: (BUTTON_WIDTH as i32 - ICON_SIZE) / 2, y: (HEADER_BAR_HEIGHT - ICON_SIZE) / 2 }
}

/// The parts of a titlebar that react to a click.
#[derive(Debug, Clone, Copy, PartialEq, Eq, Structural)]
pub enum HeaderPart {
    Close,
    Maximize,
    Minimize,
    /// Everything left of the buttons.
    Title,
}

/// Which side of a window, if any, a coordinate within its grab bands lies on.
#[derive(Debug, Clone, Copy, PartialEq, Eq, Structural)]
pub enum Side {
    /// In the band at the start.
    Near,
    /// In the band at the end.
    Far,
    /// Between the bands.
    Between,
    /// Beyond the bands.
    Beyond,
}

/// Where the coordinate `p` (in fixed-point steps) lies on an axis of `length`
/// pixels, for bands that reach `RESIZE_MARGIN` outwards from the inner edge of
/// the border.
pub open spec fn side_at(p: int, length: int) -> Side {
    let inner = BORDER_WIDTH * FIXED_ONE;
    let outer = (BORDER_WIDTH - RESIZE_MARGIN) * FIXED_ONE;
    let far_inner = (length - BORDER_WIDTH) * FIXED_ONE;
    let far_outer = (length - BORDER_WIDTH + RESIZE_MARGIN) * FIXED_ONE;
    if p < outer {
        Side::Beyond
    } else if p < inner {
        Side::Near
    } else if p < far_inner {
        Side::Between
    } else if p < far_outer {
        Side::Far
    } else {
        Side::Beyond
    }
}

/// The edges that lie in the bands a point is in, unless it is beyond one of
/// them or in none.
pub open spec fn edges_of(x: Side, y: Side) -> Option<ResizeEdge> {
    if x is Beyond || y is Beyond || (x is Between && y is Between) {
        None
    } else {
        Some(
            ResizeEdge {
                top: y is Near,
                bottom: y is Far,
                left: x is Near,
                right: x is Far,
            },
        )
    }
}

/// Where the coordinate `p` lies on an axis of `length` pixels.
fn side(p: i64, length: i32) -> (r: Side)
    ensures
        r == side_at(p as int, length as int),
{
    let border = BORDER_WIDTH as i64 * FIXED_ONE;
    let margin = RESIZE_MARGIN as i64 * FIXED_ONE;
    let end = length as i64 * FIXED_ONE;
    if p < border {
        if p < border - margin {
            Side::Beyond
        } else {
            Side::Near
        }
    } else if p >= end - border {
        if p >= end - border + margin {
            Side::Beyond
        } else {
            Side::Far
        }
    } else {
        Side::Between
    }
}

/// Where the coordinate `p` lies on an axis of `length` pixels, for bands of
/// `RESIZE_MARGIN` pixels just inside the window.
pub open spec fn band_at(p: int, length: int) -> Side {
    if p < 0 || p > length * FIXED_ONE {
        Side::Beyond
    } else if p <= RESIZE_MARGIN * FIXED_ONE {
        Side::Near
    } else if p >= (length - RESIZE_MARGIN) * FIXED_ONE {
        Side::Far
    } else {
        Side::Between
    }
}

/// Where the coordinate `p` lies on an axis of `length` pixels.
fn band(p: i64, length: i32) -> (r: Side)
    ensures
        r == band_at(p as int, length as int),
{
    let end = length as i64 * FIXED_ONE;
    let margin = RESIZE_MARGIN as i64 * FIXED_ONE;
    if p < 0 || p > end {
        Side::Beyond
    } else if p <= margin {
        Side::Near
    } else if p >= end - margin {
        Side::Far
    } else {
        Side::Between
    }
}

/// The edges of the bands a point is in.
fn edges_in(x: Side, y: Side) -> (r: Option<ResizeEdge>)
    ensures
        r == edges_of(x, y),
{
    if x == Side::Beyond || y == Side::Beyond {
        return None;
    }
    let edges = ResizeEdge {
        top: y == Side::Near,
        bottom: y == Side::Far,
        left: x == Side::Near,
        right: x == Side::Far,
    };
    if edges.is_empty() {
        None
    } else {
        Some(edges)
    }
}

/// The edge of a client-decorated window of `size` that `point` is on.
pub open spec fn band_edge(point: FixedPoint, size: Size) -> Option<ResizeEdge> {
    if size.w <= 0 || size.h <= 0 {
        None
    } else {
        edges_of(band_at(point.x as int, size.w as int), band_at(point.y as int, size.h as int))
    }
}

/// The resize edge for a point on a client-decorated window, using an invisible
/// band just inside its outer bounds. `size` is the window's content size.
pub fn resize_edge_band(point: FixedPoint, size: Size) -> (r: Option<ResizeEdge>)
    ensures
        r == band_edge(point, size),
{
    if size.w <= 0 || size.h <= 0 {
        return None;
    }
    edges_in(band(point.x, size.w), band(point.y, size.h))
}

/// A button's fill after its hover state was looked at.
pub open spec fn button_fill(button: Fill, hovered: bool, over: bool, redraw: bool, base: Paint) -> Fill {
    if redraw || over != hovered {
        Fill {
            size: Size { w: BUTTON_WIDTH as i32, h: BUTTON_HEIGHT },
            paint: if over {
                Paint::ButtonHover
            } else {
                base
            },
        }
    } else {
        button
    }
}

/// A button's fill after its hover state was looked at.
fn repainted(button: Fill, hovered: bool, over: bool, redraw: bool, base: Paint) -> (r: Fill)
    ensures
        r == button_fill(button, hovered, over, redraw, base),
{
    let size = Size { w: BUTTON_WIDTH as i32, h: BUTTON_HEIGHT };
    if over && (redraw || !hovered) {
        Fill { size, paint: Paint::ButtonHover }
    } else if !over && (redraw || hovered) {
        Fill { size, paint: base }
    } else {
        button
    }
}

impl HeaderBar {
    /// The decoration of a window that was never drawn.
    pub open spec fn fresh() -> HeaderBar {
        HeaderBar {
            pointer_loc: None,
            width: 0,
            fullscreen: false,
            focused: false,
            close_button_hover: false,
            maximize_button_hover: false,
            minimize_button_hover: false,
            background: Fill::unpainted(),
            close_button: Fill::unpainted(),
            maximize_button: Fill::unpainted(),
            minimize_button: Fill::unpainted(),
            borders: Borders {
                bottom: Fill::unpainted(),
                left: Fill::unpainted(),
                right: Fill::unpainted(),
                width: 0,
                height: 0,
            },
        }
    }

    /// The decoration of a window that was never drawn.
    pub fn new() -> (r: Self)
        ensures
            r == Self::fresh(),
    {
        let unpainted = Fill { size: Size { w: 0, h: 0 }, paint: Paint::Clear };
        HeaderBar {
            pointer_loc: None,
            width: 0,
            fullscreen: false,
            focused: false,
            close_button_hover: false,
            maximize_button_hover: false,
            minimize_button_hover: false,
            background: unpainted,
            close_button: unpainted,
            maximize_button: unpainted,
            minimize_button: unpainted,
            borders: Borders {
                bottom: unpainted,
                left: unpainted,
                right: unpainted,
                width: 0,
                height: 0,
            },
        }
    }

    /// Whether `loc` lies on a titlebar `width` pixels wide.
    pub open spec fn on_bar(loc: FixedPoint, width: u32) -> bool {
        &&& 0 <= loc.x <= width * FIXED_ONE
        &&& 0 <= loc.y < HEADER_BAR_HEIGHT * FIXED_ONE
    }

    /// Whether the pointer is on the titlebar.
    pub open spec fn hovered(self) -> bool {
        self.pointer_loc is Some && Self::on_bar(self.pointer_loc->0, self.width)
    }

    /// Whether the pointer is on the titlebar.
    pub fn pointer_is_in_header(&self) -> (r: bool)
        ensures
            r == self.hovered(),
    {
        match self.pointer_loc {
            Some(loc) => loc.x >= 0 && loc.x <= self.width as i64 * FIXED_ONE && loc.y >= 0 && loc.y
                < HEADER_BAR_HEIGHT as i64 * FIXED_ONE,
            None => false,
        }
    }

    /// The x coordinate (in fixed-point steps) of the left edge of the `n`th
    /// button from the right.
    pub open spec fn button_start(width: u32, n: int) -> int {
        max(width - n * BUTTON_WIDTH, 0) * FIXED_ONE
    }

    /// The part of a titlebar `width` pixels wide at the x coordinate `x`.
    pub open spec fn part_at(x: int, width: u32) -> HeaderPart {
        if x >= Self::button_start(width, 1) {
            HeaderPart::Close
        } else if x >= Self::button_start(width, 2) {
            HeaderPart::Maximize
        } else if x >= Self::button_start(width, 3) {
            HeaderPart::Minimize
        } else {
            HeaderPart::Title
        }
    }

    /// The part of a titlebar `width` pixels wide at the x coordinate `x`.
    fn part(x: i64, width: u32) -> (r: HeaderPart)
        ensures
            r == Self::part_at(x as int, width),
    {
        if x >= width.saturating_sub(BUTTON_WIDTH) as i64 * FIXED_ONE {
            HeaderPart::Close
        } else if x >= width.saturating_sub(BUTTON_WIDTH * 2) as i64 * FIXED_ONE {
            HeaderPart::Maximize
        } else if x >= width.saturating_sub(BUTTON_WIDTH * 3) as i64 * FIXED_ONE {
            HeaderPart::Minimize
        } else {
            HeaderPart::Title
        }
    }

    /// The part in the pointer's column, wherever the pointer is vertically.
    pub open spec fn column_part(self) -> Option<HeaderPart> {
        match self.pointer_loc {
            Some(loc) => Some(Self::part_at(loc.x as int, self.width)),
            None => None,
        }
    }

    /// The part in the pointer's column, wherever the pointer is vertically.
    pub fn part_under_pointer(&self) -> (r: Option<HeaderPart>)
        ensures
            r == self.column_part(),
    {
        match self.pointer_loc {
            Some(loc) => Some(Self::part(loc.x, self.width)),
            None => None,
        }
    }

    /// The edges that `pointer` is on, on a window of `size`.
    pub open spec fn edge_at(self, pointer: FixedPoint, size: Size) -> Option<ResizeEdge> {
        if self.fullscreen || size.w <= 0 || size.h <= 0 {
            None
        } else {
            edges_of(
                side_at(pointer.x as int, size.w as int),
                side_at(pointer.y as int, size.h as int),
            )
        }
    }

    /// Determine which edges a window-relative point starts a resize on.
    ///
    /// `size` is the full decorated size of the window (content plus borders and
    /// header bar). The grab band is [`RESIZE_MARGIN`] pixels wide and includes
    /// the visible SSD border, so it runs from `BORDER_WIDTH - RESIZE_MARGIN` to
    /// `BORDER_WIDTH` inside each outer edge (and symmetrically on the far side).
    pub fn resize_edge(&self, pointer: FixedPoint, size: Size) -> (r: Option<ResizeEdge>)
        ensures
            r == self.edge_at(pointer, size),
    {
        if self.fullscreen || size.w <= 0 || size.h <= 0 {
            return None;
        }
        edges_in(side(pointer.x, size.w), side(pointer.y, size.h))
    }

    pub fn pointer_enter(&mut self, loc: FixedPoint)
        ensures
            *final(self) == (HeaderBar { pointer_loc: Some(loc), ..*old(self) }),
    {
        self.pointer_loc = Some(loc);
    }

    pub fn pointer_leave(&mut self)
        ensures
            *final(self) == (HeaderBar { pointer_loc: None, ..*old(self) }),
    {
        self.pointer_loc = None;
    }

    /// The decoration after it was drawn `width` pixels wide around content of
    /// `content_size`. A bar without any width draws nothing. The hover state of
    /// the buttons follows the pointer, and a button is repainted when its hover
    /// state, the bar's width or its focus changed.
    #[verifier::opaque]
    pub open spec fn redrawn(self, width: u32, content_size: Size, focused: bool) -> HeaderBar {
        if width == 0 {
            HeaderBar { width: 0, ..self }
        } else {
            let base = if focused { Paint::FocusedBackground } else { Paint::Background };
            let redraw = width != self.width || focused != self.focused;
            let pointer_loc = match self.pointer_loc {
                Some(loc) if Self::on_bar(loc, width) => Some(loc),
                _ => None,
            };
            let part = match pointer_loc {
                Some(loc) => Some(Self::part_at(loc.x as int, width)),
                None => None,
            };
            let (close, maximize, minimize) = (
                part == Some(HeaderPart::Close),
                part == Some(HeaderPart::Maximize),
                part == Some(HeaderPart::Minimize),
            );
            let content_w = max(content_size.w as int, 0);
            let content_h = max(content_size.h as int, 0);
            HeaderBar {
                pointer_loc,
                width,
                fullscreen: self.fullscreen,
                focused,
                close_button_hover: close,
                maximize_button_hover: maximize,
                minimize_button_hover: minimize,
                background: Fill {
                    size: Size { w: width as i32, h: HEADER_BAR_HEIGHT },
                    paint: base,
                },
                close_button: button_fill(
                    self.close_button,
                    self.close_button_hover,
                    close,
                    redraw,
                    base,
                ),
                maximize_button: button_fill(
                    self.maximize_button,
                    self.maximize_button_hover,
                    maximize,
                    redraw,
                    base,
                ),
                minimize_button: button_fill(
                    self.minimize_button,
                    self.minimize_button_hover,
                    minimize,
                    redraw,
                    base,
                ),
                borders: Borders {
                    bottom: Fill {
                        size: Size {
                            w: sat32(content_w + 2 * BORDER_WIDTH) as i32,
                            h: BORDER_WIDTH,
                        },
                        paint: base,
                    },
                    left: Fill { size: Size { w: BORDER_WIDTH, h: content_h as i32 }, paint: base },
                    right: Fill { size: Size { w: BORDER_WIDTH, h: content_h as i32 }, paint: base },
                    width: content_w as u32,
                    height: content_h as u32,
                },
            }
        }
    }

    /// Lay the decoration out and paint it. The title has a cache of its own,
    /// [`TitleCache`].
    pub fn redraw(&mut self, width: u32, content_size: Size, focused: bool)
        requires
            width <= i32::MAX,
        ensures
            *final(self) == old(self).redrawn(width, content_size, focused),
            final(self).width == width,
            final(self).fullscreen == old(self).fullscreen,
    {
        reveal(HeaderBar::redrawn);
        if width == 0 {
            self.width = 0;
            return;
        }
        let base = if focused { Paint::FocusedBackground } else { Paint::Background };
        self.background = Fill { size: Size { w: width as i32, h: HEADER_BAR_HEIGHT }, paint: base };

        let content_width = larger(content_size.w, 0);
        let content_height = larger(content_size.h, 0);
        let ring_w = sum(content_width, 2 * BORDER_WIDTH);
        let side = Fill { size: Size { w: BORDER_WIDTH, h: content_height }, paint: base };
        self.borders = Borders {
            bottom: Fill { size: Size { w: ring_w, h: BORDER_WIDTH }, paint: base },
            left: side,
            right: side,
            width: content_width as u32,
            height: content_height as u32,
        };

        let mut redraw = false;
        if width != self.width {
            redraw = true;
            self.width = width;
        }
        if focused != self.focused {
            redraw = true;
            self.focused = focused;
        }
        if !self.pointer_is_in_header() {
            self.pointer_loc = None;
        }
        let part = self.part_under_pointer();
        let over = part == Some(HeaderPart::Close);
        self.close_button = repainted(self.close_button, self.close_button_hover, over, redraw, base);
        self.close_button_hover = over;
        let over = part == Some(HeaderPart::Maximize);
        self.maximize_button =
        repainted(self.maximize_button, self.maximize_button_hover, over, redraw, base);
        self.maximize_button_hover = over;
        let over = part == Some(HeaderPart::Minimize);
        self.minimize_button =
        repainted(self.minimize_button, self.minimize_button_hover, over, redraw, base);
        self.minimize_button_hover = over;
    }
}

} // verus!
