//! Windows: what is known of their clients, where they take input, and what is
//! drawn for them.

use std::time::Instant;
use vstd::prelude::*;

use crate::animation::{
    Visibility, VisibilityAnimation, VisibilityKind, WindowAnimation, WINDOW_VISIBILITY_NANOS,
};
use crate::geometry::RelativeGeometry;
use crate::grabs::{ResizeEdge, ResizeState};
use crate::snap::{Snap, SnapGrid};
use crate::ssd::{
    content_offset, fullscreen_content_offset, resize_edge_band, GhostState, HeaderBar,
    VisibilityState, WindowState, BORDER_WIDTH, HEADER_BAR_HEIGHT, RESIZE_MARGIN,
};
use crate::utils::{
    difference, sum, FixedPoint, Point, Rectangle, Serial, Size, FIXED_ONE,
};
use crate::xdg::decorated_content_size;

verus! {

use crate::ssd::band_edge;
use crate::utils::sat32;
use crate::xdg::decorated;

/// The protocol a window's client speaks.
#[derive(Debug, Clone, Copy, PartialEq, Eq, Structural)]
pub enum SurfaceKind {
    Wayland,
    X11,
}

/// The state a client is in or is about to be told of: the pending toplevel
/// state of a Wayland window, the window properties of an X11 window.
#[derive(Debug, Clone, Copy, PartialEq, Eq, Structural)]
pub struct ClientState {
    pub maximized: bool,
    pub fullscreen: bool,
    pub activated: bool,
    pub resizing: bool,
    pub size: Option<Size>,
    pub bounds: Option<Size>,
    /// The output the client asked to be fullscreen on, or was told it is.
    pub fullscreen_output: Option<u64>,
}

impl ClientState {
    /// The state of a client that was told nothing yet.
    pub open spec fn initial() -> ClientState {
        ClientState {
            maximized: false,
            fullscreen: false,
            activated: false,
            resizing: false,
            size: None,
            bounds: None,
            fullscreen_output: None,
        }
    }
}

/// A window: the facts last read from its client, and the state that the
/// compositor keeps for it.
#[derive(Debug, Clone, Copy)]
pub struct WindowElement {
    pub id: u64,
    pub kind: SurfaceKind,
    /// Whether the client is still there.
    pub client_alive: bool,
    /// The key of the surface that the client draws to, if it has one.
    pub surface: Option<u64>,
    /// Whether the surface has had its first commit, from which on its resizes
    /// are followed.
    pub has_resize_data: bool,
    /// The window geometry that the client declares, within its surface.
    pub client_geometry: Rectangle,
    /// The bounding box of the client's surfaces.
    pub client_bbox: Rectangle,
    pub client: ClientState,
    /// Whether the first configure was sent.
    pub configured: bool,
    /// Whether an X11 configure is still on its way.
    pub configure_pending: bool,
    /// Whether an X11 client draws its own decorations.
    pub decorated: bool,
    /// The serial of the last configure that the displayed state answers.
    pub acked: Option<Serial>,
    /// Whether that configure told the client that it is being resized.
    pub acked_resizing: bool,
    pub min_size: Size,
    pub max_size: Size,
    pub resize: ResizeState,
    pub ghost_state: GhostState,
    pub state: WindowState,
}

impl WindowElement {
    /// Whether the state the compositor keeps is well-formed.
    pub open spec fn wf(self) -> bool {
        self.state.wf()
    }

    /// The window `id` of a client that nothing is known of yet.
    pub open spec fn fresh(id: u64, kind: SurfaceKind, surface: Option<u64>) -> WindowElement {
        let nothing = Rectangle { loc: Point { x: 0, y: 0 }, size: Size { w: 0, h: 0 } };
        WindowElement {
            id,
            kind,
            client_alive: true,
            surface,
            has_resize_data: false,
            client_geometry: nothing,
            client_bbox: nothing,
            client: ClientState::initial(),
            configured: false,
            configure_pending: false,
            decorated: false,
            acked: None,
            acked_resizing: false,
            min_size: Size { w: 0, h: 0 },
            max_size: Size { w: 0, h: 0 },
            resize: ResizeState::NotResizing,
            ghost_state: GhostState::inactive(),
            state: WindowState::fresh(),
        }
    }

    /// A window of a client that nothing is known of yet.
    pub fn new(id: u64, kind: SurfaceKind, surface: Option<u64>) -> (r: Self)
        ensures
            r == Self::fresh(id, kind, surface),
            r.wf(),
    {
        let nothing = Rectangle { loc: Point { x: 0, y: 0 }, size: Size { w: 0, h: 0 } };
        WindowElement {
            id,
            kind,
            client_alive: true,
            surface,
            has_resize_data: false,
            client_geometry: nothing,
            client_bbox: nothing,
            client: ClientState {
                maximized: false,
                fullscreen: false,
                activated: false,
                resizing: false,
                size: None,
                bounds: None,
                fullscreen_output: None,
            },
            configured: false,
            configure_pending: false,
            decorated: false,
            acked: None,
            acked_resizing: false,
            min_size: Size { w: 0, h: 0 },
            max_size: Size { w: 0, h: 0 },
            resize: ResizeState::NotResizing,
            ghost_state: GhostState::default(),
            state: WindowState::new(),
        }
    }

    pub fn is_x11(&self) -> (r: bool)
        ensures
            r == (self.kind == SurfaceKind::X11),
    {
        self.kind == SurfaceKind::X11
    }

    pub fn is_wayland(&self) -> (r: bool)
        ensures
            r == (self.kind == SurfaceKind::Wayland),
    {
        self.kind == SurfaceKind::Wayland
    }

    /// Whether the window is drawn from its cached frame.
    pub open spec fn ghosting(self) -> bool {
        self.ghost_state.active
    }

    /// Whether the client is gone and the window is being drawn from its cached
    /// frame for the remainder of its close transition.
    pub fn is_ghosting(&self) -> (r: bool)
        ensures
            r == self.ghosting(),
    {
        self.ghost_state.is_active()
    }

    /// The cached frame size, while ghosting.
    pub fn ghost_size(&self) -> (r: Option<Size>)
        ensures
            r == self.ghost_state.shown(),
    {
        self.ghost_state.size()
    }

    /// Turn a window whose client is gone into a self-contained closing ghost.
    /// The window stays in the space (see [`WindowElement::alive`]) until the
    /// transition ends.
    pub fn begin_ghost(&mut self, size: Size)
        ensures
            *final(self) == (WindowElement { ghost_state: (GhostState { active: true, size }), ..*old(self) }),
    {
        self.ghost_state.begin(size);
    }

    /// Stop ghosting; the window no longer counts as alive.
    pub fn end_ghost(&mut self)
        ensures
            *final(self) == (WindowElement {
                ghost_state: (GhostState { active: false, ..old(self).ghost_state }),
                ..*old(self)
            }),
    {
        self.ghost_state.end();
    }

    /// Whether the window is to be kept.
    pub open spec fn is_alive(self) -> bool {
        self.ghosting() || self.client_alive
    }

    /// Whether the window is to be kept. A ghost outlives its client so that it
    /// stays around while the close transition plays from its cached frame.
    pub fn alive(&self) -> (r: bool)
        ensures
            r == self.is_alive(),
    {
        self.is_ghosting() || self.client_alive
    }

    /// Whether there is a live surface.
    pub open spec fn surfaced(self) -> bool {
        !self.ghosting() && self.surface is Some
    }

    /// Whether `surface` is the window's. The surface of an X11 window stays its
    /// own when it is drawn from its cached frame.
    pub open spec fn owns(self, surface: u64) -> bool {
        self.surface == Some(surface) && (!self.ghosting() || self.kind == SurfaceKind::X11)
    }

    /// Whether `surface` is the window's.
    pub fn owns_surface(&self, surface: u64) -> (r: bool)
        ensures
            r == self.owns(surface),
    {
        self.surface == Some(surface) && (!self.is_ghosting() || self.is_x11())
    }

    /// Whether there is a live surface. A ghost has none.
    pub fn has_live_surface(&self) -> (r: bool)
        ensures
            r == self.surfaced(),
    {
        !self.is_ghosting() && self.surface.is_some()
    }

    pub fn set_ssd(&mut self, ssd: bool)
        ensures
            *final(self) == old(self).with_ssd(ssd),
    {
        self.state.is_ssd = ssd;
    }

    /// The window with server-side decorations or without.
    pub open spec fn with_ssd(self, ssd: bool) -> WindowElement {
        WindowElement { state: WindowState { is_ssd: ssd, ..self.state }, ..self }
    }

    /// The window with server-side decorations or without.
    pub fn decorated_by_server(self, ssd: bool) -> (r: WindowElement)
        ensures
            r == self.with_ssd(ssd),
            self.wf() ==> r.wf(),
    {
        WindowElement { state: WindowState { is_ssd: ssd, ..self.state }, ..self }
    }

    pub fn is_ssd(&self) -> (r: bool)
        ensures
            r == self.state.is_ssd,
    {
        self.state.is_ssd
    }

    /// The window once it waits for its first buffer to open with.
    pub open spec fn opening(self) -> WindowElement {
        if self.state.visibility.animation is None && !self.state.visibility.closing {
            WindowElement {
                state: WindowState {
                    visibility: VisibilityState { open_pending: true, ..self.state.visibility },
                    ..self.state
                },
                ..self
            }
        } else {
            self
        }
    }

    /// Mark a freshly mapped window so its open transition starts as soon as it
    /// has content to show.
    pub fn begin_open(&mut self)
        ensures
            *final(self) == old(self).opening(),
            old(self).wf() ==> final(self).wf(),
    {
        if self.state.visibility.animation.is_none() && !self.state.visibility.closing {
            self.state.visibility.open_pending = true;
        }
    }

    /// The close transition that starts at `now`.
    pub open spec fn closing_at(now: Instant) -> VisibilityAnimation {
        VisibilityAnimation {
            kind: VisibilityKind::Close,
            start_time: now,
            duration: WINDOW_VISIBILITY_NANOS,
        }
    }

    /// The window once it is closing. A window that was closing already stays
    /// as it is.
    pub open spec fn closed(self, now: Instant) -> WindowElement {
        if self.state.visibility.closing {
            self
        } else {
            WindowElement {
                state: WindowState {
                    visibility: VisibilityState {
                        closing: true,
                        open_pending: false,
                        animation: Some(Self::closing_at(now)),
                        ..self.state.visibility
                    },
                    header_bar: HeaderBar { pointer_loc: None, ..self.state.header_bar },
                    ..self.state
                },
                ..self
            }
        }
    }

    /// Request that the window close: it fades and grows out, and the client is
    /// told to close once the transition completes.
    pub fn begin_close(&mut self, now: Instant)
        ensures
            *final(self) == old(self).closed(now),
            old(self).wf() ==> final(self).wf(),
    {
        if self.state.visibility.closing {
            return;
        }
        self.state.visibility.closing = true;
        self.state.visibility.open_pending = false;
        self.state.visibility.animation = Some(
            VisibilityAnimation::starting_at(VisibilityKind::Close, WINDOW_VISIBILITY_NANOS, now),
        );
        // Drop the titlebar hover highlight so it doesn't linger (and fade as a
        // rectangle) while the window closes.
        self.state.header_bar.pointer_loc = None;
    }

    /// Whether a close has been requested for this window.
    pub fn is_closing(&self) -> (r: bool)
        ensures
            r == self.state.visibility.closing,
    {
        self.state.visibility.closing
    }

    /// The opacity and center scale at `now`, while a transition is active.
    pub open spec fn visibility_at(self, now: Instant) -> Option<Visibility> {
        match self.state.visibility.animation {
            Some(animation) => Some(animation.seen_at(now)),
            None => None,
        }
    }

    /// The opacity and center scale the window should be drawn with at `now`.
    /// Returns `None` when no open/close transition is active.
    pub fn visibility(&self, now: Instant) -> (r: Option<Visibility>)
        requires
            self.wf(),
        ensures
            r == self.visibility_at(now),
    {
        match self.state.visibility.animation {
            Some(animation) => Some(animation.sample(now)),
            None => None,
        }
    }

    /// The geometry of the last committed frame of the whole window, if it is
    /// kept.
    pub fn last_frame(&self) -> (r: Option<Rectangle>)
        ensures
            r == self.state.last_frame,
    {
        self.state.last_frame
    }

    /// Record the frame the client just committed, so an app-triggered close
    /// can be rendered from it.
    pub fn set_last_frame(&mut self, geometry: Rectangle)
        ensures
            *final(self) == old(self).with_frame(Some(geometry)),
    {
        self.state.last_frame = Some(geometry);
    }

    /// The window without an in-flight transition.
    pub open spec fn stilled(self) -> WindowElement {
        WindowElement { state: WindowState { animation: None, ..self.state }, ..self }
    }

    /// The window without an in-flight transition.
    pub fn without_animation(self) -> (r: WindowElement)
        ensures
            r == self.stilled(),
            self.wf() ==> r.wf(),
    {
        WindowElement { state: WindowState { animation: None, ..self.state }, ..self }
    }

    /// The window with an in-flight transition.
    pub open spec fn animated(self, animation: WindowAnimation) -> WindowElement {
        WindowElement { state: WindowState { animation: Some(animation), ..self.state }, ..self }
    }

    /// The window with an in-flight transition.
    pub fn with_animation(self, animation: WindowAnimation) -> (r: WindowElement)
        ensures
            r == self.animated(animation),
            self.wf() ==> r.wf(),
    {
        WindowElement { state: WindowState { animation: Some(animation), ..self.state }, ..self }
    }

    /// The window with `rel` as the fractional geometry it remembers.
    pub open spec fn remembering(self, rel: RelativeGeometry) -> WindowElement {
        WindowElement { state: WindowState { relative: Some(rel), ..self.state }, ..self }
    }

    /// The window with `rel` as the fractional geometry it remembers.
    pub fn with_relative(self, rel: RelativeGeometry) -> (r: WindowElement)
        ensures
            r == self.remembering(rel),
            self.wf() && rel.wf() ==> r.wf(),
    {
        WindowElement { state: WindowState { relative: Some(rel), ..self.state }, ..self }
    }

    /// The window with `snap` as its snap.
    pub open spec fn snapped(self, snap: Option<Snap>) -> WindowElement {
        WindowElement { state: WindowState { snap, ..self.state }, ..self }
    }

    /// The window with `snap` as its snap.
    pub fn with_snap(self, snap: Option<Snap>) -> (r: WindowElement)
        ensures
            r == self.snapped(snap),
            self.wf() && (snap is Some ==> snap->0.floating.wf()) ==> r.wf(),
    {
        WindowElement { state: WindowState { snap, ..self.state }, ..self }
    }

    /// The window with the dividers of its snap group at `grid`, if it is in
    /// one.
    pub open spec fn regridded(self, grid: SnapGrid) -> WindowElement {
        match self.state.snap {
            Some(snap) => self.snapped(Some(Snap { grid, ..snap })),
            None => self,
        }
    }

    /// The window with the dividers of its snap group at `grid`.
    pub fn with_grid(self, grid: SnapGrid) -> (r: WindowElement)
        ensures
            r == self.regridded(grid),
            self.wf() ==> r.wf(),
    {
        match self.state.snap {
            Some(snap) => self.with_snap(Some(Snap { grid, ..snap })),
            None => self,
        }
    }

    /// The window with `client` as the state of its client.
    pub open spec fn telling(self, client: ClientState) -> WindowElement {
        WindowElement { client, ..self }
    }

    /// The window with `client` as the state of its client.
    pub fn with_client(self, client: ClientState) -> (r: WindowElement)
        ensures
            r == self.telling(client),
            self.wf() ==> r.wf(),
    {
        WindowElement { client, ..self }
    }

    /// The window with `frame` as its kept frame.
    pub open spec fn with_frame(self, frame: Option<Rectangle>) -> WindowElement {
        WindowElement { state: WindowState { last_frame: frame, ..self.state }, ..self }
    }

    /// Whether the window is maximized.
    pub open spec fn maximized(self) -> bool {
        !self.ghosting() && self.client.maximized
    }

    pub fn is_maximized(&self) -> (r: bool)
        ensures
            r == self.maximized(),
    {
        !self.is_ghosting() && self.client.maximized
    }

    /// Whether this window currently holds the seat's focus, used to tint the
    /// decorations.
    pub open spec fn active(self) -> bool {
        !self.ghosting() && self.client.activated
    }

    pub fn is_activated(&self) -> (r: bool)
        ensures
            r == self.active(),
    {
        !self.is_ghosting() && self.client.activated
    }

    /// The committed content size.
    pub open spec fn committed_size(self) -> Size {
        if self.state.is_ssd {
            self.client_bbox.size
        } else {
            self.client_geometry.size
        }
    }

    /// The committed content size from the surface state. For server-decorated
    /// windows the surface bbox is used (it tracks the committed buffer); for
    /// client-decorated windows the declared geometry is used.
    pub fn committed_content_size(&self) -> (r: Size)
        ensures
            r == self.committed_size(),
    {
        if self.is_ssd() {
            self.client_bbox.size
        } else {
            self.client_geometry.size
        }
    }

    /// The resize state of the window's surface, which is only there once the
    /// surface has one.
    pub open spec fn resize_state(self) -> ResizeState {
        if self.surfaced() && self.has_resize_data {
            self.resize
        } else {
            ResizeState::NotResizing
        }
    }

    /// The window with `resize` as the resize state of its surface, if its
    /// surface has one.
    pub open spec fn with_resize(self, resize: ResizeState) -> WindowElement {
        if self.surfaced() && self.has_resize_data {
            WindowElement { resize, ..self }
        } else {
            self
        }
    }

    /// The resize state of the window's surface.
    pub fn surface_resize(&self) -> (r: ResizeState)
        ensures
            r == self.resize_state(),
    {
        if self.has_live_surface() && self.has_resize_data {
            self.resize
        } else {
            ResizeState::NotResizing
        }
    }

    /// Replace the resize state of the window's surface.
    pub fn set_surface_resize(&mut self, resize: ResizeState)
        ensures
            *final(self) == old(self).with_resize(resize),
            old(self).wf() ==> final(self).wf(),
    {
        if self.has_live_surface() && self.has_resize_data {
            self.resize = resize;
        }
    }

    /// The size of the displayed buffer of a Wayland window in a resize.
    pub open spec fn resize_committed(self) -> Option<Size> {
        if self.kind == SurfaceKind::X11 {
            None
        } else {
            match self.resize_state().active() {
                Some(resize) => Some(resize.committed_size),
                None => None,
            }
        }
    }

    /// The committed size that the last commit of a resize captured. X11 has no
    /// such hook, so it keeps using its live surface extent.
    pub fn resize_committed_size(&self) -> (r: Option<Size>)
        ensures
            r == self.resize_committed(),
    {
        if self.is_x11() {
            return None;
        }
        match self.surface_resize().data() {
            Some(resize) => Some(resize.committed_size),
            None => None,
        }
    }

    /// The content size that should be displayed: a ghost's size, the size that
    /// a resize last committed, or the committed size.
    pub open spec fn content_size(self) -> Size {
        match self.ghost_state.shown() {
            Some(size) => size,
            None => match self.resize_committed() {
                Some(size) => size,
                None => self.committed_size(),
            },
        }
    }

    /// The content size that should be displayed.
    ///
    /// During an interactive resize this is the snapshot captured by the last
    /// commit that produced the displayed buffer, never the requested size. The
    /// pointer only drives configure requests; it can never advance what is
    /// drawn. This keeps the SSD frame and the client buffer as one visual
    /// state.
    pub fn resize_content_size(&self) -> (r: Size)
        ensures
            r == self.content_size(),
    {
        if let Some(size) = self.ghost_size() {
            return size;
        }
        if let Some(size) = self.resize_committed_size() {
            return size;
        }
        self.committed_content_size()
    }

    /// The window's geometry at `now`: its decorated size, which follows an
    /// in-flight transition.
    pub open spec fn geometry_at(self, now: Instant) -> Rectangle {
        match self.ghost_state.shown() {
            Some(size) => Rectangle { loc: Point { x: 0, y: 0 }, size },
            None => Rectangle {
                loc: self.client_geometry.loc,
                size: match self.state.animation {
                    Some(animation) => decorated(animation.rect_at(now).content, self.state.is_ssd),
                    None => if self.state.is_ssd {
                        decorated(self.content_size(), true)
                    } else {
                        self.client_geometry.size
                    },
                },
            },
        }
    }

    /// The window's geometry at `now`.
    pub fn geometry(&self, now: Instant) -> (r: Rectangle)
        requires
            self.wf(),
        ensures
            r == self.geometry_at(now),
    {
        // A ghost has no live surface; report the cached decorated size.
        if let Some(size) = self.ghost_size() {
            return Rectangle::from_size(size);
        }
        let mut geo = self.client_geometry;
        // While animating, report the interpolated (decorated) size so damage
        // tracking and hit testing follow the visual window.
        if let Some(animation) = self.state.animation {
            geo.size = animation.sample(now).0.decorated(self.state.is_ssd);
            return geo;
        }
        if self.state.is_ssd {
            // Match the size used for rendering and resize math.
            geo.size = decorated_content_size(self.resize_content_size(), true);
        }
        geo
    }

    /// The window's bounding box at `now`, which includes the resize band
    /// around a server-decorated window.
    pub open spec fn bbox_at(self, now: Instant) -> Rectangle {
        match self.ghost_state.shown() {
            Some(size) => Rectangle { loc: Point { x: 0, y: 0 }, size },
            None => {
                let size = match self.state.animation {
                    Some(animation) => decorated(animation.rect_at(now).content, self.state.is_ssd),
                    None => decorated(self.client_bbox.size, self.state.is_ssd),
                };
                let bbox = Rectangle { loc: self.client_bbox.loc, size };
                if self.state.is_ssd {
                    Rectangle {
                        loc: Point {
                            x: sat32(bbox.loc.x - RESIZE_MARGIN) as i32,
                            y: sat32(bbox.loc.y - RESIZE_MARGIN) as i32,
                        },
                        size: Size {
                            w: sat32(bbox.size.w + 2 * RESIZE_MARGIN) as i32,
                            h: sat32(bbox.size.h + 2 * RESIZE_MARGIN) as i32,
                        },
                    }
                } else {
                    bbox
                }
            },
        }
    }

    /// The window's bounding box at `now`.
    pub fn bbox(&self, now: Instant) -> (r: Rectangle)
        requires
            self.wf(),
        ensures
            r == self.bbox_at(now),
    {
        if let Some(size) = self.ghost_size() {
            return Rectangle::from_size(size);
        }
        let is_ssd = self.state.is_ssd;
        let mut bbox = self.client_bbox;
        if let Some(animation) = self.state.animation {
            bbox.size = animation.sample(now).0.decorated(is_ssd);
        } else {
            bbox.size = decorated_content_size(bbox.size, is_ssd);
        }
        if is_ssd {
            // Include the outside resize band so hit testing considers points
            // just beyond the decorated window.
            bbox.loc.x = difference(bbox.loc.x, RESIZE_MARGIN);
            bbox.loc.y = difference(bbox.loc.y, RESIZE_MARGIN);
            bbox.size.w = sum(bbox.size.w, 2 * RESIZE_MARGIN);
            bbox.size.h = sum(bbox.size.h, 2 * RESIZE_MARGIN);
        }
        bbox
    }

    /// The edges a resize would start on at `point`. A maximized window has a
    /// grip only while it is snapped, and a client-decorated one only then.
    pub open spec fn edge_at(self, point: FixedPoint, now: Instant) -> Option<ResizeEdge> {
        let snapped = self.state.snap is Some;
        let size = self.geometry_at(now).size;
        if self.state.header_bar.fullscreen || (self.maximized() && !snapped) {
            None
        } else if self.state.is_ssd {
            self.state.header_bar.edge_at(point, size)
        } else if snapped {
            band_edge(point, size)
        } else {
            None
        }
    }

    /// Returns the resize edge for a window-relative point, if the window can be
    /// interactively resized there.
    pub fn resize_edge_at(&self, point: FixedPoint, now: Instant) -> (r: Option<ResizeEdge>)
        requires
            self.wf(),
        ensures
            r == self.edge_at(point, now),
    {
        let size = self.geometry(now).size;
        if self.state.header_bar.fullscreen {
            return None;
        }
        // A plain maximized window (not part of a snap group) has no grip. A
        // snapped window keeps its grip, because dragging it is what drives the
        // compositor-owned group resize.
        if self.is_maximized() && !self.state.is_snapped() {
            return None;
        }
        if self.is_ssd() {
            self.state.header_bar.resize_edge(point, size)
        } else {
            // CSD windows in a snap group get an invisible compositor edge band
            // so a drag on their border starts the unified group resize (the
            // client, told it is maximized, won't resize itself).
            if !self.state.is_snapped() {
                return None;
            }
            resize_edge_band(point, size)
        }
    }

    /// Where the client's content starts within the window.
    pub open spec fn content_origin(self) -> Point {
        if self.state.is_ssd {
            if self.state.header_bar.fullscreen {
                Point { x: 0, y: HEADER_BAR_HEIGHT }
            } else {
                Point { x: BORDER_WIDTH, y: HEADER_BAR_HEIGHT }
            }
        } else {
            Point { x: 0, y: 0 }
        }
    }

    /// Where the client's content starts within the window.
    pub fn surface_offset(&self) -> (r: Point)
        ensures
            r == self.content_origin(),
    {
        if self.state.is_ssd {
            if self.state.header_bar.fullscreen {
                fullscreen_content_offset()
            } else {
                content_offset()
            }
        } else {
            Point::default()
        }
    }

    /// Whether `point` is on the titlebar of a server-decorated window.
    pub open spec fn on_titlebar(self, point: FixedPoint, now: Instant) -> bool {
        &&& self.state.is_ssd
        &&& point.y < HEADER_BAR_HEIGHT * FIXED_ONE
        &&& 0 <= point.x < self.geometry_at(now).size.w * FIXED_ONE
    }

    /// Whether `point` is on the titlebar of a server-decorated window.
    fn is_on_titlebar(&self, point: FixedPoint, now: Instant) -> (r: bool)
        requires
            self.wf(),
        ensures
            r == self.on_titlebar(point, now),
    {
        let size = self.geometry(now).size;
        self.state.is_ssd && point.y < HEADER_BAR_HEIGHT as i64 * FIXED_ONE && point.x >= 0
            && point.x < size.w as i64 * FIXED_ONE
    }

    /// What takes the input at `location`.
    pub open spec fn target_at(self, location: FixedPoint, now: Instant) -> InputTarget {
        if self.ghosting() {
            InputTarget::Nothing
        } else if self.on_titlebar(location, now) || self.edge_at(location, now) is Some {
            InputTarget::Decoration
        } else {
            InputTarget::Content { offset: self.content_origin() }
        }
    }

    /// Find what takes the input at the window-relative `location`.
    ///
    /// A client-decorated window in a snap group has an invisible compositor
    /// edge band, which counts as decoration so a drag starts the unified group
    /// resize.
    pub fn surface_under(&self, location: FixedPoint, now: Instant) -> (r: InputTarget)
        requires
            self.wf(),
        ensures
            r == self.target_at(location, now),
    {
        if self.is_ghosting() {
            return InputTarget::Nothing;
        }
        if self.is_on_titlebar(location, now) || self.resize_edge_at(location, now).is_some() {
            return InputTarget::Decoration;
        }
        InputTarget::Content { offset: self.surface_offset() }
    }

    /// Who decides whether `point` takes input.
    pub open spec fn input_at(self, point: FixedPoint, now: Instant) -> InputTarget {
        if self.ghosting() || self.state.visibility.closing {
            InputTarget::Nothing
        } else if self.state.is_ssd && (self.on_titlebar(point, now) || self.edge_at(point, now) is Some) {
            InputTarget::Decoration
        } else {
            InputTarget::Content { offset: self.content_origin() }
        }
    }

    /// Whether a point takes input: never for [`InputTarget::Nothing`], always
    /// for [`InputTarget::Decoration`], and otherwise if the client's input
    /// region holds the point moved back by the offset.
    ///
    /// A ghost (and any window fading out) no longer accepts input. The resize
    /// grip is compositor-owned, so it accepts input even though it sits outside
    /// the client surface.
    pub fn is_in_input_region(&self, point: FixedPoint, now: Instant) -> (r: InputTarget)
        requires
            self.wf(),
        ensures
            r == self.input_at(point, now),
    {
        if self.is_ghosting() || self.is_closing() {
            return InputTarget::Nothing;
        }
        if self.state.is_ssd {
            if self.is_on_titlebar(point, now) || self.resize_edge_at(point, now).is_some() {
                return InputTarget::Decoration;
            }
        }
        InputTarget::Content { offset: self.surface_offset() }
    }
}

/// What takes the input at a point of a window.
#[derive(Debug, Clone, Copy, PartialEq, Eq, Structural)]
pub enum InputTarget {
    /// The window lets the input through.
    Nothing,
    /// The compositor's own decoration.
    Decoration,
    /// The client's surfaces, whose origin is `offset` into the window.
    Content { offset: Point },
}

/// A ghost takes no input, has no surface and still counts as alive, and so
/// does a window that is closing take none.
pub proof fn fading_windows_take_no_input(window: WindowElement, point: FixedPoint, now: Instant)
    ensures
        window.ghosting() ==> {
            &&& window.is_alive() && !window.surfaced()
            &&& window.target_at(point, now) is Nothing
            &&& !window.maximized() && !window.active()
        },
        window.ghosting() || window.state.visibility.closing ==> window.input_at(point, now) is Nothing,
{
}

/// The size that is displayed during a resize is the one that the last commit
/// captured, whatever was asked for since.
pub proof fn requests_never_change_the_content_size(window: WindowElement, intent: Size)
    ensures
        window.with_resize(window.resize_state().intending(intent)).content_size()
            == window.content_size(),
{
}

/// Closing twice is closing once.
pub proof fn closing_is_idempotent(window: WindowElement, now: Instant, later: Instant)
    ensures
        window.closed(now).closed(later) == window.closed(now),
{
}

} // verus!
