//! Input on decorations, and the grabs that requests and decorations start.

use std::time::Instant;
use vstd::prelude::*;

use crate::drag::MoveSurfaceGrab;
use crate::element::{ClientState, WindowElement};
use crate::geometry::absolute_geometry;
use crate::grabs::{ResizeData, ResizeEdge, ResizeState};
use crate::resize::ResizeGrabState;
use crate::ssd::{resize_cursor, CursorIcon, DragAnchor, HeaderBar, WindowState, BTN_LEFT};
use crate::state::{AnvilState, CursorStatus};
use crate::utils::{FixedPoint, Point, Serial, Size};
use crate::xdg::restore_drag_location;

verus! {

use crate::requests::size_of;
use crate::space::Layout;
use crate::ssd::cursor_for;
use crate::state::Desk;
use crate::xdg::drag_origin;

/// A pointer that resizes a window.
#[derive(Debug, Clone, Copy, PartialEq, Eq, Structural)]
pub struct PointerResizeSurfaceGrab {
    pub button: u32,
    /// What the cursor looks like while the button is held.
    pub cursor: CursorIcon,
    pub resize: ResizeGrabState,
}

/// A touch point that resizes a window.
#[derive(Debug, Clone, Copy, PartialEq, Eq, Structural)]
pub struct TouchResizeSurfaceGrab {
    pub slot: u32,
    pub resize: ResizeGrabState,
}

impl TouchResizeSurfaceGrab {
    /// A touch point moved.
    pub fn motion(&mut self, slot: u32, location: FixedPoint)
        ensures
            *final(self) == (if slot == old(self).slot {
                TouchResizeSurfaceGrab {
                    resize: (ResizeGrabState { pointer: location, ..old(self).resize }),
                    ..*old(self)
                }
            } else {
                *old(self)
            }),
    {
        if slot == self.slot {
            self.resize.update_pointer(location);
        }
    }
}

/// What is known of a pointer or a touch device when a client asks for a grab.
#[derive(Debug, Clone, Copy, PartialEq, Eq, Structural)]
pub struct GrabStart {
    /// Whether the device is held down with the serial of the request.
    pub has_grab: bool,
    /// Where it was pressed.
    pub location: FixedPoint,
    /// Whether it was pressed on a surface of the client that asks.
    pub same_client: bool,
    /// The touch point, for a touch device.
    pub slot: Option<u32>,
}

impl GrabStart {
    /// The device that a request starts a grab on: a touch device that is held
    /// down goes before the pointer. If the focus was for a different client,
    /// the request is ignored.
    pub open spec fn granted(touch: Option<GrabStart>, pointer: Option<GrabStart>) -> Option<GrabStart> {
        let held = match touch {
            Some(start) if start.has_grab => touch,
            _ => match pointer {
                Some(start) if start.has_grab => pointer,
                _ => None,
            },
        };
        match held {
            Some(start) if start.same_client => held,
            _ => None,
        }
    }

    /// The device that a request starts a grab on.
    pub fn grant(touch: Option<GrabStart>, pointer: Option<GrabStart>) -> (r: Option<GrabStart>)
        ensures
            r == Self::granted(touch, pointer),
    {
        if let Some(start) = touch {
            if start.has_grab {
                return if start.same_client { Some(start) } else { None };
            }
        }
        if let Some(start) = pointer {
            if start.has_grab && start.same_client {
                return Some(start);
            }
        }
        None
    }
}

impl WindowElement {
    /// The window with the pointer over its decoration, or not.
    pub open spec fn hovering(self, pointer_loc: Option<FixedPoint>) -> WindowElement {
        WindowElement {
            state: WindowState {
                header_bar: HeaderBar { pointer_loc, ..self.state.header_bar },
                ..self.state
            },
            ..self
        }
    }

    /// The window with the pointer over its decoration, or not.
    fn with_pointer(self, pointer_loc: Option<FixedPoint>) -> (r: WindowElement)
        ensures
            r == self.hovering(pointer_loc),
            self.wf() ==> r.wf(),
    {
        WindowElement {
            state: WindowState {
                header_bar: HeaderBar { pointer_loc, ..self.state.header_bar },
                ..self.state
            },
            ..self
        }
    }

    /// Whether the compositor owns the edges of the window: it draws them, or
    /// the window is tiled and has an invisible edge band.
    pub open spec fn has_edges(self) -> bool {
        self.state.is_ssd || self.state.snap is Some
    }

    /// The cursor over the point `location` of the window's decoration.
    pub open spec fn cursor_over(self, location: FixedPoint, now: Instant) -> CursorIcon {
        match self.edge_at(location, now) {
            Some(edges) if self.has_edges() => cursor_for(edges),
            _ => CursorIcon::Default,
        }
    }
}

impl Layout {
    /// The grab that resizes the window `id` from `location`, if it can be
    /// resized.
    pub open spec fn edge_grab(self, id: u64, edges: ResizeEdge, location: FixedPoint) -> Option<
        ResizeGrabState,
    > {
        match (self.window(id), self.location(id)) {
            (Some(window), Some(loc)) if window.is_alive() && !edges.empty() => Some(
                ResizeGrabState {
                    window: id,
                    edges,
                    initial_window_location: loc,
                    initial_window_size: window.content_size(),
                    start_location: location.moved(loc),
                    pointer: location.moved(loc),
                    snap_area: self.snap_area(id),
                },
            ),
            _ => None,
        }
    }

    /// The layout once the window `id` is about to be resized by its edges. Any
    /// transition is over, even where the window is not mapped.
    pub open spec fn edge_grabbed(self, id: u64, edges: ResizeEdge) -> Layout {
        match self.window(id) {
            Some(window) if window.is_alive() && !edges.empty() => {
                let still = window.stilled();
                match self.location(id) {
                    Some(loc) => self.with_window(
                        still.with_resize(
                            ResizeState::Resizing(
                                ResizeData::fresh(edges, loc, window.content_size()),
                            ),
                        ),
                    ),
                    None => self.with_window(still),
                }
            },
            _ => self,
        }
    }

    /// The grab that resizes the mapped window `id` on its client's request.
    pub open spec fn client_resize(self, id: u64, edges: ResizeEdge, start: FixedPoint, tiled: bool) -> Option<
        ResizeGrabState,
    > {
        match (self.window(id), self.location(id)) {
            (Some(window), Some(loc)) => Some(
                ResizeGrabState {
                    window: id,
                    edges,
                    initial_window_location: loc,
                    initial_window_size: window.client_geometry.size,
                    start_location: start,
                    pointer: start,
                    snap_area: if tiled {
                        self.snap_area(id)
                    } else {
                        None
                    },
                },
            ),
            _ => None,
        }
    }

    /// The layout once the mapped window `id` is resized on its client's
    /// request.
    pub open spec fn client_resized(self, id: u64, edges: ResizeEdge) -> Layout {
        match (self.window(id), self.location(id)) {
            (Some(window), Some(loc)) => self.with_window(
                window.with_resize(
                    ResizeState::Resizing(
                        ResizeData::fresh(edges, loc, window.client_geometry.size),
                    ),
                ),
            ),
            _ => self,
        }
    }

    /// The content size that the window `found` gets back when it is dragged out
    /// of the maximized state.
    pub open spec fn move_restore(self, found: WindowElement) -> Option<Size> {
        if found.client.maximized {
            size_of(self.unmaximized_geometry(found))
        } else {
            None
        }
    }

    /// Where a move of the window `found`, mapped at `loc` and grabbed at
    /// `start`, begins.
    pub open spec fn move_origin(
        self,
        found: WindowElement,
        loc: Point,
        start: FixedPoint,
        now: Instant,
    ) -> Point {
        if found.client.maximized {
            drag_origin(
                loc,
                self.element_size(found.id, now),
                start,
                self.move_restore(found),
                found.state.is_ssd,
            )
        } else {
            loc
        }
    }

    /// The anchor of a move of the window `found`: one that is client-decorated
    /// and dragged out of the maximized state with no size to restore picks its
    /// own.
    pub open spec fn move_anchor(
        self,
        found: WindowElement,
        loc: Point,
        start: FixedPoint,
        now: Instant,
    ) -> Option<DragAnchor> {
        if found.client.maximized && !found.state.is_ssd && self.move_restore(found) is None {
            Some(DragAnchor::of_grab(loc, self.element_size(found.id, now), start))
        } else {
            None
        }
    }

    /// The layout once a maximized window is told that it no longer is, because
    /// it is dragged.
    pub open spec fn move_unmaximized(self, found: WindowElement) -> Layout {
        if found.client.maximized {
            self.configuring(
                found.unmaximizing_to(None).telling(
                    ClientState {
                        maximized: false,
                        size: self.move_restore(found),
                        ..found.client
                    },
                ),
                true,
            )
        } else {
            self
        }
    }
}

impl Desk {
    /// The state and the origin once a move of the window `found`, mapped at
    /// `loc` and grabbed at `start`, has begun.
    pub open spec fn move_begun(
        self,
        found: WindowElement,
        loc: Point,
        start: FixedPoint,
        now: Instant,
    ) -> (Desk, Point) {
        let told = self.layout.move_unmaximized(found);
        let origin = match told.drag_restore(found.id, start, now) {
            Some((restored, _)) => restored,
            None => self.layout.move_origin(found, loc, start, now),
        };
        let freed = told.drag_unsnapped(found.id, start, now);
        let layout = match self.layout.move_restore(found) {
            Some(size) => freed.gliding(found.id, size, origin, now),
            None => freed,
        };
        (Desk { dragging_window: Some(found.id), ..self.over(layout) }, origin)
    }

    /// The state and the grab once a move of the window `found`, mapped at `loc`,
    /// was granted to the device held since `start`.
    pub open spec fn move_granted(
        self,
        found: WindowElement,
        loc: Point,
        start: GrabStart,
        now: Instant,
    ) -> (Desk, MoveSurfaceGrab) {
        let (desk, origin) = self.move_begun(found, loc, start.location, now);
        (
            desk,
            MoveSurfaceGrab {
                slot: start.slot,
                start_location: start.location,
                window: found.id,
                initial_window_location: origin,
                anchor: self.layout.move_anchor(found, loc, start.location, now),
                snap_target: None,
            },
        )
    }

    /// The state with the pointer at `location` of the window's decoration.
    pub open spec fn hovered(self, window: u64, location: FixedPoint, now: Instant) -> Desk {
        match self.layout.window(window) {
            Some(found) => Desk {
                cursor_status: CursorStatus::Named(found.cursor_over(location, now)),
                layout: if found.has_edges() {
                    self.layout.with_window(found.hovering(Some(location)))
                } else {
                    self.layout
                },
                ..self
            },
            None => self,
        }
    }

    /// The state with the pointer no longer over the window's decoration.
    pub open spec fn left(self, window: u64) -> Layout {
        match self.layout.window(window) {
            Some(found) if found.has_edges() => self.layout.with_window(found.hovering(None)),
            _ => self.layout,
        }
    }
}

impl AnvilState {
    /// Record the start of an SSD resize and return the grab: the initial window
    /// location, content size, and global pointer location that drive it.
    fn prepare_ssd_resize(
        &mut self,
        window: u64,
        edges: ResizeEdge,
        window_relative_location: FixedPoint,
    ) -> (r: Option<ResizeGrabState>)
        requires
            old(self)@.wf(),
        ensures
            final(self)@ == old(self)@.over(old(self)@.layout.edge_grabbed(window, edges)),
            final(self)@.wf(),
            r == old(self)@.layout.edge_grab(window, edges, window_relative_location),
    {
        let found = match self.space.window(window) {
            Some(found) => found,
            None => return None,
        };
        if !found.alive() || edges.is_empty() {
            return None;
        }
        let snap_area = self.snap_area_for(window);
        // An interactive resize takes over from any in-flight transition. A
        // snapped window stays in its group while resized, so its snap (and the
        // restore icon) is kept; only moving breaks the snap.
        let still = found.without_animation();
        let loc = match self.space.element_location(window) {
            Some(loc) => loc,
            None => {
                self.space.put(still);
                return None;
            },
        };
        // Resizing works in surface (content) coordinates, so ignore the
        // decoration bounds that the geometry adds.
        let size = found.resize_content_size();
        let resize = ResizeState::Resizing(ResizeData::new(edges, loc, size));
        self.space.put(still.resized(resize));
        let mut grab = ResizeGrabState::new(
            window,
            edges,
            loc,
            size,
            window_relative_location.plus(loc),
        );
        grab.set_snap_area(snap_area);
        Some(grab)
    }

    /// Begin an interactive pointer resize of an SSD window from one of its edges.
    ///
    /// The grab is installed once the event at hand is handled, and then shows
    /// its cursor until the button is released.
    pub fn start_ssd_resize(
        &mut self,
        window: u64,
        edges: ResizeEdge,
        button: u32,
        window_relative_location: FixedPoint,
    ) -> (r: Option<PointerResizeSurfaceGrab>)
        requires
            old(self)@.wf(),
        ensures
            final(self)@ == old(self)@.over(old(self)@.layout.edge_grabbed(window, edges)),
            final(self)@.wf(),
            r == (match old(self)@.layout.edge_grab(window, edges, window_relative_location) {
                Some(resize) => Some(
                    PointerResizeSurfaceGrab { button, cursor: cursor_for(edges), resize },
                ),
                None => None,
            }),
    {
        match self.prepare_ssd_resize(window, edges, window_relative_location) {
            Some(resize) => Some(
                PointerResizeSurfaceGrab { button, cursor: resize_cursor(edges), resize },
            ),
            None => None,
        }
    }

    /// Begin an interactive touch resize of an SSD window from one of its edges.
    pub fn start_ssd_touch_resize(
        &mut self,
        window: u64,
        edges: ResizeEdge,
        slot: u32,
        window_relative_location: FixedPoint,
    ) -> (r: Option<TouchResizeSurfaceGrab>)
        requires
            old(self)@.wf(),
        ensures
            final(self)@ == old(self)@.over(old(self)@.layout.edge_grabbed(window, edges)),
            final(self)@.wf(),
            r == (match old(self)@.layout.edge_grab(window, edges, window_relative_location) {
                Some(resize) => Some(TouchResizeSurfaceGrab { slot, resize }),
                None => None,
            }),
    {
        match self.prepare_ssd_resize(window, edges, window_relative_location) {
            Some(resize) => Some(TouchResizeSurfaceGrab { slot, resize }),
            None => None,
        }
    }

    /// Resize the window on its client's request, and return the device and the
    /// grab to set. A tiled window drives its group along.
    pub fn resize_request(
        &mut self,
        window: u64,
        edges: ResizeEdge,
        touch: Option<GrabStart>,
        pointer: Option<GrabStart>,
    ) -> (r: Option<(GrabStart, ResizeGrabState)>)
        requires
            old(self)@.wf(),
        ensures
            final(self)@.wf(),
            match GrabStart::granted(touch, pointer) {
                Some(start) => {
                    &&& final(self)@ == old(self)@.over(
                        old(self)@.layout.client_resized(window, edges),
                    )
                    &&& r == (match old(self)@.layout.client_resize(
                        window,
                        edges,
                        start.location,
                        true,
                    ) {
                        Some(resize) => Some((start, resize)),
                        None => None,
                    })
                },
                None => r is None && final(self)@ == old(self)@,
            },
    {
        let start = match GrabStart::grant(touch, pointer) {
            Some(start) => start,
            None => return None,
        };
        let snap_area = self.snap_area_for(window);
        match self.begin_client_resize(window, edges, start.location) {
            Some(resize) => {
                let mut resize = resize;
                resize.set_snap_area(snap_area);
                Some((start, resize))
            },
            None => None,
        }
    }

    /// Resize the X11 window on its client's request, from where the pointer was
    /// pressed, if it was.
    pub fn resize_request_x11(
        &mut self,
        window: u64,
        edges: ResizeEdge,
        pointer: Option<FixedPoint>,
    ) -> (r: Option<ResizeGrabState>)
        requires
            old(self)@.wf(),
        ensures
            final(self)@.wf(),
            match pointer {
                Some(start) => {
                    &&& final(self)@ == old(self)@.over(
                        old(self)@.layout.client_resized(window, edges),
                    )
                    &&& r == old(self)@.layout.client_resize(window, edges, start, false)
                },
                None => r is None && final(self)@ == old(self)@,
            },
    {
        match pointer {
            Some(start) => self.begin_client_resize(window, edges, start),
            None => None,
        }
    }

    /// Record the start of a resize on a client's request.
    fn begin_client_resize(&mut self, window: u64, edges: ResizeEdge, start: FixedPoint) -> (r: Option<
        ResizeGrabState,
    >)
        requires
            old(self)@.wf(),
        ensures
            final(self)@ == old(self)@.over(old(self)@.layout.client_resized(window, edges)),
            final(self)@.wf(),
            r == old(self)@.layout.client_resize(window, edges, start, false),
    {
        match (self.space.window(window), self.space.element_location(window)) {
            (Some(found), Some(loc)) => {
                // Content geometry, not the window's own geometry which includes
                // SSD decoration bounds; the resize math works in content space.
                let size = found.client_geometry.size;
                let resize = ResizeState::Resizing(ResizeData::new(edges, loc, size));
                self.space.put(found.resized(resize));
                Some(ResizeGrabState::new(window, edges, loc, size, start))
            },
            _ => None,
        }
    }

    /// The content size that a window dragged out of the maximized state gets
    /// back.
    fn size_to_restore(&self, found: &WindowElement) -> (r: Option<Size>)
        requires
            found.wf(),
        ensures
            r == self@.layout.move_restore(*found),
    {
        if !found.client.maximized {
            return None;
        }
        match found.state.maximize_restore {
            Some(rel) => match absolute_geometry(&self.space, found, rel) {
                Some((_, size)) => Some(size),
                None => None,
            },
            None => None,
        }
    }

    /// The size of the window, nothing if it is not mapped.
    fn size_of_element(&self, window: u64, now: Instant) -> (r: Size)
        requires
            self@.wf(),
        ensures
            r == self@.layout.element_size(window, now),
    {
        match self.space.element_geometry(window, now) {
            Some(geo) => geo.size,
            None => Size { w: 0, h: 0 },
        }
    }

    /// Tell a maximized window that it no longer is, because it is dragged.
    fn unmaximize_for_move(&mut self, found: WindowElement, restore_size: Option<Size>)
        requires
            old(self)@.wf(),
            found.wf(),
            restore_size == old(self)@.layout.move_restore(found),
        ensures
            final(self)@ == old(self)@.over(old(self)@.layout.move_unmaximized(found)),
            final(self)@.wf(),
    {
        if found.client.maximized {
            let client = ClientState { maximized: false, size: restore_size, ..found.client };
            self.space.configure(found.without_maximize_restore().with_client(client), true);
        }
    }

    /// Begin a move of a mapped Wayland window. Returns where it begins.
    ///
    /// If the surface is maximized, unmaximize it and keep the pointer over the
    /// same spot on the titlebar while the window restores. A snapped window
    /// restores to its floating size.
    fn begin_move(&mut self, found: WindowElement, loc: Point, start: FixedPoint, now: Instant) -> (r:
        Point)
        requires
            old(self)@.wf(),
            found.wf(),
        ensures
            (final(self)@, r) == old(self)@.move_begun(found, loc, start, now),
            final(self)@.wf(),
    {
        let restore_size = self.size_to_restore(&found);
        let mut origin = loc;
        if found.client.maximized {
            origin =
            restore_drag_location(
                loc,
                self.size_of_element(found.id, now),
                start,
                restore_size,
                found.is_ssd(),
            );
        }
        self.unmaximize_for_move(found, restore_size);
        // The grab drives the position, so restore/unmaximize transitions only
        // animate the window's size while it follows the pointer.
        self.dragging_window = Some(found.id);
        if let Some(restored) = self.take_snap_restore_for_drag(found.id, start, now) {
            origin = restored;
        }
        if let Some(size) = restore_size {
            self.animate_window(found.id, size, origin, now);
        }
        origin
    }

    /// Move the Wayland window on its client's request, and return the grab to
    /// set.
    pub fn move_request_xdg(
        &mut self,
        window: u64,
        touch: Option<GrabStart>,
        pointer: Option<GrabStart>,
        now: Instant,
    ) -> (r: Option<MoveSurfaceGrab>)
        requires
            old(self)@.wf(),
        ensures
            final(self)@.wf(),
            match (
                GrabStart::granted(touch, pointer),
                old(self)@.layout.window(window),
                old(self)@.layout.location(window),
            ) {
                (Some(start), Some(found), Some(loc)) => {
                    let (desk, origin) = old(self)@.move_begun(found, loc, start.location, now);
                    &&& final(self)@ == desk
                    &&& r == Some(
                        MoveSurfaceGrab {
                            slot: start.slot,
                            start_location: start.location,
                            window,
                            initial_window_location: origin,
                            anchor: old(self)@.layout.move_anchor(found, loc, start.location, now),
                            snap_target: None,
                        },
                    )
                    &&& (final(self)@, r->0) == old(self)@.move_granted(found, loc, start, now)
                },
                _ => r is None && final(self)@ == old(self)@,
            },
            r is Some ==> r->0.wf(),
    {
        let start = match GrabStart::grant(touch, pointer) {
            Some(start) => start,
            None => return None,
        };
        // If the client disconnects after requesting a move we can just ignore
        // the request.
        match (self.space.window(window), self.space.element_location(window)) {
            (Some(found), Some(loc)) => {
                let anchor = if found.client.maximized && !found.is_ssd() && self.size_to_restore(
                    &found,
                ).is_none() {
                    let size = self.size_of_element(window, now);
                    Some(DragAnchor::capture(loc, size, start.location))
                } else {
                    None
                };
                let origin = self.begin_move(found, loc, start.location, now);
                Some(
                    MoveSurfaceGrab {
                        slot: start.slot,
                        start_location: start.location,
                        window,
                        initial_window_location: origin,
                        anchor,
                        snap_target: None,
                    },
                )
            },
            _ => None,
        }
    }
}

/// The decoration of a window, as a target of input.
#[derive(Debug, Clone, Copy, PartialEq, Eq, Structural)]
pub struct SSD {
    pub window: u64,
}

impl SSD {
    /// The window this decoration belongs to.
    pub fn window(&self) -> (r: u64)
        ensures
            r == self.window,
    {
        self.window
    }

    /// Track the pointer over the decoration and show a resize cursor on edges.
    /// `location` is window-relative.
    ///
    /// Uses the exact same hit test as pointer focus and button handling so the
    /// cursor, focus and click always agree. A CSD snapped window also has an
    /// (invisible) resize edge band, so it needs the resize cursor.
    pub fn update_hover(&self, data: &mut AnvilState, location: FixedPoint, now: Instant)
        requires
            old(data)@.wf(),
        ensures
            final(data)@ == old(data)@.hovered(self.window, location, now),
            final(data)@.wf(),
    {
        if let Some(found) = data.space.window(self.window) {
            let has_edges = found.is_ssd() || found.state.is_snapped();
            let cursor = match found.resize_edge_at(location, now) {
                Some(edges) => if has_edges {
                    resize_cursor(edges)
                } else {
                    CursorIcon::Default
                },
                None => CursorIcon::Default,
            };
            if has_edges {
                data.space.put(found.with_pointer(Some(location)));
            }
            data.cursor_status = CursorStatus::Named(cursor);
        }
    }

    /// A button was pressed or released over the decoration. Returns the grab to
    /// set once the event is handled, if this starts a resize: a drag on the
    /// edge of a tiled client-decorated window resizes the whole group.
    pub fn button(
        &self,
        data: &mut AnvilState,
        pressed: bool,
        button: u32,
        serial: Serial,
        now: Instant,
    ) -> (r: Option<PointerResizeSurfaceGrab>)
        requires
            old(data)@.wf(),
        ensures
            final(data)@.wf(),
            match old(data)@.layout.window(self.window) {
                Some(found) if found.has_edges() => if !pressed {
                    r is None && final(data)@ == old(data)@.drag_ended()
                } else {
                    match found.pressed_edge(button, now) {
                        Some((edges, at)) => {
                            &&& final(data)@ == old(data)@.over(
                                old(data)@.layout.edge_grabbed(self.window, edges),
                            )
                            &&& r == (match old(data)@.layout.edge_grab(self.window, edges, at) {
                                Some(resize) => Some(
                                    PointerResizeSurfaceGrab {
                                        button,
                                        cursor: cursor_for(edges),
                                        resize,
                                    },
                                ),
                                None => None,
                            })
                        },
                        None => r is None && final(data)@ == (if found.state.is_ssd {
                            old(data)@.clicked(found.state.header_bar, self.window, serial)
                        } else {
                            old(data)@
                        }),
                    }
                },
                _ => r is None && final(data)@ == old(data)@,
            },
    {
        let found = match data.space.window(self.window) {
            Some(found) => found,
            None => return None,
        };
        if !found.is_ssd() && !found.state.is_snapped() {
            return None;
        }
        if !pressed {
            data.end_ssd_drag();
            return None;
        }
        // Resolve the edge exactly like pointer focus does.
        if button == BTN_LEFT {
            if let Some(pointer) = found.state.header_bar.pointer_loc {
                if let Some(edges) = found.resize_edge_at(pointer, now) {
                    return data.start_ssd_resize(self.window, edges, button, pointer);
                }
            }
        }
        if found.is_ssd() {
            found.state.header_bar.clicked(data, self.window, serial);
        }
        None
    }

    /// The pointer left the decoration.
    pub fn leave(&self, data: &mut AnvilState)
        requires
            old(data)@.wf(),
        ensures
            final(data)@ == (Desk {
                cursor_status: CursorStatus::Named(CursorIcon::Default),
                layout: old(data)@.left(self.window),
                ..old(data)@
            }),
            final(data)@.wf(),
    {
        self.pointer_gone(data);
        data.cursor_status = CursorStatus::Named(CursorIcon::Default);
    }

    /// A tool left the decoration.
    pub fn proximity_out(&self, data: &mut AnvilState)
        requires
            old(data)@.wf(),
        ensures
            final(data)@ == old(data)@.over(old(data)@.left(self.window)),
            final(data)@.wf(),
    {
        self.pointer_gone(data);
    }

    /// Forget where the pointer was.
    fn pointer_gone(&self, data: &mut AnvilState)
        requires
            old(data)@.wf(),
        ensures
            final(data)@ == old(data)@.over(old(data)@.left(self.window)),
            final(data)@.wf(),
    {
        if let Some(found) = data.space.window(self.window) {
            if found.is_ssd() || found.state.is_snapped() {
                data.space.put(found.with_pointer(None));
            }
        }
    }

    /// A finger was put on the decoration. Returns the grab to set once the
    /// event is handled, if this starts a resize.
    pub fn touch_down(&self, data: &mut AnvilState, slot: u32, location: FixedPoint, now: Instant) -> (r:
        Option<TouchResizeSurfaceGrab>)
        requires
            old(data)@.wf(),
        ensures
            final(data)@.wf(),
            match old(data)@.layout.window(self.window) {
                Some(found) if found.has_edges() => match found.edge_at(location, now) {
                    Some(edges) => {
                        &&& final(data)@ == old(data)@.over(
                            old(data)@.layout.edge_grabbed(self.window, edges),
                        )
                        &&& r == (match old(data)@.layout.edge_grab(self.window, edges, location) {
                            Some(resize) => Some(TouchResizeSurfaceGrab { slot, resize }),
                            None => None,
                        })
                    },
                    None => r is None && final(data)@ == (if found.state.is_ssd {
                        old(data)@.titlebar_touched(found.state.header_bar, self.window)
                    } else {
                        old(data)@
                    }),
                },
                _ => r is None && final(data)@ == old(data)@,
            },
    {
        let found = match data.space.window(self.window) {
            Some(found) => found,
            None => return None,
        };
        if !found.is_ssd() && !found.state.is_snapped() {
            return None;
        }
        if let Some(edges) = found.resize_edge_at(location, now) {
            return data.start_ssd_touch_resize(self.window, edges, slot, location);
        }
        if found.is_ssd() {
            found.state.header_bar.touch_down(data, self.window);
        }
        None
    }

    /// A tool was pressed on the decoration.
    pub fn tool_down(&self, data: &mut AnvilState)
        requires
            old(data)@.wf(),
        ensures
            final(data)@ == (match old(data)@.layout.window(self.window) {
                Some(found) if found.state.is_ssd => old(data)@.titlebar_touched(
                    found.state.header_bar,
                    self.window,
                ),
                _ => old(data)@,
            }),
            final(data)@.wf(),
    {
        if let Some(found) = data.space.window(self.window) {
            if found.is_ssd() {
                found.state.header_bar.touch_down(data, self.window);
            }
        }
    }

    /// A finger or a tool was lifted off the decoration.
    pub fn touch_up(&self, data: &mut AnvilState)
        requires
            old(data)@.wf(),
        ensures
            final(data)@ == (match old(data)@.layout.window(self.window) {
                Some(found) if found.state.is_ssd => old(data)@.titlebar_untouched(
                    found.state.header_bar,
                    self.window,
                ),
                _ => old(data)@,
            }),
            final(data)@.wf(),
    {
        if let Some(found) = data.space.window(self.window) {
            if found.is_ssd() {
                found.state.header_bar.touch_up(data, self.window);
            }
        }
    }

    /// A finger or a tool moved over the decoration.
    pub fn touch_motion(&self, data: &mut AnvilState, location: FixedPoint)
        requires
            old(data)@.wf(),
        ensures
            final(data)@ == (match old(data)@.layout.window(self.window) {
                Some(found) if found.state.is_ssd => old(data)@.over(
                    old(data)@.layout.with_window(found.hovering(Some(location))),
                ),
                _ => old(data)@,
            }),
            final(data)@.wf(),
    {
        if let Some(found) = data.space.window(self.window) {
            if found.is_ssd() {
                data.space.put(found.with_pointer(Some(location)));
            }
        }
    }

    /// A button of a tool was pressed or released over the decoration.
    pub fn tool_button(&self, data: &mut AnvilState, pressed: bool, serial: Serial)
        requires
            old(data)@.wf(),
        ensures
            final(data)@ == (match old(data)@.layout.window(self.window) {
                Some(found) if found.state.is_ssd && pressed => old(data)@.clicked(
                    found.state.header_bar,
                    self.window,
                    serial,
                ),
                _ => old(data)@,
            }),
            final(data)@.wf(),
    {
        if let Some(found) = data.space.window(self.window) {
            if found.is_ssd() && pressed {
                found.state.header_bar.clicked(data, self.window, serial);
            }
        }
    }
}

impl Desk {
    /// The state after the decoration `bar` of the window was touched.
    pub open spec fn titlebar_touched(self, bar: HeaderBar, window: u64) -> Desk {
        if bar.column_part() == Some(crate::ssd::HeaderPart::Title) {
            self.titlebar_grabbed(bar, window)
        } else {
            self
        }
    }

    /// The state after a touch of the decoration `bar` of the window ended.
    pub open spec fn titlebar_untouched(self, bar: HeaderBar, window: u64) -> Desk {
        if bar.hovered() {
            self.drag_ended().button_pressed(bar.column_part(), window)
        } else {
            self.drag_ended()
        }
    }
}

impl WindowElement {
    /// The edges that a press of `button` resizes, and where the pointer is.
    pub open spec fn pressed_edge(self, button: u32, now: Instant) -> Option<(ResizeEdge, FixedPoint)> {
        match self.state.header_bar.pointer_loc {
            Some(at) if button == BTN_LEFT => match self.edge_at(at, now) {
                Some(edges) => Some((edges, at)),
                None => None,
            },
            _ => None,
        }
    }
}

} // verus!
