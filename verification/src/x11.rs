//! Events of X11 windows.

use std::time::Instant;
use vstd::prelude::*;

use crate::drag::MoveSurfaceGrab;
use crate::element::{SurfaceKind, WindowElement};
use crate::space::Action;
use crate::state::AnvilState;
use crate::utils::{FixedPoint, Point, Rectangle};

verus! {

use crate::space::Layout;
use crate::state::Desk;

/// An unsigned length as the signed number with the same bits.
pub open spec fn signed(v: u32) -> int {
    if v <= i32::MAX {
        v as int
    } else {
        v - 0x1_0000_0000
    }
}

fn to_signed(v: u32) -> (r: i32)
    ensures
        r == signed(v),
{
    if v <= i32::MAX as u32 {
        v as i32
    } else {
        (v as i64 - 0x1_0000_0000) as i32
    }
}

/// The geometry to configure a window to that asks for a width or a height:
/// just the new size, windows don't get to move themselves around freely.
pub fn configure_request(last: Rectangle, w: Option<u32>, h: Option<u32>) -> (r: Rectangle)
    ensures
        r.loc == last.loc,
        r.size.w == (match w {
            Some(w) => signed(w),
            None => last.size.w as int,
        }),
        r.size.h == (match h {
            Some(h) => signed(h),
            None => last.size.h as int,
        }),
{
    let mut geo = last;
    if let Some(w) = w {
        geo.size.w = to_signed(w);
    }
    if let Some(h) = h {
        geo.size.h = to_signed(h);
    }
    geo
}

impl Layout {
    /// The layout with a new X11 window `id` that is decorated or not.
    pub open spec fn with_x11_window(self, id: u64, surface: Option<u64>, decorated: bool) -> Layout {
        self.with_new_window(
            WindowElement { decorated, ..WindowElement::fresh(id, SurfaceKind::X11, surface) },
        )
    }

    /// The layout once the X11 window `id` was placed: it is configured to where
    /// it is, and decorated unless it decorates itself.
    pub open spec fn x11_framed(self, id: u64, decorated: bool, now: Instant) -> Layout {
        match self.element_bbox(id, now) {
            Some(rect) => {
                let told = self.acting(Action::ConfigureX11 { window: id, rect });
                match told.window(id) {
                    Some(window) => told.with_window(window.with_ssd(!decorated)),
                    None => told,
                }
            },
            None => self,
        }
    }

    /// Where a move of the X11 window `found` begins, when it is grabbed at
    /// `at`: a maximized one starts with its corner under the pointer.
    pub open spec fn x11_move_origin(self, found: WindowElement, loc: Point, at: FixedPoint) -> Point {
        if found.client.maximized {
            at.pixel()
        } else {
            loc
        }
    }

    /// The layout once the X11 window `found` is moved from `at`. A maximized
    /// one gets back the size it had.
    pub open spec fn x11_move_begun(self, found: WindowElement, at: FixedPoint) -> Layout {
        if found.client.maximized {
            let told = self.acting(
                Action::SetMaximizedX11 { window: found.id, maximized: false },
            ).with_window(found.x11_maximized(false, None));
            match found.state.old_geometry {
                Some(old) => told.acting(
                    Action::ConfigureX11 {
                        window: found.id,
                        rect: Rectangle { loc: at.pixel(), size: old.size },
                    },
                ),
                None => told,
            }
        } else {
            self
        }
    }
}

impl Desk {
    /// The desk once a move of the X11 window was asked for, and the grab to set.
    pub open spec fn x11_moving(
        self,
        window: u64,
        touch: Option<(u32, FixedPoint)>,
        pointer: Option<FixedPoint>,
    ) -> (Desk, Option<MoveSurfaceGrab>) {
        match (
            self.layout.window(window),
            self.layout.location(window),
            x11_device(touch, pointer),
        ) {
            (Some(found), Some(loc), Some((slot, start))) => {
                let at = if slot is Some {
                    start
                } else {
                    self.pointer
                };
                let grab = MoveSurfaceGrab {
                    slot,
                    start_location: start,
                    window,
                    initial_window_location: self.layout.x11_move_origin(found, loc, at),
                    anchor: None,
                    snap_target: None,
                };
                (self.over(self.layout.x11_move_begun(found, at)), Some(grab))
            },
            _ => (self, None),
        }
    }

    /// The state with a new X11 window `id` in the middle of the work area.
    pub open spec fn x11_opening(
        self,
        id: u64,
        surface: Option<u64>,
        decorated: bool,
        now: Instant,
    ) -> Desk {
        let placed = self.over(self.layout.with_x11_window(id, surface, decorated)).placing(id, true, now);
        placed.over(placed.layout.x11_framed(id, decorated, now))
    }
}

impl AnvilState {
    /// An X11 client mapped the window `id`, which it decorates itself if
    /// `decorated`.
    pub fn map_window_request(
        &mut self,
        id: u64,
        surface: Option<u64>,
        decorated: bool,
        now: Instant,
    )
        requires
            old(self)@.wf(),
        ensures
            final(self)@ == old(self)@.x11_opening(id, surface, decorated, now),
            final(self)@.wf(),
    {
        self.space.add_window(
            WindowElement { decorated, ..WindowElement::new(id, SurfaceKind::X11, surface) },
        );
        self.place_window(id, true, now);
        if let Some(rect) = self.space.element_bbox(id, now) {
            self.space.act(Action::ConfigureX11 { window: id, rect });
            if let Some(window) = self.space.window(id) {
                self.space.put(window.decorated_by_server(!decorated));
            }
        }
    }

    /// An X11 client mapped the window `id`, a menu or the like, at `location`.
    pub fn mapped_override_redirect_window(
        &mut self,
        id: u64,
        surface: Option<u64>,
        location: Point,
    )
        requires
            old(self)@.wf(),
        ensures
            final(self)@ == old(self)@.over(
                old(self)@.layout.with_x11_window(id, surface, false).mapped(id, location, true),
            ),
            final(self)@.wf(),
    {
        self.space.add_window(
            WindowElement { decorated: false, ..WindowElement::new(id, SurfaceKind::X11, surface) },
        );
        self.space.map_element(id, location, true);
    }

    /// An X11 client unmapped the window `id`.
    pub fn unmapped_window(&mut self, id: u64, override_redirect: bool)
        requires
            old(self)@.wf(),
        ensures
            final(self)@ == old(self)@.over(
                if override_redirect {
                    old(self)@.layout.unmapped(id)
                } else {
                    old(self)@.layout.unmapped(id).acting(
                        Action::SetMappedX11 { window: id, mapped: false },
                    )
                },
            ),
            final(self)@.wf(),
    {
        self.space.unmap_elem(id);
        if !override_redirect {
            self.space.act(Action::SetMappedX11 { window: id, mapped: false });
        }
    }

    /// The X server moved the window `id`.
    pub fn configure_notify(&mut self, id: u64, geometry: Rectangle)
        requires
            old(self)@.wf(),
        ensures
            final(self)@ == old(self)@.over(
                if old(self)@.layout.location(id) is Some {
                    old(self)@.layout.mapped(id, geometry.loc, false)
                } else {
                    old(self)@.layout
                },
            ),
            final(self)@.wf(),
    {
        if self.space.element_location(id).is_some() {
            self.space.map_element(id, geometry.loc, false);
        }
    }

    /// Whether X11 clients may read the selection: the focus is on an X11 window
    /// of their server.
    pub fn allow_selection_access(&self, same_server: bool) -> (r: bool)
        ensures
            r == (self@.has_keyboard && same_server && match self@.focus {
                Some(id) => match self@.layout.window(id) {
                    Some(window) => window.kind == SurfaceKind::X11,
                    None => false,
                },
                None => false,
            }),
    {
        if !self.has_keyboard || !same_server {
            return false;
        }
        match self.focus {
            Some(id) => match self.space.window(id) {
                Some(window) => window.is_x11(),
                None => false,
            },
            None => false,
        }
    }

    /// Begin a move of a mapped X11 window from `at`. Returns where it begins.
    fn begin_move_x11(&mut self, found: WindowElement, loc: Point, at: FixedPoint) -> (r: Point)
        requires
            old(self)@.wf(),
            found.wf(),
        ensures
            final(self)@ == old(self)@.over(old(self)@.layout.x11_move_begun(found, at)),
            final(self)@.wf(),
            r == old(self)@.layout.x11_move_origin(found, loc, at),
    {
        if !found.client.maximized {
            return loc;
        }
        let origin = at.to_pixel();
        self.space.act(Action::SetMaximizedX11 { window: found.id, maximized: false });
        self.space.put(found.with_x11_maximized(false, None));
        if let Some(old) = found.state.old_geometry {
            self.space.act(
                Action::ConfigureX11 {
                    window: found.id,
                    rect: Rectangle { loc: origin, size: old.size },
                },
            );
        }
        origin
    }

    /// Move the X11 window on its client's request, and return the grab to set.
    /// A touch point that is down goes before the pointer; a maximized window
    /// goes to where the finger was put down, or where the pointer is.
    pub fn move_request_x11(
        &mut self,
        window: u64,
        touch: Option<(u32, FixedPoint)>,
        pointer: Option<FixedPoint>,
    ) -> (r: Option<MoveSurfaceGrab>)
        requires
            old(self)@.wf(),
        ensures
            final(self)@.wf(),
            match (
                old(self)@.layout.window(window),
                old(self)@.layout.location(window),
                x11_device(touch, pointer),
            ) {
                (Some(found), Some(loc), Some((slot, start))) => {
                    let at = if slot is Some {
                        start
                    } else {
                        old(self)@.pointer
                    };
                    &&& final(self)@ == old(self)@.over(
                        old(self)@.layout.x11_move_begun(found, at),
                    )
                    &&& r == Some(
                        MoveSurfaceGrab {
                            slot,
                            start_location: start,
                            window,
                            initial_window_location: old(self)@.layout.x11_move_origin(
                                found,
                                loc,
                                at,
                            ),
                            anchor: None,
                            snap_target: None,
                        },
                    )
                },
                _ => r is None && final(self)@ == old(self)@,
            },
            r is Some ==> r->0.wf(),
            (final(self)@, r) == old(self)@.x11_moving(window, touch, pointer),
    {
        let (found, loc) = match (
            self.space.window(window),
            self.space.element_location(window),
        ) {
            (Some(found), Some(loc)) => (found, loc),
            _ => return None,
        };
        let (slot, start, at) = match touch {
            Some((slot, start)) => (Some(slot), start, start),
            None => match pointer {
                Some(start) => (None, start, self.pointer),
                None => return None,
            },
        };
        let initial_window_location = self.begin_move_x11(found, loc, at);
        Some(
            MoveSurfaceGrab {
                slot,
                start_location: start,
                window,
                initial_window_location,
                anchor: None,
                snap_target: None,
            },
        )
    }

    /// Whether the maximize button would ask the X11 window `id` to take the
    /// maximized state, so that the program has to find out whether it does.
    pub fn toggle_asks_x11(&self, id: u64) -> (r: bool)
        ensures
            r == (match self@.layout.window(id) {
                Some(found) => {
                    &&& found.kind == SurfaceKind::X11
                    &&& !found.state.header_bar.fullscreen
                    &&& found.state.snap is None
                    &&& !found.maximized()
                },
                None => false,
            }),
    {
        match self.space.window(id) {
            Some(found) => found.is_x11() && !found.state.header_bar.fullscreen
                && !found.state.is_snapped() && !found.is_maximized(),
            None => false,
        }
    }
}

/// The device that moves an X11 window: the touch point that is down, or the
/// pointer.
pub open spec fn x11_device(
    touch: Option<(u32, FixedPoint)>,
    pointer: Option<FixedPoint>,
) -> Option<(Option<u32>, FixedPoint)> {
    match touch {
        Some((slot, start)) => Some((Some(slot), start)),
        None => match pointer {
            Some(start) => Some((None, start)),
            None => None,
        },
    }
}

} // verus!
