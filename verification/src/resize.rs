//! The serialized resize pipeline.
//!
//! The requested size is computed from the pointer and is used only to
//! configure the client and to anchor the opposite edge. What is rendered is
//! always the client's committed geometry, so the window never stretches, never
//! shows a gap, and never desyncs from its frame. Configure requests are
//! serialized: a new size is only sent once the client has committed the
//! previous one, so fast input can't flood the client.

use vstd::prelude::*;

use crate::element::{ClientState, SurfaceKind, WindowElement};
use crate::grabs::{resize_target_location, ResizeEdge, ResizeState};
use crate::space::{Action, Space};
use crate::utils::{larger, saturate, smaller, FixedPoint, Point, Rectangle, Serial, Size, FIXED_ONE};
use crate::xdg::undecorated_content_size;

verus! {

use crate::grabs::anchored;
use crate::space::Layout;
use crate::utils::{max, min, sat32, trunc_ratio};
use crate::xdg::undecorated;

impl WindowElement {
    /// The window once an answered resize request is forgotten.
    pub open spec fn settled(self) -> WindowElement {
        self.with_resize(self.resize_state().settled(self.acked))
    }

    /// The state to tell a client whose size is being asked for.
    pub open spec fn resized_client(self, size: Size, resizing: bool) -> ClientState {
        ClientState { resizing, size: Some(size), ..self.client }
    }

    /// Where the frame of an X11 window goes for a content of `size`.
    pub open spec fn anchored_rect(self, size: Size, current: Point) -> Rectangle {
        let loc = match self.resize_state().active() {
            Some(resize) => anchored(
                resize.edges,
                resize.initial_window_location,
                resize.initial_window_size,
                size,
                current,
            ),
            None => current,
        };
        Rectangle { loc, size }
    }

    /// Where the frame of an X11 window goes for a content of `size`.
    fn resize_rect(&self, size: Size, current: Point) -> (r: Rectangle)
        ensures
            r == self.anchored_rect(size, current),
    {
        let loc = match self.surface_resize().data() {
            Some(resize) => resize_target_location(
                resize.edges,
                resize.initial_window_location,
                resize.initial_window_size,
                size,
                current,
            ),
            None => current,
        };
        Rectangle { loc, size }
    }

    /// The window with its resize state replaced.
    pub fn resized(self, resize: ResizeState) -> (r: WindowElement)
        ensures
            r == self.with_resize(resize),
            self.wf() ==> r.wf(),
    {
        let mut window = self;
        window.set_surface_resize(resize);
        window
    }
}

impl Layout {
    /// The layout after the resize of the window `id` was advanced: an answered
    /// request is forgotten, and if it is time for the next one it goes out. An
    /// X11 window takes no request while one is on its way.
    pub open spec fn advancing(self, id: u64) -> Layout {
        match self.window(id) {
            Some(window) if window.surfaced() => {
                let settled = window.settled();
                match window.resize_state().next_size(window.acked) {
                    Some(size) => match window.kind {
                        SurfaceKind::Wayland => {
                            let client = window.resized_client(size, true);
                            self.with_window(settled.telling(client)).acting(
                                Action::ResizeConfigure { window: id, client, size },
                            )
                        },
                        SurfaceKind::X11 => match self.location(id) {
                            Some(current) if !window.configure_pending => self.with_window(
                                settled,
                            ).acting(
                                Action::ResizeX11 {
                                    window: id,
                                    rect: settled.anchored_rect(size, current),
                                },
                            ),
                            _ => self.with_window(settled),
                        },
                    },
                    None => self.with_window(settled),
                }
            },
            _ => self,
        }
    }

    /// The layout after a resize request of `size` went out to the window `id`.
    pub open spec fn requested(self, id: u64, serial: Option<Serial>, size: Size) -> Layout {
        match self.window(id) {
            Some(window) => self.with_window(
                window.with_resize(window.resize_state().requested(serial, size)),
            ),
            None => self,
        }
    }

    /// The layout after the window `id` was driven into the decorated
    /// rectangle `rect` by a neighbour's resize.
    pub open spec fn driving(self, id: u64, edges: ResizeEdge, rect: Rectangle) -> Layout {
        match (self.window(id), self.location(id)) {
            (Some(window), Some(loc)) if window.is_alive() && window.surfaced() => self.with_window(
                window.with_resize(
                    window.resize_state().driven(
                        edges,
                        loc,
                        window.content_size(),
                        undecorated(rect.size, window.state.is_ssd),
                    ),
                ),
            ).advancing(id),
            _ => self,
        }
    }

    /// The layout after the driven resize of the window `id` was let go.
    pub open spec fn finishing(self, id: u64, serial: Serial) -> Layout {
        match self.window(id) {
            Some(window) => match window.resize_state().intended() {
                Some(size) => match window.kind {
                    SurfaceKind::Wayland => {
                        let client = window.resized_client(size, false);
                        self.with_window(window.telling(client)).acting(
                            Action::FinalConfigure { window: id, client, serial },
                        )
                    },
                    SurfaceKind::X11 => match self.location(id) {
                        Some(current) => self.acting(
                            Action::SyncX11 {
                                window: id,
                                rect: window.anchored_rect(size, current),
                            },
                        ).with_window(window.with_resize(window.resize_state().committing())),
                        None => self,
                    },
                },
                None => self,
            },
            None => self,
        }
    }

    /// The layout after the final request, with `serial`, went out to the window
    /// `id`.
    pub open spec fn finally_requested(self, id: u64, serial: Serial) -> Layout {
        match self.window(id) {
            Some(window) => self.with_window(
                window.with_resize(window.resize_state().finishing(serial)),
            ),
            None => self,
        }
    }
}

/// Advance the serialized resize pipeline.
///
/// If the outstanding configure has been committed and the latest intended size
/// differs from the last sent size, send the next configure immediately. At most
/// one resize request is in flight. Safe to call both from the grab's frame
/// callback and from the toplevel commit handler, which is what lets the resize
/// keep advancing after the pointer has stopped.
pub fn advance_resize_configure(window: u64, space: &mut Space)
    requires
        old(space)@.wf(),
    ensures
        final(space)@ == old(space)@.advancing(window),
        final(space)@.wf(),
{
    let found = match space.window(window) {
        Some(found) => found,
        None => return,
    };
    if !found.has_live_surface() {
        return;
    }
    let mut resize = found.surface_resize();
    let next = resize.advance(found.acked);
    let settled = found.resized(resize);
    let size = match next {
        Some(size) => size,
        None => {
            space.put(settled);
            return;
        },
    };
    match found.kind {
        SurfaceKind::Wayland => {
            let client = ClientState { resizing: true, size: Some(size), ..found.client };
            space.put(settled.with_client(client));
            space.act(Action::ResizeConfigure { window, client, size });
        },
        SurfaceKind::X11 => {
            let location = space.element_location(window);
            space.put(settled);
            if found.configure_pending {
                return;
            }
            let current = match location {
                Some(current) => current,
                None => return,
            };
            space.act(Action::ResizeX11 { window, rect: settled.resize_rect(size, current) });
        },
    }
}

/// Record that a resize request of `size` went out, so the next call of
/// [`advance_resize_configure`] waits for its commit before sending anything
/// else. X11 requests carry no serial.
pub fn resize_configure_sent(window: u64, space: &mut Space, serial: Option<Serial>, size: Size)
    requires
        old(space)@.wf(),
    ensures
        final(space)@ == old(space)@.requested(window, serial, size),
        final(space)@.wf(),
{
    if let Some(found) = space.window(window) {
        let mut resize = found.surface_resize();
        resize.configure_sent(serial, size);
        space.put(found.resized(resize));
    }
}

/// Drive a snap-group sibling to a new decorated rectangle using the same
/// serialized resize pipeline as an interactive resize.
///
/// The sibling is not under a grab, so this seeds its `ResizeState::Resizing`
/// (anchored on its current geometry and the divider-facing `edges`), publishes
/// the intended size, and advances the configure pipeline. Its frame therefore
/// follows its committed geometry instead of stretching.
pub fn drive_sibling_resize(
    window: u64,
    space: &mut Space,
    edges: ResizeEdge,
    target_rect: Rectangle,
)
    requires
        old(space)@.wf(),
    ensures
        final(space)@ == old(space)@.driving(window, edges, target_rect),
        final(space)@.wf(),
{
    let found = match space.window(window) {
        Some(found) => found,
        None => return,
    };
    if !found.alive() || !found.has_live_surface() {
        return;
    }
    let content = undecorated_content_size(target_rect.size, found.is_ssd());
    let initial_location = match space.element_location(window) {
        Some(loc) => loc,
        None => return,
    };
    let initial_size = found.resize_content_size();
    let mut resize = found.surface_resize();
    resize.drive(edges, initial_location, initial_size, content);
    space.put(found.resized(resize));
    advance_resize_configure(window, space);
}

/// Finish a driven sibling: leave `ResizeState::Resizing` and request the final
/// size so it settles through the normal ack/commit machine.
pub fn finish_sibling_resize(window: u64, space: &mut Space, serial: Serial)
    requires
        old(space)@.wf(),
    ensures
        final(space)@ == old(space)@.finishing(window, serial),
        final(space)@.wf(),
{
    let found = match space.window(window) {
        Some(found) => found,
        None => return,
    };
    let size = match found.surface_resize().resize_intended_size() {
        Some(size) => size,
        None => return,
    };
    match found.kind {
        SurfaceKind::Wayland => {
            let client = ClientState { resizing: false, size: Some(size), ..found.client };
            space.put(found.with_client(client));
            space.act(Action::FinalConfigure { window, client, serial });
        },
        SurfaceKind::X11 => {
            let current = match space.element_location(window) {
                Some(current) => current,
                None => return,
            };
            space.act(Action::SyncX11 { window, rect: found.resize_rect(size, current) });
            let mut resize = found.surface_resize();
            resize.wait_for_commit();
            space.put(found.resized(resize));
        },
    }
}

/// Record that the final configure of a resize went out, with `serial`.
pub fn final_configure_sent(window: u64, space: &mut Space, serial: Serial)
    requires
        old(space)@.wf(),
    ensures
        final(space)@ == old(space)@.finally_requested(window, serial),
        final(space)@.wf(),
{
    if let Some(found) = space.window(window) {
        let mut resize = found.surface_resize();
        resize.wait_for_ack(serial);
        space.put(found.resized(resize));
    }
}

/// The smallest and the largest size the client of `window` takes.
pub open spec fn size_limits(window: WindowElement) -> (Size, Size) {
    if window.surfaced() {
        (window.min_size, window.max_size)
    } else {
        (Size { w: 0, h: 0 }, Size { w: 0, h: 0 })
    }
}

pub fn toplevel_min_max_size(window: &WindowElement) -> (r: (Size, Size))
    ensures
        r == size_limits(*window),
{
    if window.has_live_surface() {
        (window.min_size, window.max_size)
    } else {
        (Size { w: 0, h: 0 }, Size { w: 0, h: 0 })
    }
}

/// `length` within `least..=most`, at least one pixel; a `most` of zero is no
/// limit. The upper limit goes before the lower one.
pub open spec fn limited(length: int, least: int, most: int) -> int {
    let most = if most == 0 {
        i32::MAX as int
    } else {
        most
    };
    min(max(length, max(least, 1)), most)
}

fn limit(length: i32, least: i32, most: i32) -> (r: i32)
    ensures
        r == limited(length as int, least as int, most as int),
{
    let most = if most == 0 { i32::MAX } else { most };
    smaller(larger(length, larger(least, 1)), most)
}

/// The length an edge is dragged to when the pointer has moved by `moved`
/// fixed-point steps. The near edge grows against the pointer's direction, the
/// far edge with it.
pub open spec fn dragged_length(initial: int, moved: int, near: bool, far: bool) -> int {
    if near {
        sat32(trunc_ratio(initial * FIXED_ONE - moved, FIXED_ONE as int))
    } else if far {
        sat32(trunc_ratio(initial * FIXED_ONE + moved, FIXED_ONE as int))
    } else {
        initial
    }
}

fn drag_length(initial: i32, moved: i128, near: bool, far: bool) -> (r: i32)
    requires
        -0x1_0000_0000_0000_0000 <= moved <= 0x1_0000_0000_0000_0000,
    ensures
        r == dragged_length(initial as int, moved as int, near, far),
{
    let one = FIXED_ONE as i128;
    let scaled = if near {
        initial as i128 * one - moved
    } else if far {
        initial as i128 * one + moved
    } else {
        return initial;
    };
    // Drop the fraction.
    saturate(if scaled >= 0 { scaled / one } else { -((-scaled) / one) })
}

/// Shared interactive-resize state, driven from the pointer/touch/tablet grabs.
#[derive(Debug, Clone, Copy, PartialEq, Eq, Structural)]
pub struct ResizeGrabState {
    pub window: u64,
    pub edges: ResizeEdge,
    pub initial_window_location: Point,
    pub initial_window_size: Size,
    pub start_location: FixedPoint,
    pub pointer: FixedPoint,
    pub snap_area: Option<Rectangle>,
}

impl ResizeGrabState {
    pub fn new(
        window: u64,
        edges: ResizeEdge,
        initial_window_location: Point,
        initial_window_size: Size,
        start_location: FixedPoint,
    ) -> (r: Self)
        ensures
            r == (ResizeGrabState {
                window,
                edges,
                initial_window_location,
                initial_window_size,
                start_location,
                pointer: start_location,
                snap_area: None,
            }),
    {
        ResizeGrabState {
            window,
            edges,
            initial_window_location,
            initial_window_size,
            start_location,
            pointer: start_location,
            snap_area: None,
        }
    }

    pub fn set_snap_area(&mut self, area: Option<Rectangle>)
        ensures
            *final(self) == (ResizeGrabState { snap_area: area, ..*old(self) }),
    {
        self.snap_area = area;
    }

    /// Remember the latest pointer position. The heavy work happens once per
    /// input frame in [`Self::on_frame`].
    pub fn update_pointer(&mut self, location: FixedPoint)
        ensures
            *final(self) == (ResizeGrabState { pointer: location, ..*old(self) }),
    {
        self.pointer = location;
    }

    /// The content size that the pointer has dragged the window to, within the
    /// limits that the client sets.
    #[verifier::opaque]
    pub open spec fn intended_size(self, window: WindowElement) -> Size {
        let (least, most) = size_limits(window);
        let initial = self.initial_window_size;
        Size {
            w: limited(
                dragged_length(
                    initial.w as int,
                    self.pointer.x - self.start_location.x,
                    self.edges.left,
                    self.edges.right,
                ),
                least.w as int,
                most.w as int,
            ) as i32,
            h: limited(
                dragged_length(
                    initial.h as int,
                    self.pointer.y - self.start_location.y,
                    self.edges.top,
                    self.edges.bottom,
                ),
                least.h as int,
                most.h as int,
            ) as i32,
        }
    }

    /// The content size that the pointer has dragged the window to.
    pub fn intended(&self, window: &WindowElement) -> (r: Size)
        ensures
            r == self.intended_size(*window),
    {
        reveal(ResizeGrabState::intended_size);
        let dx = self.pointer.x as i128 - self.start_location.x as i128;
        let dy = self.pointer.y as i128 - self.start_location.y as i128;
        let initial = self.initial_window_size;
        let width = drag_length(initial.w, dx, self.edges.left, self.edges.right);
        let height = drag_length(initial.h, dy, self.edges.top, self.edges.bottom);
        let (min_size, max_size) = toplevel_min_max_size(window);
        Size {
            w: limit(width, min_size.w, max_size.w),
            h: limit(height, min_size.h, max_size.h),
        }
    }
}

/// The size that a resize asks for is always within the limits that the client
/// sets, and never empty.
pub proof fn resizing_respects_the_limits(grab: ResizeGrabState, window: WindowElement)
    requires
        window.surfaced(),
        window.max_size.w == 0 || window.max_size.w >= max(window.min_size.w as int, 1),
        window.max_size.h == 0 || window.max_size.h >= max(window.min_size.h as int, 1),
    ensures
        ({
            let size = grab.intended_size(window);
            &&& size.w >= 1 && size.w >= window.min_size.w
            &&& size.h >= 1 && size.h >= window.min_size.h
            &&& window.max_size.w != 0 ==> size.w <= window.max_size.w
            &&& window.max_size.h != 0 ==> size.h <= window.max_size.h
        }),
{
    reveal(ResizeGrabState::intended_size);
}

/// A resize that has not moved the pointer asks for the size the window had,
/// within its limits.
pub proof fn resize_starts_at_the_current_size(grab: ResizeGrabState, window: WindowElement)
    requires
        grab.pointer == grab.start_location,
    ensures
        ({
            let (least, most) = size_limits(window);
            let size = grab.intended_size(window);
            &&& size.w == limited(grab.initial_window_size.w as int, least.w as int, most.w as int)
            &&& size.h == limited(grab.initial_window_size.h as int, least.h as int, most.h as int)
        }),
{
    reveal(ResizeGrabState::intended_size);
    let (w, h) = (grab.initial_window_size.w as int, grab.initial_window_size.h as int);
    assert(trunc_ratio(w * FIXED_ONE, FIXED_ONE as int) == w);
    assert(trunc_ratio(h * FIXED_ONE, FIXED_ONE as int) == h);
}

} // verus!
