//! Interactive moves and resizes: dragging windows by their titlebars or on
//! their clients' request, and resizing them by their edges.

use std::time::Instant;
use vstd::prelude::*;

use crate::element::{SurfaceKind, WindowElement};
use crate::geometry::{absolute_geometry, clamp_window_position};
use crate::grabs::{resize_target_location, ResizeData, ResizeEdge, ResizeState};
use crate::resize::{advance_resize_configure, finish_sibling_resize, ResizeGrabState};
use crate::snap::SnapTarget;
use crate::space::Action;
use crate::ssd::{DragAnchor, HeaderBar, HeaderPart, SSDDrag};
use crate::state::AnvilState;
use crate::utils::{FixedPoint, Point, Rectangle, Serial, Size};
use crate::xdg::restore_drag_location;

verus! {

use crate::grabs::anchored;
use crate::group::splittable;
use crate::space::Layout;
use crate::state::Desk;
use crate::xdg::drag_origin;

impl Layout {
    /// The layout with the window `id` dragged to `proposed` under the pointer.
    pub open spec fn dragged(self, id: u64, pointer: FixedPoint, proposed: Point) -> Layout {
        self.mapped(id, self.kept_below_top(id, pointer, proposed), true)
    }

    /// The size of the window `id`, nothing if it is not mapped.
    pub open spec fn element_size(self, id: u64, now: Instant) -> Size {
        match self.element_geometry(id, now) {
            Some(geo) => geo.size,
            None => Size { w: 0, h: 0 },
        }
    }

    /// The layout after the resize of `grab` was recomputed: a tiled window
    /// drives its group along, and the client is asked for the intended size.
    pub open spec fn resizing(self, grab: ResizeGrabState, window: WindowElement) -> Layout {
        let size = grab.intended_size(window);
        let split = match grab.snap_area {
            Some(area) => self.splitting(grab.window, area, grab.edges, size),
            None => self,
        };
        match split.window(grab.window) {
            Some(found) => split.with_window(
                found.with_resize(found.resize_state().intending(size)),
            ),
            None => split,
        }.advancing(grab.window)
    }

    /// The layout after the resize of `grab` was let go: the client is asked for
    /// the final size, and so are the windows that were driven along.
    pub open spec fn let_go(self, grab: ResizeGrabState, serial: Serial) -> Layout {
        match self.window(grab.window) {
            Some(window) if window.is_alive() => match window.resize_state().intended() {
                Some(size) => match window.kind {
                    SurfaceKind::Wayland => {
                        let finished = self.finishing(grab.window, serial);
                        finished.group_finished(finished.members(0), 0, grab.window, serial)
                    },
                    SurfaceKind::X11 => match self.location(grab.window) {
                        Some(current) => {
                            let loc = anchored(
                                grab.edges,
                                grab.initial_window_location,
                                grab.initial_window_size,
                                size,
                                current,
                            );
                            let finished = self.with_window(
                                window.with_resize(window.resize_state().committing()),
                            ).mapped(grab.window, loc, true).acting(
                                Action::SyncX11 {
                                    window: grab.window,
                                    rect: Rectangle { loc, size },
                                },
                            );
                            finished.group_finished(finished.members(0), 0, grab.window, serial)
                        },
                        None => self,
                    },
                },
                None => self,
            },
            _ => self,
        }
    }
}

impl ResizeGrabState {
    /// Whether the work area that the window is snapped into, if it is, has room
    /// for dividers.
    pub open spec fn can_split(self) -> bool {
        self.snap_area is Some ==> splittable(self.snap_area->0)
    }

    /// Recompute the intended size and advance the configure pipeline. Returns
    /// `false` if the window died.
    pub fn on_frame(&self, data: &mut AnvilState) -> (r: bool)
        requires
            old(data)@.wf(),
            self.can_split(),
        ensures
            match old(data)@.layout.window(self.window) {
                Some(window) if window.is_alive() => r && final(data)@ == old(data)@.over(
                    old(data)@.layout.resizing(*self, window),
                ),
                _ => !r && final(data)@ == old(data)@,
            },
            final(data)@.wf(),
    {
        let window = match data.space.window(self.window) {
            Some(window) => window,
            None => return false,
        };
        if !window.alive() {
            return false;
        }
        let size = self.intended(&window);
        // If this window is snapped, move the group dividers to match the
        // intended size so siblings re-flow with it.
        if let Some(area) = self.snap_area {
            data.split_resize_neighbours_from_intent(self.window, area, self.edges, size);
        }
        if let Some(found) = data.space.window(self.window) {
            let mut resize = found.surface_resize();
            resize.publish_resize_size(size);
            data.space.put(found.resized(resize));
        }
        advance_resize_configure(self.window, &mut data.space);
        true
    }

    /// Finish the drag: request the final size without the `Resizing` state and
    /// hand control to the existing `WaitingForFinalAck`/`WaitingForCommit` ack
    /// machine. The final size supersedes any still-outstanding configure, so it
    /// is never lost.
    ///
    /// A Wayland window is not moved here: the anchor location is applied when
    /// the client commits the final size, so the displayed frame never leads the
    /// client buffer.
    pub fn finish(&self, data: &mut AnvilState, serial: Serial)
        requires
            old(data)@.wf(),
        ensures
            final(data)@ == old(data)@.over(old(data)@.layout.let_go(*self, serial)),
            final(data)@.wf(),
    {
        let window = match data.space.window(self.window) {
            Some(window) => window,
            None => return,
        };
        if !window.alive() {
            return;
        }
        let mut resize = window.surface_resize();
        let size = match resize.resize_intended_size() {
            Some(size) => size,
            None => return,
        };
        match window.kind {
            SurfaceKind::Wayland => finish_sibling_resize(self.window, &mut data.space, serial),
            SurfaceKind::X11 => {
                let current = match data.space.element_location(self.window) {
                    Some(current) => current,
                    None => return,
                };
                let loc = resize_target_location(
                    self.edges,
                    self.initial_window_location,
                    self.initial_window_size,
                    size,
                    current,
                );
                resize.wait_for_commit();
                data.space.put(window.resized(resize));
                data.space.map_element(self.window, loc, true);
                data.space.act(
                    Action::SyncX11 { window: self.window, rect: Rectangle { loc, size } },
                );
            },
        }
        // Finalize the siblings that were driven along with this resize.
        data.finish_group_resizes(self.window, serial);
    }
}

/// A window that is moved with the pointer or a finger.
#[derive(Debug, Clone, Copy, PartialEq, Eq, Structural)]
pub struct MoveSurfaceGrab {
    /// The touch point, unless it is the pointer that moves the window.
    pub slot: Option<u32>,
    /// Where the pointer was when the move started.
    pub start_location: FixedPoint,
    pub window: u64,
    pub initial_window_location: Point,
    /// When the window is being dragged out of a maximized state and will pick
    /// its own restored size (client-decorated), the pointer anchor used to
    /// place it for whatever size the client commits. `None` for an ordinary
    /// move, which just follows the pointer delta.
    pub anchor: Option<DragAnchor>,
    /// Snap target under the pointer, resolved on each motion and applied when
    /// the grab is released.
    pub snap_target: Option<SnapTarget>,
}

impl MoveSurfaceGrab {
    /// Whether the anchor is one.
    pub open spec fn wf(self) -> bool {
        self.anchor is Some ==> self.anchor->0.wf()
    }

    /// Where the window goes when the pointer is at `location`.
    pub open spec fn proposed(self, layout: Layout, location: FixedPoint, now: Instant) -> Point {
        match self.anchor {
            Some(anchor) => anchor.origin(location, layout.element_size(self.window, now)),
            None => location.dragged_from(self.start_location, self.initial_window_location),
        }
    }

    /// The layout after the pointer moved to `location`.
    pub open spec fn dragged(self, layout: Layout, location: FixedPoint, now: Instant) -> Layout {
        layout.dragged(self.window, location, self.proposed(layout, location, now))
    }

    /// The snap target after the pointer moved to `location`.
    pub open spec fn target(self, layout: Layout, location: FixedPoint, now: Instant) -> Option<
        SnapTarget,
    > {
        self.dragged(layout, location, now).snap_target(location, Some(self.window), now)
    }

    /// The state after the pointer moved to `location`.
    pub open spec fn moved(self, desk: Desk, location: FixedPoint, now: Instant) -> Desk {
        desk.over(self.dragged(desk.layout, location, now)).noting(
            self.target(desk.layout, location, now),
            now,
        )
    }

    /// The pointer, or the touch point `slot`, moved to `location`.
    ///
    /// An unmaximize drag keeps the grabbed titlebar spot under the pointer,
    /// adapting to the size the client actually committed.
    pub fn motion(
        &mut self,
        data: &mut AnvilState,
        slot: Option<u32>,
        location: FixedPoint,
        now: Instant,
    )
        requires
            old(self).wf(),
            old(data)@.wf(),
        ensures
            final(self).wf(),
            final(data)@.wf(),
            slot != old(self).slot ==> *final(self) == *old(self) && final(data)@ == old(data)@,
            slot == old(self).slot ==> {
                &&& final(data)@ == old(self).moved(old(data)@, location, now)
                &&& *final(self) == (MoveSurfaceGrab {
                    snap_target: old(self).target(old(data)@.layout, location, now),
                    ..*old(self)
                })
            },
    {
        if slot != self.slot {
            return;
        }
        let proposed = match self.anchor {
            Some(anchor) => {
                let size = match data.space.element_geometry(self.window, now) {
                    Some(geo) => geo.size,
                    None => Size { w: 0, h: 0 },
                };
                anchor.locate(location, size)
            },
            None => location.drag_from(self.start_location, self.initial_window_location),
        };
        let loc = clamp_window_position(&data.space, self.window, location, proposed);
        data.space.map_element(self.window, loc, true);
        let target = data.snap_zone_at(location, Some(self.window), now);
        data.note_snap_target(target, now);
        self.snap_target = target;
    }

    /// The state after the window was let go.
    pub open spec fn released(self, desk: Desk, accepted: bool, now: Instant) -> Desk {
        let dropped = Desk {
            dragging_window: None,
            ..desk.over(desk.layout.pinned(self.window))
        }.preview_cleared();
        match self.snap_target {
            Some(target) => dropped.over(
                dropped.layout.snapping(self.window, target, accepted, now),
            ),
            None => dropped,
        }
    }

    /// The last button, or the touch point `slot`, was released. Keeps any
    /// in-flight restore transition at the drop position, then hands the window
    /// back to the animation before tiling. `accepted` is whether an X11 window
    /// took the maximized state, if it was asked to. Returns whether the move is
    /// over.
    pub fn release(
        &mut self,
        data: &mut AnvilState,
        slot: Option<u32>,
        accepted: bool,
        now: Instant,
    ) -> (r: bool)
        requires
            old(data)@.wf(),
        ensures
            final(data)@.wf(),
            r == (slot == old(self).slot),
            !r ==> *final(self) == *old(self) && final(data)@ == old(data)@,
            r ==> {
                &&& final(data)@ == old(self).released(old(data)@, accepted, now)
                &&& *final(self) == (MoveSurfaceGrab { snap_target: None, ..*old(self) })
            },
    {
        if slot != self.slot {
            return false;
        }
        data.pin_window_animation(self.window);
        data.dragging_window = None;
        data.clear_snap_preview();
        if let Some(target) = self.snap_target {
            self.snap_target = None;
            data.apply_snap(self.window, target, accepted, now);
        }
        true
    }

    /// The move is over, or was cancelled.
    pub fn unset(&self, data: &mut AnvilState)
        ensures
            final(data)@ == (Desk { dragging_window: None, ..old(data)@ }).preview_cleared(),
            old(data)@.wf() ==> final(data)@.wf(),
    {
        data.dragging_window = None;
        data.clear_snap_preview();
    }
}

impl Desk {
    /// The state with the window dragged by its titlebar, which the pointer holds
    /// at `bar`. Nothing happens while the pointer is nowhere.
    pub open spec fn drag_started(self, pointer: Option<FixedPoint>, window: u64, origin: Point) -> Desk {
        match pointer {
            Some(at) => Desk {
                dragging_window: Some(window),
                ssd_drag: Some(
                    SSDDrag {
                        window,
                        start_global: at.moved(origin),
                        start_origin: origin,
                        snap_target: None,
                    },
                ),
                ..self.preview_cleared()
            },
            None => self,
        }
    }

    /// The state after a drag by the titlebar of the window, if it is mapped.
    pub open spec fn titlebar_grabbed(self, bar: HeaderBar, window: u64) -> Desk {
        match self.layout.location(window) {
            Some(origin) => self.drag_started(bar.pointer_loc, window, origin),
            None => self,
        }
    }

    /// The state with `action` left for later.
    pub open spec fn later(self, action: Action) -> Desk {
        self.over(self.layout.acting(action))
    }

    /// The state after a button of the titlebar was pressed. The effects come
    /// once the event is handled.
    pub open spec fn button_pressed(self, part: Option<HeaderPart>, window: u64) -> Desk {
        match part {
            Some(HeaderPart::Close) => self.later(Action::CloseLater { window }),
            Some(HeaderPart::Maximize) => self.later(Action::ToggleMaximizeLater { window }),
            Some(HeaderPart::Minimize) => self.later(Action::MinimizeLater { window }),
            _ => self,
        }
    }

    /// The state after a click on the decoration `bar` of the window. A maximized
    /// window is moved once the event is handled, as its client asks for.
    pub open spec fn clicked(self, bar: HeaderBar, window: u64, serial: Serial) -> Desk {
        if !bar.hovered() {
            self
        } else if bar.column_part() == Some(HeaderPart::Title) {
            match self.layout.window(window) {
                Some(found) => if found.client.maximized {
                    self.later(Action::MoveLater { window, serial })
                } else {
                    self.titlebar_grabbed(bar, window)
                },
                None => self,
            }
        } else {
            self.button_pressed(bar.column_part(), window)
        }
    }

    /// The state after a drag by the titlebar was let go.
    pub open spec fn drag_ended(self) -> Desk {
        match self.ssd_drag {
            Some(drag) => {
                let dropped = Desk {
                    ssd_drag: None,
                    dragging_window: None,
                    ..self.over(self.layout.pinned(drag.window))
                }.preview_cleared();
                match drag.snap_target {
                    Some(target) => dropped.later(
                        Action::SnapLater { window: drag.window, target },
                    ),
                    None => dropped,
                }
            },
            None => self,
        }
    }

    /// Where a tiled window goes as its drag by the titlebar begins to move, and
    /// the size it gets back.
    pub open spec fn titlebar_restore(self, drag: SSDDrag, found: WindowElement, now: Instant) -> Option<
        (Point, Size),
    > {
        match found.state.snap {
            Some(snap) => match self.layout.absolute(drag.window, snap.floating, found.state.is_ssd) {
                Some((_, content)) => Some(
                    (
                        drag_origin(
                            drag.start_origin,
                            self.layout.element_size(drag.window, now),
                            drag.start_global,
                            Some(content),
                            found.state.is_ssd,
                        ),
                        content,
                    ),
                ),
                None => None,
            },
            None => None,
        }
    }

    /// The layout once the tiled window `found` was taken out of its zone by a
    /// drag.
    pub open spec fn titlebar_unsnapped(self, drag: SSDDrag, found: WindowElement, now: Instant) -> Layout {
        if found.state.snap is None {
            self.layout
        } else {
            let freed = self.layout.with_window(found.snapped(None));
            match self.titlebar_restore(drag, found, now) {
                Some((loc, content)) => freed.unsnapping(drag.window, loc, content, now),
                None => freed,
            }
        }
    }

    /// Where the drag counts from once it moves.
    pub open spec fn titlebar_origin(self, drag: SSDDrag, found: WindowElement, now: Instant) -> Point {
        match self.titlebar_restore(drag, found, now) {
            Some((loc, _)) => loc,
            None => drag.start_origin,
        }
    }

    /// The state after the pointer moved to `global` during a drag by the
    /// titlebar. A drag whose window is gone is over.
    pub open spec fn titlebar_dragged(self, global: FixedPoint, now: Instant) -> Desk {
        match self.ssd_drag {
            Some(drag) => match (self.layout.window(drag.window), self.layout.location(drag.window)) {
                (Some(found), Some(_)) => {
                    let origin = self.titlebar_origin(drag, found, now);
                    let layout = self.titlebar_unsnapped(drag, found, now).dragged(
                        drag.window,
                        global,
                        global.stepped_from(drag.start_global, origin),
                    );
                    let target = layout.snap_target(global, Some(drag.window), now);
                    Desk {
                        ssd_drag: Some(
                            SSDDrag { start_origin: origin, snap_target: target, ..drag },
                        ),
                        ..self.over(layout).noting(target, now)
                    }
                },
                _ => Desk { ssd_drag: None, ..self }.preview_cleared(),
            },
            None => self,
        }
    }
}

impl HeaderBar {
    /// Start dragging `window` from its title bar.
    ///
    /// Records the pointer's position in the global compositor space; each following
    /// motion moves the window by exactly the delta the pointer moved since here.
    ///
    /// The drag lives on [`AnvilState`] and is driven from the compositor's input
    /// path with the pointer's true global position, so it keeps tracking the
    /// pointer no matter which surface is under the cursor, and only ends when
    /// the pointer button is released.
    pub fn start_drag(&self, state: &mut AnvilState, window: u64, window_origin: Point)
        ensures
            final(state)@ == old(state)@.drag_started(self.pointer_loc, window, window_origin),
            old(state)@.wf() ==> final(state)@.wf(),
    {
        let start_pointer = match self.pointer_loc {
            Some(loc) => loc,
            None => return,
        };
        // The drag owns the window's position, so any restore animation that
        // starts on the first motion only animates its size. Reset any stale
        // preview so the dwell starts fresh from the first motion.
        state.dragging_window = Some(window);
        state.clear_snap_preview();
        state.ssd_drag = Some(
            SSDDrag {
                window,
                start_global: start_pointer.plus(window_origin),
                start_origin: window_origin,
                snap_target: None,
            },
        );
    }

    /// Start dragging `window` from where it is mapped.
    fn grab_titlebar(&self, state: &mut AnvilState, window: u64)
        ensures
            final(state)@ == old(state)@.titlebar_grabbed(*self, window),
            old(state)@.wf() ==> final(state)@.wf(),
    {
        if let Some(origin) = state.space.element_location(window) {
            self.start_drag(state, window, origin);
        }
    }

    /// Leave the effect of a titlebar button for later: the caller is in the
    /// middle of handling an event for the window.
    fn press_button(part: Option<HeaderPart>, state: &mut AnvilState, window: u64)
        ensures
            final(state)@ == old(state)@.button_pressed(part, window),
            old(state)@.wf() ==> final(state)@.wf(),
    {
        match part {
            Some(HeaderPart::Close) => state.space.act(Action::CloseLater { window }),
            Some(HeaderPart::Maximize) => state.space.act(Action::ToggleMaximizeLater { window }),
            Some(HeaderPart::Minimize) => state.space.act(Action::MinimizeLater { window }),
            _ => {},
        }
    }

    /// The decoration of `window` was clicked.
    pub fn clicked(&self, state: &mut AnvilState, window: u64, serial: Serial)
        ensures
            final(state)@ == old(state)@.clicked(*self, window, serial),
            old(state)@.wf() ==> final(state)@.wf(),
    {
        if !self.pointer_is_in_header() {
            return;
        }
        let part = self.part_under_pointer();
        if part == Some(HeaderPart::Title) {
            if let Some(found) = state.space.window(window) {
                if found.client.maximized {
                    state.space.act(Action::MoveLater { window, serial });
                } else {
                    self.grab_titlebar(state, window);
                }
            }
        } else {
            Self::press_button(part, state, window);
        }
    }

    /// The decoration of `window` was touched: on the title this starts a drag,
    /// the buttons wait for the touch to end.
    pub fn touch_down(&self, state: &mut AnvilState, window: u64)
        ensures
            final(state)@ == (if self.column_part() == Some(HeaderPart::Title) {
                old(state)@.titlebar_grabbed(*self, window)
            } else {
                old(state)@
            }),
            old(state)@.wf() ==> final(state)@.wf(),
    {
        if self.part_under_pointer() == Some(HeaderPart::Title) {
            self.grab_titlebar(state, window);
        }
    }

    /// A touch of the decoration of `window` ended.
    pub fn touch_up(&self, state: &mut AnvilState, window: u64)
        requires
            old(state)@.wf(),
        ensures
            final(state)@ == (if self.hovered() {
                old(state)@.drag_ended().button_pressed(self.column_part(), window)
            } else {
                old(state)@.drag_ended()
            }),
            final(state)@.wf(),
    {
        state.end_ssd_drag();
        if self.pointer_is_in_header() {
            Self::press_button(self.part_under_pointer(), state, window);
        }
    }
}

impl AnvilState {
    /// Let go of the window that is dragged by its titlebar. The snap is left
    /// for later, as this may run in the middle of an event for the window.
    pub fn end_ssd_drag(&mut self)
        requires
            old(self)@.wf(),
        ensures
            final(self)@ == old(self)@.drag_ended(),
            final(self)@.wf(),
    {
        if let Some(drag) = self.ssd_drag {
            self.ssd_drag = None;
            // Keep any in-flight restore transition at the drop position, then
            // hand the window back to the animation before tiling.
            self.pin_window_animation(drag.window);
            self.dragging_window = None;
            // The preview is only meaningful while the button is held.
            self.clear_snap_preview();
            if let Some(target) = drag.snap_target {
                self.space.act(Action::SnapLater { window: drag.window, target });
            }
        }
    }

    /// Take the window out of its zone as its drag begins to move. Returns where
    /// the drag counts from.
    fn unsnap_for_titlebar(&mut self, drag: SSDDrag, found: WindowElement, now: Instant) -> (r: Point)
        requires
            old(self)@.wf(),
            found.wf(),
            found.id == drag.window,
        ensures
            final(self)@ == old(self)@.over(old(self)@.titlebar_unsnapped(drag, found, now)),
            final(self)@.wf(),
            r == old(self)@.titlebar_origin(drag, found, now),
    {
        let snap = match found.state.snap {
            Some(snap) => snap,
            None => return drag.start_origin,
        };
        let size = match self.space.element_geometry(drag.window, now) {
            Some(geo) => geo.size,
            None => Size { w: 0, h: 0 },
        };
        let absolute = absolute_geometry(&self.space, &found, snap.floating);
        self.space.put(found.with_snap(None));
        match absolute {
            Some((_, content)) => {
                let restored = restore_drag_location(
                    drag.start_origin,
                    size,
                    drag.start_global,
                    Some(content),
                    found.is_ssd(),
                );
                self.restore_snapped(drag.window, restored, content, now);
                restored
            },
            None => drag.start_origin,
        }
    }

    /// Move the window being dragged so it tracks the pointer's current global
    /// position. `global` is the authoritative pointer position in compositor
    /// space, so this keeps working no matter which surface the cursor is over.
    ///
    /// A tiled window pops back to its floating size as soon as the drag
    /// actually moves.
    pub fn update_ssd_drag_position(&mut self, global: FixedPoint, now: Instant)
        requires
            old(self)@.wf(),
        ensures
            final(self)@ == old(self)@.titlebar_dragged(global, now),
            final(self)@.wf(),
    {
        let drag = match self.ssd_drag {
            Some(drag) => drag,
            None => return,
        };
        let found = match (
            self.space.window(drag.window),
            self.space.element_location(drag.window),
        ) {
            (Some(found), Some(_)) => found,
            _ => {
                self.ssd_drag = None;
                self.clear_snap_preview();
                return;
            },
        };
        let origin = self.unsnap_for_titlebar(drag, found, now);
        let proposed = global.step_from(drag.start_global, origin);
        let loc = clamp_window_position(&self.space, drag.window, global, proposed);
        self.space.map_element(drag.window, loc, true);
        // Track the snap target under the pointer and show its preview.
        let target = self.snap_zone_at(global, Some(drag.window), now);
        self.note_snap_target(target, now);
        self.ssd_drag = Some(SSDDrag { start_origin: origin, snap_target: target, ..drag });
    }
}

} // verus!
