//! What happens once per frame: transitions advance, finished ones are retired,
//! and windows whose clients are gone turn into ghosts.

use std::time::Instant;
use vstd::prelude::*;

use crate::animation::{
    VisibilityAnimation, VisibilityKind, CONTENT_PENDING_TIMEOUT_NANOS, WINDOW_VISIBILITY_NANOS,
};
use crate::clock::elapsed_nanos;
use crate::element::WindowElement;
use crate::render::frame_size;
use crate::space::{Action, Placed};
use crate::ssd::{GhostState, VisibilityState, WindowState, CLOSE_TIMEOUT_NANOS};
use crate::state::AnvilState;
use crate::utils::{larger, near, Size};

verus! {

use crate::clock::elapsed;
use crate::render::frame_around;
use crate::space::Layout;
use crate::state::Desk;
use crate::utils::{abs, max};

impl WindowElement {
    /// Whether the close transition of a ghost has played out at `now`.
    pub open spec fn ghost_over(self, now: Instant) -> bool {
        self.ghosting() && match self.state.visibility.animation {
            Some(animation) => animation.is_finished(now),
            None => true,
        }
    }

    /// Whether a client has taken too long to choose the size it restores to.
    pub open spec fn size_overdue(self, now: Instant) -> bool {
        match self.state.animation {
            Some(animation) => animation.content_pending && elapsed(now, animation.start_time)
                >= CONTENT_PENDING_TIMEOUT_NANOS,
            None => false,
        }
    }

    /// The window with an overdue transition settled on the last committed size.
    pub open spec fn resolved(self, now: Instant) -> WindowElement {
        match self.state.animation {
            Some(animation) if self.size_overdue(now) => self.animated(
                animation.resolved(self.content_size(), now),
            ),
            _ => self,
        }
    }

    /// Whether the client has adopted the size that a finished transition ended
    /// at, give or take a pixel.
    pub open spec fn caught_up(self, now: Instant) -> bool {
        match self.state.animation {
            Some(animation) => {
                let target = animation.rect_at(now).content;
                &&& animation.is_done(now)
                &&& abs(self.content_size().w - target.w) <= 1
                &&& abs(self.content_size().h - target.h) <= 1
            },
            None => false,
        }
    }

    /// The window with an overdue transition settled.
    fn resolve(self, now: Instant) -> (r: WindowElement)
        requires
            self.wf(),
        ensures
            r == self.resolved(now),
            r.wf(),
            r.id == self.id,
    {
        if let Some(animation) = self.state.animation {
            if animation.content_pending() && elapsed_nanos(now, animation.started_at())
                >= CONTENT_PENDING_TIMEOUT_NANOS {
                let mut animation = animation;
                animation.resolve_content(self.resize_content_size(), now);
                return self.with_animation(animation);
            }
        }
        self
    }
}

impl Layout {
    /// The layout with the transition of the window `id` advanced to `now`: the
    /// window is where the transition has it, unless it is `dragging`, and the
    /// transition is over once its client has caught up.
    pub open spec fn transition_ticked(self, id: u64, dragging: Option<u64>, now: Instant) -> Layout {
        match self.window(id) {
            Some(found) if !found.ghosting() => {
                let window = found.resolved(now);
                let settled = self.with_window(window);
                match window.state.animation {
                    Some(animation) => {
                        let loc = animation.rect_at(now).loc;
                        let moved = if dragging != Some(id) && settled.location(id) != Some(loc) {
                            settled.relocated(id, loc)
                        } else {
                            settled
                        };
                        if window.caught_up(now) {
                            moved.with_window(window.stilled())
                        } else {
                            moved
                        }
                    },
                    None => settled,
                }
            },
            _ => self,
        }
    }

    /// The layout with the transitions of `windows`, from `i` on, advanced to
    /// `now`, and the ghosts among them whose time is over, after those in
    /// `over`.
    pub open spec fn transitions_ticked(
        self,
        windows: Seq<u64>,
        i: int,
        dragging: Option<u64>,
        now: Instant,
        over: Seq<u64>,
    ) -> (Layout, Seq<u64>)
        decreases windows.len() - i,
    {
        if i < 0 || i >= windows.len() {
            (self, over)
        } else {
            let gone = match self.window(windows[i]) {
                Some(window) => window.ghost_over(now),
                None => false,
            };
            self.transition_ticked(windows[i], dragging, now).transitions_ticked(
                windows,
                i + 1,
                dragging,
                now,
                if gone {
                    over.push(windows[i])
                } else {
                    over
                },
            )
        }
    }

    /// The layout after the ghost `id` was let go.
    pub open spec fn ghost_retired(self, id: u64) -> Layout {
        let unmapped = self.unmapped(id);
        match unmapped.window(id) {
            Some(window) => unmapped.with_window(window.released()),
            None => unmapped,
        }
    }

    /// The layout after `ghosts`, from `i` on, were let go.
    pub open spec fn ghosts_retired(self, ghosts: Seq<u64>, i: int) -> Layout
        decreases ghosts.len() - i,
    {
        if i < 0 || i >= ghosts.len() {
            self
        } else {
            self.ghost_retired(ghosts[i]).ghosts_retired(ghosts, i + 1)
        }
    }

    /// The layout with the open/close transition of the window `id` advanced to
    /// `now`.
    pub open spec fn visibility_ticked(self, id: u64, now: Instant) -> Layout {
        match self.window(id) {
            Some(window) if !window.ghosting() => self.with_window(
                window.seen_as(window.state.visibility.ticked(window.content_size(), now)),
            ),
            _ => self,
        }
    }

    /// The layout with the open/close transitions of `windows`, from `i` on,
    /// advanced to `now`, and the windows among them whose clients are to be
    /// told to close, after those in `closing`.
    pub open spec fn visibilities_ticked(
        self,
        windows: Seq<u64>,
        i: int,
        now: Instant,
        closing: Seq<u64>,
    ) -> (Layout, Seq<u64>)
        decreases windows.len() - i,
    {
        if i < 0 || i >= windows.len() {
            (self, closing)
        } else {
            let close = match self.window(windows[i]) {
                Some(window) => !window.ghosting() && window.state.visibility.sends_close(
                    window.content_size(),
                    now,
                ),
                None => false,
            };
            self.visibility_ticked(windows[i], now).visibilities_ticked(
                windows,
                i + 1,
                now,
                if close {
                    closing.push(windows[i])
                } else {
                    closing
                },
            )
        }
    }

    /// The layout after the clients of `windows`, from `i` on, were told to
    /// close.
    pub open spec fn closes_sent(self, windows: Seq<u64>, i: int) -> Layout
        decreases windows.len() - i,
    {
        if i < 0 || i >= windows.len() {
            self
        } else {
            self.acting(Action::SendClose { window: windows[i] }).closes_sent(windows, i + 1)
        }
    }

    /// The layout with every open/close transition of `windows` advanced to
    /// `now`, and the close requests sent that are due.
    pub open spec fn all_visibilities_ticked(self, windows: Seq<u64>, now: Instant) -> Layout {
        let (ticked, closing) = self.visibilities_ticked(windows, 0, now, Seq::empty());
        ticked.closes_sent(closing, 0)
    }

    /// The mapped windows, back to front.
    pub open spec fn mapped_ids(self) -> Seq<u64> {
        Seq::new(self.elements.len(), |i: int| self.elements[i].window)
    }

    /// The mapped windows whose clients are gone, from the `i`th on.
    pub open spec fn abandoned(self, i: int) -> Seq<u64>
        decreases self.elements.len() - i,
    {
        if i < 0 || i >= self.elements.len() {
            Seq::empty()
        } else {
            let gone = match self.window(self.elements[i].window) {
                Some(window) => !window.client_alive && !window.ghosting(),
                None => false,
            };
            if gone {
                seq![self.elements[i].window] + self.abandoned(i + 1)
            } else {
                self.abandoned(i + 1)
            }
        }
    }

    /// Whether the client of the window `id` is still there.
    pub open spec fn has_client(self, id: u64) -> bool {
        match self.window(id) {
            Some(window) => window.client_alive,
            None => false,
        }
    }
}

impl WindowElement {
    /// The window without its ghost.
    pub open spec fn released(self) -> WindowElement {
        WindowElement { ghost_state: GhostState { active: false, ..self.ghost_state }, ..self }
    }

    /// The window with `visibility` as its open/close state.
    pub open spec fn seen_as(self, visibility: VisibilityState) -> WindowElement {
        WindowElement { state: WindowState { visibility, ..self.state }, ..self }
    }

    /// The window with `visibility` as its open/close state.
    fn with_visibility(self, visibility: VisibilityState) -> (r: WindowElement)
        ensures
            r == self.seen_as(visibility),
            self.wf() ==> r.wf(),
    {
        WindowElement { state: WindowState { visibility, ..self.state }, ..self }
    }

    /// The size of the ghost of a window that showed `content`, with room for
    /// the chrome it will redraw.
    pub open spec fn ghost_extent(self, content: Size) -> Size {
        if self.state.is_ssd {
            let frame = frame_around(content, self.state.header_bar.fullscreen);
            if self.state.header_bar.fullscreen {
                Size { w: frame.w, h: max(frame.h as int, 0) as i32 }
            } else {
                frame
            }
        } else {
            content
        }
    }

    /// The close transition that a ghost of the window plays: the one that is
    /// playing, or one that starts at `now`. None if it has played out already.
    pub open spec fn ghost_transition(self, now: Instant) -> Option<VisibilityAnimation> {
        match self.state.visibility.animation {
            Some(animation) if animation.kind == VisibilityKind::Close => if animation.is_finished(
                now,
            ) {
                None
            } else {
                Some(animation)
            },
            _ => Some(Self::closing_at(now)),
        }
    }

    /// Whether the window can become a ghost: there is a cached frame to draw it
    /// from, and its close transition has not played out.
    pub open spec fn can_haunt(self, now: Instant) -> bool {
        self.state.last_frame is Some && self.ghost_transition(now) is Some
    }

    /// The window as a ghost that closes from its cached frame. Without such a
    /// frame, or with the close transition over, it stays as it is.
    pub open spec fn haunting(self, now: Instant) -> WindowElement {
        match (self.state.last_frame, self.ghost_transition(now)) {
            (Some(frame), Some(animation)) => WindowElement {
                ghost_state: GhostState { active: true, size: self.ghost_extent(frame.size) },
                ..self.seen_as(
                    VisibilityState {
                        closing: true,
                        open_pending: false,
                        animation: Some(animation),
                        ..self.state.visibility
                    },
                )
            },
            _ => self,
        }
    }

    /// The size of the ghost of a window that showed `content`.
    fn extent_as_ghost(&self, content: Size) -> (r: Size)
        ensures
            r == self.ghost_extent(content),
    {
        if !self.state.is_ssd {
            return content;
        }
        let fullscreen = self.state.header_bar.fullscreen;
        let frame = frame_size(content, fullscreen);
        if fullscreen {
            Size { w: frame.w, h: larger(frame.h, 0) }
        } else {
            frame
        }
    }

    /// The close transition that a ghost of the window plays.
    fn transition_as_ghost(&self, now: Instant) -> (r: Option<VisibilityAnimation>)
        ensures
            r == self.ghost_transition(now),
    {
        if let Some(animation) = self.state.visibility.animation {
            if animation.kind() == VisibilityKind::Close {
                return if animation.finished(now) { None } else { Some(animation) };
            }
        }
        Some(VisibilityAnimation::starting_at(VisibilityKind::Close, WINDOW_VISIBILITY_NANOS, now))
    }

    /// The window as a ghost that closes from its cached frame, if it can become
    /// one.
    fn haunted(self, now: Instant) -> (r: Option<WindowElement>)
        ensures
            r == (if self.can_haunt(now) {
                Some(self.haunting(now))
            } else {
                None
            }),
            self.wf() && r is Some ==> r->0.wf(),
    {
        match (self.state.last_frame, self.transition_as_ghost(now)) {
            (Some(frame), Some(animation)) => {
                let visibility = VisibilityState {
                    closing: true,
                    open_pending: false,
                    animation: Some(animation),
                    ..self.state.visibility
                };
                let mut window = self.with_visibility(visibility);
                window.begin_ghost(self.extent_as_ghost(frame.size));
                Some(window)
            },
            _ => None,
        }
    }
}

impl VisibilityState {
    /// The open transition that starts at `now`.
    pub open spec fn opening_at(now: Instant) -> VisibilityAnimation {
        VisibilityAnimation {
            kind: VisibilityKind::Open,
            start_time: now,
            duration: WINDOW_VISIBILITY_NANOS,
        }
    }

    /// The state once an open that was waiting for content has started.
    pub open spec fn started(self, content: Size, now: Instant) -> VisibilityState {
        if self.open_pending && self.animation is None && !self.closing && content.w > 0 && content.h
            > 0 {
            VisibilityState {
                open_pending: false,
                animation: Some(Self::opening_at(now)),
                ..self
            }
        } else {
            self
        }
    }

    /// Whether the close transition has played out at `now`.
    pub open spec fn close_played(self, now: Instant) -> bool {
        match self.animation {
            Some(animation) => animation.kind == VisibilityKind::Close && animation.is_finished(now),
            None => false,
        }
    }

    /// Whether the client is to be told to close at `now`: the transition has
    /// played out and nobody told it yet.
    pub open spec fn sends_close(self, content: Size, now: Instant) -> bool {
        self.started(content, now).close_played(now) && self.close_sent_at is None
    }

    /// The state at `now`: an open that waited for content starts, a finished
    /// open is over, the close request goes out once its transition has played,
    /// and a client that ignores the request is shown again after a while.
    pub open spec fn ticked(self, content: Size, now: Instant) -> VisibilityState {
        let started = self.started(content, now);
        let open_over = match started.animation {
            Some(animation) => animation.kind == VisibilityKind::Open && animation.is_finished(now),
            None => false,
        };
        let close_sent_at = if self.sends_close(content, now) {
            Some(now)
        } else {
            self.close_sent_at
        };
        let ignored = match close_sent_at {
            Some(sent_at) => elapsed(now, sent_at) > CLOSE_TIMEOUT_NANOS,
            None => false,
        };
        if ignored {
            VisibilityState::idle()
        } else {
            VisibilityState {
                animation: if open_over {
                    None
                } else {
                    started.animation
                },
                close_sent_at,
                ..started
            }
        }
    }

    /// Advance the open/close transition of a window that shows `content`.
    /// Returns whether the client is to be told to close.
    pub fn tick(&mut self, content: Size, now: Instant) -> (r: bool)
        ensures
            *final(self) == old(self).ticked(content, now),
            r == old(self).sends_close(content, now),
    {
        let mut send_close = false;
        if self.open_pending && self.animation.is_none() && !self.closing && content.w > 0
            && content.h > 0 {
            self.open_pending = false;
            self.animation = Some(
                VisibilityAnimation::starting_at(
                    VisibilityKind::Open,
                    WINDOW_VISIBILITY_NANOS,
                    now,
                ),
            );
        }
        if let Some(animation) = self.animation {
            if animation.finished(now) {
                match animation.kind() {
                    VisibilityKind::Open => {
                        self.animation = None;
                    },
                    VisibilityKind::Close => {
                        if self.close_sent_at.is_none() {
                            self.close_sent_at = Some(now);
                            send_close = true;
                        }
                    },
                }
            }
        }
        // A client that ignores the close request should not stay hidden
        // forever: after a grace period, un-hide it.
        if let Some(sent_at) = self.close_sent_at {
            if elapsed_nanos(now, sent_at) > CLOSE_TIMEOUT_NANOS {
                *self = VisibilityState::default();
            }
        }
        send_close
    }
}

impl Desk {
    /// The state without the keyboard focus on the window `id`.
    pub open spec fn unfocused(self, id: u64) -> Desk {
        if self.has_keyboard && self.focus == Some(id) {
            Desk {
                focus: None,
                layout: self.layout.acting(Action::SetFocus { focus: None }),
                ..self
            }
        } else {
            self
        }
    }

    /// The state with the window `id` a ghost, and without the keyboard focus, if
    /// it can become one.
    pub open spec fn haunting(self, id: u64, now: Instant) -> Desk {
        match self.layout.window(id) {
            Some(window) if window.can_haunt(now) => {
                let freed = self.unfocused(id);
                freed.over(freed.layout.with_window(window.haunting(now)))
            },
            _ => self,
        }
    }

    /// The state once the client of the window `id` is gone: the keyboard does
    /// not point at its dead surface, and the window is a ghost if it can become
    /// one.
    pub open spec fn abandoning(self, id: u64, now: Instant) -> Desk {
        self.unfocused(id).haunting(id, now)
    }

    /// The state once the clients of `windows`, from `i` on, are gone.
    pub open spec fn all_abandoning(self, windows: Seq<u64>, i: int, now: Instant) -> Desk
        decreases windows.len() - i,
    {
        if i < 0 || i >= windows.len() {
            self
        } else {
            self.abandoning(windows[i], now).all_abandoning(windows, i + 1, now)
        }
    }

    /// The state with every window whose client is gone turned into a ghost, if
    /// it can become one, and no minimized window without a client.
    pub open spec fn reaped(self, now: Instant) -> Desk {
        let haunted = self.all_abandoning(self.layout.abandoned(0), 0, now);
        Desk {
            minimized: haunted.minimized.filter(|p: Placed| haunted.layout.has_client(p.window)),
            ..haunted
        }
    }

    /// The state after one frame: see [`AnvilState::tick_animations`].
    pub open spec fn ticked(self, now: Instant) -> Desk {
        let windows = self.layout.mapped_ids();
        let (moved, over) = self.layout.transitions_ticked(
            windows,
            0,
            self.dragging_window,
            now,
            Seq::empty(),
        );
        let seen = moved.ghosts_retired(over, 0).all_visibilities_ticked(windows, now);
        self.over(seen.previews_ticked(self.previewed(now), now))
    }
}

impl AnvilState {
    /// The mapped windows, back to front.
    pub(crate) fn mapped_windows(&self) -> (r: Vec<u64>)
        ensures
            r@ == self@.layout.mapped_ids(),
    {
        let mut windows: Vec<u64> = Vec::new();
        let mut i: usize = 0;
        while i < self.space.elements.len()
            invariant
                i <= self.space.elements.len(),
                windows.len() == i,
                forall|k: int| 0 <= k < i ==> windows@[k] == self@.layout.elements[k].window,
            decreases self.space.elements.len() - i,
        {
            windows.push(self.space.elements[i].window);
            i += 1;
        }
        assert(windows@ =~= self@.layout.mapped_ids());
        windows
    }

    /// Advance the transition of one window.
    fn tick_transition(&mut self, id: u64, now: Instant)
        requires
            old(self)@.wf(),
        ensures
            final(self)@ == old(self)@.over(
                old(self)@.layout.transition_ticked(id, old(self)@.dragging_window, now),
            ),
            final(self)@.wf(),
    {
        let found = match self.space.window(id) {
            Some(found) => found,
            None => return,
        };
        if found.is_ghosting() {
            return;
        }
        // A client-decorated unmaximize waits for the client to commit the size
        // it chose. If that never arrives, settle on the last committed size so
        // the transition can finish instead of hanging.
        let window = found.resolve(now);
        self.space.put(window);
        let animation = match window.state.animation {
            Some(animation) => animation,
            None => return,
        };
        let (rect, progress) = animation.sample(now);
        // While a client move grab owns the window, it drives the position; the
        // animation only supplies the (shrinking) size.
        let being_dragged = self.dragging_window == Some(id);
        if !being_dragged && self.space.element_location(id) != Some(rect.loc) {
            self.space.relocate_element(id, rect.loc);
        }
        // Once the curve is done, keep the animation (which holds the window at
        // its target geometry) until the client has adopted the new size, so a
        // slow client doesn't snap back to its old geometry.
        if progress.num >= progress.den {
            let committed = window.resize_content_size();
            if near(committed.w, rect.content.w, 1) && near(committed.h, rect.content.h, 1) {
                self.space.put(window.without_animation());
            }
        }
    }

    /// Let a ghost go whose close transition has played out.
    fn retire_ghost(&mut self, id: u64)
        requires
            old(self)@.wf(),
        ensures
            final(self)@ == old(self)@.over(old(self)@.layout.ghost_retired(id)),
            final(self)@.wf(),
    {
        self.space.unmap_elem(id);
        if let Some(window) = self.space.window(id) {
            let mut window = window;
            window.end_ghost();
            self.space.put(window);
        }
    }

    /// Advance every window's open/close transition: start opens that were
    /// waiting for their first buffer, retire finished opens, and deliver the
    /// close request once a close transition has played out.
    pub fn tick_visibility_animations(&mut self, windows: &Vec<u64>, now: Instant)
        requires
            old(self)@.wf(),
        ensures
            final(self)@ == old(self)@.over(
                old(self)@.layout.all_visibilities_ticked(windows@, now),
            ),
            final(self)@.wf(),
    {
        let mut to_close: Vec<u64> = Vec::new();
        let mut i: usize = 0;
        while i < windows.len()
            invariant
                i <= windows.len(),
                self@.wf(),
                self@ == old(self)@.over(self@.layout),
                self@.layout.visibilities_ticked(windows@, i as int, now, to_close@)
                    == old(self)@.layout.visibilities_ticked(windows@, 0, now, Seq::empty()),
            decreases windows.len() - i,
        {
            let id = windows[i];
            if let Some(window) = self.space.window(id) {
                if !window.is_ghosting() {
                    let content = window.resize_content_size();
                    let mut visibility = window.state.visibility;
                    let send_close = visibility.tick(content, now);
                    self.space.put(window.with_visibility(visibility));
                    if send_close {
                        to_close.push(id);
                    }
                }
            }
            i += 1;
        }
        let ghost ticked = self@.layout;
        let mut k: usize = 0;
        while k < to_close.len()
            invariant
                k <= to_close.len(),
                self@.wf(),
                self@ == old(self)@.over(self@.layout),
                self@.layout.closes_sent(to_close@, k as int) == ticked.closes_sent(to_close@, 0),
            decreases to_close.len() - k,
        {
            self.send_close(to_close[k]);
            k += 1;
        }
    }

    /// Deliver a close request to the client without any transition.
    pub fn send_close(&mut self, window: u64)
        ensures
            final(self)@ == old(self)@.over(
                old(self)@.layout.acting(Action::SendClose { window }),
            ),
            old(self)@.wf() ==> final(self)@.wf(),
    {
        self.space.act(Action::SendClose { window });
    }

    /// Advance every in-flight window animation. Called once per frame before
    /// rendering: updates where the window is mapped and retires animations
    /// whose client has caught up with the configured size.
    pub fn tick_animations(&mut self, now: Instant)
        requires
            old(self)@.wf(),
        ensures
            final(self)@ == old(self)@.ticked(now),
            final(self)@.wf(),
    {
        let windows = self.mapped_windows();
        let mut over: Vec<u64> = Vec::new();
        let mut i: usize = 0;
        while i < windows.len()
            invariant
                i <= windows.len(),
                self@.wf(),
                self@ == old(self)@.over(self@.layout),
                self@.layout.transitions_ticked(
                    windows@,
                    i as int,
                    old(self)@.dragging_window,
                    now,
                    over@,
                ) == old(self)@.layout.transitions_ticked(
                    windows@,
                    0,
                    old(self)@.dragging_window,
                    now,
                    Seq::empty(),
                ),
            decreases windows.len() - i,
        {
            let id = windows[i];
            // Ghosts have no live surface: just retire them when their close
            // transition has finished.
            let gone = match self.space.window(id) {
                Some(window) => window.is_ghosting() && match window.state.visibility.animation {
                    Some(animation) => animation.finished(now),
                    None => true,
                },
                None => false,
            };
            if gone {
                over.push(id);
            }
            self.tick_transition(id, now);
            i += 1;
        }
        let ghost moved = self@.layout;
        let mut k: usize = 0;
        while k < over.len()
            invariant
                k <= over.len(),
                self@.wf(),
                self@ == old(self)@.over(self@.layout),
                self@.layout.ghosts_retired(over@, k as int) == moved.ghosts_retired(over@, 0),
            decreases over.len() - k,
        {
            // Unmap while still marked as a ghost so the guarded surface paths
            // are skipped, then release the ghost flag.
            self.retire_ghost(over[k]);
            k += 1;
        }
        self.tick_visibility_animations(&windows, now);
        self.tick_snap_preview(now);
    }

    /// Move the keyboard focus off `window` if it currently holds it. Used when
    /// a window stops being interactive.
    pub fn clear_window_focus(&mut self, window: u64)
        ensures
            final(self)@ == old(self)@.unfocused(window),
            old(self)@.wf() ==> final(self)@.wf(),
    {
        if self.has_keyboard && self.focus == Some(window) {
            self.focus = None;
            self.space.act(Action::SetFocus { focus: None });
        }
    }

    /// Start the close transition for a window whose client is already gone,
    /// drawing it from its cached frame. Returns without effect when there is no
    /// cached frame or the close already played out.
    pub fn begin_window_ghost(&mut self, window: u64, now: Instant)
        requires
            old(self)@.wf(),
        ensures
            final(self)@ == old(self)@.haunting(window, now),
            final(self)@.wf(),
    {
        if let Some(found) = self.space.window(window) {
            if let Some(haunted) = found.haunted(now) {
                self.clear_window_focus(window);
                self.space.put(haunted);
            }
        }
    }

    /// The client of `window` is gone: take the focus off it and play its close
    /// transition.
    pub(crate) fn abandon_window(&mut self, window: u64, now: Instant)
        requires
            old(self)@.wf(),
        ensures
            final(self)@ == old(self)@.abandoning(window, now),
            final(self)@.wf(),
    {
        // The window is gone or going; make sure the keyboard isn't left
        // pointing at its dead surface.
        self.clear_window_focus(window);
        self.begin_window_ghost(window, now);
    }

    /// The mapped windows whose clients are gone.
    fn abandoned_windows(&self) -> (r: Vec<u64>)
        ensures
            r@ == self@.layout.abandoned(0),
    {
        let mut dead: Vec<u64> = Vec::new();
        let mut i: usize = 0;
        while i < self.space.elements.len()
            invariant
                i <= self.space.elements.len(),
                dead@ + self@.layout.abandoned(i as int) =~= self@.layout.abandoned(0),
            decreases self.space.elements.len() - i,
        {
            let id = self.space.elements[i].window;
            if let Some(window) = self.space.window(id) {
                if !window.client_alive && !window.is_ghosting() {
                    dead.push(id);
                }
            }
            i += 1;
        }
        dead
    }

    /// Turn any window whose client is already gone into a closing ghost. Run
    /// this *before* dead windows are removed, so an abrupt client exit (crash,
    /// SIGINT/disconnect) still animates from the kept buffers.
    pub fn reap_closing_windows(&mut self, now: Instant)
        requires
            old(self)@.wf(),
        ensures
            final(self)@ == old(self)@.reaped(now),
            final(self)@.wf(),
    {
        let dead = self.abandoned_windows();
        let mut i: usize = 0;
        while i < dead.len()
            invariant
                i <= dead.len(),
                self@.wf(),
                self@.all_abandoning(dead@, i as int, now) == old(self)@.all_abandoning(
                    dead@,
                    0,
                    now,
                ),
            decreases dead.len() - i,
        {
            self.abandon_window(dead[i], now);
            i += 1;
        }
        // Minimized windows are out of the space and never animate, so a
        // minimized window whose client exited would otherwise be kept (with its
        // buffers) forever.
        let ghost haunted = self@;
        let ghost keep = |p: Placed| haunted.layout.has_client(p.window);
        let mut kept: Vec<Placed> = Vec::new();
        let mut k: usize = 0;
        while k < self.minimized.len()
            invariant
                k <= self.minimized.len(),
                self@ == haunted,
                self@.wf(),
                keep == (|p: Placed| haunted.layout.has_client(p.window)),
                kept@ == self.minimized@.take(k as int).filter(keep),
            decreases self.minimized.len() - k,
        {
            let placed = self.minimized[k];
            proof {
                assert(self.minimized@.take(k + 1).drop_last() =~= self.minimized@.take(k as int));
                reveal(Seq::filter);
            }
            let alive = match self.space.window(placed.window) {
                Some(window) => window.client_alive,
                None => false,
            };
            if alive {
                kept.push(placed);
            }
            k += 1;
        }
        assert(self.minimized@.take(k as int) =~= self.minimized@);
        self.minimized = kept;
    }
}

/// The close request goes out exactly once: on the tick on which it does, the
/// window remembers, and no later tick sends it again until the window is shown
/// again.
pub proof fn close_is_sent_once(state: VisibilityState, content: Size, now: Instant, later: Instant)
    requires
        state.sends_close(content, now),
    ensures
        state.ticked(content, now).close_sent_at == Some(now),
        !state.ticked(content, now).sends_close(content, later),
        elapsed(later, now) <= CLOSE_TIMEOUT_NANOS ==> state.ticked(content, now).ticked(
            content,
            later,
        ).closing == state.closing,
        elapsed(later, now) > CLOSE_TIMEOUT_NANOS ==> state.ticked(content, now).ticked(
            content,
            later,
        ) == VisibilityState::idle(),
{
}

/// A window never starts to open before it has content, nor once it is closing.
pub proof fn opening_waits_for_content(state: VisibilityState, content: Size, now: Instant)
    requires
        state.animation is None,
        content.w <= 0 || content.h <= 0 || state.closing || !state.open_pending,
    ensures
        state.ticked(content, now).animation is None,
{
}

/// A window becomes a ghost only with a frame to draw, and then takes no input,
/// stays around and closes; one without a frame stays as it is.
pub proof fn ghosts_have_a_frame(window: WindowElement, now: Instant)
    ensures
        ({
            let after = window.haunting(now);
            &&& !window.can_haunt(now) ==> after == window
            &&& window.state.last_frame is None ==> !window.can_haunt(now)
            &&& after != window ==> {
                &&& after.ghosting() && after.is_alive()
                &&& after.state.visibility.closing
                &&& after.state.last_frame is Some
            }
        }),
{
}

} // verus!
