//! Window-management requests.
//!
//! Both the SSD title-bar buttons and the protocol request handlers go through
//! these, so a request and a button click always have the exact same effect.

use std::time::Instant;
use vstd::prelude::*;

use crate::element::{ClientState, SurfaceKind, WindowElement};
use crate::geometry::{
    absolute_geometry, absolute_geometry_for_output, output_for_window, output_work_area,
    relative_geometry_of, relative_geometry_of_output, work_area_for_window, RelativeGeometry,
};
use crate::snap::{Snap, SnapGrid, SnapTarget, SnapZone};
use crate::space::{Action, FullscreenSurface, Output, Space};
use crate::ssd::{HeaderBar, WindowState};
use crate::state::AnvilState;
use crate::utils::{Point, Rectangle, Size};
use crate::xdg::{decorated_content_size, fullscreen_content_size, maximize_content_size};

verus! {

use crate::space::Layout;
use crate::xdg::{decorated, fullscreen_size, maximized_size};

impl WindowElement {
    /// The window with `rel` as the geometry to unmaximize to.
    pub open spec fn unmaximizing_to(self, rel: Option<RelativeGeometry>) -> WindowElement {
        WindowElement { state: WindowState { maximize_restore: rel, ..self.state }, ..self }
    }

    /// The window with `rel` as the geometry to unmaximize to.
    fn with_maximize_restore(self, rel: Option<RelativeGeometry>) -> (r: WindowElement)
        ensures
            r == self.unmaximizing_to(rel),
            self.wf() && (rel is Some ==> rel->0.wf()) ==> r.wf(),
    {
        WindowElement { state: WindowState { maximize_restore: rel, ..self.state }, ..self }
    }

    /// The window without a geometry to unmaximize to.
    pub fn without_maximize_restore(self) -> (r: WindowElement)
        ensures
            r == self.unmaximizing_to(None),
            self.wf() ==> r.wf(),
    {
        self.with_maximize_restore(None)
    }

    /// The window covering its output or not, with `restore` as the geometry to
    /// return to.
    pub open spec fn covering(
        self,
        fullscreen: bool,
        restore: Option<(u64, RelativeGeometry)>,
    ) -> WindowElement {
        WindowElement {
            state: WindowState {
                fullscreen_restore: restore,
                header_bar: HeaderBar { fullscreen, pointer_loc: None, ..self.state.header_bar },
                ..self.state
            },
            ..self
        }
    }

    /// The window covering its output or not.
    fn with_fullscreen(self, fullscreen: bool, restore: Option<(u64, RelativeGeometry)>) -> (r:
        WindowElement)
        ensures
            r == self.covering(fullscreen, restore),
            self.wf() && (match restore {
                Some((_, rel)) => rel.wf(),
                None => true,
            }) ==> r.wf(),
    {
        WindowElement {
            state: WindowState {
                fullscreen_restore: restore,
                header_bar: HeaderBar { fullscreen, pointer_loc: None, ..self.state.header_bar },
                ..self.state
            },
            ..self
        }
    }
}

impl WindowElement {
    /// The window as it is when it is told to cover an output of `size`. It keeps
    /// what it remembers from covering one already, else it remembers `memory`.
    pub open spec fn told_to_cover(
        self,
        size: Size,
        memory: Option<(u64, RelativeGeometry)>,
        named: Option<u64>,
    ) -> WindowElement {
        let restore = if self.state.fullscreen_restore is None {
            memory
        } else {
            self.state.fullscreen_restore
        };
        self.covering(true, restore).telling(
            ClientState {
                fullscreen: true,
                size: Some(fullscreen_size(size, self.state.is_ssd)),
                fullscreen_output: named,
                ..self.client
            },
        )
    }

    /// The window as it is when it is told to cover an output of `size`.
    fn tell_to_cover(
        self,
        size: Size,
        memory: Option<(u64, RelativeGeometry)>,
        named: Option<u64>,
    ) -> (r: WindowElement)
        ensures
            r == self.told_to_cover(size, memory, named),
            self.wf() && (match memory {
                Some((_, rel)) => rel.wf(),
                None => true,
            }) ==> r.wf(),
    {
        let restore = if self.state.fullscreen_restore.is_none() {
            memory
        } else {
            self.state.fullscreen_restore
        };
        let client = ClientState {
            fullscreen: true,
            size: Some(fullscreen_content_size(size, self.is_ssd())),
            fullscreen_output: named,
            ..self.client
        };
        self.with_fullscreen(true, restore).with_client(client)
    }

    /// The window as it is when it is told to stop covering its output. Only a
    /// mapped one forgets that it did.
    pub open spec fn told_to_uncover(self, is_mapped: bool, size: Option<Size>) -> WindowElement {
        let client = ClientState {
            fullscreen: false,
            size,
            fullscreen_output: None,
            ..self.client
        };
        (if is_mapped {
            self.covering(false, None)
        } else {
            self
        }).telling(client)
    }

    /// The window as it is when it is told to stop covering its output.
    fn tell_to_uncover(self, is_mapped: bool, size: Option<Size>) -> (r: WindowElement)
        ensures
            r == self.told_to_uncover(is_mapped, size),
            self.wf() ==> r.wf(),
    {
        let client = ClientState {
            fullscreen: false,
            size,
            fullscreen_output: None,
            ..self.client
        };
        let window = if is_mapped { self.with_fullscreen(false, None) } else { self };
        window.with_client(client)
    }
}

/// The size in an absolute geometry.
pub open spec fn size_of(geometry: Option<(Point, Size)>) -> Option<Size> {
    match geometry {
        Some((_, size)) => Some(size),
        None => None,
    }
}

impl Layout {
    /// The layout after the client of the Wayland window `id` was answered. The
    /// protocol demands a configure, but the first one is left to the first
    /// commit.
    #[verifier::opaque]
    pub open spec fn answering(self, id: u64) -> Layout {
        match self.window(id) {
            Some(window) => self.configuring(window, window.configured),
            None => self,
        }
    }

    /// The first output that the window `id` reaches onto, or the first output
    /// while it reaches onto none.
    pub open spec fn nearest_output(self, id: u64) -> Option<u64> {
        let outputs = self.outputs_for(id);
        if outputs.len() > 0 {
            Some(outputs[0])
        } else {
            self.primary()
        }
    }

    /// The work area that the window `id` is maximized into.
    pub open spec fn maximize_area(self, id: u64) -> Option<Rectangle> {
        match self.nearest_output(id) {
            Some(output) => self.work_area(output),
            None => None,
        }
    }

    /// The window `found` as it is when it is told to maximize into `area`: its
    /// snap is over, and unless it was maximized before it remembers where it
    /// was.
    pub open spec fn told_to_maximize(
        self,
        found: WindowElement,
        area: Option<Rectangle>,
        now: Instant,
    ) -> WindowElement {
        let freed = found.snapped(None);
        let remembering = if found.client.maximized {
            freed
        } else {
            freed.unmaximizing_to(self.relative(found.id, now))
        };
        let size = match area {
            Some(area) => Some(maximized_size(area.size, found.state.is_ssd)),
            None => None,
        };
        remembering.telling(ClientState { maximized: true, size, ..found.client })
    }

    /// The layout after the mapped Wayland window `id` was maximized: it glides
    /// to its work area.
    pub open spec fn maximizing(self, id: u64, now: Instant) -> Layout {
        match (self.window(id), self.location(id)) {
            (Some(found), Some(start)) => {
                let area = self.maximize_area(id);
                let told = self.with_window(self.told_to_maximize(found, area, now));
                match area {
                    Some(area) => told.gliding(
                        id,
                        maximized_size(area.size, found.state.is_ssd),
                        area.loc,
                        now,
                    ).mapped(id, start, true),
                    None => told,
                }.answering(id)
            },
            _ => self,
        }
    }

    /// Where the window `found` unmaximizes to.
    pub open spec fn unmaximized_geometry(self, found: WindowElement) -> Option<(Point, Size)> {
        match found.state.maximize_restore {
            Some(rel) => self.absolute(found.id, rel, found.state.is_ssd),
            None => None,
        }
    }

    /// The layout after the mapped Wayland window `id` was unmaximized: it glides
    /// to where it was, if that is known. The client chooses its size if not.
    pub open spec fn demaximizing(self, id: u64, now: Instant) -> Layout {
        match (self.window(id), self.location(id)) {
            (Some(found), Some(_)) => {
                let geometry = self.unmaximized_geometry(found);
                let client = ClientState {
                    maximized: false,
                    size: size_of(geometry),
                    ..found.client
                };
                let told = self.with_window(found.unmaximizing_to(None).telling(client));
                match geometry {
                    Some((loc, size)) => told.gliding(id, size, loc, now),
                    None => told,
                }.answering(id)
            },
            _ => self,
        }
    }

    /// The output that the window `id` covers when it asks for `requested`.
    pub open spec fn covered_output(self, id: u64, requested: Option<u64>) -> Option<u64> {
        match requested {
            Some(output) => Some(output),
            None => self.home(id),
        }
    }

    /// What the window `id` remembers when it covers `output`: where it was on
    /// it, if it was anywhere.
    pub open spec fn fullscreen_memory(self, id: u64, output: u64, now: Instant) -> Option<
        (u64, RelativeGeometry),
    > {
        match self.relative_on(output, id, now) {
            Some(rel) if rel.has_size() => Some((output, rel)),
            _ => None,
        }
    }

    /// The layout with the window `id` as the one that covers `output`.
    #[verifier::opaque]
    pub open spec fn covered(self, output: u64, id: u64) -> Layout {
        match self.output(output) {
            Some(found) => self.with_output(
                Output { fullscreen: Some(FullscreenSurface { window: Some(id) }), ..found },
            ),
            None => self,
        }
    }

    /// The layout after the mapped Wayland window `id` was made to cover the
    /// output it asks for, or the one it is on. Its snap is over in any case.
    /// `bound` are the outputs that the client knows.
    pub open spec fn fullscreening(
        self,
        id: u64,
        requested: Option<u64>,
        bound: Seq<u64>,
        now: Instant,
    ) -> Layout {
        match (self.window(id), self.location(id)) {
            (Some(found), Some(_)) => {
                let window = found.snapped(None);
                let freed = self.with_window(window);
                match freed.covered_output(id, requested) {
                    Some(output) => match freed.output_geometry(output) {
                        Some(geo) if found.client_alive => freed.with_window(
                            window.told_to_cover(
                                geo.size,
                                freed.fullscreen_memory(id, output, now),
                                named_output(output, requested, bound),
                            ),
                        ).covered(output, id).answering(id),
                        _ => freed,
                    },
                    None => freed,
                }
            },
            _ => self,
        }
    }

    /// Where the window `found` goes when it no longer covers an output: where
    /// it was on the output it covered, if that is still there, else on the one
    /// it is on. A window that was never anywhere else gets its work area.
    #[verifier::opaque]
    pub open spec fn uncovered_geometry(self, found: WindowElement) -> Option<(Point, Size)> {
        let is_ssd = found.state.is_ssd;
        let restored = match found.state.fullscreen_restore {
            Some((output, rel)) => {
                let on = if self.output(output) is Some {
                    Some(output)
                } else {
                    self.home(found.id)
                };
                match on {
                    Some(output) => self.absolute_on(output, rel, is_ssd),
                    None => None,
                }
            },
            None => None,
        };
        if restored is Some {
            restored
        } else {
            match self.home_area(found.id) {
                Some(area) => Some((area.loc, fullscreen_size(area.size, is_ssd))),
                None => None,
            }
        }
    }

    /// The layout with no window covering `output`, if one ever did.
    #[verifier::opaque]
    pub open spec fn cleared(self, output: Option<u64>) -> Layout {
        match output {
            Some(id) => match self.output(id) {
                Some(found) if found.fullscreen is Some => self.with_output(
                    Output { fullscreen: Some(FullscreenSurface { window: None }), ..found },
                ).acting(Action::ResetBuffers { output: id }),
                _ => self,
            },
            None => self,
        }
    }

    /// The layout after the mapped Wayland window `found` stopped covering its
    /// output.
    pub open spec fn uncovering(self, found: WindowElement) -> Layout {
        let geometry = self.uncovered_geometry(found);
        let told = self.with_window(found.told_to_uncover(true, size_of(geometry)));
        let placed = match geometry {
            Some((loc, _)) if found.state.fullscreen_restore is Some => told.mapped(
                found.id,
                loc,
                false,
            ),
            _ => told,
        };
        let output = match found.client.fullscreen_output {
            Some(output) => Some(output),
            None => placed.home(found.id),
        };
        placed.cleared(output).answering(found.id)
    }

    /// The layout after the Wayland window `id` stopped covering its output.
    pub open spec fn unfullscreening(self, id: u64) -> Layout {
        match self.window(id) {
            Some(found) => if self.location(id) is Some {
                self.uncovering(found)
            } else {
                self.with_window(found.told_to_uncover(false, None)).cleared(
                    found.client.fullscreen_output,
                ).answering(id)
            },
            None => self,
        }
    }

    /// The layout after the tiled window `id` left its zone for its floating
    /// geometry, raised so that its way there is visible.
    pub open spec fn unsnapped(self, id: u64, now: Instant) -> Layout {
        match self.window(id) {
            Some(found) => match found.state.snap {
                Some(snap) => {
                    let freed = self.with_window(found.snapped(None));
                    match freed.absolute(id, snap.floating, found.state.is_ssd) {
                        Some((loc, content)) => {
                            let raised = match freed.location(id) {
                                Some(current) => freed.mapped(id, current, true),
                                None => freed,
                            };
                            let rect = Rectangle {
                                loc,
                                size: decorated(content, found.state.is_ssd),
                            };
                            raised.filling(id, rect, false).gliding(id, content, loc, now)
                        },
                        None => freed,
                    }
                },
                None => self,
            },
            None => self,
        }
    }

    /// The layout after the X11 window `id` was unmaximized.
    pub open spec fn demaximizing_x11(self, id: u64) -> Layout {
        match (self.window(id), self.location(id)) {
            (Some(found), Some(_)) => {
                let told = self.with_window(found.x11_maximized(false, None)).acting(
                    Action::SetMaximizedX11 { window: id, maximized: false },
                );
                match found.state.old_geometry {
                    Some(old) => told.acting(Action::ConfigureX11 { window: id, rect: old }).mapped(
                        id,
                        old.loc,
                        false,
                    ),
                    None => told,
                }
            },
            _ => self,
        }
    }

    /// The first output, from the `i`th on, that the window `id` covers.
    pub open spec fn output_covered_by(self, id: u64, i: int) -> Option<u64>
        decreases self.outputs.len() - i,
    {
        if i < 0 || i >= self.outputs.len() {
            None
        } else if self.outputs[i].fullscreen == Some(FullscreenSurface { window: Some(id) }) {
            Some(self.outputs[i].id)
        } else {
            self.output_covered_by(id, i + 1)
        }
    }

    /// The layout after the X11 window `id` stopped covering its output.
    pub open spec fn unfullscreening_x11(self, id: u64, now: Instant) -> Layout {
        match (self.window(id), self.location(id)) {
            (Some(found), Some(_)) => {
                let told = self.with_window(
                    found.with_ssd(!found.decorated).x11_fullscreen(false),
                ).acting(Action::SetFullscreenX11 { window: id, fullscreen: false });
                match told.output_covered_by(id, 0) {
                    Some(output) if found.is_alive() => {
                        let placed = match told.element_bbox(id, now) {
                            Some(rect) => told.acting(Action::ConfigureX11 { window: id, rect }),
                            None => told,
                        };
                        placed.cleared(Some(output))
                    },
                    _ => told,
                }
            },
            _ => self,
        }
    }

    /// The layout after the window `id` was unmaximized, in the way of its
    /// protocol.
    pub open spec fn window_demaximized(self, id: u64, now: Instant) -> Layout {
        match self.window(id) {
            Some(found) => match found.kind {
                SurfaceKind::Wayland => self.demaximizing(id, now),
                SurfaceKind::X11 => self.demaximizing_x11(id),
            },
            None => self,
        }
    }

    /// The layout after the window `id` was maximized, in the way of its
    /// protocol. `accepted` is whether an X11 window took the state.
    pub open spec fn window_maximized(self, id: u64, accepted: bool, now: Instant) -> Layout {
        match self.window(id) {
            Some(found) => match found.kind {
                SurfaceKind::Wayland => self.maximizing(id, now),
                SurfaceKind::X11 => self.maximizing_x11(id, accepted, now),
            },
            None => self,
        }
    }

    /// The layout after the window `id` stopped covering its output, in the way
    /// of its protocol.
    pub open spec fn window_uncovered(self, id: u64, now: Instant) -> Layout {
        match self.window(id) {
            Some(found) => match found.kind {
                SurfaceKind::Wayland => self.unfullscreening(id),
                SurfaceKind::X11 => self.unfullscreening_x11(id, now),
            },
            None => self,
        }
    }

    /// Where an X11 window is maximized or made fullscreen: the geometry of its
    /// nearest output.
    pub open spec fn x11_target(self, id: u64) -> Option<(u64, Rectangle)> {
        match self.nearest_output(id) {
            Some(output) => match self.output_geometry(output) {
                Some(geo) => Some((output, geo)),
                None => None,
            },
            None => None,
        }
    }

    /// The layout after the X11 window `id` was maximized, if it took the state.
    pub open spec fn maximizing_x11(self, id: u64, accepted: bool, now: Instant) -> Layout {
        match (self.window(id), self.element_bbox(id, now), self.x11_target(id)) {
            (Some(found), Some(old), Some((_, geo))) if accepted => self.acting(
                Action::SetMaximizedX11 { window: id, maximized: true },
            ).acting(Action::ConfigureX11 { window: id, rect: geo }).with_window(
                found.x11_maximized(true, Some(old)),
            ).mapped(id, geo.loc, false),
            _ => self,
        }
    }

    /// The layout after the X11 window `id` was made to cover its output, if it
    /// took the state.
    pub open spec fn fullscreening_x11(self, id: u64, accepted: bool) -> Layout {
        match (self.window(id), self.location(id), self.x11_target(id)) {
            (Some(found), Some(_), Some((output, geo))) if accepted => self.acting(
                Action::SetFullscreenX11 { window: id, fullscreen: true },
            ).with_window(found.with_ssd(false).x11_fullscreen(true)).acting(
                Action::ConfigureX11 { window: id, rect: geo },
            ).covered(output, id),
            _ => self,
        }
    }

    /// The layout after the maximize button of the window `id`: a fullscreen
    /// window stops covering its output, a tiled one un-snaps, a maximized one
    /// is restored and any other is maximized.
    pub open spec fn toggled(self, id: u64, accepted: bool, now: Instant) -> Layout {
        match self.window(id) {
            Some(found) => if found.state.header_bar.fullscreen {
                self.window_uncovered(id, now)
            } else if found.state.snap is Some {
                self.unsnapped(id, now)
            } else if found.maximized() {
                self.window_demaximized(id, now)
            } else {
                self.window_maximized(id, accepted, now)
            },
            None => self,
        }
    }

    /// The geometry that a window tiled on `output` floats back to: the one it
    /// had before it was tiled.
    pub open spec fn floating_geometry(self, found: WindowElement, output: u64, now: Instant) -> Option<
        RelativeGeometry,
    > {
        match found.state.snap {
            Some(snap) => Some(snap.floating),
            None => self.relative_on(output, found.id, now),
        }
    }

    /// The layout after the window `id` was tiled into `target`. Ghosts, windows
    /// that are not mapped and fullscreen windows are not; the top zone is the
    /// maximize button.
    pub open spec fn snapping(self, id: u64, target: SnapTarget, accepted: bool, now: Instant) -> Layout {
        match (self.window(id), self.location(id)) {
            (Some(found), Some(_)) if !found.ghosting() => if target.zone == SnapZone::Maximize {
                self.toggled(id, accepted, now)
            } else if found.state.header_bar.fullscreen {
                self
            } else {
                let grid = self.joined_grid(target.output, target.area);
                let rect = self.snap_rect(target);
                let tiled = match self.floating_geometry(found, target.output, now) {
                    Some(floating) => self.with_window(
                        found.snapped(Some(Snap { zone: target.zone, grid, floating })),
                    ),
                    None => self,
                };
                tiled.filling(id, rect, true).gliding(
                    id,
                    tiled.filled_size(id, rect),
                    rect.loc,
                    now,
                )
            },
            _ => self,
        }
    }
}

impl WindowElement {
    /// The X11 window maximized or not, with `old` as the geometry it had
    /// before.
    pub open spec fn x11_maximized(self, maximized: bool, old_geometry: Option<Rectangle>) -> WindowElement {
        WindowElement { state: WindowState { old_geometry, ..self.state }, ..self }.telling(
            ClientState { maximized, ..self.client },
        )
    }

    /// The X11 window maximized or not.
    pub fn with_x11_maximized(self, maximized: bool, old_geometry: Option<Rectangle>) -> (r:
        WindowElement)
        ensures
            r == self.x11_maximized(maximized, old_geometry),
            self.wf() ==> r.wf(),
    {
        let window = WindowElement { state: WindowState { old_geometry, ..self.state }, ..self };
        window.with_client(ClientState { maximized, ..self.client })
    }

    /// The X11 window covering its output or not.
    pub open spec fn x11_fullscreen(self, fullscreen: bool) -> WindowElement {
        self.telling(ClientState { fullscreen, ..self.client })
    }
}

/// Answer the client of a Wayland window.
fn answer(space: &mut Space, id: u64)
    requires
        old(space)@.wf(),
    ensures
        final(space)@ == old(space)@.answering(id),
        final(space)@.wf(),
{
    reveal(Layout::answering);
    // The protocol demands us to always reply with a configure, regardless of we
    // fulfilled the request or not. Before the first commit it will be sent
    // during initial configure.
    if let Some(window) = space.window(id) {
        space.configure(window, window.configured);
    }
}

/// The first output that the window reaches onto. A window that hasn't been
/// mapped yet uses the primary output instead.
fn nearest_output(space: &Space, id: u64) -> (r: Option<u64>)
    ensures
        r == space@.nearest_output(id),
{
    let outputs = space.outputs_for_element(id);
    if outputs.len() > 0 {
        Some(outputs[0])
    } else {
        space.primary_output()
    }
}

/// Make `id` the window that covers `output`.
fn cover_output(space: &mut Space, output: u64, id: u64)
    requires
        old(space)@.wf(),
    ensures
        final(space)@ == old(space)@.covered(output, id),
        final(space)@.wf(),
{
    reveal(Layout::covered);
    if let Some(found) = space.output(output) {
        let mut surface = match found.fullscreen {
            Some(surface) => surface,
            None => FullscreenSurface::default(),
        };
        surface.set(id);
        space.put_output(Output { fullscreen: Some(surface), ..found });
    }
}

/// Clear an output's fullscreen surface so rendering falls back to the normal
/// space layout.
fn clear_output(space: &mut Space, output: Option<u64>)
    requires
        old(space)@.wf(),
    ensures
        final(space)@ == old(space)@.cleared(output),
        final(space)@.wf(),
{
    reveal(Layout::cleared);
    if let Some(id) = output {
        if let Some(found) = space.output(id) {
            if let Some(surface) = found.fullscreen {
                let mut surface = surface;
                surface.clear();
                space.put_output(Output { fullscreen: Some(surface), ..found });
                space.act(Action::ResetBuffers { output: id });
            }
        }
    }
}

/// Where an X11 window is maximized or made fullscreen.
fn x11_target(space: &Space, id: u64) -> (r: Option<(u64, Rectangle)>)
    ensures
        r == space@.x11_target(id),
{
    match nearest_output(space, id) {
        Some(output) => match space.output_geometry(output) {
            Some(geo) => Some((output, geo)),
            None => None,
        },
        None => None,
    }
}

/// The output to name to a client that knows the outputs `bound`: the one it
/// covers, or the one it asked for if it does not know that one.
#[verifier::opaque]
pub open spec fn named_output(output: u64, requested: Option<u64>, bound: Seq<u64>) -> Option<u64> {
    if bound.contains(output) {
        Some(output)
    } else {
        requested
    }
}

/// The output to name to a client.
fn name_output(output: u64, requested: Option<u64>, bound: &Vec<u64>) -> (r: Option<u64>)
    ensures
        r == named_output(output, requested, bound@),
{
    reveal(named_output);
    if is_bound(bound, output) {
        Some(output)
    } else {
        requested
    }
}

/// Whether `output` is among `outputs`.
fn is_bound(outputs: &Vec<u64>, output: u64) -> (r: bool)
    ensures
        r == outputs@.contains(output),
{
    let mut i: usize = 0;
    while i < outputs.len()
        invariant
            i <= outputs.len(),
            forall|k: int| 0 <= k < i ==> outputs@[k] != output,
        decreases outputs.len() - i,
    {
        if outputs[i] == output {
            assert(outputs@[i as int] == output);
            return true;
        }
        i += 1;
    }
    false
}

impl AnvilState {
    /// The window as it is when it is told to maximize into `area`.
    fn tell_to_maximize(&self, found: WindowElement, area: Option<Rectangle>, now: Instant) -> (r:
        WindowElement)
        requires
            self@.wf(),
            found.wf(),
        ensures
            r == self@.layout.told_to_maximize(found, area, now),
            r.wf(),
            r.id == found.id,
    {
        // Maximizing supersedes any snap; the floating geometry would be stale.
        let freed = found.with_snap(None);
        // Remember where the window was so unmaximizing can put it back, stored
        // as a fraction of the work area so it survives resolution changes.
        let remembering = if found.client.maximized {
            freed
        } else {
            freed.with_maximize_restore(relative_geometry_of(&self.space, found.id, now))
        };
        let size = match area {
            Some(area) => Some(maximize_content_size(area.size, found.is_ssd())),
            None => None,
        };
        remembering.with_client(ClientState { maximized: true, size, ..found.client })
    }

    /// Maximize the Wayland window `id`.
    pub fn maximize_request_xdg(&mut self, id: u64, now: Instant)
        requires
            old(self)@.wf(),
        ensures
            final(self)@ == old(self)@.over(old(self)@.layout.maximizing(id, now)),
            final(self)@.wf(),
    {
        let (found, start_loc) = match (self.space.window(id), self.space.element_location(id)) {
            (Some(found), Some(start_loc)) => (found, start_loc),
            _ => return,
        };
        let area = match nearest_output(&self.space, id) {
            Some(output) => output_work_area(&self.space, output),
            None => None,
        };
        let told = self.tell_to_maximize(found, area, now);
        self.space.put(told);
        if let Some(area) = area {
            // Animate from the floating geometry to the maximized one instead of
            // snapping, even though the client is configured immediately.
            self.animate_window(
                id,
                maximize_content_size(area.size, found.is_ssd()),
                area.loc,
                now,
            );
            // Raise/focus the window without moving it off its start position.
            self.space.map_element(id, start_loc, true);
        }
        answer(&mut self.space, id);
    }

    /// Unmaximize the Wayland window `id`.
    pub fn unmaximize_request_xdg(&mut self, id: u64, now: Instant)
        requires
            old(self)@.wf(),
        ensures
            final(self)@ == old(self)@.over(old(self)@.layout.demaximizing(id, now)),
            final(self)@.wf(),
    {
        let found = match (self.space.window(id), self.space.element_location(id)) {
            (Some(found), Some(_)) => found,
            _ => return,
        };
        let geometry = match found.state.maximize_restore {
            Some(rel) => absolute_geometry(&self.space, &found, rel),
            None => None,
        };
        let size = match geometry {
            Some((_, size)) => Some(size),
            None => None,
        };
        let client = ClientState { maximized: false, size, ..found.client };
        self.space.put(found.with_maximize_restore(None).with_client(client));
        if let Some((loc, size)) = geometry {
            self.animate_window(id, size, loc, now);
        }
        answer(&mut self.space, id);
    }

    /// What the window remembers when it covers `output`. A zero-sized restore
    /// is skipped (the window may not have committed a buffer yet; Firefox, for
    /// instance, starts fullscreen).
    fn remember_for_fullscreen(&self, id: u64, output: u64, now: Instant) -> (r: Option<
        (u64, RelativeGeometry),
    >)
        requires
            self@.wf(),
        ensures
            r == self@.layout.fullscreen_memory(id, output, now),
            match r {
                Some((_, rel)) => rel.wf(),
                None => true,
            },
    {
        match relative_geometry_of_output(&self.space, output, id, now) {
            Some(rel) => if rel.w.num > 0 && rel.h.num > 0 {
                Some((output, rel))
            } else {
                None
            },
            None => None,
        }
    }

    /// Make the Wayland window `id` cover the output it asks for, or the one it
    /// is on. `bound` are the outputs that the client knows.
    ///
    /// A fullscreen window covers the whole output, including any layer-shell
    /// exclusive zone: the panel is hidden while fullscreen.
    pub fn fullscreen_request_xdg(
        &mut self,
        id: u64,
        requested: Option<u64>,
        bound: &Vec<u64>,
        now: Instant,
    )
        requires
            old(self)@.wf(),
        ensures
            final(self)@ == old(self)@.over(
                old(self)@.layout.fullscreening(id, requested, bound@, now),
            ),
            final(self)@.wf(),
    {
        let found = match (self.space.window(id), self.space.element_location(id)) {
            (Some(found), Some(_)) => found,
            _ => return,
        };
        // Fullscreen supersedes any snap; dragging a fullscreen window must not
        // restore a stale floating geometry.
        let window = found.with_snap(None);
        self.space.put(window);
        // A specific output may be requested; otherwise use the output the window
        // is actually on.
        let output = match requested {
            Some(output) => output,
            None => match output_for_window(&self.space, id) {
                Some(output) => output,
                None => return,
            },
        };
        let geo = match self.space.output_geometry(output) {
            Some(geo) => geo,
            None => return,
        };
        if !found.client_alive {
            return;
        }
        // Remember where the window was, relative to the output it is being
        // fullscreened on, so unfullscreening can put it back on the same
        // monitor.
        let memory = self.remember_for_fullscreen(id, output, now);
        let named = name_output(output, requested, bound);
        self.space.put(window.tell_to_cover(geo.size, memory, named));
        cover_output(&mut self.space, output, id);
        answer(&mut self.space, id);
    }

    /// Where the window goes when it no longer covers an output.
    fn geometry_uncovered(&self, found: &WindowElement) -> (r: Option<(Point, Size)>)
        requires
            found.wf(),
        ensures
            r == self@.layout.uncovered_geometry(*found),
    {
        reveal(Layout::uncovered_geometry);
        let is_ssd = found.is_ssd();
        if let Some((output, rel)) = found.state.fullscreen_restore {
            // The output the window was fullscreened on may have been removed.
            let on = if self.space.output(output).is_some() {
                Some(output)
            } else {
                output_for_window(&self.space, found.id)
            };
            if let Some(output) = on {
                let restored = absolute_geometry_for_output(&self.space, output, rel, is_ssd);
                if restored.is_some() {
                    return restored;
                }
            }
        }
        // If there's no stored restore (window spawned fullscreen), fall back to
        // the current output's work area so the client gets a real size instead
        // of 0x0.
        match work_area_for_window(&self.space, found.id) {
            Some(area) => Some((area.loc, fullscreen_content_size(area.size, is_ssd))),
            None => None,
        }
    }

    /// Stop the Wayland window `id` from covering its output.
    ///
    /// The output's fullscreen surface is cleared even when the client did not
    /// name an output, otherwise the fullscreen render path keeps drawing the
    /// window (and hides the panel) with a stale size.
    pub fn unfullscreen_request_xdg(&mut self, id: u64)
        requires
            old(self)@.wf(),
        ensures
            final(self)@ == old(self)@.over(old(self)@.layout.unfullscreening(id)),
            final(self)@.wf(),
    {
        if let Some(found) = self.space.window(id) {
            if self.space.element_location(id).is_some() {
                self.uncover(found);
            } else {
                self.space.put(found.tell_to_uncover(false, None));
                clear_output(&mut self.space, found.client.fullscreen_output);
                answer(&mut self.space, id);
            }
        }
    }

    /// Stop a mapped Wayland window from covering its output.
    fn uncover(&mut self, found: WindowElement)
        requires
            old(self)@.wf(),
            found.wf(),
        ensures
            final(self)@ == old(self)@.over(old(self)@.layout.uncovering(found)),
            final(self)@.wf(),
    {
        let geometry = self.geometry_uncovered(&found);
        let size = match geometry {
            Some((_, size)) => Some(size),
            None => None,
        };
        self.space.put(found.tell_to_uncover(true, size));
        if let Some((loc, _)) = geometry {
            if found.state.fullscreen_restore.is_some() {
                self.space.map_element(found.id, loc, false);
            }
        }
        let output = match found.client.fullscreen_output {
            Some(output) => Some(output),
            None => output_for_window(&self.space, found.id),
        };
        clear_output(&mut self.space, output);
        answer(&mut self.space, found.id);
    }

    /// Where the X11 window `id` is maximized or made fullscreen, if it is
    /// mapped and there is an output. The program asks the X server to change
    /// the window's state, and hands the outcome to
    /// [`Self::maximize_request_x11`] or [`Self::fullscreen_request_x11`].
    pub fn x11_request_target(&self, id: u64) -> (r: Option<Rectangle>)
        ensures
            r == (match (self@.layout.location(id), self@.layout.x11_target(id)) {
                (Some(_), Some((_, geo))) => Some(geo),
                _ => None,
            }),
    {
        match (self.space.element_location(id), x11_target(&self.space, id)) {
            (Some(_), Some((_, geo))) => Some(geo),
            _ => None,
        }
    }

    /// Maximize the X11 window `id`, which took the state if `accepted`.
    pub fn maximize_request_x11(&mut self, id: u64, accepted: bool, now: Instant)
        requires
            old(self)@.wf(),
        ensures
            final(self)@ == old(self)@.over(
                old(self)@.layout.maximizing_x11(id, accepted, now),
            ),
            final(self)@.wf(),
    {
        let old_geo = self.space.element_bbox(id, now);
        let target = x11_target(&self.space, id);
        if !accepted {
            return;
        }
        if let (Some(found), Some(old_geo), Some((_, rect))) = (
            self.space.window(id),
            old_geo,
            target,
        ) {
            self.space.act(Action::SetMaximizedX11 { window: id, maximized: true });
            self.space.act(Action::ConfigureX11 { window: id, rect });
            self.space.put(found.with_x11_maximized(true, Some(old_geo)));
            self.space.map_element(id, rect.loc, false);
        }
    }

    /// Unmaximize the X11 window `id`.
    pub fn unmaximize_request_x11(&mut self, id: u64)
        requires
            old(self)@.wf(),
        ensures
            final(self)@ == old(self)@.over(old(self)@.layout.demaximizing_x11(id)),
            final(self)@.wf(),
    {
        if let (Some(found), Some(_)) = (self.space.window(id), self.space.element_location(id)) {
            self.space.put(found.with_x11_maximized(false, None));
            self.space.act(Action::SetMaximizedX11 { window: id, maximized: false });
            if let Some(old) = found.state.old_geometry {
                self.space.act(Action::ConfigureX11 { window: id, rect: old });
                self.space.map_element(id, old.loc, false);
            }
        }
    }

    /// Make the X11 window `id` cover its output; it took the state if
    /// `accepted`.
    pub fn fullscreen_request_x11(&mut self, id: u64, accepted: bool)
        requires
            old(self)@.wf(),
        ensures
            final(self)@ == old(self)@.over(old(self)@.layout.fullscreening_x11(id, accepted)),
            final(self)@.wf(),
    {
        let target = x11_target(&self.space, id);
        if !accepted {
            return;
        }
        if let (Some(found), Some(_), Some((output, rect))) = (
            self.space.window(id),
            self.space.element_location(id),
            target,
        ) {
            self.space.act(Action::SetFullscreenX11 { window: id, fullscreen: true });
            let bare = found.decorated_by_server(false);
            self.space.put(bare.with_client(ClientState { fullscreen: true, ..bare.client }));
            self.space.act(Action::ConfigureX11 { window: id, rect });
            cover_output(&mut self.space, output, id);
        }
    }

    /// The first output that the window covers.
    fn output_covered(&self, id: u64) -> (r: Option<u64>)
        ensures
            r == self@.layout.output_covered_by(id, 0),
    {
        let mut i: usize = 0;
        while i < self.space.outputs.len()
            invariant
                i <= self.space.outputs.len(),
                self@.layout.output_covered_by(id, 0) == self@.layout.output_covered_by(
                    id,
                    i as int,
                ),
            decreases self.space.outputs.len() - i,
        {
            let output = self.space.outputs[i];
            if output.fullscreen == Some(FullscreenSurface { window: Some(id) }) {
                return Some(output.id);
            }
            i += 1;
        }
        None
    }

    /// Stop the X11 window `id` from covering its output.
    pub fn unfullscreen_request_x11(&mut self, id: u64, now: Instant)
        requires
            old(self)@.wf(),
        ensures
            final(self)@ == old(self)@.over(old(self)@.layout.unfullscreening_x11(id, now)),
            final(self)@.wf(),
    {
        if let (Some(found), Some(_)) = (self.space.window(id), self.space.element_location(id)) {
            let framed = found.decorated_by_server(!found.decorated);
            self.space.put(framed.with_client(ClientState { fullscreen: false, ..framed.client }));
            self.space.act(Action::SetFullscreenX11 { window: id, fullscreen: false });
            if let Some(output) = self.output_covered(id) {
                if found.alive() {
                    if let Some(rect) = self.space.element_bbox(id, now) {
                        self.space.act(Action::ConfigureX11 { window: id, rect });
                    }
                    clear_output(&mut self.space, Some(output));
                }
            }
        }
    }

    /// Maximize a window. `accepted` is whether an X11 window took the state.
    pub fn maximize_window(&mut self, window: u64, accepted: bool, now: Instant)
        requires
            old(self)@.wf(),
        ensures
            final(self)@ == old(self)@.over(
                old(self)@.layout.window_maximized(window, accepted, now),
            ),
            final(self)@.wf(),
    {
        if let Some(found) = self.space.window(window) {
            match found.kind {
                SurfaceKind::Wayland => self.maximize_request_xdg(window, now),
                SurfaceKind::X11 => self.maximize_request_x11(window, accepted, now),
            }
        }
    }

    pub fn unmaximize_window(&mut self, window: u64, now: Instant)
        requires
            old(self)@.wf(),
        ensures
            final(self)@ == old(self)@.over(old(self)@.layout.window_demaximized(window, now)),
            final(self)@.wf(),
    {
        if let Some(found) = self.space.window(window) {
            match found.kind {
                SurfaceKind::Wayland => self.unmaximize_request_xdg(window, now),
                SurfaceKind::X11 => self.unmaximize_request_x11(window),
            }
        }
    }

    /// Make a window cover the output it is on. `accepted` is whether an X11
    /// window took the state.
    pub fn fullscreen_window(&mut self, window: u64, bound: &Vec<u64>, accepted: bool, now: Instant)
        requires
            old(self)@.wf(),
        ensures
            final(self)@ == old(self)@.over(
                match old(self)@.layout.window(window) {
                    Some(found) => match found.kind {
                        SurfaceKind::Wayland => old(self)@.layout.fullscreening(
                            window,
                            None,
                            bound@,
                            now,
                        ),
                        SurfaceKind::X11 => old(self)@.layout.fullscreening_x11(window, accepted),
                    },
                    None => old(self)@.layout,
                },
            ),
            final(self)@.wf(),
    {
        if let Some(found) = self.space.window(window) {
            match found.kind {
                SurfaceKind::Wayland => self.fullscreen_request_xdg(window, None, bound, now),
                SurfaceKind::X11 => self.fullscreen_request_x11(window, accepted),
            }
        }
    }

    pub fn unfullscreen_window(&mut self, window: u64, now: Instant)
        requires
            old(self)@.wf(),
        ensures
            final(self)@ == old(self)@.over(old(self)@.layout.window_uncovered(window, now)),
            final(self)@.wf(),
    {
        if let Some(found) = self.space.window(window) {
            match found.kind {
                SurfaceKind::Wayland => self.unfullscreen_request_xdg(window),
                SurfaceKind::X11 => self.unfullscreen_request_x11(window, now),
            }
        }
    }

    /// Restore a snapped window to its floating geometry with the same
    /// transition as an unmaximize.
    pub fn unsnap_window(&mut self, window: u64, now: Instant)
        requires
            old(self)@.wf(),
        ensures
            final(self)@ == old(self)@.over(old(self)@.layout.unsnapped(window, now)),
            final(self)@.wf(),
    {
        let found = match self.space.window(window) {
            Some(found) => found,
            None => return,
        };
        let snap = match found.state.snap {
            Some(snap) => snap,
            None => return,
        };
        self.space.put(found.with_snap(None));
        if let Some((loc, content)) = absolute_geometry(&self.space, &found, snap.floating) {
            // Raise the window above the rest of the snap group without moving
            // it, so the transition is visible and its position can animate to
            // `loc` rather than jumping there.
            if let Some(current) = self.space.element_location(window) {
                self.space.map_element(window, current, true);
            }
            let rect = Rectangle { loc, size: decorated_content_size(content, found.is_ssd()) };
            self.configure_snapped(window, rect, false);
            self.animate_window(window, content, loc, now);
        }
    }

    /// The titlebar maximize button's behaviour: toggle the window between
    /// maximized and floating. A snapped (tiled) window un-snaps, and a client
    /// that put itself fullscreen exits that instead, so the user is never
    /// stuck. Shared by the button and the top-edge snap zone.
    pub fn toggle_maximize(&mut self, window: u64, accepted: bool, now: Instant)
        requires
            old(self)@.wf(),
        ensures
            final(self)@ == old(self)@.over(old(self)@.layout.toggled(window, accepted, now)),
            final(self)@.wf(),
    {
        if let Some(found) = self.space.window(window) {
            if found.state.header_bar.fullscreen {
                self.unfullscreen_window(window, now);
            } else if found.state.is_snapped() {
                self.unsnap_window(window, now);
            } else if found.is_maximized() {
                self.unmaximize_window(window, now);
            } else {
                self.maximize_window(window, accepted, now);
            }
        }
    }

    /// Tile `window` into `target`'s zone. The top zone hands off to the
    /// titlebar maximize button's behaviour; every other zone configures the
    /// client to the zone and animates the frame into place, remembering the
    /// floating geometry so a later drag can restore it.
    pub fn apply_snap(&mut self, window: u64, target: SnapTarget, accepted: bool, now: Instant)
        requires
            old(self)@.wf(),
        ensures
            final(self)@ == old(self)@.over(
                old(self)@.layout.snapping(window, target, accepted, now),
            ),
            final(self)@.wf(),
    {
        let found = match (self.space.window(window), self.space.element_location(window)) {
            (Some(found), Some(_)) => found,
            _ => return,
        };
        if found.is_ghosting() {
            return;
        }
        if target.zone == SnapZone::Maximize {
            self.toggle_maximize(window, accepted, now);
            return;
        }
        // A fullscreen window covers the output; there is nothing to tile.
        if found.state.header_bar.fullscreen {
            return;
        }
        // Join the group already on this output: reuse its divider grid (which a
        // resize may have moved) so the new window lands in the existing layout
        // rather than a freshly centered one.
        let grid = match self.group_grid(target.output) {
            Some(grid) => grid,
            None => SnapGrid::centered(target.area),
        };
        // Tile to exactly the rectangle the preview showed, so the two never
        // disagree on odd work-area sizes.
        let rect = grid.rect(target.zone, target.area);
        let floating = match found.state.snap {
            Some(snap) => Some(snap.floating),
            None => relative_geometry_of_output(&self.space, target.output, window, now),
        };
        if let Some(floating) = floating {
            self.space.put(found.with_snap(Some(Snap { zone: target.zone, grid, floating })));
        }
        let animated = self.configure_snapped(window, rect, true);
        self.animate_window(window, animated, rect.loc, now);
    }
}

} // verus!
