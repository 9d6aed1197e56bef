//! What the operations do to the windows and outputs they are about, in terms of
//! where windows are, where they are headed, and what their clients are told.

use std::time::Instant;
use vstd::prelude::*;

use crate::animation::{WindowRect, WINDOW_ANIMATION_NANOS};
use crate::drag::MoveSurfaceGrab;
use crate::element::{SurfaceKind, WindowElement};
use crate::geometry::first_holding;
use crate::grabs::{ResizeData, ResizeState};
use crate::input::GrabStart;
use crate::laws::{lemma_ids_match, lemma_window_replaced, remembered_places_are_exact};
use crate::resize::ResizeGrabState;
use crate::snap::{SnapTarget, SnapZone};
use crate::space::{
    activated, lemma_output_index_bounds, lemma_window_index_bounds, lemma_without,
    mapping_moves_one_window, output_index, placed_index, window_index, Action, FullscreenSurface,
    Layout, Output, Placed,
};
use crate::ssd::{SSDDrag, WindowState, BORDER_WIDTH, HEADER_BAR_HEIGHT};
use crate::state::Desk;
use crate::utils::{abs, fits, max, trunc_ratio, FixedPoint, Point, Rectangle, Size, FIXED_ONE};
use crate::xdg::{drag_origin, undecorated};

verus! {

/// Whether a window that shows `content` has a frame of size `frame`.
pub open spec fn is_framed(content: Size, frame: Size, is_ssd: bool) -> bool {
    if is_ssd {
        &&& content.w + 2 * BORDER_WIDTH == frame.w
        &&& content.h + HEADER_BAR_HEIGHT + BORDER_WIDTH == frame.h
    } else {
        content == frame
    }
}

/// Whether a frame of this size has room for content.
pub open spec fn has_room(frame: Size, is_ssd: bool) -> bool {
    is_ssd ==> frame.w > 2 * BORDER_WIDTH && frame.h > HEADER_BAR_HEIGHT + BORDER_WIDTH
}

/// Whether the window `id` is at `loc` with `content`, or has just set out for it
/// from where it is.
pub open spec fn heads_for(layout: Layout, id: u64, loc: Point, content: Size, now: Instant) -> bool {
    match (layout.window(id), layout.location(id)) {
        (Some(window), Some(at)) => {
            let here = WindowRect { loc: at, content: window.content_size() };
            let there = WindowRect { loc, content };
            here == there || match window.state.animation {
                Some(animation) => {
                    &&& animation.start == here
                    &&& animation.end == there
                    &&& animation.start_time == now
                    &&& animation.duration == WINDOW_ANIMATION_NANOS
                    &&& !animation.content_pending
                },
                None => false,
            }
        },
        _ => false,
    }
}

/// Whether two layouts have the same windows in the same places on the same
/// outputs.
pub open spec fn same_places(a: Layout, b: Layout) -> bool {
    &&& a.elements == b.elements
    &&& a.outputs == b.outputs
    &&& a.overlaps == b.overlaps
}

pub proof fn lemma_first_holding(a: Layout, b: Layout, outputs: Seq<u64>, loc: Point, i: int)
    requires
        a.outputs == b.outputs,
    ensures
        first_holding(a, outputs, loc, i) == first_holding(b, outputs, loc, i),
    decreases outputs.len() - i,
{
    reveal(Layout::output);
    if 0 <= i < outputs.len() {
        lemma_first_holding(a, b, outputs, loc, i + 1);
    }
}

/// Where things are does not depend on what windows and clients are like.
pub proof fn lemma_same_places(a: Layout, b: Layout, id: u64)
    requires
        same_places(a, b),
    ensures
        a.location(id) == b.location(id),
        a.home(id) == b.home(id),
        a.home_area(id) == b.home_area(id),
        forall|output: u64| #[trigger] a.output(output) == b.output(output),
        forall|output: u64| #[trigger] a.work_area(output) == b.work_area(output),
{
    reveal(Layout::location);
    reveal(Layout::home);
    reveal(Layout::output);
    reveal(Layout::work_area);
    let outputs = a.outputs_for(id);
    match a.location(id) {
        Some(loc) => lemma_first_holding(a, b, outputs, loc, 0),
        None => {},
    }
}

pub proof fn lemma_configured(layout: Layout, window: WindowElement, send: bool, id: u64)
    ensures
        ({
            let after = layout.configuring(window, send);
            &&& same_places(layout, after)
            &&& after.window(id) == (if id == window.id && layout.window(id) is Some {
                Some(WindowElement { configured: window.configured || send, ..window })
            } else {
                layout.window(id)
            })
            &&& after.actions == layout.actions.push(
                Action::Configure { window: window.id, client: window.client, send },
            )
        }),
{
    reveal(Layout::configuring);
    reveal(Layout::acting);
    let told = WindowElement { configured: window.configured || send, ..window };
    lemma_window_replaced(layout, told, id);
    reveal(Layout::window);
}

pub proof fn lemma_acted(layout: Layout, action: Action, id: u64)
    ensures
        same_places(layout, layout.acting(action)),
        layout.acting(action).window(id) == layout.window(id),
        layout.acting(action).actions == layout.actions.push(action),
{
    reveal(Layout::acting);
    reveal(Layout::window);
}

/// Mapping a window moves that window alone, puts it on top, and changes nothing
/// of any window but whether it is active.
pub proof fn lemma_mapped(layout: Layout, id: u64, loc: Point, activate: bool, other: u64)
    requires
        layout.wf(),
    ensures
        ({
            let after = layout.mapped(id, loc, activate);
            &&& after.location(other) == (if other == id {
                Some(loc)
            } else {
                layout.location(other)
            })
            &&& after.elements.last() == (Placed { window: id, loc })
            &&& after.outputs == layout.outputs
            &&& after.overlaps == layout.overlaps
            &&& after.actions == layout.actions.push(
                Action::MapElement { window: id, loc, activate },
            )
            &&& (after.window(other) is Some) == (layout.window(other) is Some)
            &&& layout.window(other) is Some ==> {
                let (before, window) = (layout.window(other)->0, after.window(other)->0);
                &&& window == before.telling(
                    crate::element::ClientState {
                        activated: window.client.activated,
                        ..before.client
                    },
                )
                &&& !activate ==> window == before
                &&& activate && other == id && !before.ghosting() ==> window.client.activated
            }
        }),
{
    lemma_mapped_place(layout, id, loc, activate, other);
    lemma_mapped_window(layout, id, loc, activate, other);
}

pub proof fn lemma_mapped_place(layout: Layout, id: u64, loc: Point, activate: bool, other: u64)
    requires
        layout.wf(),
    ensures
        ({
            let after = layout.mapped(id, loc, activate);
            &&& after.location(other) == (if other == id {
                Some(loc)
            } else {
                layout.location(other)
            })
            &&& after.elements.last() == (Placed { window: id, loc })
            &&& after.outputs == layout.outputs
            &&& after.overlaps == layout.overlaps
            &&& after.actions == layout.actions.push(
                Action::MapElement { window: id, loc, activate },
            )
        }),
{
    reveal(Layout::wf);
    let aside: u64 = if id == 0 { 1 } else { 0 };
    mapping_moves_one_window(layout, id, loc, activate, if other == id { aside } else { other });
    assert(layout.mapped(id, loc, activate).outputs == layout.outputs) by {
        reveal(Layout::mapped);
    }
    assert(layout.mapped(id, loc, activate).overlaps == layout.overlaps) by {
        reveal(Layout::mapped);
    }
    assert(layout.mapped(id, loc, activate).actions == layout.actions.push(
        Action::MapElement { window: id, loc, activate },
    )) by {
        reveal(Layout::mapped);
    }
}

pub proof fn lemma_mapped_window(layout: Layout, id: u64, loc: Point, activate: bool, other: u64)
    ensures
        ({
            let after = layout.mapped(id, loc, activate);
            &&& (after.window(other) is Some) == (layout.window(other) is Some)
            &&& layout.window(other) is Some ==> {
                let (before, window) = (layout.window(other)->0, after.window(other)->0);
                &&& window == before.telling(
                    crate::element::ClientState {
                        activated: window.client.activated,
                        ..before.client
                    },
                )
                &&& !activate ==> window == before
                &&& activate && other == id && !before.ghosting() ==> window.client.activated
            }
        }),
{
    reveal(Layout::mapped);
    reveal(Layout::window);
    let after = layout.mapped(id, loc, activate);
    let below = layout.elements_without(id);
    assert(after.windows.len() == layout.windows.len());
    assert forall|k: int| 0 <= k < layout.windows.len() implies (#[trigger] layout.windows[k]).id
        == after.windows[k].id by {
        if activate {
            assert(after.windows[k] == activated(
                layout.windows[k],
                id,
                placed_index(below, layout.windows[k].id, 0) is Some,
            ));
        }
    }
    crate::laws::lemma_index_by_ids(layout.windows, after.windows, other, 0);
    lemma_window_index_bounds(layout.windows, other, 0);
    match window_index(layout.windows, other, 0) {
        Some(k) => {
            if activate {
                assert(after.windows[k] == activated(
                    layout.windows[k],
                    id,
                    placed_index(below, layout.windows[k].id, 0) is Some,
                ));
            }
        },
        None => {},
    }
}

pub proof fn lemma_glided(layout: Layout, id: u64, content: Size, loc: Point, now: Instant, other: u64)
    requires
        layout.window(id) is Some,
        layout.location(id) is Some,
    ensures
        ({
            let after = layout.gliding(id, content, loc, now);
            &&& same_places(layout, after)
            &&& after.actions == layout.actions
            &&& heads_for(after, id, loc, content, now)
            &&& after.window(id) is Some
            &&& ({
                let (before, window) = (layout.window(id)->0, after.window(id)->0);
                window == (WindowElement {
                    state: WindowState { animation: window.state.animation, ..before.state },
                    ..before
                })
            })
            &&& other != id ==> after.window(other) == layout.window(other)
        }),
{
    reveal(Layout::gliding);
    lemma_ids_match(layout);
    let window = layout.window(id)->0;
    let start = WindowRect { loc: layout.location(id)->0, content: window.content_size() };
    let end = WindowRect { loc, content };
    let animation = crate::animation::WindowAnimation::fresh(
        start,
        end,
        WINDOW_ANIMATION_NANOS,
        now,
    );
    lemma_window_replaced(layout, window.animated(animation), id);
    lemma_window_replaced(layout, window.animated(animation), other);
    reveal(Layout::location);
    assert(window.animated(animation).content_size() == window.content_size());
}

pub proof fn lemma_filled(layout: Layout, id: u64, rect: Rectangle, maximized: bool, other: u64)
    requires
        layout.window(id) is Some,
    ensures
        ({
            let before = layout.window(id)->0;
            let after = layout.filling(id, rect, maximized);
            let client = crate::element::ClientState {
                maximized,
                size: Some(undecorated(rect.size, before.state.is_ssd)),
                ..before.client
            };
            &&& same_places(layout, after)
            &&& after.window(id) == Some(
                if before.kind == SurfaceKind::Wayland {
                    before.telling(client)
                } else {
                    before
                },
            )
            &&& after.actions == layout.actions.push(
                if before.kind == SurfaceKind::Wayland {
                    Action::Configure { window: id, client, send: before.configured }
                } else {
                    Action::ConfigureX11 { window: id, rect }
                },
            )
            &&& other != id ==> after.window(other) == layout.window(other)
        }),
{
    reveal(Layout::filling);
    lemma_ids_match(layout);
    let before = layout.window(id)->0;
    let client = crate::element::ClientState {
        maximized,
        size: Some(undecorated(rect.size, before.state.is_ssd)),
        ..before.client
    };
    lemma_configured(layout, before.telling(client), before.configured, id);
    lemma_configured(layout, before.telling(client), before.configured, other);
    lemma_acted(layout, Action::ConfigureX11 { window: id, rect }, id);
    lemma_acted(layout, Action::ConfigureX11 { window: id, rect }, other);
}

/// A window that is tiled sets out for exactly the rectangle that the preview of
/// the same target shows, its frame filling it, and its client is told so. It
/// does not jump there, and no other window or output is touched.
pub proof fn tiled_windows_fill_the_preview(
    layout: Layout,
    output: Output,
    id: u64,
    target: SnapTarget,
    accepted: bool,
    now: Instant,
    later: Instant,
    other: u64,
)
    requires
        layout.window(id) is Some,
        layout.location(id) is Some,
        !layout.window(id)->0.ghosting(),
        !layout.window(id)->0.state.header_bar.fullscreen,
        target.zone != SnapZone::Maximize,
        target.output == output.id,
    ensures
        ({
            let found = layout.window(id)->0;
            let after = layout.snapping(id, target, accepted, now);
            let shown = layout.preview_ticked(output, Some(target), later).preview->0.rect->0;
            let window = after.window(id)->0;
            &&& layout.preview_ticked(output, Some(target), later).preview is Some
            &&& layout.preview_ticked(output, Some(target), later).preview->0.rect is Some
            &&& after.window(id) is Some
            &&& after.location(id) == layout.location(id)
            &&& found.kind == SurfaceKind::Wayland ==> {
                &&& window.client.maximized
                &&& window.client.size is Some
                &&& heads_for(after, id, shown.loc, window.client.size->0, now)
                &&& has_room(shown.size, found.state.is_ssd) ==> is_framed(
                    window.client.size->0,
                    shown.size,
                    found.state.is_ssd,
                )
                &&& after.actions == layout.actions.push(
                    Action::Configure { window: id, client: window.client, send: found.configured },
                )
            }
            &&& found.kind == SurfaceKind::X11 ==> {
                &&& heads_for(after, id, shown.loc, shown.size, now)
                &&& after.actions == layout.actions.push(
                    Action::ConfigureX11 { window: id, rect: shown },
                )
            }
            &&& found.state.snap is Some || layout.work_area(target.output) is Some ==> {
                &&& window.state.snap is Some
                &&& window.state.snap->0.zone == target.zone
                &&& window.state.snap->0.grid.cell(target.zone, target.area) == shown
            }
            &&& found.state.snap is Some ==> window.state.snap->0.floating
                == found.state.snap->0.floating
            &&& other != id ==> {
                &&& after.window(other) == layout.window(other)
                &&& after.location(other) == layout.location(other)
            }
            &&& after.outputs == layout.outputs
        }),
{
    lemma_ids_match(layout);
    reveal(Layout::relative_on);
    reveal(Layout::element_geometry);
    reveal(Layout::filled_size);
    let found = layout.window(id)->0;
    let grid = layout.joined_grid(target.output, target.area);
    let rect = layout.snap_rect(target);
    let tiled = match layout.floating_geometry(found, target.output, now) {
        Some(floating) => {
            let snap = crate::snap::Snap { zone: target.zone, grid, floating };
            lemma_window_replaced(layout, found.snapped(Some(snap)), id);
            lemma_window_replaced(layout, found.snapped(Some(snap)), other);
            layout.with_window(found.snapped(Some(snap)))
        },
        None => layout,
    };
    lemma_same_places(layout, tiled, id);
    lemma_same_places(layout, tiled, other);
    lemma_filled(tiled, id, rect, true, other);
    let filled = tiled.filling(id, rect, true);
    lemma_same_places(tiled, filled, id);
    lemma_same_places(tiled, filled, other);
    lemma_glided(filled, id, tiled.filled_size(id, rect), rect.loc, now, other);
    let after = filled.gliding(id, tiled.filled_size(id, rect), rect.loc, now);
    lemma_same_places(filled, after, id);
    lemma_same_places(filled, after, other);
}

/// The dividers that a tiled window gets are those of the group on its output,
/// and the middle of the work area where there is no group.
pub proof fn tiling_joins_the_group(
    layout: Layout,
    id: u64,
    target: SnapTarget,
    accepted: bool,
    now: Instant,
    member: int,
)
    requires
        layout.window(id) is Some,
        layout.location(id) is Some,
        !layout.window(id)->0.ghosting(),
        !layout.window(id)->0.state.header_bar.fullscreen,
        target.zone != SnapZone::Maximize,
        layout.work_area(target.output) is Some,
    ensures
        ({
            let grid = layout.snapping(id, target, accepted, now).window(id)->0.state.snap->0.grid;
            let windows = layout.elements_for(target.output);
            &&& 0 <= member < windows.len() && layout.window(windows[member]) is Some && (
            layout.window(windows[member])->0.state.snap is Some) && (forall|k: int|
                0 <= k < windows.len() && layout.window(#[trigger] windows[k]) is Some
                    && layout.window(windows[k])->0.state.snap is Some ==> layout.window(
                    windows[k],
                )->0.state.snap->0.grid == layout.window(windows[member])->0.state.snap->0.grid)
                ==> grid == layout.window(windows[member])->0.state.snap->0.grid
            &&& (forall|k: int|
                0 <= k < windows.len() && layout.window(#[trigger] windows[k]) is Some
                    ==> layout.window(windows[k])->0.state.snap is None) && target.area.edges_fit()
                && target.area.size.w >= 0 && target.area.size.h >= 0 ==> {
                &&& 0 <= target.area.size.w - 2 * (grid.x - target.area.loc.x) <= 1
                &&& 0 <= target.area.size.h - 2 * (grid.y - target.area.loc.y) <= 1
            }
        }),
{
    let output = Output {
        id: target.output,
        geometry: None,
        zone: target.area,
        preview: None,
        fullscreen: None,
    };
    tiled_windows_fill_the_preview(layout, output, id, target, accepted, now, now, id);
    lemma_ids_match(layout);
    reveal(Layout::relative_on);
    reveal(Layout::element_geometry);
    let found = layout.window(id)->0;
    let grid = layout.joined_grid(target.output, target.area);
    let floating = layout.floating_geometry(found, target.output, now)->0;
    let snap = crate::snap::Snap { zone: target.zone, grid, floating };
    let tiled = layout.with_window(found.snapped(Some(snap)));
    let rect = layout.snap_rect(target);
    lemma_window_replaced(layout, found.snapped(Some(snap)), id);
    lemma_same_places(layout, tiled, id);
    lemma_filled(tiled, id, rect, true, id);
    let filled = tiled.filling(id, rect, true);
    lemma_same_places(tiled, filled, id);
    lemma_glided(filled, id, tiled.filled_size(id, rect), rect.loc, now, id);
    let windows = layout.elements_for(target.output);
    if 0 <= member < windows.len() {
        lemma_first_grid(layout, windows, 0, member);
    }
    if forall|k: int|
        0 <= k < windows.len() && layout.window(#[trigger] windows[k]) is Some ==> layout.window(
            windows[k],
        )->0.state.snap is None {
        lemma_no_grid(layout, windows, 0);
    }
}

pub proof fn lemma_first_grid(layout: Layout, windows: Seq<u64>, i: int, member: int)
    requires
        0 <= i <= member < windows.len(),
    ensures
        layout.window(windows[member]) is Some && layout.window(windows[member])->0.state.snap is Some
            ==> {
            &&& crate::shell::first_grid(layout, windows, i) is Some
            &&& exists|k: int|
                0 <= k < windows.len() && layout.window(#[trigger] windows[k]) is Some
                    && layout.window(windows[k])->0.state.snap is Some && layout.window(
                    windows[k],
                )->0.state.snap->0.grid == crate::shell::first_grid(layout, windows, i)->0
        },
    decreases member - i,
{
    if i < member {
        lemma_first_grid(layout, windows, i + 1, member);
    }
    assert(layout.window(windows[i]) is Some || layout.window(windows[i]) is None);
}

pub proof fn lemma_no_grid(layout: Layout, windows: Seq<u64>, i: int)
    requires
        0 <= i <= windows.len(),
        forall|k: int|
            0 <= k < windows.len() && layout.window(#[trigger] windows[k]) is Some
                ==> layout.window(windows[k])->0.state.snap is None,
    ensures
        crate::shell::first_grid(layout, windows, i) is None,
    decreases windows.len() - i,
{
    if i < windows.len() {
        lemma_no_grid(layout, windows, i + 1);
    }
}

/// The content of a frame that was put around it.
pub proof fn lemma_unframed(content: Size, frame: Size, is_ssd: bool)
    requires
        is_framed(content, frame, is_ssd),
        content.w >= 1,
        content.h >= 1,
    ensures
        undecorated(frame, is_ssd) == content,
{
}

/// A floating window that is tiled and then un-snapped by its maximize button,
/// whatever happened to it in between, sets out for exactly the place and the
/// size it floated with, as long as it is on the same work area. It is raised
/// first, and its client is told that it floats again.
pub proof fn unsnapping_undoes_tiling(
    layout: Layout,
    id: u64,
    target: SnapTarget,
    accepted: bool,
    now: Instant,
    later: Layout,
    pressed: Instant,
    other: u64,
)
    requires
        layout.window(id) is Some,
        layout.location(id) is Some,
        !layout.window(id)->0.ghosting(),
        !layout.window(id)->0.state.header_bar.fullscreen,
        layout.window(id)->0.state.snap is None,
        target.zone != SnapZone::Maximize,
        layout.work_area(target.output) is Some,
        ({
            let area = layout.work_area(target.output)->0;
            let at = layout.location(id)->0;
            fits(at.x - area.loc.x) && fits(at.y - area.loc.y)
        }),
        later.wf(),
        later.window(id) is Some,
        later.location(id) is Some,
        later.window(id)->0.state.snap == layout.snapping(id, target, accepted, now).window(
            id,
        )->0.state.snap,
        later.window(id)->0.state.is_ssd == layout.window(id)->0.state.is_ssd,
        !later.window(id)->0.state.header_bar.fullscreen,
        later.home_area(id) == layout.work_area(target.output),
    ensures
        ({
            let found = layout.window(id)->0;
            let at = layout.location(id)->0;
            let frame = layout.element_geometry(id, now)->0.size;
            let back = later.toggled(id, accepted, pressed);
            let content = undecorated(frame, found.state.is_ssd);
            let window = back.window(id)->0;
            &&& heads_for(back, id, at, content, pressed)
            &&& forall|shown: Size|
                shown.w >= 1 && shown.h >= 1 && #[trigger] is_framed(
                    shown,
                    frame,
                    found.state.is_ssd,
                ) ==> shown == content
            &&& back.location(id) == later.location(id)
            &&& back.elements.last().window == id
            &&& window.state.snap is None
            &&& window.kind == SurfaceKind::Wayland && has_room(frame, found.state.is_ssd) ==> {
                &&& !window.client.maximized
                &&& window.client.size == Some(content)
            }
            &&& window.kind == SurfaceKind::X11 && has_room(frame, found.state.is_ssd)
                ==> back.actions.last() == (Action::ConfigureX11 {
                window: id,
                rect: Rectangle { loc: at, size: frame },
            })
            &&& other != id ==> back.location(other) == later.location(other)
            &&& back.outputs == later.outputs
        }),
{
    let output = Output {
        id: target.output,
        geometry: None,
        zone: target.area,
        preview: None,
        fullscreen: None,
    };
    lemma_ids_match(layout);
    lemma_ids_match(later);
    let found = layout.window(id)->0;
    let at = layout.location(id)->0;
    reveal(Layout::element_geometry);
    reveal(Layout::relative_on);
    let geo = layout.element_geometry(id, now)->0;
    let floating = layout.relative_on(target.output, id, now)->0;
    lemma_remembered_floating(layout, id, target, accepted, now);
    remembered_places_are_exact(layout, target.output, id, found.state.is_ssd, now);
    let area = layout.work_area(target.output)->0;
    reveal(Layout::absolute_on);
    let content = undecorated(geo.size, found.state.is_ssd);
    let tiled = later.window(id)->0;
    let freed = later.with_window(tiled.snapped(None));
    lemma_window_replaced(later, tiled.snapped(None), id);
    lemma_window_replaced(later, tiled.snapped(None), other);
    lemma_same_places(later, freed, id);
    lemma_same_places(later, freed, other);
    assert(freed.absolute(id, floating, tiled.state.is_ssd) == Some((at, content)));
    let current = later.location(id)->0;
    lemma_window_wf(later, id);
    lemma_put_wf(later, tiled.snapped(None));
    lemma_mapped(freed, id, current, true, id);
    lemma_mapped(freed, id, current, true, other);
    let raised = freed.mapped(id, current, true);
    let rect = Rectangle { loc: at, size: crate::xdg::decorated(content, tiled.state.is_ssd) };
    lemma_filled(raised, id, rect, false, other);
    let filled = raised.filling(id, rect, false);
    lemma_same_places(raised, filled, id);
    lemma_same_places(raised, filled, other);
    lemma_glided(filled, id, content, at, pressed, other);
    let back = filled.gliding(id, content, at, pressed);
    lemma_same_places(filled, back, id);
    lemma_same_places(filled, back, other);
    assert(back == later.toggled(id, accepted, pressed));
}

/// What a floating window remembers when it is tiled.
pub proof fn lemma_remembered_floating(
    layout: Layout,
    id: u64,
    target: SnapTarget,
    accepted: bool,
    now: Instant,
)
    requires
        layout.window(id) is Some,
        layout.location(id) is Some,
        !layout.window(id)->0.ghosting(),
        !layout.window(id)->0.state.header_bar.fullscreen,
        layout.window(id)->0.state.snap is None,
        target.zone != SnapZone::Maximize,
        layout.work_area(target.output) is Some,
    ensures
        ({
            let window = layout.snapping(id, target, accepted, now).window(id)->0;
            &&& window.state.snap is Some
            &&& window.state.snap->0.floating == layout.relative_on(target.output, id, now)->0
        }),
{
    lemma_ids_match(layout);
    reveal(Layout::relative_on);
    reveal(Layout::element_geometry);
    let found = layout.window(id)->0;
    let grid = layout.joined_grid(target.output, target.area);
    let floating = layout.floating_geometry(found, target.output, now)->0;
    let snap = crate::snap::Snap { zone: target.zone, grid, floating };
    let tiled = layout.with_window(found.snapped(Some(snap)));
    let rect = layout.snap_rect(target);
    lemma_window_replaced(layout, found.snapped(Some(snap)), id);
    lemma_same_places(layout, tiled, id);
    lemma_filled(tiled, id, rect, true, id);
    let filled = tiled.filling(id, rect, true);
    lemma_same_places(tiled, filled, id);
    lemma_glided(filled, id, tiled.filled_size(id, rect), rect.loc, now, id);
}

pub proof fn lemma_put_wf(layout: Layout, window: WindowElement)
    requires
        layout.wf(),
        window.wf(),
    ensures
        layout.with_window(window).wf(),
{
    reveal(Layout::wf);
    reveal(Layout::with_window);
    lemma_window_index_bounds(layout.windows, window.id, 0);
}

pub proof fn lemma_window_wf(layout: Layout, id: u64)
    requires
        layout.wf(),
    ensures
        layout.window(id) is Some ==> layout.window(id)->0.wf(),
{
    reveal(Layout::wf);
    reveal(Layout::window);
    lemma_window_index_bounds(layout.windows, id, 0);
}

pub proof fn lemma_output_found(layout: Layout, id: u64)
    ensures
        layout.output(id) is Some ==> layout.output(id)->0.id == id,
{
    reveal(Layout::output);
    lemma_output_index_bounds(layout.outputs, id, 0);
}

pub proof fn lemma_index_by_output_ids(a: Seq<Output>, b: Seq<Output>, id: u64, i: int)
    requires
        a.len() == b.len(),
        forall|k: int| 0 <= k < a.len() ==> (#[trigger] a[k]).id == b[k].id,
    ensures
        output_index(a, id, i) == output_index(b, id, i),
    decreases a.len() - i,
{
    if 0 <= i < a.len() && a[i].id != id {
        lemma_index_by_output_ids(a, b, id, i + 1);
    }
}

/// Replacing an output changes what is found under its id, and nothing else.
pub proof fn lemma_output_replaced(layout: Layout, output: Output, id: u64)
    ensures
        ({
            let after = layout.with_output(output);
            &&& after.output(id) == (if id == output.id && layout.output(id) is Some {
                Some(output)
            } else {
                layout.output(id)
            })
            &&& after.windows == layout.windows
            &&& after.elements == layout.elements
            &&& after.overlaps == layout.overlaps
            &&& after.actions == layout.actions
        }),
{
    reveal(Layout::output);
    reveal(Layout::with_output);
    lemma_output_index_bounds(layout.outputs, output.id, 0);
    lemma_output_index_bounds(layout.outputs, id, 0);
    match output_index(layout.outputs, output.id, 0) {
        Some(k) => {
            let after = layout.outputs.update(k, output);
            lemma_index_by_output_ids(layout.outputs, after, id, 0);
            if id != output.id {
                match output_index(layout.outputs, id, 0) {
                    Some(i) => assert(after[i] == layout.outputs[i]),
                    None => {},
                }
            }
        },
        None => {},
    }
}

pub proof fn lemma_same_windows(a: Layout, b: Layout, id: u64)
    requires
        a.windows == b.windows,
        a.elements == b.elements,
    ensures
        a.window(id) == b.window(id),
        a.location(id) == b.location(id),
{
    reveal(Layout::window);
    reveal(Layout::location);
}

pub proof fn lemma_covered(layout: Layout, output: u64, id: u64, other: u64)
    ensures
        ({
            let after = layout.covered(output, id);
            &&& after.windows == layout.windows
            &&& after.elements == layout.elements
            &&& after.overlaps == layout.overlaps
            &&& after.actions == layout.actions
            &&& other != output ==> after.output(other) == layout.output(other)
            &&& layout.output(output) is Some ==> after.output(output) == Some(
                Output {
                    fullscreen: Some(FullscreenSurface { window: Some(id) }),
                    ..layout.output(output)->0
                },
            )
        }),
{
    reveal(Layout::covered);
    lemma_output_found(layout, output);
    match layout.output(output) {
        Some(found) => {
            let covered = Output { fullscreen: Some(FullscreenSurface { window: Some(id) }), ..found };
            lemma_output_replaced(layout, covered, other);
            lemma_output_replaced(layout, covered, output);
        },
        None => {},
    }
}

pub proof fn lemma_cleared(layout: Layout, output: u64, other: u64)
    ensures
        ({
            let after = layout.cleared(Some(output));
            &&& after.windows == layout.windows
            &&& after.elements == layout.elements
            &&& after.overlaps == layout.overlaps
            &&& other != output ==> after.output(other) == layout.output(other)
            &&& layout.output(output) is Some && layout.output(output)->0.fullscreen is Some
                ==> after.output(output) == Some(
                Output {
                    fullscreen: Some(FullscreenSurface { window: None }),
                    ..layout.output(output)->0
                },
            )
        }),
{
    reveal(Layout::cleared);
    reveal(Layout::acting);
    lemma_output_found(layout, output);
    match layout.output(output) {
        Some(found) => {
            let clear = Output { fullscreen: Some(FullscreenSurface { window: None }), ..found };
            lemma_output_replaced(layout, clear, other);
            lemma_output_replaced(layout, clear, output);
            let after = layout.with_output(clear).acting(Action::ResetBuffers { output });
            lemma_same_outputs(layout.with_output(clear), after, other);
            lemma_same_outputs(layout.with_output(clear), after, output);
        },
        None => {},
    }
}

pub proof fn lemma_same_outputs(a: Layout, b: Layout, id: u64)
    requires
        a.outputs == b.outputs,
    ensures
        a.output(id) == b.output(id),
        a.work_area(id) == b.work_area(id),
{
    reveal(Layout::output);
    reveal(Layout::work_area);
}

pub proof fn lemma_answered(layout: Layout, id: u64, other: u64)
    ensures
        ({
            let after = layout.answering(id);
            &&& same_places(layout, after)
            &&& after.window(other) == layout.window(other)
            &&& layout.window(id) is Some ==> after.actions == layout.actions.push(
                Action::Configure {
                    window: id,
                    client: layout.window(id)->0.client,
                    send: layout.window(id)->0.configured,
                },
            )
        }),
{
    reveal(Layout::answering);
    lemma_ids_match(layout);
    match layout.window(id) {
        Some(window) => lemma_configured(layout, window, window.configured, other),
        None => {},
    }
}

/// A window that asks to be fullscreen on a particular output covers that output
/// and no other, and its client is told the whole size of that output, less the
/// titlebar if it has one. Nothing moves, and no other window is touched.
pub proof fn fullscreen_windows_cover_the_requested_output(
    layout: Layout,
    id: u64,
    requested: u64,
    bound: Seq<u64>,
    now: Instant,
    other_output: u64,
    other: u64,
)
    requires
        layout.window(id) is Some,
        layout.location(id) is Some,
        layout.window(id)->0.client_alive,
        layout.output_geometry(requested) is Some,
    ensures
        ({
            let after = layout.fullscreening(id, Some(requested), bound, now);
            covers(layout, after, id, requested, other_output, other) && after.window(
                id,
            )->0.client.fullscreen_output == Some(requested)
        }),
{
    lemma_fullscreened(layout, id, Some(requested), bound, now, requested, other_output, other);
    reveal(crate::requests::named_output);
}

/// Without a request for a particular output, a window covers the one it is on.
pub proof fn fullscreen_windows_cover_their_own_output(
    layout: Layout,
    id: u64,
    bound: Seq<u64>,
    now: Instant,
    other_output: u64,
    other: u64,
)
    requires
        layout.window(id) is Some,
        layout.location(id) is Some,
        layout.window(id)->0.client_alive,
        layout.home(id) is Some,
        layout.output_geometry(layout.home(id)->0) is Some,
    ensures
        covers(
            layout,
            layout.fullscreening(id, None, bound, now),
            id,
            layout.home(id)->0,
            other_output,
            other,
        ),
        bound.contains(layout.home(id)->0) ==> layout.fullscreening(id, None, bound, now).window(
            id,
        )->0.client.fullscreen_output == layout.home(id),
{
    lemma_fullscreened(layout, id, None, bound, now, layout.home(id)->0, other_output, other);
    reveal(crate::requests::named_output);
}

/// The output that a window is on: one that it reaches onto and that holds its
/// corner, if there is one; else the first that it reaches onto; else the first.
pub proof fn windows_belong_to_the_output_of_their_corner(layout: Layout, id: u64, k: int)
    requires
        layout.location(id) is Some,
    ensures
        ({
            let reached = layout.outputs_for(id);
            let at = layout.location(id)->0;
            &&& 0 <= k < reached.len() && layout.output_geometry(reached[k]) is Some
                && layout.output_geometry(reached[k])->0.has(at) ==> {
                &&& layout.home(id) is Some
                &&& reached.contains(layout.home(id)->0)
                &&& layout.output_geometry(layout.home(id)->0) is Some
                &&& layout.output_geometry(layout.home(id)->0)->0.has(at)
            }
            &&& reached.len() > 0 ==> layout.home(id) is Some && reached.contains(layout.home(id)->0)
            &&& reached.len() == 0 && layout.outputs.len() > 0 ==> layout.home(id) == Some(
                layout.outputs[0].id,
            )
        }),
{
    reveal(Layout::home);
    let reached = layout.outputs_for(id);
    let at = layout.location(id)->0;
    lemma_holding(layout, reached, at, 0, k);
    if reached.len() > 0 {
        assert(reached.contains(reached[0]));
    }
}

pub proof fn lemma_holding(layout: Layout, outputs: Seq<u64>, loc: Point, i: int, k: int)
    requires
        0 <= i <= outputs.len(),
    ensures
        ({
            let held = first_holding(layout, outputs, loc, i);
            &&& held is Some ==> {
                &&& outputs.contains(held->0)
                &&& layout.output_geometry(held->0) is Some
                &&& layout.output_geometry(held->0)->0.has(loc)
            }
            &&& i <= k < outputs.len() && layout.output_geometry(outputs[k]) is Some
                && layout.output_geometry(outputs[k])->0.has(loc) ==> held is Some
        }),
    decreases outputs.len() - i,
{
    if i < outputs.len() {
        lemma_holding(layout, outputs, loc, i + 1, k);
        assert(outputs.contains(outputs[i]));
    }
}

/// Whether `after` is `layout` with the window `id` covering `output`, as far as
/// `output`, `other_output`, the window and the window `other` are concerned.
pub open spec fn covers(
    layout: Layout,
    after: Layout,
    id: u64,
    output: u64,
    other_output: u64,
    other: u64,
) -> bool {
    let found = layout.window(id)->0;
    let window = after.window(id)->0;
    let geo = layout.output_geometry(output)->0;
    let bar = if found.state.is_ssd {
        HEADER_BAR_HEIGHT as int
    } else {
        0
    };
    &&& after.output(output) == Some(
        Output {
            fullscreen: Some(FullscreenSurface { window: Some(id) }),
            ..layout.output(output)->0
        },
    )
    &&& other_output != output ==> after.output(other_output) == layout.output(other_output)
    &&& after.window(id) is Some
    &&& window.client.fullscreen
    &&& window.state.header_bar.fullscreen
    &&& window.state.snap is None
    &&& window.client.size is Some
    &&& window.client.size->0.w == geo.size.w
    &&& geo.size.h >= bar ==> window.client.size->0.h == geo.size.h - bar
    &&& after.actions == layout.actions.push(
        Action::Configure { window: id, client: window.client, send: found.configured },
    )
    &&& after.elements == layout.elements
    &&& other != id ==> after.window(other) == layout.window(other)
}

pub proof fn lemma_fullscreened(
    layout: Layout,
    id: u64,
    requested: Option<u64>,
    bound: Seq<u64>,
    now: Instant,
    output: u64,
    other_output: u64,
    other: u64,
)
    requires
        layout.window(id) is Some,
        layout.location(id) is Some,
        layout.window(id)->0.client_alive,
        requested is Some ==> requested == Some(output),
        requested is None ==> layout.home(id) == Some(output),
        layout.output_geometry(output) is Some,
    ensures
        ({
            let after = layout.fullscreening(id, requested, bound, now);
            let window = after.window(id)->0;
            let found = layout.window(id)->0;
            &&& covers(layout, after, id, output, other_output, other)
            &&& window.client.fullscreen_output == crate::requests::named_output(
                output,
                requested,
                bound,
            )
            &&& window.state.fullscreen_restore == (if found.state.fullscreen_restore is None {
                layout.fullscreen_memory(id, output, now)
            } else {
                found.state.fullscreen_restore
            })
            &&& window.kind == found.kind
        }),
{
    lemma_ids_match(layout);
    let found = layout.window(id)->0;
    let window = found.snapped(None);
    let freed = layout.with_window(window);
    lemma_window_replaced(layout, window, id);
    lemma_window_replaced(layout, window, other);
    lemma_same_places(layout, freed, id);
    let geo = freed.output_geometry(output)->0;
    let named = crate::requests::named_output(output, requested, bound);
    let memory = freed.fullscreen_memory(id, output, now);
    assert(memory == layout.fullscreen_memory(id, output, now)) by {
        reveal(Layout::relative_on);
        reveal(Layout::element_geometry);
        assert(window.geometry_at(now) == found.geometry_at(now));
    }
    let told = window.told_to_cover(geo.size, memory, named);
    let telling = freed.with_window(told);
    lemma_window_replaced(freed, told, id);
    lemma_window_replaced(freed, told, other);
    lemma_same_places(freed, telling, id);
    let covering = telling.covered(output, id);
    lemma_covered(telling, output, id, other_output);
    lemma_covered(telling, output, id, output);
    lemma_same_windows(telling, covering, id);
    lemma_same_windows(telling, covering, other);
    lemma_answered(covering, id, id);
    lemma_answered(covering, id, other);
    let after = covering.answering(id);
    lemma_same_outputs(covering, after, output);
    lemma_same_outputs(covering, after, other_output);
    assert(after == layout.fullscreening(id, requested, bound, now));
}

/// A window that was made to cover an output and leaves it again by its maximize
/// button, whatever happened to it in between, is back exactly where it was, its
/// client is told the size it had, and the output shows its space again.
pub proof fn leaving_fullscreen_undoes_it(
    layout: Layout,
    id: u64,
    requested: u64,
    bound: Seq<u64>,
    now: Instant,
    later: Layout,
    accepted: bool,
    pressed: Instant,
    other_output: u64,
    other: u64,
)
    requires
        layout.window(id) is Some,
        layout.location(id) is Some,
        layout.window(id)->0.client_alive,
        layout.window(id)->0.kind == SurfaceKind::Wayland,
        layout.window(id)->0.state.fullscreen_restore is None,
        layout.output_geometry(requested) is Some,
        layout.work_area(requested) is Some,
        ({
            let area = layout.work_area(requested)->0;
            let at = layout.location(id)->0;
            let frame = layout.element_geometry(id, now)->0.size;
            &&& fits(at.x - area.loc.x) && fits(at.y - area.loc.y)
            &&& frame.w > 0 && frame.h > 0
        }),
        later.wf(),
        later.window(id) is Some,
        later.location(id) is Some,
        ({
            let covering = layout.fullscreening(id, Some(requested), bound, now).window(id)->0;
            let window = later.window(id)->0;
            &&& window.kind == covering.kind
            &&& window.state.is_ssd == covering.state.is_ssd
            &&& window.state.fullscreen_restore == covering.state.fullscreen_restore
            &&& window.state.header_bar.fullscreen == covering.state.header_bar.fullscreen
            &&& window.client.fullscreen_output == covering.client.fullscreen_output
        }),
        later.output(requested) is Some,
        later.output(requested)->0.fullscreen is Some,
        later.work_area(requested) == layout.work_area(requested),
    ensures
        ({
            let back = later.toggled(id, accepted, pressed);
            let window = back.window(id)->0;
            let frame = layout.element_geometry(id, now)->0.size;
            &&& back.location(id) == layout.location(id)
            &&& back.window(id) is Some
            &&& !window.state.header_bar.fullscreen
            &&& window.state.fullscreen_restore is None
            &&& !window.client.fullscreen
            &&& window.client.fullscreen_output is None
            &&& window.client.size == Some(undecorated(frame, window.state.is_ssd))
            &&& back.actions.last() == (Action::Configure {
                window: id,
                client: window.client,
                send: window.configured,
            })
            &&& back.output(requested) is Some
            &&& back.output(requested)->0.fullscreen == Some(FullscreenSurface { window: None })
            &&& other_output != requested ==> back.output(other_output) == later.output(
                other_output,
            )
            &&& other != id ==> back.location(other) == later.location(other) && back.window(other)
                == later.window(other)
        }),
{
    let found = layout.window(id)->0;
    lemma_fullscreened(
        layout,
        id,
        Some(requested),
        bound,
        now,
        requested,
        other_output,
        other,
    );
    reveal(crate::requests::named_output);
    lemma_ids_match(layout);
    lemma_ids_match(later);
    let is_ssd = found.state.is_ssd;
    assert(layout.fullscreening(id, Some(requested), bound, now).window(id)->0.state.is_ssd
        == is_ssd) by {
        lemma_still_decorated(layout, id, Some(requested), bound, now);
    }
    reveal(Layout::element_geometry);
    remembered_places_are_exact(layout, requested, id, is_ssd, now);
    let at = layout.location(id)->0;
    let frame = layout.element_geometry(id, now)->0.size;
    let rel = layout.relative_on(requested, id, now)->0;
    assert(rel.has_size()) by {
        reveal(Layout::relative_on);
    }
    reveal(Layout::absolute_on);
    let window = later.window(id)->0;
    let content = undecorated(frame, is_ssd);
    assert(later.uncovered_geometry(window) == Some((at, content))) by {
        reveal(Layout::uncovered_geometry);
    }
    lemma_window_wf(later, id);
    let told = window.told_to_uncover(true, Some(content));
    assert(told.wf());
    let telling = later.with_window(told);
    lemma_window_replaced(later, told, id);
    lemma_window_replaced(later, told, other);
    lemma_same_places(later, telling, other);
    lemma_put_wf(later, told);
    lemma_mapped(telling, id, at, false, id);
    lemma_mapped(telling, id, at, false, other);
    let placed = telling.mapped(id, at, false);
    lemma_same_outputs(later, placed, requested);
    lemma_same_outputs(later, placed, other_output);
    let clear = placed.cleared(Some(requested));
    lemma_cleared(placed, requested, other_output);
    lemma_cleared(placed, requested, requested);
    lemma_same_windows(placed, clear, id);
    lemma_same_windows(placed, clear, other);
    lemma_answered(clear, id, id);
    lemma_answered(clear, id, other);
    let back = clear.answering(id);
    lemma_same_outputs(clear, back, requested);
    lemma_same_outputs(clear, back, other_output);
    lemma_same_places(clear, back, id);
    lemma_same_places(clear, back, other);
    assert(back == later.toggled(id, accepted, pressed));
}

pub proof fn lemma_still_decorated(
    layout: Layout,
    id: u64,
    requested: Option<u64>,
    bound: Seq<u64>,
    now: Instant,
)
    requires
        layout.window(id) is Some,
    ensures
        layout.fullscreening(id, requested, bound, now).window(id) is Some,
        layout.fullscreening(id, requested, bound, now).window(id)->0.state.is_ssd == layout.window(
            id,
        )->0.state.is_ssd,
{
    lemma_ids_match(layout);
    match (layout.window(id), layout.location(id)) {
        (Some(found), Some(_)) => {
            let window = found.snapped(None);
            let freed = layout.with_window(window);
            lemma_window_replaced(layout, window, id);
            match freed.covered_output(id, requested) {
                Some(output) => match freed.output_geometry(output) {
                    Some(geo) => {
                        let told = window.told_to_cover(
                            geo.size,
                            freed.fullscreen_memory(id, output, now),
                            crate::requests::named_output(output, requested, bound),
                        );
                        lemma_window_replaced(freed, told, id);
                        let telling = freed.with_window(told);
                        lemma_covered(telling, output, id, output);
                        lemma_same_windows(telling, telling.covered(output, id), id);
                        lemma_answered(telling.covered(output, id), id, id);
                    },
                    None => {},
                },
                None => {},
            }
        },
        _ => {},
    }
}

pub proof fn lemma_advanced(layout: Layout, id: u64, other: u64)
    ensures
        ({
            let after = layout.advancing(id);
            &&& same_places(layout, after)
            &&& other != id ==> after.window(other) == layout.window(other)
            &&& (after.window(id) is Some) == (layout.window(id) is Some)
            &&& layout.window(id) is Some ==> {
                let (before, window) = (layout.window(id)->0, after.window(id)->0);
                &&& window.state == before.state
                &&& window.kind == before.kind
                &&& window.content_size() == before.content_size()
            }
        }),
{
    lemma_ids_match(layout);
    match layout.window(id) {
        Some(window) if window.surfaced() => {
            let settled = window.settled();
            lemma_window_replaced(layout, settled, id);
            lemma_window_replaced(layout, settled, other);
            assert(settled.content_size() == window.content_size());
            match window.resize_state().next_size(window.acked) {
                Some(size) => {
                    let client = window.resized_client(size, true);
                    lemma_window_replaced(layout, settled.telling(client), id);
                    lemma_window_replaced(layout, settled.telling(client), other);
                    assert(settled.telling(client).content_size() == window.content_size());
                    let asked = layout.with_window(settled.telling(client));
                    let action = Action::ResizeConfigure { window: id, client, size };
                    lemma_acted(asked, action, id);
                    lemma_acted(asked, action, other);
                    match layout.location(id) {
                        Some(current) => {
                            let action = Action::ResizeX11 {
                                window: id,
                                rect: settled.anchored_rect(size, current),
                            };
                            lemma_acted(layout.with_window(settled), action, id);
                            lemma_acted(layout.with_window(settled), action, other);
                        },
                        None => {},
                    }
                },
                None => {},
            }
        },
        _ => {},
    }
}

pub proof fn lemma_landed(layout: Layout, id: u64, other: u64)
    ensures
        same_places(layout, layout.landed(id)),
        layout.landed(id).actions == layout.actions,
        other != id ==> layout.landed(id).window(other) == layout.window(other),
        (layout.landed(id).window(id) is Some) == (layout.window(id) is Some),
        layout.window(id) is Some ==> layout.landed(id).window(id) == Some(
            layout.window(id)->0.with_resize(layout.window(id)->0.resize_state().landed()),
        ),
{
    lemma_ids_match(layout);
    match layout.window(id) {
        Some(window) => {
            let landed = window.with_resize(window.resize_state().landed());
            lemma_window_replaced(layout, landed, id);
            lemma_window_replaced(layout, landed, other);
        },
        None => {},
    }
}

/// Whether the window is in the resize `data`: its edges are held, or it was let
/// go and its client has not caught up.
pub open spec fn is_resized_by(window: WindowElement, data: ResizeData) -> bool {
    window.has_resize_data && match window.resize {
        ResizeState::NotResizing => false,
        ResizeState::Resizing(resize) => resize == data,
        ResizeState::WaitingForFinalAck(resize, _) => resize == data,
        ResizeState::WaitingForCommit(resize) => resize == data,
    }
}

/// The size of the buffer that a window's client has committed.
pub open spec fn buffer_size(window: WindowElement) -> Size {
    if window.state.is_ssd {
        window.client_bbox.size
    } else {
        window.client_geometry.size
    }
}

/// When a client commits a buffer during a resize, the edge opposite a dragged
/// one stays where it was when the resize began: on each axis by itself, and for
/// whatever size the client chose. An axis whose near edge is not dragged keeps
/// its coordinate. Without a resize the window stays where it is, and no other
/// window ever moves.
pub proof fn commits_keep_the_far_edge(
    layout: Layout,
    id: u64,
    now: Instant,
    data: ResizeData,
    other: u64,
)
    requires
        layout.wf(),
        layout.window(id) is Some,
        layout.location(id) is Some,
        !layout.window(id)->0.ghosting(),
        layout.window(id)->0.surface is Some,
    ensures
        ({
            let window = layout.window(id)->0;
            let size = buffer_size(window);
            let after = layout.committed(id, now);
            let (from, to) = (layout.location(id)->0, after.location(id)->0);
            let (start, initial) = (data.initial_window_location, data.initial_window_size);
            &&& after.location(id) is Some
            &&& after.window(id) is Some
            &&& is_resized_by(window, data) ==> {
                &&& data.edges.left && fits(initial.w - size.w) && fits(
                    start.x + initial.w - size.w,
                ) ==> to.x + size.w == start.x + initial.w
                &&& data.edges.top && fits(initial.h - size.h) && fits(
                    start.y + initial.h - size.h,
                ) ==> to.y + size.h == start.y + initial.h
                &&& !data.edges.left ==> to.x == from.x
                &&& !data.edges.top ==> to.y == from.y
                &&& window.kind == SurfaceKind::Wayland ==> after.window(id)->0.content_size()
                    == size
            }
            &&& !window.has_resize_data || window.resize is NotResizing ==> to == from
            &&& other != id ==> {
                &&& after.location(other) == layout.location(other)
                &&& after.window(other) == layout.window(other)
            }
            &&& after.outputs == layout.outputs
        }),
{
    lemma_commit_moves(layout, id, now, other);
    let window = layout.window(id)->0;
    if is_resized_by(window, data) && window.kind == SurfaceKind::Wayland {
        lemma_commit_shows(layout, id, now);
    }
}

/// The layout with the buffer of the window `id` shown and the window where the
/// resize has it.
spec fn shown_in_place(layout: Layout, id: u64, now: Instant) -> Layout {
    let window = layout.window(id)->0;
    let loc = layout.location(id)->0;
    let size = window.committed_size();
    let shown = window.with_resize(window.resize_state().showing(size)).sized(size, now);
    let kept = layout.with_window(shown);
    match window.resize_state().active() {
        Some(resize) if resize.edges.left || resize.edges.top => kept.mapped(
            id,
            crate::grabs::anchored(
                resize.edges,
                resize.initial_window_location,
                resize.initial_window_size,
                size,
                loc,
            ),
            false,
        ),
        _ => kept,
    }
}

proof fn lemma_shown_in_place(layout: Layout, id: u64, now: Instant, other: u64)
    requires
        layout.wf(),
        layout.window(id) is Some,
        layout.location(id) is Some,
        layout.window(id)->0.surfaced(),
    ensures
        ({
            let window = layout.window(id)->0;
            let size = window.committed_size();
            let shown = window.with_resize(window.resize_state().showing(size)).sized(size, now);
            let moved = shown_in_place(layout, id, now);
            &&& moved.window(id) == Some(shown)
            &&& moved.location(id) == Some(
                match window.resize_state().active() {
                    Some(resize) => crate::grabs::anchored(
                        resize.edges,
                        resize.initial_window_location,
                        resize.initial_window_size,
                        size,
                        layout.location(id)->0,
                    ),
                    None => layout.location(id)->0,
                },
            )
            &&& moved.outputs == layout.outputs
            &&& other != id ==> {
                &&& moved.location(other) == layout.location(other)
                &&& moved.window(other) == layout.window(other)
            }
            &&& layout.committed(id, now) == moved.advancing(id).landed(id)
        }),
{
    lemma_ids_match(layout);
    let window = layout.window(id)->0;
    let loc = layout.location(id)->0;
    let size = window.committed_size();
    let shown = window.with_resize(window.resize_state().showing(size)).sized(size, now);
    let kept = layout.with_window(shown);
    lemma_window_replaced(layout, shown, id);
    lemma_window_replaced(layout, shown, other);
    lemma_same_places(layout, kept, id);
    lemma_same_places(layout, kept, other);
    lemma_window_wf(layout, id);
    lemma_put_wf(layout, shown);
    match window.resize_state().active() {
        Some(resize) if resize.edges.left || resize.edges.top => {
            let to = crate::grabs::anchored(
                resize.edges,
                resize.initial_window_location,
                resize.initial_window_size,
                size,
                loc,
            );
            lemma_mapped(kept, id, to, false, id);
            lemma_mapped(kept, id, to, false, other);
        },
        _ => {},
    };
}

pub proof fn lemma_commit_moves(layout: Layout, id: u64, now: Instant, other: u64)
    requires
        layout.wf(),
        layout.window(id) is Some,
        layout.location(id) is Some,
        layout.window(id)->0.surfaced(),
    ensures
        ({
            let window = layout.window(id)->0;
            let after = layout.committed(id, now);
            &&& after.window(id) is Some
            &&& after.location(id) == Some(
                match window.resize_state().active() {
                    Some(resize) => crate::grabs::anchored(
                        resize.edges,
                        resize.initial_window_location,
                        resize.initial_window_size,
                        window.committed_size(),
                        layout.location(id)->0,
                    ),
                    None => layout.location(id)->0,
                },
            )
            &&& after.outputs == layout.outputs
            &&& other != id ==> {
                &&& after.location(other) == layout.location(other)
                &&& after.window(other) == layout.window(other)
            }
        }),
{
    lemma_shown_in_place(layout, id, now, other);
    let moved = shown_in_place(layout, id, now);
    lemma_advanced(moved, id, other);
    let advanced = moved.advancing(id);
    lemma_same_places(moved, advanced, id);
    lemma_same_places(moved, advanced, other);
    lemma_landed(advanced, id, other);
    let after = advanced.landed(id);
    lemma_same_places(advanced, after, id);
    lemma_same_places(advanced, after, other);
}

pub proof fn lemma_commit_shows(layout: Layout, id: u64, now: Instant)
    requires
        layout.wf(),
        layout.window(id) is Some,
        layout.location(id) is Some,
        layout.window(id)->0.surfaced(),
        layout.window(id)->0.has_resize_data,
        layout.window(id)->0.kind == SurfaceKind::Wayland,
        layout.window(id)->0.resize_state().active() is Some,
    ensures
        layout.committed(id, now).window(id)->0.content_size() == layout.window(
            id,
        )->0.committed_size(),
{
    lemma_ids_match(layout);
    lemma_shown_in_place(layout, id, now, id);
    let window = layout.window(id)->0;
    let size = window.committed_size();
    let shown = window.with_resize(window.resize_state().showing(size)).sized(size, now);
    lemma_shown_size(layout, shown_in_place(layout, id, now), id, shown, size);
}

/// What a window in a resize shows after its commit has landed.
pub proof fn lemma_shown_size(
    layout: Layout,
    moved: Layout,
    id: u64,
    shown: WindowElement,
    size: Size,
)
    requires
        moved.window(id) == Some(shown),
        shown.id == id,
        shown.surfaced(),
        shown.kind == SurfaceKind::Wayland,
        shown.has_resize_data,
        shown.committed_size() == size,
        shown.resize_state().active() is Some,
        shown.resize_state().active()->0.committed_size == size,
    ensures
        moved.advancing(id).landed(id).window(id) is Some,
        moved.advancing(id).landed(id).window(id)->0.content_size() == size,
{
    let settled = shown.settled();
    lemma_window_replaced(moved, settled, id);
    let advanced = moved.advancing(id);
    assert(advanced.window(id) is Some && ({
        let window = advanced.window(id)->0;
        &&& window == (WindowElement { client: window.client, ..settled })
    })) by {
        match shown.resize_state().next_size(shown.acked) {
            Some(next) => {
                let client = shown.resized_client(next, true);
                lemma_window_replaced(moved, settled.telling(client), id);
                lemma_acted(
                    moved.with_window(settled.telling(client)),
                    Action::ResizeConfigure { window: id, client, size: next },
                    id,
                );
            },
            None => {},
        }
    }
    lemma_landed(advanced, id, id);
}

/// A length that no limit is in the way of.
pub open spec fn is_free(length: int, least: int, most: int) -> bool {
    &&& 1 <= length <= i32::MAX
    &&& least <= length
    &&& most == 0 || length <= most
}

/// The edges that are dragged follow the pointer: by as many pixels as it has
/// moved since the resize began, the right edge makes the window wider, the left
/// edge narrower, and the other axis keeps its size. Once the client has
/// committed that size, the dragged edge is where the pointer took it.
pub proof fn dragged_edges_follow_the_pointer(
    grab: ResizeGrabState,
    window: WindowElement,
    by: Point,
)
    requires
        grab.pointer == grab.start_location.moved(by),
        i64::MIN <= grab.start_location.x + by.x * FIXED_ONE <= i64::MAX,
        i64::MIN <= grab.start_location.y + by.y * FIXED_ONE <= i64::MAX,
        window.surfaced(),
    ensures
        ({
            let (least, most) = (window.min_size, window.max_size);
            let initial = grab.initial_window_size;
            let size = grab.intended_size(window);
            let at = crate::grabs::anchored(
                grab.edges,
                grab.initial_window_location,
                initial,
                size,
                grab.initial_window_location,
            );
            &&& grab.edges.right && !grab.edges.left && is_free(
                initial.w + by.x,
                least.w as int,
                most.w as int,
            ) ==> size.w == initial.w + by.x && at.x == grab.initial_window_location.x
            &&& grab.edges.left && is_free(initial.w - by.x, least.w as int, most.w as int)
                && fits(grab.initial_window_location.x + by.x) ==> {
                &&& size.w == initial.w - by.x
                &&& at.x == grab.initial_window_location.x + by.x
            }
            &&& !grab.edges.left && !grab.edges.right && is_free(
                initial.w as int,
                least.w as int,
                most.w as int,
            ) ==> size.w == initial.w
            &&& grab.edges.bottom && !grab.edges.top && is_free(
                initial.h + by.y,
                least.h as int,
                most.h as int,
            ) ==> size.h == initial.h + by.y && at.y == grab.initial_window_location.y
            &&& grab.edges.top && is_free(initial.h - by.y, least.h as int, most.h as int)
                && fits(grab.initial_window_location.y + by.y) ==> {
                &&& size.h == initial.h - by.y
                &&& at.y == grab.initial_window_location.y + by.y
            }
            &&& !grab.edges.top && !grab.edges.bottom && is_free(
                initial.h as int,
                least.h as int,
                most.h as int,
            ) ==> size.h == initial.h
        }),
{
    reveal(ResizeGrabState::intended_size);
    let one = FIXED_ONE as int;
    let initial = grab.initial_window_size;
    assert(grab.pointer.x - grab.start_location.x == by.x * one);
    assert(grab.pointer.y - grab.start_location.y == by.y * one);
    lemma_whole_pixels(initial.w as int, by.x as int);
    lemma_whole_pixels(initial.h as int, by.y as int);
}

pub proof fn lemma_whole_pixels(initial: int, by: int)
    ensures
        trunc_ratio(initial * FIXED_ONE - by * FIXED_ONE, FIXED_ONE as int) == initial - by,
        trunc_ratio(initial * FIXED_ONE + by * FIXED_ONE, FIXED_ONE as int) == initial + by,
{
}

/// While the edges of a floating window are dragged, its client is asked for the
/// size the pointer took it to, unless it has an answer to give first. The window
/// does not move before it has answered, and nothing else is touched.
pub proof fn resizing_asks_for_the_dragged_size(layout: Layout, grab: ResizeGrabState, other: u64)
    requires
        layout.window(grab.window) is Some,
        layout.window(grab.window)->0.kind == SurfaceKind::Wayland,
        layout.window(grab.window)->0.surfaced(),
        layout.window(grab.window)->0.has_resize_data,
        layout.window(grab.window)->0.resize is Resizing,
        grab.snap_area is None,
    ensures
        ({
            let id = grab.window;
            let before = layout.window(id)->0;
            let size = grab.intended_size(before);
            let data = before.resize->Resizing_0;
            let after = layout.resizing(grab, before);
            let window = after.window(id)->0;
            &&& after.window(id) is Some
            &&& window.resize is Resizing
            &&& window.resize->Resizing_0.last_window_size == size
            &&& window.resize->Resizing_0.initial_window_location == data.initial_window_location
            &&& window.resize->Resizing_0.initial_window_size == data.initial_window_size
            &&& window.resize->Resizing_0.edges == data.edges
            &&& window.content_size() == before.content_size()
            &&& data.outstanding is None && size != data.last_sent_size ==> {
                &&& window.client.resizing
                &&& window.client.size == Some(size)
                &&& after.actions == layout.actions.push(
                    Action::ResizeConfigure { window: id, client: window.client, size },
                )
            }
            &&& size == data.last_sent_size ==> after.actions == layout.actions
            &&& same_places(layout, after)
            &&& other != id ==> after.window(other) == layout.window(other)
        }),
{
    lemma_ids_match(layout);
    let id = grab.window;
    let before = layout.window(id)->0;
    let size = grab.intended_size(before);
    let intending = before.with_resize(before.resize_state().intending(size));
    let kept = layout.with_window(intending);
    lemma_window_replaced(layout, intending, id);
    lemma_window_replaced(layout, intending, other);
    let settled = intending.settled();
    lemma_window_replaced(kept, settled, id);
    lemma_window_replaced(kept, settled, other);
    match intending.resize_state().next_size(intending.acked) {
        Some(next) => {
            let client = intending.resized_client(next, true);
            lemma_window_replaced(kept, settled.telling(client), id);
            lemma_window_replaced(kept, settled.telling(client), other);
            let action = Action::ResizeConfigure { window: id, client, size: next };
            lemma_acted(kept.with_window(settled.telling(client)), action, id);
            lemma_acted(kept.with_window(settled.telling(client)), action, other);
        },
        None => {},
    }
}

/// Whether the pointer, at `grab_x`, holds a window `new_w` wide at `x` at the
/// same fraction of its width as one `old_w` wide at `old_x`, to within half a
/// pixel. Everything is scaled by the old width to stay in whole numbers.
pub open spec fn holds_same_spot(grab_x: int, old_x: int, old_w: int, x: int, new_w: int) -> bool {
    let into = grab_x - old_x * FIXED_ONE;
    abs(2 * (grab_x * old_w - (x * FIXED_ONE * old_w + into * new_w))) <= FIXED_ONE * old_w
}

/// Where a window that is taken out of its place by a drag goes, if coordinates
/// do not run out.
pub proof fn lemma_drag_origin(
    at: Point,
    frame: Size,
    grab: FixedPoint,
    restore: Option<Size>,
    is_ssd: bool,
)
    requires
        frame.w > 0,
        restore is Some ==> fits(restore->0.w + 2 * BORDER_WIDTH),
    ensures
        ({
            let origin = drag_origin(at, frame, grab, restore, is_ssd);
            let new_w = match restore {
                Some(size) => size.w + (if is_ssd { 2 * BORDER_WIDTH } else { 0int }),
                None => frame.w as int,
            };
            &&& origin.y == at.y
            &&& reachable(grab.x as int, at.x as int, frame.w as int, new_w) ==> holds_same_spot(
                grab.x as int,
                at.x as int,
                frame.w as int,
                origin.x as int,
                new_w,
            )
        }),
{
    let new_w = crate::xdg::restored_width(frame, restore, is_ssd);
    if reachable(grab.x as int, at.x as int, frame.w as int, new_w) {
        crate::xdg::restored_drag_keeps_the_grabbed_spot(
            grab.x as int,
            at.x as int,
            frame.w as int,
            new_w,
        );
    }
    reveal(crate::xdg::origin_under_grab);
}

/// Whether the x coordinate that a window `new_w` wide goes to is one.
pub open spec fn reachable(grab_x: int, old_x: int, old_w: int, new_w: int) -> bool {
    fits(
        crate::utils::round_ratio(
            grab_x * old_w - (grab_x - old_x * FIXED_ONE) * new_w,
            FIXED_ONE * old_w,
        ),
    )
}

/// A tiled window that is taken out of its zone: it is where it was told to be,
/// and its client is told the size it floats with.
pub proof fn lemma_unsnapped(
    layout: Layout,
    id: u64,
    loc: Point,
    content: Size,
    now: Instant,
    other: u64,
)
    requires
        layout.wf(),
        layout.window(id) is Some,
    ensures
        ({
            let before = layout.window(id)->0;
            let after = layout.unsnapping(id, loc, content, now);
            let window = after.window(id)->0;
            &&& after.wf()
            &&& after.location(id) == Some(loc)
            &&& after.window(id) is Some
            &&& heads_for(after, id, loc, content, now)
            &&& window.state.snap is None
            &&& window.state.is_ssd == before.state.is_ssd
            &&& window.kind == before.kind
            &&& before.kind == SurfaceKind::Wayland ==> {
                &&& !window.client.maximized
                &&& fits(content.w + 2 * BORDER_WIDTH) && fits(
                    content.h + HEADER_BAR_HEIGHT + BORDER_WIDTH,
                ) && content.w >= 1 && content.h >= 1 ==> window.client.size == Some(content)
            }
            &&& other != id ==> after.location(other) == layout.location(other)
            &&& after.outputs == layout.outputs
            &&& after.overlaps == layout.overlaps
        }),
{
    reveal(Layout::unsnapping);
    lemma_ids_match(layout);
    let before = layout.window(id)->0;
    let is_ssd = before.state.is_ssd;
    let rect = Rectangle { loc, size: crate::xdg::decorated(content, is_ssd) };
    let freed = layout.with_window(before.snapped(None));
    lemma_window_replaced(layout, before.snapped(None), id);
    lemma_window_replaced(layout, before.snapped(None), other);
    lemma_same_places(layout, freed, other);
    lemma_window_wf(layout, id);
    lemma_put_wf(layout, before.snapped(None));
    lemma_filled(freed, id, rect, false, other);
    let filled = freed.filling(id, rect, false);
    lemma_same_places(freed, filled, other);
    lemma_filled_wf(freed, id, rect, false);
    lemma_mapped(filled, id, loc, true, id);
    lemma_mapped(filled, id, loc, true, other);
    let mapped = filled.mapped(id, loc, true);
    lemma_mapped_wf(filled, id, loc, true);
    lemma_glided(mapped, id, content, loc, now, other);
    let after = mapped.gliding(id, content, loc, now);
    lemma_same_places(mapped, after, id);
    lemma_same_places(mapped, after, other);
    lemma_glided_wf(mapped, id, content, loc, now);
    if fits(content.w + 2 * BORDER_WIDTH) && fits(content.h + HEADER_BAR_HEIGHT + BORDER_WIDTH)
        && content.w >= 1 && content.h >= 1 {
        lemma_unframed(content, rect.size, is_ssd);
    }
}

pub proof fn lemma_filled_wf(layout: Layout, id: u64, rect: Rectangle, maximized: bool)
    requires
        layout.wf(),
    ensures
        layout.filling(id, rect, maximized).wf(),
{
    reveal(Layout::filling);
    reveal(Layout::configuring);
    lemma_window_wf(layout, id);
    lemma_ids_match(layout);
    match layout.window(id) {
        Some(window) => {
            let client = crate::element::ClientState {
                maximized,
                size: Some(undecorated(rect.size, window.state.is_ssd)),
                ..window.client
            };
            lemma_put_wf(layout, window.telling(client));
            let told = WindowElement {
                configured: window.configured || window.configured,
                ..window.telling(client)
            };
            lemma_put_wf(layout, told);
            lemma_acted_wf(
                layout.with_window(told),
                Action::Configure { window: window.id, client, send: window.configured },
            );
            lemma_acted_wf(layout, Action::ConfigureX11 { window: id, rect });
        },
        None => {},
    }
}

pub proof fn lemma_acted_wf(layout: Layout, action: Action)
    requires
        layout.wf(),
    ensures
        layout.acting(action).wf(),
{
    reveal(Layout::wf);
    reveal(Layout::acting);
}

pub proof fn lemma_glided_wf(layout: Layout, id: u64, content: Size, loc: Point, now: Instant)
    requires
        layout.wf(),
    ensures
        layout.gliding(id, content, loc, now).wf(),
{
    reveal(Layout::gliding);
    lemma_window_wf(layout, id);
    match (layout.location(id), layout.window(id)) {
        (Some(start_loc), Some(window)) => {
            let start = WindowRect { loc: start_loc, content: window.content_size() };
            let end = WindowRect { loc, content };
            lemma_put_wf(
                layout,
                window.animated(
                    crate::animation::WindowAnimation::fresh(
                        start,
                        end,
                        WINDOW_ANIMATION_NANOS,
                        now,
                    ),
                ),
            );
        },
        _ => {},
    }
}

pub proof fn lemma_mapped_wf(layout: Layout, id: u64, loc: Point, activate: bool)
    requires
        layout.wf(),
    ensures
        layout.mapped(id, loc, activate).wf(),
{
    reveal(Layout::wf);
    reveal(Layout::mapped);
    lemma_without(layout, id);
    crate::space::lemma_pushed_once(layout.elements_without(id), Placed { window: id, loc });
}

pub proof fn lemma_configured_wf(layout: Layout, window: WindowElement, send: bool)
    requires
        layout.wf(),
        window.wf(),
    ensures
        layout.configuring(window, send).wf(),
{
    reveal(Layout::configuring);
    lemma_put_wf(layout, WindowElement { configured: window.configured || send, ..window });
    lemma_acted_wf(
        layout.with_window(WindowElement { configured: window.configured || send, ..window }),
        Action::Configure { window: window.id, client: window.client, send },
    );
}

/// A move of a tiled window takes it out of its zone, under the pointer: the
/// window is at once where the move counts from, the pointer holds it at the same
/// fraction of its width and the same distance from its top as before, and its
/// client is told the size it floats with.
pub proof fn moves_take_tiled_windows_out(
    desk: Desk,
    id: u64,
    start: GrabStart,
    now: Instant,
    other: u64,
)
    requires
        desk.wf(),
        desk.layout.window(id) is Some,
        desk.layout.location(id) is Some,
        desk.layout.window(id)->0.state.snap is Some,
        desk.layout.home_area(id) is Some,
    ensures
        ({
            let found = desk.layout.window(id)->0;
            let at = desk.layout.location(id)->0;
            let frame = desk.layout.element_geometry(id, now)->0.size;
            let (_, content) = desk.layout.absolute(
                id,
                found.state.snap->0.floating,
                found.state.is_ssd,
            )->0;
            let new_w = content.w + (if found.state.is_ssd { 2 * BORDER_WIDTH } else { 0int });
            let (begun, grab) = desk.move_granted(found, at, start, now);
            let window = begun.layout.window(id)->0;
            let origin = grab.initial_window_location;
            &&& begun.wf()
            &&& begun.dragging_window == Some(id)
            &&& grab.window == id
            &&& grab.start_location == start.location
            &&& begun.layout.location(id) == Some(origin)
            &&& begun.layout.window(id) is Some
            &&& window.state.snap is None
            &&& frame.w > 0 && fits(content.w + 2 * BORDER_WIDTH) ==> {
                &&& origin.y == at.y
                &&& reachable(start.location.x as int, at.x as int, frame.w as int, new_w)
                    ==> holds_same_spot(
                    start.location.x as int,
                    at.x as int,
                    frame.w as int,
                    origin.x as int,
                    new_w,
                )
            }
            &&& found.kind == SurfaceKind::Wayland && fits(content.w + 2 * BORDER_WIDTH) && fits(
                content.h + HEADER_BAR_HEIGHT + BORDER_WIDTH,
            ) && content.w >= 1 && content.h >= 1 ==> {
                &&& !window.client.maximized
                &&& window.client.size == Some(content)
            }
            &&& other != id ==> begun.layout.location(other) == desk.layout.location(other)
        }),
{
    let layout = desk.layout;
    lemma_ids_match(layout);
    lemma_window_wf(layout, id);
    reveal(Layout::element_geometry);
    reveal(Layout::absolute_on);
    let found = layout.window(id)->0;
    let at = layout.location(id)->0;
    let told = layout.move_unmaximized(found);
    let client = crate::element::ClientState {
        maximized: false,
        size: layout.move_restore(found),
        ..found.client
    };
    lemma_configured(layout, found.unmaximizing_to(None).telling(client), true, id);
    lemma_configured(layout, found.unmaximizing_to(None).telling(client), true, other);
    lemma_configured_wf(layout, found.unmaximizing_to(None).telling(client), true);
    lemma_same_places(layout, told, id);
    lemma_same_places(layout, told, other);
    let mid = told.window(id)->0;
    assert(mid.geometry_at(now) == found.geometry_at(now));
    let floating = found.state.snap->0.floating;
    let (origin, content) = told.drag_restore(id, start.location, now)->0;
    let frame = layout.element_geometry(id, now)->0.size;
    if frame.w > 0 && fits(content.w + 2 * BORDER_WIDTH) {
        lemma_drag_origin(at, frame, start.location, Some(content), found.state.is_ssd);
    }
    let freed = told.with_window(mid.snapped(None));
    lemma_window_wf(told, id);
    lemma_ids_match(told);
    lemma_put_wf(told, mid.snapped(None));
    lemma_window_replaced(told, mid.snapped(None), id);
    lemma_window_replaced(told, mid.snapped(None), other);
    lemma_same_places(told, freed, other);
    lemma_unsnapped(freed, id, origin, content, now, other);
    let out = freed.unsnapping(id, origin, content, now);
    match layout.move_restore(found) {
        Some(size) => {
            lemma_glided(out, id, size, origin, now, other);
            lemma_glided_wf(out, id, size, origin, now);
            let after = out.gliding(id, size, origin, now);
            lemma_same_places(out, after, id);
            lemma_same_places(out, after, other);
        },
        None => {},
    }
}

/// A move of a maximized window that is not tiled tells its client that it no
/// longer is, and counts from where the pointer holds the size it goes back to at
/// the same fraction of the width and the same distance from the top. A move of
/// any other window counts from where the window is.
pub proof fn moves_take_maximized_windows_out(
    desk: Desk,
    id: u64,
    start: GrabStart,
    now: Instant,
    other: u64,
)
    requires
        desk.wf(),
        desk.layout.window(id) is Some,
        desk.layout.location(id) is Some,
        desk.layout.window(id)->0.state.snap is None,
    ensures
        ({
            let found = desk.layout.window(id)->0;
            let at = desk.layout.location(id)->0;
            let frame = desk.layout.element_geometry(id, now)->0.size;
            let (begun, grab) = desk.move_granted(found, at, start, now);
            let window = begun.layout.window(id)->0;
            let origin = grab.initial_window_location;
            &&& begun.dragging_window == Some(id)
            &&& grab.window == id
            &&& grab.start_location == start.location
            &&& begun.layout.location(id) == Some(at)
            &&& begun.layout.window(id) is Some
            &&& !window.client.maximized
            &&& !found.client.maximized ==> origin == at && begun.layout == desk.layout
            &&& found.client.maximized && found.state.maximize_restore is Some
                && desk.layout.home_area(id) is Some ==> {
                let content = window.client.size->0;
                let new_w = content.w + (if found.state.is_ssd { 2 * BORDER_WIDTH } else { 0int });
                &&& window.client.size is Some
                &&& Some(content) == crate::requests::size_of(
                    desk.layout.absolute(id, found.state.maximize_restore->0, found.state.is_ssd),
                )
                &&& window.state.maximize_restore is None
                &&& heads_for(begun.layout, id, origin, content, now)
                &&& frame.w > 0 && fits(content.w + 2 * BORDER_WIDTH) ==> {
                    &&& origin.y == at.y
                    &&& reachable(start.location.x as int, at.x as int, frame.w as int, new_w)
                        ==> holds_same_spot(
                        start.location.x as int,
                        at.x as int,
                        frame.w as int,
                        origin.x as int,
                        new_w,
                    )
                }
            }
            &&& other != id ==> {
                &&& begun.layout.location(other) == desk.layout.location(other)
                &&& begun.layout.window(other) == desk.layout.window(other)
            }
        }),
{
    let layout = desk.layout;
    lemma_ids_match(layout);
    reveal(Layout::element_geometry);
    reveal(Layout::absolute_on);
    let found = layout.window(id)->0;
    let at = layout.location(id)->0;
    let told = layout.move_unmaximized(found);
    let client = crate::element::ClientState {
        maximized: false,
        size: layout.move_restore(found),
        ..found.client
    };
    lemma_configured(layout, found.unmaximizing_to(None).telling(client), true, id);
    lemma_configured(layout, found.unmaximizing_to(None).telling(client), true, other);
    lemma_same_places(layout, told, id);
    lemma_same_places(layout, told, other);
    let frame = layout.element_geometry(id, now)->0.size;
    if found.client.maximized {
        let restore = layout.move_restore(found);
        match restore {
            Some(size) => {
                if frame.w > 0 && fits(size.w + 2 * BORDER_WIDTH) {
                    lemma_drag_origin(at, frame, start.location, restore, found.state.is_ssd);
                }
                let origin = layout.move_origin(found, at, start.location, now);
                lemma_glided(told, id, size, origin, now, other);
                let after = told.gliding(id, size, origin, now);
                lemma_same_places(told, after, id);
                lemma_same_places(told, after, other);
            },
            None => {},
        }
    }
}

/// While a window is moved it follows the pointer: it is as far from where the
/// move counts from as the pointer is from where it was pressed, and only ever
/// kept from going above the work area under the pointer. It is raised, and
/// nothing else moves.
pub proof fn moved_windows_follow_the_pointer(
    desk: Desk,
    grab: MoveSurfaceGrab,
    by: Point,
    now: Instant,
    other: u64,
)
    requires
        desk.wf(),
        grab.anchor is None,
        fits(grab.initial_window_location.x + by.x),
        fits(grab.initial_window_location.y + by.y),
        i64::MIN <= grab.start_location.x + by.x * FIXED_ONE <= i64::MAX,
        i64::MIN <= grab.start_location.y + by.y * FIXED_ONE <= i64::MAX,
    ensures
        ({
            let pointer = grab.start_location.moved(by);
            let after = grab.moved(desk, pointer, now).layout;
            let at = after.location(grab.window)->0;
            let from = grab.initial_window_location;
            &&& after.location(grab.window) is Some
            &&& at.x == from.x + by.x
            &&& at.y >= from.y + by.y
            &&& desk.layout.output_under(pointer) is Some ==> match desk.layout.work_area(
                desk.layout.output_under(pointer)->0,
            ) {
                Some(area) => at.y == max(from.y + by.y, area.loc.y as int),
                None => at.y == from.y + by.y,
            }
            &&& after.elements.last().window == grab.window
            &&& other != grab.window ==> after.location(other) == desk.layout.location(other)
        }),
{
    let pointer = grab.start_location.moved(by);
    crate::laws::drags_follow_the_pointer(
        grab.start_location,
        grab.initial_window_location,
        by,
    );
    reveal(Layout::kept_below_top);
    let proposed = grab.proposed(desk.layout, pointer, now);
    let to = desk.layout.kept_below_top(grab.window, pointer, proposed);
    lemma_mapped(desk.layout, grab.window, to, true, grab.window);
    lemma_mapped(desk.layout, grab.window, to, true, other);
    let mapped = desk.layout.mapped(grab.window, to, true);
    reveal(Layout::previews_hidden);
    lemma_same_windows(mapped, mapped.previews_hidden(), grab.window);
    lemma_same_windows(mapped, mapped.previews_hidden(), other);
}

/// A client-decorated window that picks its own size follows the pointer by the
/// spot it was grabbed at, whatever size its client has committed.
pub proof fn anchored_windows_follow_the_pointer(
    desk: Desk,
    grab: MoveSurfaceGrab,
    pointer: FixedPoint,
    now: Instant,
)
    requires
        desk.wf(),
        grab.anchor is Some,
        grab.anchor->0.wf(),
        desk.layout.window(grab.window) is Some,
        desk.layout.location(grab.window) is Some,
        ({
            let anchor = grab.anchor->0;
            let frame = desk.layout.element_geometry(grab.window, now)->0.size;
            fits(
                crate::utils::round_ratio(
                    pointer.x * anchor.fraction_den - anchor.fraction_num * (frame.w * FIXED_ONE),
                    anchor.fraction_den * FIXED_ONE,
                ),
            ) && fits(crate::utils::round_ratio(pointer.y - anchor.rel_y, FIXED_ONE as int))
        }),
    ensures
        ({
            let anchor = grab.anchor->0;
            let frame = desk.layout.element_geometry(grab.window, now)->0.size;
            let after = grab.moved(desk, pointer, now).layout;
            let at = after.location(grab.window)->0;
            let spot = at.x * (anchor.fraction_den * FIXED_ONE) + anchor.fraction_num * (frame.w
                * FIXED_ONE);
            &&& after.location(grab.window) is Some
            &&& abs(2 * (pointer.x * anchor.fraction_den - spot)) <= anchor.fraction_den * FIXED_ONE
        }),
{
    reveal(Layout::element_geometry);
    let frame = desk.layout.element_geometry(grab.window, now)->0.size;
    crate::ssd::anchored_spot_stays_under_the_pointer(grab.anchor->0, pointer, frame);
    reveal(Layout::kept_below_top);
    let proposed = grab.proposed(desk.layout, pointer, now);
    let to = desk.layout.kept_below_top(grab.window, pointer, proposed);
    lemma_mapped(desk.layout, grab.window, to, true, grab.window);
    let mapped = desk.layout.mapped(grab.window, to, true);
    reveal(Layout::previews_hidden);
    lemma_same_windows(mapped, mapped.previews_hidden(), grab.window);
}

/// A Wayland window that is maximized by its button sets out for the work area of
/// the first output it reaches onto, its frame filling it, and its client is told
/// so. It is raised but does not jump there, and nothing else moves.
pub proof fn maximized_windows_fill_the_work_area(
    layout: Layout,
    id: u64,
    accepted: bool,
    now: Instant,
    other: u64,
)
    requires
        layout.wf(),
        layout.window(id) is Some,
        layout.location(id) is Some,
        layout.window(id)->0.kind == SurfaceKind::Wayland,
        !layout.window(id)->0.ghosting(),
        !layout.window(id)->0.state.header_bar.fullscreen,
        layout.window(id)->0.state.snap is None,
        !layout.window(id)->0.client.maximized,
        layout.outputs_for(id).len() > 0,
        layout.work_area(layout.outputs_for(id)[0]) is Some,
    ensures
        ({
            let found = layout.window(id)->0;
            let area = layout.work_area(layout.outputs_for(id)[0])->0;
            let after = layout.toggled(id, accepted, now);
            let window = after.window(id)->0;
            &&& after.window(id) is Some
            &&& window.client.maximized
            &&& window.client.size is Some
            &&& heads_for(after, id, area.loc, window.client.size->0, now)
            &&& has_room(area.size, found.state.is_ssd) ==> is_framed(
                window.client.size->0,
                area.size,
                found.state.is_ssd,
            )
            &&& after.actions.last() == (Action::Configure {
                window: id,
                client: window.client,
                send: found.configured,
            })
            &&& after.location(id) == layout.location(id)
            &&& after.elements.last().window == id
            &&& window.client.activated
            &&& window.state.maximize_restore == layout.relative(id, now)
            &&& other != id ==> after.location(other) == layout.location(other)
            &&& after.outputs == layout.outputs
        }),
{
    lemma_maximized(layout, id, now, other);
}

pub proof fn lemma_maximized(layout: Layout, id: u64, now: Instant, other: u64)
    requires
        layout.wf(),
        layout.window(id) is Some,
        layout.location(id) is Some,
        layout.outputs_for(id).len() > 0,
        layout.work_area(layout.outputs_for(id)[0]) is Some,
    ensures
        ({
            let found = layout.window(id)->0;
            let area = layout.work_area(layout.outputs_for(id)[0])->0;
            let content = crate::xdg::maximized_size(area.size, found.state.is_ssd);
            let after = layout.maximizing(id, now);
            let window = after.window(id)->0;
            &&& after.window(id) is Some
            &&& window.client.maximized
            &&& window.client.size == Some(content)
            &&& heads_for(after, id, area.loc, content, now)
            &&& window.state.snap is None
            &&& window.state.is_ssd == found.state.is_ssd
            &&& window.kind == found.kind
            &&& !found.client.maximized ==> window.state.maximize_restore == layout.relative(id, now)
            &&& after.actions.last() == (Action::Configure {
                window: id,
                client: window.client,
                send: found.configured,
            })
            &&& !found.ghosting() ==> window.client.activated
            &&& after.location(id) == layout.location(id)
            &&& after.elements.last().window == id
            &&& other != id ==> after.location(other) == layout.location(other)
            &&& after.outputs == layout.outputs
        }),
{
    lemma_ids_match(layout);
    lemma_window_wf(layout, id);
    let found = layout.window(id)->0;
    let start = layout.location(id)->0;
    let area = layout.work_area(layout.outputs_for(id)[0])->0;
    let content = crate::xdg::maximized_size(area.size, found.state.is_ssd);
    let maximized = layout.told_to_maximize(found, Some(area), now);
    let told = layout.with_window(maximized);
    lemma_window_replaced(layout, maximized, id);
    lemma_window_replaced(layout, maximized, other);
    lemma_same_places(layout, told, id);
    lemma_same_places(layout, told, other);
    lemma_relative_wf(layout, id, now);
    lemma_put_wf(layout, maximized);
    lemma_glided(told, id, content, area.loc, now, other);
    lemma_glided_wf(told, id, content, area.loc, now);
    let glided = told.gliding(id, content, area.loc, now);
    lemma_same_places(told, glided, id);
    lemma_same_places(told, glided, other);
    lemma_mapped(glided, id, start, true, id);
    lemma_mapped(glided, id, start, true, other);
    let raised = glided.mapped(id, start, true);
    lemma_answered(raised, id, id);
    lemma_answered(raised, id, other);
    let after = raised.answering(id);
    lemma_same_places(raised, after, id);
    lemma_same_places(raised, after, other);
    assert(after.window(id)->0.content_size() == glided.window(id)->0.content_size());
}

pub proof fn lemma_relative_wf(layout: Layout, id: u64, now: Instant)
    ensures
        layout.relative(id, now) is Some ==> layout.relative(id, now)->0.wf(),
{
    reveal(Layout::relative_on);
    reveal(Layout::work_area);
}

/// A window that was maximized and is restored by its button, whatever happened
/// to it in between, sets out for exactly the place and the size it had, as long
/// as it is on the same work area, and its client is told so.
pub proof fn restoring_undoes_maximizing(
    layout: Layout,
    id: u64,
    now: Instant,
    later: Layout,
    accepted: bool,
    pressed: Instant,
    other: u64,
)
    requires
        layout.wf(),
        layout.window(id) is Some,
        layout.location(id) is Some,
        !layout.window(id)->0.client.maximized,
        layout.outputs_for(id).len() > 0,
        layout.work_area(layout.outputs_for(id)[0]) is Some,
        layout.home_area(id) is Some,
        ({
            let area = layout.home_area(id)->0;
            let at = layout.location(id)->0;
            fits(at.x - area.loc.x) && fits(at.y - area.loc.y)
        }),
        later.window(id) is Some,
        later.location(id) is Some,
        ({
            let maximized = layout.maximizing(id, now).window(id)->0;
            let window = later.window(id)->0;
            &&& window.kind == SurfaceKind::Wayland
            &&& !window.ghosting()
            &&& window.state.is_ssd == maximized.state.is_ssd
            &&& window.state.snap == maximized.state.snap
            &&& window.state.maximize_restore == maximized.state.maximize_restore
            &&& window.client.maximized == maximized.client.maximized
            &&& !window.state.header_bar.fullscreen
        }),
        later.home_area(id) == layout.home_area(id),
    ensures
        ({
            let found = layout.window(id)->0;
            let at = layout.location(id)->0;
            let frame = layout.element_geometry(id, now)->0.size;
            let back = later.toggled(id, accepted, pressed);
            let content = undecorated(frame, found.state.is_ssd);
            let window = back.window(id)->0;
            &&& heads_for(back, id, at, content, pressed)
            &&& forall|shown: Size|
                shown.w >= 1 && shown.h >= 1 && #[trigger] is_framed(
                    shown,
                    frame,
                    found.state.is_ssd,
                ) ==> shown == content
            &&& !window.client.maximized
            &&& window.client.size == Some(content)
            &&& window.state.maximize_restore is None
            &&& back.actions == later.actions.push(
                Action::Configure { window: id, client: window.client, send: window.configured },
            )
            &&& same_places(later, back)
            &&& other != id ==> back.window(other) == later.window(other)
        }),
{
    lemma_maximized(layout, id, now, other);
    lemma_ids_match(layout);
    lemma_ids_match(later);
    reveal(Layout::element_geometry);
    let found = layout.window(id)->0;
    let at = layout.location(id)->0;
    let frame = layout.element_geometry(id, now)->0.size;
    let content = undecorated(frame, found.state.is_ssd);
    remembered_places_are_exact(layout, layout.home(id)->0, id, found.state.is_ssd, now);
    reveal(Layout::absolute_on);
    let window = later.window(id)->0;
    assert(later.unmaximized_geometry(window) == Some((at, content)));
    let client = crate::element::ClientState {
        maximized: false,
        size: Some(content),
        ..window.client
    };
    let freed = window.unmaximizing_to(None).telling(client);
    let told = later.with_window(freed);
    lemma_window_replaced(later, freed, id);
    lemma_window_replaced(later, freed, other);
    lemma_same_places(later, told, id);
    lemma_glided(told, id, content, at, pressed, other);
    let glided = told.gliding(id, content, at, pressed);
    lemma_same_places(told, glided, id);
    lemma_answered(glided, id, id);
    lemma_answered(glided, id, other);
    let back = glided.answering(id);
    lemma_same_places(glided, back, id);
    assert(back == later.toggled(id, accepted, pressed));
}

/// An X11 window that took the maximized state fills the first output it reaches
/// onto, and one that is restored afterwards is configured to exactly the bounding
/// box it had.
pub proof fn restoring_undoes_maximizing_x11(
    layout: Layout,
    id: u64,
    now: Instant,
    later: Layout,
    other: u64,
)
    requires
        layout.wf(),
        layout.window(id) is Some,
        layout.location(id) is Some,
        layout.window(id)->0.kind == SurfaceKind::X11,
        layout.outputs_for(id).len() > 0,
        layout.output_geometry(layout.outputs_for(id)[0]) is Some,
        later.wf(),
        later.window(id) is Some,
        later.location(id) is Some,
        later.window(id)->0.state.old_geometry == layout.maximizing_x11(id, true, now).window(
            id,
        )->0.state.old_geometry,
    ensures
        ({
            let geo = layout.output_geometry(layout.outputs_for(id)[0])->0;
            let bbox = layout.element_bbox(id, now)->0;
            let after = layout.maximizing_x11(id, true, now);
            let back = later.demaximizing_x11(id);
            let (asked, undone) = (after.actions.len() as int, back.actions.len() as int);
            &&& layout.element_bbox(id, now) is Some
            &&& after.location(id) == Some(geo.loc)
            &&& after.window(id) is Some
            &&& after.window(id)->0.client.maximized
            &&& after.actions[asked - 2] == (Action::ConfigureX11 { window: id, rect: geo })
            &&& back.location(id) == Some(bbox.loc)
            &&& back.window(id) is Some
            &&& !back.window(id)->0.client.maximized
            &&& back.actions[undone - 2] == (Action::ConfigureX11 { window: id, rect: bbox })
            &&& back.window(id)->0.state.old_geometry is None
            &&& other != id ==> {
                &&& after.location(other) == layout.location(other)
                &&& back.location(other) == later.location(other)
            }
        }),
{
    lemma_ids_match(layout);
    lemma_ids_match(later);
    lemma_window_wf(layout, id);
    lemma_window_wf(later, id);
    assert(layout.element_bbox(id, now) is Some) by {
        reveal(Layout::element_bbox);
    }
    let found = layout.window(id)->0;
    let geo = layout.output_geometry(layout.outputs_for(id)[0])->0;
    let bbox = layout.element_bbox(id, now)->0;
    let first = Action::SetMaximizedX11 { window: id, maximized: true };
    let second = Action::ConfigureX11 { window: id, rect: geo };
    let acted = layout.acting(first).acting(second);
    lemma_acted(layout, first, id);
    lemma_acted(layout.acting(first), second, id);
    lemma_acted_wf(layout, first);
    lemma_acted_wf(layout.acting(first), second);
    lemma_same_places(layout, acted, id);
    lemma_same_places(layout, acted, other);
    let told = found.x11_maximized(true, Some(bbox));
    let kept = acted.with_window(told);
    lemma_window_replaced(acted, told, id);
    lemma_same_places(acted, kept, id);
    lemma_same_places(acted, kept, other);
    lemma_put_wf(acted, told);
    lemma_mapped(kept, id, geo.loc, false, id);
    lemma_mapped(kept, id, geo.loc, false, other);

    let window = later.window(id)->0;
    let freed = window.x11_maximized(false, None);
    let cleared = later.with_window(freed);
    lemma_window_replaced(later, freed, id);
    lemma_same_places(later, cleared, id);
    lemma_same_places(later, cleared, other);
    lemma_put_wf(later, freed);
    let third = Action::SetMaximizedX11 { window: id, maximized: false };
    let fourth = Action::ConfigureX11 { window: id, rect: bbox };
    lemma_acted(cleared, third, id);
    lemma_acted(cleared.acting(third), fourth, id);
    lemma_acted_wf(cleared, third);
    lemma_acted_wf(cleared.acting(third), fourth);
    let asked = cleared.acting(third).acting(fourth);
    lemma_same_places(cleared, asked, id);
    lemma_same_places(cleared, asked, other);
    lemma_mapped(asked, id, bbox.loc, false, id);
    lemma_mapped(asked, id, bbox.loc, false, other);
}

/// A titlebar drag that moves takes a tiled window out of its zone, under the
/// pointer, and any window follows the pointer from there by exactly as many
/// pixels as it moved since it was pressed, never above the work area under the
/// pointer. The drag goes on from the same spot.
pub proof fn titlebar_drags_follow_the_pointer(
    desk: Desk,
    drag: SSDDrag,
    by: Point,
    now: Instant,
    other: u64,
)
    requires
        desk.wf(),
        desk.ssd_drag == Some(drag),
        desk.layout.window(drag.window) is Some,
        desk.layout.location(drag.window) is Some,
        i64::MIN <= drag.start_global.x + by.x * FIXED_ONE <= i64::MAX,
        i64::MIN <= drag.start_global.y + by.y * FIXED_ONE <= i64::MAX,
    ensures
        ({
            let id = drag.window;
            let found = desk.layout.window(id)->0;
            let pointer = drag.start_global.moved(by);
            let after = desk.titlebar_dragged(pointer, now);
            let origin = after.ssd_drag->0.start_origin;
            let at = after.layout.location(id)->0;
            let frame = desk.layout.element_geometry(id, now)->0.size;
            &&& after.ssd_drag is Some
            &&& after.ssd_drag->0.window == id
            &&& after.ssd_drag->0.start_global == drag.start_global
            &&& after.layout.location(id) is Some
            &&& after.layout.window(id) is Some
            &&& after.layout.window(id)->0.state.snap is None
            &&& fits(origin.x + by.x) && fits(origin.y + by.y) ==> {
                &&& at.x == origin.x + by.x
                &&& at.y >= origin.y + by.y
                &&& desk.layout.output_under(pointer) is Some ==> match desk.layout.work_area(
                    desk.layout.output_under(pointer)->0,
                ) {
                    Some(area) => at.y == max(origin.y + by.y, area.loc.y as int),
                    None => at.y == origin.y + by.y,
                }
            }
            &&& found.state.snap is None ==> origin == drag.start_origin
            &&& found.state.snap is Some && desk.layout.home_area(id) is Some ==> {
                let (_, content) = desk.layout.absolute(
                    id,
                    found.state.snap->0.floating,
                    found.state.is_ssd,
                )->0;
                let new_w = content.w + (if found.state.is_ssd { 2 * BORDER_WIDTH } else { 0int });
                &&& frame.w > 0 && fits(content.w + 2 * BORDER_WIDTH) ==> {
                    &&& origin.y == drag.start_origin.y
                    &&& reachable(
                        drag.start_global.x as int,
                        drag.start_origin.x as int,
                        frame.w as int,
                        new_w,
                    ) ==> holds_same_spot(
                        drag.start_global.x as int,
                        drag.start_origin.x as int,
                        frame.w as int,
                        origin.x as int,
                        new_w,
                    )
                }
                &&& found.kind == SurfaceKind::Wayland && fits(content.w + 2 * BORDER_WIDTH)
                    && fits(content.h + HEADER_BAR_HEIGHT + BORDER_WIDTH) && content.w >= 1
                    && content.h >= 1 ==> after.layout.window(id)->0.client.size == Some(content)
            }
            &&& other != id ==> after.layout.location(other) == desk.layout.location(other)
        }),
{
    let id = drag.window;
    let layout = desk.layout;
    lemma_ids_match(layout);
    lemma_window_wf(layout, id);
    reveal(Layout::element_geometry);
    reveal(Layout::absolute_on);
    let found = layout.window(id)->0;
    let pointer = drag.start_global.moved(by);
    let origin = desk.titlebar_origin(drag, found, now);
    let frame = layout.element_geometry(id, now)->0.size;
    let freed = layout.with_window(found.snapped(None));
    lemma_window_replaced(layout, found.snapped(None), id);
    lemma_window_replaced(layout, found.snapped(None), other);
    lemma_same_places(layout, freed, id);
    lemma_same_places(layout, freed, other);
    lemma_put_wf(layout, found.snapped(None));
    let out = desk.titlebar_unsnapped(drag, found, now);
    match desk.titlebar_restore(drag, found, now) {
        Some((loc, content)) => {
            lemma_unsnapped(freed, id, loc, content, now, other);
            if frame.w > 0 && fits(content.w + 2 * BORDER_WIDTH) {
                lemma_drag_origin(
                    drag.start_origin,
                    frame,
                    drag.start_global,
                    Some(content),
                    found.state.is_ssd,
                );
            }
        },
        None => {},
    }
    assert(out.wf());
    assert(out.outputs == layout.outputs);
    if fits(origin.x + by.x) && fits(origin.y + by.y) {
        crate::laws::drags_follow_the_pointer(drag.start_global, origin, by);
    }
    reveal(Layout::kept_below_top);
    let proposed = pointer.stepped_from(drag.start_global, origin);
    let to = out.kept_below_top(id, pointer, proposed);
    if layout.output_under(pointer) is Some {
        lemma_same_outputs(layout, out, layout.output_under(pointer)->0);
    }
    lemma_mapped(out, id, to, true, id);
    lemma_mapped(out, id, to, true, other);
    let mapped = out.mapped(id, to, true);
    reveal(Layout::previews_hidden);
    lemma_same_windows(mapped, mapped.previews_hidden(), id);
    lemma_same_windows(mapped, mapped.previews_hidden(), other);
}

} // verus!
