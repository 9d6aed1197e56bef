//! What holds of the window management as a whole.

use std::time::Instant;
use vstd::prelude::*;

use crate::element::{SurfaceKind, WindowElement};
use crate::geometry::capture_then_restore_is_exact;
use crate::grabs::ResizeEdge;
use crate::group::edges_facing_divider;
use crate::animation::VisibilityKind;
use crate::panel::{parsed_snapshot, sanitized_info, snapshot_round_trip, snapshot_text, Info};
use crate::panel_ipc::{name_of, numbers_are_distinct, panel_numbers_stay_distinct, WindowName};
use crate::snap::{SnapGrid, SnapTarget};
use crate::space::{
    activated, lemma_placed_exists, lemma_placed_index_bounds, lemma_window_index_bounds,
    lemma_without, mapped_once, mapping_moves_one_window, placed_index, window_index, Action, Layout, Output, Placed,
};
use crate::ssd::VisibilityState;
use crate::state::Desk;
use crate::utils::{fits, Point, Rectangle, Size};
use crate::xdg::undecorated;

verus! {

/// The index of a window depends on the ids alone.
pub proof fn lemma_index_by_ids(a: Seq<WindowElement>, b: Seq<WindowElement>, id: u64, i: int)
    requires
        a.len() == b.len(),
        forall|k: int| 0 <= k < a.len() ==> (#[trigger] a[k]).id == b[k].id,
    ensures
        window_index(a, id, i) == window_index(b, id, i),
    decreases a.len() - i,
{
    if 0 <= i < a.len() && a[i].id != id {
        lemma_index_by_ids(a, b, id, i + 1);
    }
}

/// Replacing a window changes what is found under its id, and nothing else.
pub proof fn lemma_window_replaced(layout: Layout, window: WindowElement, id: u64)
    ensures
        layout.with_window(window).window(id) == (if id == window.id && layout.window(id) is Some {
            Some(window)
        } else {
            layout.window(id)
        }),
        layout.with_window(window).elements == layout.elements,
        layout.with_window(window).outputs == layout.outputs,
        layout.with_window(window).overlaps == layout.overlaps,
        layout.with_window(window).actions == layout.actions,
{
    reveal(Layout::with_window);
    reveal(Layout::window);
    lemma_window_index_bounds(layout.windows, window.id, 0);
    match window_index(layout.windows, window.id, 0) {
        Some(k) => {
            let after = layout.windows.update(k, window);
            lemma_index_by_ids(layout.windows, after, id, 0);
            lemma_window_index_bounds(layout.windows, id, 0);
            if id != window.id {
                match window_index(layout.windows, id, 0) {
                    Some(i) => assert(after[i] == layout.windows[i]),
                    None => {},
                }
            }
        },
        None => {},
    }
}

/// An action changes nothing but the list of actions.
pub proof fn lemma_acting(layout: Layout, action: crate::space::Action, id: u64)
    ensures
        layout.acting(action).window(id) == layout.window(id),
        layout.acting(action).location(id) == layout.location(id),
        layout.acting(action).elements == layout.elements,
        layout.acting(action).actions == layout.actions.push(action),
{
    reveal(Layout::acting);
    reveal(Layout::window);
    reveal(Layout::location);
}

/// Unmapping a window takes it off the screen.
proof fn lemma_unmapped(layout: Layout, id: u64)
    requires
        layout.wf(),
    ensures
        layout.unmapped(id).location(id) is None,
        mapped_once(layout.unmapped(id).elements),
        layout.unmapped(id).windows == layout.windows,
{
    reveal(Layout::wf);
    reveal(Layout::unmapped);
    reveal(Layout::location);
    lemma_without(layout, id);
}

/// A window that is minimized and restored is back where it was, and the list
/// of minimized windows is as it was, whether the window is restored by its name
/// or as the one that was minimized last. With no window minimized, there is
/// nothing to restore.
pub proof fn minimized_windows_come_back(desk: Desk, id: u64)
    requires
        desk.wf(),
    ensures
        desk.minimized.len() == 0 ==> desk.last_unminimized() == desk,
        desk.layout.location(id) is Some && placed_index(desk.minimized, id, 0) is None ==> {
            let minimized = desk.minimizing(id);
            let back = minimized.unminimizing(id);
            &&& minimized.layout.location(id) is None
            &&& back.layout.location(id) == desk.layout.location(id)
            &&& back.minimized == desk.minimized
            &&& minimized.last_unminimized() == back
        },
{
    if desk.layout.location(id) is Some && placed_index(desk.minimized, id, 0) is None {
        lemma_minimized_comes_back(desk, id);
    }
}

proof fn lemma_minimized_comes_back(desk: Desk, id: u64)
    requires
        desk.wf(),
        desk.layout.location(id) is Some,
        placed_index(desk.minimized, id, 0) is None,
    ensures
        ({
            let minimized = desk.minimizing(id);
            let back = minimized.unminimizing(id);
            &&& minimized.layout.location(id) is None
            &&& back.layout.location(id) == desk.layout.location(id)
            &&& back.minimized == desk.minimized
            &&& minimized.last_unminimized() == back
        }),
{
    let loc = desk.layout.location(id)->0;
    let placed = Placed { window: id, loc };
    lemma_unmapped(desk.layout, id);
    let unmapped = desk.layout.unmapped(id);
    let kept = match unmapped.window(id) {
        Some(window) => {
            lemma_window_replaced(unmapped, window.with_frame(None), id);
            unmapped.with_window(window.with_frame(None))
        },
        None => unmapped,
    };
    let minimized = desk.minimizing(id);
    lemma_acting(kept, crate::space::Action::SetFocus { focus: None }, id);
    assert(minimized.layout.elements == unmapped.elements);
    reveal(Layout::location);
    let list = desk.minimized.push(placed);
    assert(minimized.minimized == list);
    lemma_not_before(desk.minimized, id, 0);
    lemma_pushed_index(desk.minimized, placed, 0);
    assert(list.remove(desk.minimized.len() as int) =~= desk.minimized);
    assert(list.drop_last() =~= desk.minimized);
    mapping_moves_one_window(
        minimized.layout,
        id,
        loc,
        true,
        if id == 0 {
            1
        } else {
            0
        },
    );
}

proof fn lemma_not_before(list: Seq<Placed>, id: u64, i: int)
    requires
        0 <= i <= list.len(),
        placed_index(list, id, i) is None,
    ensures
        forall|k: int| i <= k < list.len() ==> (#[trigger] list[k]).window != id,
    decreases list.len() - i,
{
    if i < list.len() {
        lemma_not_before(list, id, i + 1);
    }
}

proof fn lemma_pushed_index(list: Seq<Placed>, placed: Placed, i: int)
    requires
        0 <= i <= list.len(),
        forall|k: int| i <= k < list.len() ==> (#[trigger] list[k]).window != placed.window,
    ensures
        placed_index(list.push(placed), placed.window, i) == Some(list.len() as int),
    decreases list.len() - i,
{
    let longer = list.push(placed);
    if i < list.len() {
        assert(longer[i] == list[i]);
        lemma_pushed_index(list, placed, i + 1);
    }
}

/// A window that stops being interactive does not keep the keyboard focus: not
/// one that is minimized, not one that starts to close, not one that becomes a
/// ghost, and not one whose client is gone.
pub proof fn fading_windows_lose_the_focus(desk: Desk, id: u64, now: Instant)
    requires
        desk.has_keyboard,
    ensures
        desk.layout.location(id) is Some && placed_index(desk.minimized, id, 0) is None
            ==> desk.minimizing(id).focus != Some(id),
        desk.layout.window(id) is Some && !desk.layout.window(id)->0.state.visibility.closing
            ==> desk.closing(id, now).focus != Some(id),
        desk.layout.window(id) is Some && desk.layout.window(id)->0.can_haunt(now)
            ==> desk.haunting(id, now).focus != Some(id),
        desk.abandoning(id, now).focus != Some(id),
{
}

/// The preview of a snap target shows the rectangle that the window will fill.
pub proof fn preview_shows_the_result(
    layout: Layout,
    output: Output,
    target: SnapTarget,
    now: Instant,
)
    requires
        target.output == output.id,
    ensures
        ({
            let preview = layout.preview_ticked(output, Some(target), now).preview;
            &&& preview is Some
            &&& preview->0.shown
            &&& preview->0.rect == Some(layout.snap_rect(target))
        }),
{
}

/// What a window remembers of its place on an output takes it back to exactly
/// that place, while the output stays as it is. Tiling, maximizing and
/// fullscreen all remember windows in this way.
pub proof fn remembered_places_are_exact(
    layout: Layout,
    output: u64,
    id: u64,
    is_ssd: bool,
    now: Instant,
)
    requires
        layout.work_area(output) is Some,
        layout.element_geometry(id, now) is Some,
        ({
            let area = layout.work_area(output)->0;
            let geo = layout.element_geometry(id, now)->0;
            fits(geo.loc.x - area.loc.x) && fits(geo.loc.y - area.loc.y)
        }),
    ensures
        layout.relative_on(output, id, now) is Some,
        ({
            let geo = layout.element_geometry(id, now)->0;
            let rel = layout.relative_on(output, id, now)->0;
            layout.absolute_on(output, rel, is_ssd) == Some(
                (geo.loc, undecorated(geo.size, is_ssd)),
            )
        }),
{
    reveal(Layout::work_area);
    reveal(Layout::relative_on);
    reveal(Layout::absolute_on);
    let area = layout.work_area(output)->0;
    let geo = layout.element_geometry(id, now)->0;
    capture_then_restore_is_exact(geo.loc, geo.size, area);
}

/// A window that was maximized unmaximizes to where it was: the geometry that it
/// is told to remember leads back to its place, while its output stays as it is.
pub proof fn unmaximizing_undoes_maximizing(
    layout: Layout,
    found: WindowElement,
    area: Option<Rectangle>,
    now: Instant,
)
    requires
        !found.client.maximized,
        layout.home(found.id) is Some,
        layout.home_area(found.id) is Some,
        layout.element_geometry(found.id, now) is Some,
        ({
            let home = layout.home_area(found.id)->0;
            let geo = layout.element_geometry(found.id, now)->0;
            fits(geo.loc.x - home.loc.x) && fits(geo.loc.y - home.loc.y)
        }),
    ensures
        ({
            let geo = layout.element_geometry(found.id, now)->0;
            layout.unmaximized_geometry(layout.told_to_maximize(found, area, now)) == Some(
                (geo.loc, undecorated(geo.size, found.state.is_ssd)),
            )
        }),
{
    remembered_places_are_exact(
        layout,
        layout.home(found.id)->0,
        found.id,
        found.state.is_ssd,
        now,
    );
}

/// Tiling a tiled window into another zone keeps the geometry that it floats
/// back to.
pub proof fn moving_between_zones_keeps_the_floating_geometry(
    layout: Layout,
    found: WindowElement,
    output: u64,
    now: Instant,
)
    requires
        found.state.snap is Some,
    ensures
        layout.floating_geometry(found, output, now) == Some(found.state.snap->0.floating),
{
}

/// Activating a window activates it alone: of all mapped windows that still have
/// a client, it is the only active one.
pub proof fn one_window_is_active(layout: Layout, id: u64, loc: Point, i: int)
    requires
        0 <= i < layout.windows.len(),
        !layout.windows[i].ghosting(),
        layout.location(layout.windows[i].id) is Some,
        layout.wf(),
    ensures
        layout.mapped(id, loc, true).windows[i].client.activated == (layout.windows[i].id == id),
{
    reveal(Layout::wf);
    reveal(Layout::mapped);
    reveal(Layout::location);
    let other = layout.windows[i].id;
    if other != id {
        let below = layout.elements_without(id);
        lemma_placed_index_bounds(layout.elements, other, 0);
        lemma_placed_index_bounds(layout.elements, id, 0);
        let q = placed_index(layout.elements, other, 0)->0;
        let moved = match placed_index(layout.elements, id, 0) {
            Some(p) => if q < p { q } else { q - 1 },
            None => q,
        };
        assert(below[moved] == layout.elements[q]);
        lemma_placed_exists(below, other, moved, 0);
    }
}

/// While the client has not answered a resize request, advancing the resize asks
/// for nothing more.
pub proof fn no_request_while_one_is_in_flight(layout: Layout, id: u64)
    requires
        layout.window(id) is Some,
        ({
            let window = layout.window(id)->0;
            &&& window.resize_state() is Resizing
            &&& window.resize_state()->Resizing_0.waiting(window.acked)
        }),
    ensures
        layout.advancing(id).actions == layout.actions,
{
    let window = layout.window(id)->0;
    lemma_window_replaced(layout, window.settled(), id);
}

/// Advancing a resize never changes the size that any window is displayed at.
pub proof fn advancing_changes_no_displayed_size(layout: Layout, id: u64, other: u64)
    requires
        layout.window(other) is Some,
        layout.window(id) is Some ==> layout.window(id)->0.id == id,
    ensures
        layout.advancing(id).window(other) is Some,
        layout.advancing(id).window(other)->0.content_size() == layout.window(
            other,
        )->0.content_size(),
        layout.advancing(id).window(other)->0.state == layout.window(other)->0.state,
{
    match layout.window(id) {
        Some(window) => {
            let settled = window.settled();
            lemma_window_replaced(layout, settled, other);
            match window.resize_state().next_size(window.acked) {
                Some(size) => {
                    let client = window.resized_client(size, true);
                    lemma_window_replaced(layout, settled.telling(client), other);
                    lemma_acting(
                        layout.with_window(settled.telling(client)),
                        crate::space::Action::ResizeConfigure { window: id, client, size },
                        other,
                    );
                    match layout.location(id) {
                        Some(current) => lemma_acting(
                            layout.with_window(settled),
                            crate::space::Action::ResizeX11 {
                                window: id,
                                rect: settled.anchored_rect(size, current),
                            },
                            other,
                        ),
                        None => {},
                    }
                },
                None => {},
            }
        },
        None => {},
    }
}

/// Letting go of a resize asks the client for the size that was last intended,
/// whatever is still in flight: the final size is never lost.
pub proof fn the_final_size_is_never_lost(layout: Layout, id: u64, serial: crate::utils::Serial)
    requires
        layout.window(id) is Some,
        layout.window(id)->0.kind == SurfaceKind::Wayland,
        layout.window(id)->0.resize_state() is Resizing,
    ensures
        ({
            let resize = layout.window(id)->0.resize_state()->Resizing_0;
            let last = layout.finishing(id, serial).actions.last();
            &&& last is FinalConfigure
            &&& last->FinalConfigure_client.size == Some(resize.last_window_size)
            &&& !last->FinalConfigure_client.resizing
        }),
{
    let window = layout.window(id)->0;
    let size = window.resize_state().intended()->0;
    let client = window.resized_client(size, false);
    lemma_acting(
        layout.with_window(window.telling(client)),
        crate::space::Action::FinalConfigure { window: id, client, serial },
        id,
    );
}

/// Driving a window by its neighbour's resize keeps what it and every other
/// window is tiled by.
proof fn lemma_driving_keeps_state(
    layout: Layout,
    id: u64,
    edges: ResizeEdge,
    rect: Rectangle,
    other: u64,
)
    requires
        layout.window(other) is Some,
        layout.window(id) is Some ==> layout.window(id)->0.id == id,
    ensures
        layout.driving(id, edges, rect).window(other) is Some,
        layout.driving(id, edges, rect).window(other)->0.state == layout.window(other)->0.state,
        layout.driving(id, edges, rect).window(other)->0.ghost_state == layout.window(
            other,
        )->0.ghost_state,
        layout.driving(id, edges, rect).window(other)->0.id == layout.window(other)->0.id,
{
    match (layout.window(id), layout.location(id)) {
        (Some(window), Some(loc)) => {
            let driven = window.with_resize(
                window.resize_state().driven(
                    edges,
                    loc,
                    window.content_size(),
                    undecorated(rect.size, window.state.is_ssd),
                ),
            );
            lemma_window_replaced(layout, driven, other);
            lemma_window_replaced(layout, driven, id);
            lemma_advancing_keeps(layout.with_window(driven), id, other);
        },
        _ => {},
    }
}

proof fn lemma_advancing_keeps(layout: Layout, id: u64, other: u64)
    requires
        layout.window(other) is Some,
        layout.window(id) is Some ==> layout.window(id)->0.id == id,
    ensures
        layout.advancing(id).window(other) is Some,
        layout.advancing(id).window(other)->0.state == layout.window(other)->0.state,
        layout.advancing(id).window(other)->0.ghost_state == layout.window(other)->0.ghost_state,
        layout.advancing(id).window(other)->0.id == layout.window(other)->0.id,
{
    match layout.window(id) {
        Some(window) => {
            let settled = window.settled();
            lemma_window_replaced(layout, settled, other);
            match window.resize_state().next_size(window.acked) {
                Some(size) => {
                    let client = window.resized_client(size, true);
                    lemma_window_replaced(layout, settled.telling(client), other);
                    lemma_acting(
                        layout.with_window(settled.telling(client)),
                        crate::space::Action::ResizeConfigure { window: id, client, size },
                        other,
                    );
                    match layout.location(id) {
                        Some(current) => lemma_acting(
                            layout.with_window(settled),
                            crate::space::Action::ResizeX11 {
                                window: id,
                                rect: settled.anchored_rect(size, current),
                            },
                            other,
                        ),
                        None => {},
                    }
                },
                None => {},
            }
        },
        None => {},
    }
}

/// Whether the window found under each id has that id.
pub open spec fn ids_match(layout: Layout) -> bool {
    forall|id: u64|
        (#[trigger] layout.window(id)) is Some ==> layout.window(id)->0.id == id
}

/// Every lookup finds a window of the id that was asked for.
pub proof fn lemma_ids_match(layout: Layout)
    ensures
        ids_match(layout),
{
    reveal(Layout::window);
    assert forall|id: u64| (#[trigger] layout.window(id)) is Some implies layout.window(id)->0.id
        == id by {
        lemma_window_index_bounds(layout.windows, id, 0);
    }
}

/// One step of a reflow: the member that is driven has the new grid, and what
/// any other window is tiled by stays.
proof fn lemma_reflowing(
    layout: Layout,
    id: u64,
    window: u64,
    grid: SnapGrid,
    area: Rectangle,
    other: u64,
)
    requires
        layout.window(other) is Some,
    ensures
        ({
            let after = layout.reflowing(id, window, grid, area);
            let before = layout.window(other)->0;
            &&& after.window(other) is Some
            &&& after.window(other)->0.ghost_state == before.ghost_state
            &&& after.window(other)->0.state == (if id == other && id != window
                && !before.state.header_bar.fullscreen {
                before.regridded(grid).state
            } else {
                before.state
            })
        }),
{
    lemma_ids_match(layout);
    match layout.window(id) {
        Some(found) if id != window && !found.state.header_bar.fullscreen && found.state.snap
            is Some => {
            let kept = layout.with_window(found.regridded(grid));
            lemma_window_replaced(layout, found.regridded(grid), other);
            lemma_ids_match(kept);
            let zone = found.state.snap->0.zone;
            lemma_driving_keeps_state(
                kept,
                id,
                edges_facing_divider(zone),
                grid.cell(zone, area),
                other,
            );
        },
        _ => {},
    }
}

/// Whether the window `id` is tiled on `grid`, if it is tiled and does not cover
/// its output.
pub open spec fn follows(layout: Layout, id: u64, grid: SnapGrid) -> bool {
    match layout.window(id) {
        Some(window) => window.state.snap is Some && !window.state.header_bar.fullscreen
            ==> window.state.snap->0.grid == grid,
        None => true,
    }
}

/// A reflow puts each member on the new grid: after it, every one of `members`
/// from `i` on follows `grid`, and so does `window` if it did.
proof fn lemma_reflowed(
    layout: Layout,
    members: Seq<u64>,
    i: int,
    window: u64,
    grid: SnapGrid,
    area: Rectangle,
)
    requires
        0 <= i <= members.len(),
        forall|k: int| 0 <= k < i ==> follows(layout, #[trigger] members[k], grid),
        follows(layout, window, grid),
        forall|k: int|
            0 <= k < members.len() ==> layout.window(#[trigger] members[k]) is Some,
        layout.window(window) is Some,
    ensures
        ({
            let after = layout.reflowed(members, i, window, grid, area);
            &&& forall|k: int| 0 <= k < members.len() ==> follows(after, #[trigger] members[k], grid)
            &&& follows(after, window, grid)
        }),
    decreases members.len() - i,
{
    if i < members.len() {
        let next = layout.reflowing(members[i], window, grid, area);
        lemma_reflowing(layout, members[i], window, grid, area, window);
        assert forall|k: int| 0 <= k < members.len() implies {
            &&& next.window(#[trigger] members[k]) is Some
            &&& k <= i ==> follows(next, members[k], grid)
        } by {
            lemma_reflowing(layout, members[i], window, grid, area, members[k]);
            if k <= i && members[k] == window {
                assert(follows(next, window, grid));
            }
        }
        lemma_reflowed(next, members, i + 1, window, grid, area);
    }
}

/// Dragging an edge of a tiled window leaves the whole group on one grid: the
/// window and every other member that does not cover its output.
pub proof fn a_dragged_group_shares_one_grid(
    layout: Layout,
    window: u64,
    area: Rectangle,
    edges: ResizeEdge,
    intended: Size,
)
    requires
        layout.window(window) is Some,
        layout.window(window)->0.state.snap is Some,
        layout.window(window)->0.state.snap->0.zone != crate::snap::SnapZone::Maximize,
    ensures
        ({
            let found = layout.window(window)->0;
            let snap = found.state.snap->0;
            let dragged = snap.grid.dragged_to(
                snap.zone,
                area,
                edges.dragged(),
                crate::xdg::decorated(intended, found.state.is_ssd),
            );
            let grid = layout.clamped_grid(dragged, area, window);
            let members = layout.with_window(found.regridded(grid)).members(0);
            let after = layout.splitting(window, area, edges, intended);
            &&& follows(after, window, grid)
            &&& forall|k: int| 0 <= k < members.len() ==> follows(after, #[trigger] members[k], grid)
        }),
{
    lemma_ids_match(layout);
    let found = layout.window(window)->0;
    let snap = found.state.snap->0;
    let dragged = snap.grid.dragged_to(
        snap.zone,
        area,
        edges.dragged(),
        crate::xdg::decorated(intended, found.state.is_ssd),
    );
    let grid = layout.clamped_grid(dragged, area, window);
    let kept = layout.with_window(found.regridded(grid));
    lemma_window_replaced(layout, found.regridded(grid), window);
    lemma_members_exist(kept, 0);
    lemma_reflowed(kept, kept.members(0), 0, window, grid, area);
}

proof fn lemma_members_exist(layout: Layout, i: int)
    requires
        0 <= i,
    ensures
        forall|k: int|
            0 <= k < layout.members(i).len() ==> layout.window(#[trigger] layout.members(i)[k])
                is Some,
    decreases layout.elements.len() - i,
{
    if i < layout.elements.len() {
        lemma_members_exist(layout, i + 1);
        let all = layout.members(i);
        let rest = layout.members(i + 1);
        assert forall|k: int| 0 <= k < all.len() implies layout.window(#[trigger] all[k]) is Some by {
            if all.len() == rest.len() {
                assert(all[k] == rest[k]);
            } else if k > 0 {
                assert(all[k] == rest[k - 1]);
            }
        }
    }
}

/// While a transition plays, the window is where the transition has it, unless a
/// drag owns its position: then it stays where the drag put it.
pub proof fn transitions_drive_the_location(
    layout: Layout,
    id: u64,
    dragging: Option<u64>,
    now: Instant,
)
    requires
        layout.location(id) is Some,
        layout.window(id) is Some,
        !layout.window(id)->0.ghosting(),
        layout.window(id)->0.state.animation is Some,
    ensures
        ({
            let after = layout.transition_ticked(id, dragging, now);
            let animation = layout.window(id)->0.resolved(now).state.animation->0;
            &&& dragging != Some(id) ==> after.location(id) == Some(animation.rect_at(now).loc)
            &&& dragging == Some(id) ==> after.location(id) == layout.location(id)
        }),
{
    reveal(Layout::location);
    reveal(Layout::relocated);
    let window = layout.window(id)->0.resolved(now);
    lemma_window_replaced(layout, window, id);
    let settled = layout.with_window(window);
    let loc = window.state.animation->0.rect_at(now).loc;
    let moved = settled.relocated(id, loc);
    lemma_window_replaced(settled, window.stilled(), id);
    lemma_window_replaced(moved, window.stilled(), id);
    lemma_placed_index_bounds(settled.elements, id, 0);
    let k = placed_index(settled.elements, id, 0)->0;
    lemma_placed_update(settled.elements, id, k, Placed { window: id, loc }, 0);
}

/// Moving an entry does not change where it is found.
proof fn lemma_placed_update(elements: Seq<Placed>, id: u64, k: int, placed: Placed, i: int)
    requires
        0 <= i <= k < elements.len(),
        placed_index(elements, id, i) == Some(k),
        placed.window == id,
    ensures
        placed_index(elements.update(k, placed), id, i) == Some(k),
    decreases k - i,
{
    let after = elements.update(k, placed);
    if i < k {
        assert(after[i] == elements[i]);
        if elements[i].window != id {
            lemma_placed_update(elements, id, k, placed, i + 1);
        }
    }
}

/// Clearing an output leaves no window covering it, and has it drawn anew.
pub proof fn cleared_outputs_show_the_space_again(layout: Layout, id: u64)
    requires
        layout.output(id) is Some,
        layout.output(id)->0.fullscreen is Some,
    ensures
        ({
            let after = layout.cleared(Some(id));
            &&& after.output(id) is Some
            &&& after.output(id)->0.fullscreen == Some(
                crate::space::FullscreenSurface { window: None },
            )
            &&& after.actions.last() == (crate::space::Action::ResetBuffers { output: id })
        }),
{
    reveal(Layout::cleared);
    reveal(Layout::output);
    reveal(Layout::with_output);
    reveal(Layout::acting);
    crate::space::lemma_output_index_bounds(layout.outputs, id, 0);
    let k = crate::space::output_index(layout.outputs, id, 0)->0;
    let output = Output {
        fullscreen: Some(crate::space::FullscreenSurface { window: None }),
        ..layout.outputs[k]
    };
    lemma_output_update(layout.outputs, id, k, output, 0);
}

proof fn lemma_output_update(outputs: Seq<Output>, id: u64, k: int, output: Output, i: int)
    requires
        0 <= i <= k < outputs.len(),
        crate::space::output_index(outputs, id, i) == Some(k),
        output.id == id,
    ensures
        crate::space::output_index(outputs.update(k, output), id, i) == Some(k),
    decreases k - i,
{
    let after = outputs.update(k, output);
    if i < k {
        assert(after[i] == outputs[i]);
        if outputs[i].id != id {
            lemma_output_update(outputs, id, k, output, i + 1);
        }
    }
}

/// A drag moves a window by exactly as many pixels as the pointer moved since it
/// began.
pub proof fn drags_follow_the_pointer(start: crate::utils::FixedPoint, origin: Point, by: Point)
    requires
        fits(origin.x + by.x),
        fits(origin.y + by.y),
        i64::MIN <= start.x + by.x * crate::utils::FIXED_ONE <= i64::MAX,
        i64::MIN <= start.y + by.y * crate::utils::FIXED_ONE <= i64::MAX,
    ensures
        start.moved(by).stepped_from(start, origin) == (Point {
            x: (origin.x + by.x) as i32,
            y: (origin.y + by.y) as i32,
        }),
        start.moved(by).dragged_from(start, origin) == (Point {
            x: (origin.x + by.x) as i32,
            y: (origin.y + by.y) as i32,
        }),
{
    reveal(crate::utils::FixedPoint::stepped_from);
    reveal(crate::utils::FixedPoint::dragged_from);
    let one = crate::utils::FIXED_ONE as int;
    crate::utils::lemma_round_exact(by.x as int, one);
    crate::utils::lemma_round_exact(by.y as int, one);
    crate::utils::lemma_round_exact(origin.x + by.x, one);
    crate::utils::lemma_round_exact(origin.y + by.y, one);
}

/// A ghost whose time is over is no longer mapped, and no longer counts as alive
/// unless its client came back.
pub proof fn retired_ghosts_are_gone(layout: Layout, id: u64)
    requires
        layout.wf(),
        layout.window(id) is Some,
    ensures
        layout.ghost_retired(id).location(id) is None,
        layout.ghost_retired(id).window(id) is Some,
        layout.ghost_retired(id).window(id)->0.is_alive() == layout.window(id)->0.client_alive,
{
    lemma_unmapped(layout, id);
    let unmapped = layout.unmapped(id);
    reveal(Layout::window);
    assert(unmapped.window(id) == layout.window(id));
    let window = unmapped.window(id)->0;
    lemma_ids_match(unmapped);
    lemma_window_replaced(unmapped, window.released(), id);
    reveal(Layout::location);
}

/// Whether the client needs no close request any more: it had one, or no close
/// transition plays.
pub open spec fn told_to_close(state: VisibilityState) -> bool {
    state.close_sent_at is Some || match state.animation {
        Some(animation) => animation.kind == VisibilityKind::Open,
        None => true,
    }
}

/// Whether the window `id`, if it exists, needs no close request any more.
spec fn is_told(layout: Layout, id: u64) -> bool {
    match layout.window(id) {
        Some(window) => told_to_close(window.state.visibility),
        None => true,
    }
}

proof fn lemma_told_stays(layout: Layout, ticked: u64, now: Instant, id: u64)
    ensures
        is_told(layout, id) ==> is_told(layout.visibility_ticked(ticked, now), id),
        layout.visibility_ticked(ticked, now).actions == layout.actions,
        match layout.window(ticked) {
            Some(window) => {
                let close = !window.ghosting() && window.state.visibility.sends_close(
                    window.content_size(),
                    now,
                );
                &&& close ==> is_told(layout.visibility_ticked(ticked, now), ticked)
                &&& close ==> !is_told(layout, ticked)
            },
            None => true,
        },
{
    reveal(Layout::window);
    lemma_window_index_bounds(layout.windows, ticked, 0);
    match layout.window(ticked) {
        Some(window) => {
            let state = window.state.visibility.ticked(window.content_size(), now);
            lemma_window_replaced(layout, window.seen_as(state), id);
            lemma_window_replaced(layout, window.seen_as(state), ticked);
        },
        None => {},
    }
}

proof fn lemma_closing_once(
    layout: Layout,
    windows: Seq<u64>,
    i: int,
    now: Instant,
    closing: Seq<u64>,
    id: u64,
)
    requires
        0 <= i <= windows.len(),
        closing.no_duplicates(),
        forall|k: int| 0 <= k < closing.len() ==> is_told(layout, #[trigger] closing[k]),
    ensures
        ({
            let (after, list) = layout.visibilities_ticked(windows, i, now, closing);
            &&& list.no_duplicates()
            &&& forall|k: int| 0 <= k < list.len() ==> is_told(after, #[trigger] list[k])
            &&& is_told(layout, id) ==> is_told(after, id)
            &&& is_told(layout, id) && !closing.contains(id) ==> !list.contains(id)
            &&& after.actions == layout.actions
        }),
    decreases windows.len() - i,
{
    if i < windows.len() {
        let window = windows[i];
        let next = layout.visibility_ticked(window, now);
        lemma_told_stays(layout, window, now, id);
        assert forall|k: int| 0 <= k < closing.len() implies is_told(next, #[trigger] closing[k]) by {
            lemma_told_stays(layout, window, now, closing[k]);
        }
        let close = match layout.window(window) {
            Some(found) => !found.ghosting() && found.state.visibility.sends_close(
                found.content_size(),
                now,
            ),
            None => false,
        };
        if close {
            let longer = closing.push(window);
            assert(!closing.contains(window));
            assert(longer.no_duplicates());
            assert forall|k: int| 0 <= k < longer.len() implies is_told(next, #[trigger] longer[k]) by {
                if k < closing.len() {
                    assert(longer[k] == closing[k]);
                }
            }
            assert(is_told(layout, id) && !closing.contains(id) ==> !longer.contains(id));
            lemma_closing_once(next, windows, i + 1, now, longer, id);
        } else {
            lemma_closing_once(next, windows, i + 1, now, closing, id);
        }
    }
}

/// The close requests for several windows.
pub open spec fn close_requests(windows: Seq<u64>) -> Seq<Action> {
    Seq::new(windows.len(), |i: int| Action::SendClose { window: windows[i] })
}

proof fn lemma_closes_sent(layout: Layout, windows: Seq<u64>, i: int, id: u64)
    requires
        0 <= i <= windows.len(),
    ensures
        layout.closes_sent(windows, i).actions == layout.actions + close_requests(windows.skip(i)),
        layout.closes_sent(windows, i).window(id) == layout.window(id),
    decreases windows.len() - i,
{
    if i < windows.len() {
        let action = Action::SendClose { window: windows[i] };
        lemma_acting(layout, action, id);
        lemma_closes_sent(layout.acting(action), windows, i + 1, id);
        assert(close_requests(windows.skip(i)) =~= seq![action] + close_requests(
            windows.skip(i + 1),
        ));
        assert(layout.actions.push(action) + close_requests(windows.skip(i + 1))
            =~= layout.actions + close_requests(windows.skip(i)));
    } else {
        assert(layout.actions + close_requests(windows.skip(i)) =~= layout.actions);
    }
}

/// Each frame adds the close requests that are due, one for a window at most,
/// and a window that was told to close is not told again on the next frame,
/// whichever windows that frame goes through.
pub proof fn closes_are_sent_once(
    layout: Layout,
    windows: Seq<u64>,
    now: Instant,
    next_windows: Seq<u64>,
    later: Instant,
    id: u64,
)
    ensures
        ({
            let closing = layout.visibilities_ticked(windows, 0, now, Seq::empty()).1;
            let after = layout.all_visibilities_ticked(windows, now);
            let again = after.visibilities_ticked(next_windows, 0, later, Seq::empty()).1;
            &&& closing.no_duplicates()
            &&& after.actions == layout.actions + close_requests(closing)
            &&& closing.contains(id) ==> !again.contains(id)
            &&& after.all_visibilities_ticked(next_windows, later).actions == after.actions
                + close_requests(again)
        }),
{
    let (ticked, closing) = layout.visibilities_ticked(windows, 0, now, Seq::empty());
    let after = layout.all_visibilities_ticked(windows, now);
    let (ticked_again, again) = after.visibilities_ticked(next_windows, 0, later, Seq::empty());
    lemma_closing_once(layout, windows, 0, now, Seq::empty(), id);
    lemma_closes_sent(ticked, closing, 0, id);
    assert(closing.skip(0) =~= closing);
    lemma_closing_once(after, next_windows, 0, later, Seq::empty(), id);
    lemma_closes_sent(ticked_again, again, 0, id);
    assert(again.skip(0) =~= again);
    if closing.contains(id) {
        let k = choose|k: int| 0 <= k < closing.len() && closing[k] == id;
        assert(is_told(ticked, closing[k]));
        assert(is_told(after, id));
    }
}

/// Whether no window is listed twice.
pub open spec fn listed_once(windows: Seq<(u64, bool)>) -> bool {
    forall|i: int, j: int|
        0 <= i < j < windows.len() ==> (#[trigger] windows[i]).0 != (#[trigger] windows[j]).0
}

/// Whether every entry of a window list has a number of its own.
pub open spec fn entries_are_distinct(list: Seq<Info>) -> bool {
    forall|a: int, b: int|
        0 <= a < b < list.len() ==> (#[trigger] list[a]).id != (#[trigger] list[b]).id
}

/// Whether `number` is that of one of the first `i` windows.
spec fn is_number_of(desk: Desk, windows: Seq<(u64, bool)>, i: int, number: u64) -> bool {
    exists|k: int|
        0 <= k < i && match desk.layout.window((#[trigger] windows[k]).0) {
            Some(window) => window.state.panel_id == Some(number),
            None => false,
        }
}

/// Windows of different ids have different numbers.
proof fn lemma_other_numbers(desk: Desk, a: u64, b: u64)
    requires
        numbers_are_distinct(desk),
        a != b,
        desk.layout.window(a) is Some,
        desk.layout.window(b) is Some,
        desk.layout.window(a)->0.state.panel_id is Some,
    ensures
        desk.layout.window(a)->0.state.panel_id != desk.layout.window(b)->0.state.panel_id,
{
    reveal(Layout::window);
    lemma_window_index_bounds(desk.layout.windows, a, 0);
    lemma_window_index_bounds(desk.layout.windows, b, 0);
    let i = window_index(desk.layout.windows, a, 0)->0;
    let j = window_index(desk.layout.windows, b, 0)->0;
    assert(desk.layout.windows[i].id == a && desk.layout.windows[j].id == b);
    if i < j {
        assert(desk.layout.windows[i].state.panel_id != desk.layout.windows[j].state.panel_id);
    } else {
        assert(desk.layout.windows[j].state.panel_id is Some ==> desk.layout.windows[j].state.panel_id
            != desk.layout.windows[i].state.panel_id);
    }
}

/// Listing a window gives it its number, and leaves the numbers that windows
/// have.
proof fn lemma_listing(desk: Desk, id: u64, minimized: bool, names: Seq<WindowName>, other: u64)
    requires
        numbers_are_distinct(desk),
        desk.next_panel_id < u64::MAX,
    ensures
        ({
            let (after, info) = desk.listing(id, minimized, names);
            &&& numbers_are_distinct(after)
            &&& after.next_panel_id <= desk.next_panel_id + 1
            &&& desk.layout.window(other) is Some
                && desk.layout.window(other)->0.state.panel_id is Some ==> {
                &&& after.layout.window(other) is Some
                &&& after.layout.window(other)->0.state.panel_id == desk.layout.window(
                    other,
                )->0.state.panel_id
            }
            &&& info is Some ==> {
                &&& after.layout.window(id) is Some
                &&& after.layout.window(id)->0.state.panel_id == Some(info->0.id)
            }
        }),
{
    reveal(Layout::window);
    lemma_window_index_bounds(desk.layout.windows, id, 0);
    match desk.layout.window(id) {
        Some(window) => {
            panel_numbers_stay_distinct(
                desk,
                id,
                minimized,
                names,
                window_index(desk.layout.windows, id, 0)->0,
            );
            lemma_window_replaced(desk.layout, window.numbered(desk.next_panel_id), other);
            lemma_window_replaced(desk.layout, window.numbered(desk.next_panel_id), id);
        },
        None => {},
    }
}

proof fn lemma_all_listing(
    desk: Desk,
    windows: Seq<(u64, bool)>,
    i: int,
    names: Seq<WindowName>,
    before: Seq<Info>,
)
    requires
        0 <= i <= windows.len(),
        numbers_are_distinct(desk),
        desk.next_panel_id + (windows.len() - i) <= u64::MAX,
        listed_once(windows),
        entries_are_distinct(before),
        forall|a: int|
            0 <= a < before.len() ==> is_number_of(desk, windows, i, (#[trigger] before[a]).id),
    ensures
        entries_are_distinct(desk.all_listing(windows, i, names, before).1),
    decreases windows.len() - i,
{
    if i < windows.len() {
        let id = windows[i].0;
        let (next, info) = desk.listing(id, windows[i].1, names);
        lemma_listing(desk, id, windows[i].1, names, id);
        let list = match info {
            Some(info) => before.push(info),
            None => before,
        };
        assert forall|a: int| 0 <= a < list.len() implies is_number_of(
            next,
            windows,
            i + 1,
            (#[trigger] list[a]).id,
        ) by {
            if a < before.len() {
                assert(list[a] == before[a]);
                let k = choose|k: int|
                    0 <= k < i && match desk.layout.window((#[trigger] windows[k]).0) {
                        Some(window) => window.state.panel_id == Some(before[a].id),
                        None => false,
                    };
                lemma_listing(desk, id, windows[i].1, names, windows[k].0);
                assert(next.layout.window(windows[k].0)->0.state.panel_id == Some(before[a].id));
            } else {
                assert(next.layout.window(windows[i].0)->0.state.panel_id == Some(list[a].id));
            }
        }
        assert forall|a: int, b: int| 0 <= a < b < list.len() implies (#[trigger] list[a]).id != (
        #[trigger] list[b]).id by {
            assert(list[a] == before[a]);
            if b < before.len() {
                assert(list[b] == before[b]);
            } else {
                let k = choose|k: int|
                    0 <= k < i && match desk.layout.window((#[trigger] windows[k]).0) {
                        Some(window) => window.state.panel_id == Some(before[a].id),
                        None => false,
                    };
                assert(is_number_of(desk, windows, i, before[a].id));
                lemma_listing(desk, id, windows[i].1, names, windows[k].0);
                assert(windows[k].0 != windows[i].0);
                lemma_other_numbers(next, windows[k].0, id);
            }
        }
        lemma_all_listing(next, windows, i + 1, names, list);
    }
}

/// A whole snapshot of the window list keeps the numbers of all windows distinct,
/// and a window that has one keeps it. Where no window is listed twice, every
/// entry of the list has a number of its own.
pub proof fn snapshots_list_distinct_numbers(desk: Desk, names: Seq<WindowName>, id: u64)
    requires
        numbers_are_distinct(desk),
        desk.can_number(),
    ensures
        ({
            let (after, list) = desk.published(names);
            &&& numbers_are_distinct(after)
            &&& listed_once(desk.listed()) ==> entries_are_distinct(list)
            &&& desk.layout.window(id) is Some && desk.layout.window(id)->0.state.panel_id is Some
                ==> after.layout.window(id) == desk.layout.window(id)
        }),
{
    let windows = desk.listed();
    lemma_numbers_kept(desk, windows, 0, names, Seq::empty());
    lemma_published(desk, desk, windows, 0, names, Seq::empty());
    if listed_once(windows) {
        lemma_all_listing(desk, windows, 0, names, Seq::empty());
    }
}

proof fn lemma_numbers_kept(
    desk: Desk,
    windows: Seq<(u64, bool)>,
    i: int,
    names: Seq<WindowName>,
    before: Seq<Info>,
)
    requires
        0 <= i <= windows.len(),
        numbers_are_distinct(desk),
        desk.next_panel_id + (windows.len() - i) <= u64::MAX,
    ensures
        numbers_are_distinct(desk.all_listing(windows, i, names, before).0),
    decreases windows.len() - i,
{
    if i < windows.len() {
        let (next, info) = desk.listing(windows[i].0, windows[i].1, names);
        lemma_listing(desk, windows[i].0, windows[i].1, names, 0);
        let list = match info {
            Some(info) => before.push(info),
            None => before,
        };
        lemma_numbers_kept(next, windows, i + 1, names, list);
    }
}

/// Whether the window `id` is one of the first `i`.
pub open spec fn listed_before(windows: Seq<(u64, bool)>, i: int, id: u64) -> bool {
    exists|j: int| 0 <= j < i && (#[trigger] windows[j]).0 == id
}

/// Whether the window in the `i`th place gets a number there: it is no ghost, has
/// none, and is not listed before.
pub open spec fn is_newcomer(desk: Desk, windows: Seq<(u64, bool)>, i: int) -> bool {
    match desk.layout.window(windows[i].0) {
        Some(window) => !window.ghosting() && window.state.panel_id is None && !listed_before(
            windows,
            i,
            windows[i].0,
        ),
        None => false,
    }
}

/// How many of the windows from the `i`th on get a number.
pub open spec fn newcomers(desk: Desk, windows: Seq<(u64, bool)>, i: int) -> int
    decreases windows.len() - i,
{
    if i < 0 || i >= windows.len() {
        0
    } else {
        (if is_newcomer(desk, windows, i) { 1int } else { 0 }) + newcomers(desk, windows, i + 1)
    }
}

/// What the windows from the `i`th on are listed as: those that are no ghosts, in
/// order, with the numbers they have.
pub open spec fn entries_of(
    desk: Desk,
    windows: Seq<(u64, bool)>,
    i: int,
    names: Seq<WindowName>,
) -> Seq<Info>
    decreases windows.len() - i,
{
    if i < 0 || i >= windows.len() {
        Seq::empty()
    } else {
        let (id, minimized) = windows[i];
        let rest = entries_of(desk, windows, i + 1, names);
        match desk.layout.window(id) {
            Some(window) if !window.ghosting() => {
                let (app_id, title) = name_of(names, id, 0);
                seq![
                    Info {
                        id: window.state.panel_id->0,
                        focused: desk.has_keyboard && desk.focus == Some(id),
                        minimized,
                        app_id,
                        title,
                    },
                ] + rest
            },
            _ => rest,
        }
    }
}

/// A window before and after the windows listed so far got their numbers.
spec fn is_numbered(
    before: Option<WindowElement>,
    after: Option<WindowElement>,
    listed: bool,
) -> bool {
    match (before, after) {
        (Some(b), Some(a)) => if b.state.panel_id is None && !b.ghosting() && listed {
            a.state.panel_id is Some && a == b.numbered(a.state.panel_id->0)
        } else {
            a == b
        },
        (None, None) => true,
        _ => false,
    }
}

/// Whether `desk` is `first` with numbers for the first `i` windows.
spec fn numbered_so_far(first: Desk, desk: Desk, windows: Seq<(u64, bool)>, i: int) -> bool {
    &&& desk.layout.elements == first.layout.elements
    &&& desk.minimized == first.minimized
    &&& desk.has_keyboard == first.has_keyboard
    &&& desk.focus == first.focus
    &&& forall|id: u64|
        is_numbered(
            first.layout.window(id),
            #[trigger] desk.layout.window(id),
            listed_before(windows, i, id),
        )
}

proof fn lemma_listing_numbers(
    first: Desk,
    desk: Desk,
    windows: Seq<(u64, bool)>,
    i: int,
    names: Seq<WindowName>,
)
    requires
        0 <= i < windows.len(),
        numbered_so_far(first, desk, windows, i),
    ensures
        ({
            let (next, info) = desk.listing(windows[i].0, windows[i].1, names);
            &&& numbered_so_far(first, next, windows, i + 1)
            &&& desk.next_panel_id < u64::MAX ==> next.next_panel_id == desk.next_panel_id + (
            if is_newcomer(first, windows, i) {
                1int
            } else {
                0
            })
            &&& forall|id: u64|
                desk.layout.window(id) is Some && desk.layout.window(id)->0.state.panel_id is Some
                    ==> #[trigger] next.layout.window(id) == desk.layout.window(id)
        }),
{
    let id = windows[i].0;
    let (next, info) = desk.listing(id, windows[i].1, names);
    assert(is_numbered(
        first.layout.window(id),
        desk.layout.window(id),
        listed_before(windows, i, id),
    ));
    assert(desk.layout.window(id) is Some ==> desk.layout.window(id)->0.id == id) by {
        reveal(Layout::window);
        lemma_window_index_bounds(desk.layout.windows, id, 0);
    }
    assert(windows[i].0 == id);
    assert forall|other: u64|
        is_numbered(
            first.layout.window(other),
            #[trigger] next.layout.window(other),
            listed_before(windows, i + 1, other),
        ) && (desk.layout.window(other) is Some && desk.layout.window(other)->0.state.panel_id is Some
            ==> next.layout.window(other) == desk.layout.window(other)) by {
        assert(is_numbered(
            first.layout.window(other),
            desk.layout.window(other),
            listed_before(windows, i, other),
        ));
        match desk.layout.window(id) {
            Some(window) => lemma_window_replaced(
                desk.layout,
                window.numbered(desk.next_panel_id),
                other,
            ),
            None => {},
        }
        if listed_before(windows, i, other) {
            let j = choose|j: int| 0 <= j < i && (#[trigger] windows[j]).0 == other;
            assert(windows[j].0 == other && j < i + 1);
        }
        if other != id && listed_before(windows, i + 1, other) {
            let j = choose|j: int| 0 <= j < i + 1 && (#[trigger] windows[j]).0 == other;
            assert(j < i);
        }
    }
    match desk.layout.window(id) {
        Some(window) => {
            lemma_window_replaced(desk.layout, window.numbered(desk.next_panel_id), id);
        },
        None => {},
    }
}

proof fn lemma_published(
    first: Desk,
    desk: Desk,
    windows: Seq<(u64, bool)>,
    i: int,
    names: Seq<WindowName>,
    before: Seq<Info>,
)
    requires
        0 <= i <= windows.len(),
        numbered_so_far(first, desk, windows, i),
    ensures
        ({
            let (after, list) = desk.all_listing(windows, i, names, before);
            &&& numbered_so_far(first, after, windows, windows.len() as int)
            &&& list == before + entries_of(after, windows, i, names)
            &&& entries_of(after, windows, i, names).len() <= windows.len() - i
            &&& desk.next_panel_id + (windows.len() - i) <= u64::MAX ==> after.next_panel_id
                == desk.next_panel_id + newcomers(first, windows, i)
            &&& forall|id: u64|
                desk.layout.window(id) is Some && desk.layout.window(id)->0.state.panel_id is Some
                    ==> #[trigger] after.layout.window(id) == desk.layout.window(id)
        }),
    decreases windows.len() - i,
{
    let (after, list) = desk.all_listing(windows, i, names, before);
    if i < windows.len() {
        let id = windows[i].0;
        let (next, info) = desk.listing(id, windows[i].1, names);
        lemma_listing_numbers(first, desk, windows, i, names);
        let longer = match info {
            Some(info) => before.push(info),
            None => before,
        };
        lemma_published(first, next, windows, i + 1, names, longer);
        assert forall|other: u64|
            desk.layout.window(other) is Some && desk.layout.window(other)->0.state.panel_id is Some
                implies #[trigger] after.layout.window(other) == desk.layout.window(other) by {
            assert(next.layout.window(other) == desk.layout.window(other));
        }
        assert(is_numbered(
            first.layout.window(id),
            next.layout.window(id),
            listed_before(windows, i + 1, id),
        ));
        assert(is_numbered(
            first.layout.window(id),
            after.layout.window(id),
            listed_before(windows, windows.len() as int, id),
        ));
        assert(is_numbered(
            first.layout.window(id),
            desk.layout.window(id),
            listed_before(windows, i, id),
        ));
        assert(listed_before(windows, i + 1, id)) by {
            assert(windows[i].0 == id);
        }
        let rest = entries_of(after, windows, i + 1, names);
        match desk.layout.window(id) {
            Some(window) if !window.ghosting() => {
                assert(desk.layout.window(id)->0.id == id) by {
                    reveal(Layout::window);
                    lemma_window_index_bounds(desk.layout.windows, id, 0);
                }
                lemma_window_replaced(desk.layout, window.numbered(desk.next_panel_id), id);
                assert(next.layout.window(id)->0.state.panel_id == Some(info->0.id));
                assert(after.layout.window(id) == next.layout.window(id));
                assert(entries_of(after, windows, i, names) =~= seq![info->0] + rest);
                assert(before.push(info->0) + rest =~= before + (seq![info->0] + rest));
            },
            _ => {
                assert(entries_of(after, windows, i, names) == rest);
            },
        }
    } else {
        assert(before + entries_of(after, windows, i, names) =~= before);
    }
}

proof fn lemma_nothing_to_number(
    desk: Desk,
    windows: Seq<(u64, bool)>,
    i: int,
    names: Seq<WindowName>,
    before: Seq<Info>,
)
    requires
        0 <= i <= windows.len(),
        forall|k: int|
            0 <= k < windows.len() ==> match desk.layout.window((#[trigger] windows[k]).0) {
                Some(window) => window.ghosting() || window.state.panel_id is Some,
                None => true,
            },
    ensures
        desk.all_listing(windows, i, names, before).0 == desk,
    decreases windows.len() - i,
{
    if i < windows.len() {
        let (next, info) = desk.listing(windows[i].0, windows[i].1, names);
        assert(next == desk);
        let longer = match info {
            Some(info) => before.push(info),
            None => before,
        };
        lemma_nothing_to_number(desk, windows, i + 1, names, longer);
    }
}

/// After a snapshot every listed window that is no ghost has a number, the next
/// number has grown by as many as there were windows without one, and nothing
/// else of a window has changed. A second snapshot changes nothing and lists the
/// same.
pub proof fn snapshots_number_every_window(desk: Desk, names: Seq<WindowName>, k: int)
    requires
        numbers_are_distinct(desk),
        desk.can_number(),
        0 <= k < desk.listed().len(),
    ensures
        ({
            let (after, list) = desk.published(names);
            let id = desk.listed()[k].0;
            &&& after.listed() == desk.listed()
            &&& after.next_panel_id == desk.next_panel_id + newcomers(desk, desk.listed(), 0)
            &&& match (desk.layout.window(id), after.layout.window(id)) {
                (Some(before), Some(window)) => {
                    &&& window.ghosting() == before.ghosting()
                    &&& !window.ghosting() ==> {
                        &&& window.state.panel_id is Some
                        &&& window.state.panel_id->0 < after.next_panel_id
                        &&& window == before.numbered(window.state.panel_id->0)
                    }
                },
                (None, None) => true,
                _ => false,
            }
            &&& after.published(names) == (after, list)
        }),
{
    let windows = desk.listed();
    let (after, list) = desk.published(names);
    lemma_published(desk, desk, windows, 0, names, Seq::empty());
    assert(Seq::<Info>::empty() + entries_of(after, windows, 0, names) =~= list);
    assert(after.listed() =~= windows);
    assert forall|j: int| 0 <= j < windows.len() implies match after.layout.window(
        (#[trigger] windows[j]).0,
    ) {
        Some(window) => window.ghosting() || window.state.panel_id is Some,
        None => true,
    } by {
        let id = windows[j].0;
        assert(is_numbered(
            desk.layout.window(id),
            after.layout.window(id),
            listed_before(windows, windows.len() as int, id),
        ));
        assert(listed_before(windows, windows.len() as int, id));
    }
    lemma_nothing_to_number(after, windows, 0, names, Seq::empty());
    lemma_published(after, after, windows, 0, names, Seq::empty());
    lemma_numbers_kept(desk, windows, 0, names, Seq::empty());
    let id = windows[k].0;
    assert(is_numbered(
        desk.layout.window(id),
        after.layout.window(id),
        listed_before(windows, windows.len() as int, id),
    ));
    assert(listed_before(windows, windows.len() as int, id));
    reveal(Layout::window);
    lemma_window_index_bounds(after.layout.windows, id, 0);
}

/// The panel reads the window list back as it is: one entry for each window that
/// is no ghost, the mapped ones first and then the minimized ones, each with its
/// number, its flags and its own texts, in which blanks stand for what would break
/// the framing.
pub proof fn published_lists_are_read_back(desk: Desk, names: Seq<WindowName>)
    requires
        desk.listed().len() <= u64::MAX,
    ensures
        ({
            let (after, list) = desk.published(names);
            let shown = entries_of(after, desk.listed(), 0, names);
            &&& list == shown
            &&& parsed_snapshot(snapshot_text(list)) == Some(
                Seq::new(shown.len(), |i: int| sanitized_info(shown[i])),
            )
        }),
{
    let (after, list) = desk.published(names);
    lemma_published(desk, desk, desk.listed(), 0, names, Seq::empty());
    assert(Seq::<Info>::empty() + entries_of(after, desk.listed(), 0, names) =~= list);
    snapshot_round_trip(list);
}

} // verus!
