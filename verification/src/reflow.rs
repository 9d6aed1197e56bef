//! How the windows of a tiled group move along with the one that is resized.

use vstd::prelude::*;

use crate::effects::{
    has_room, is_framed, lemma_acted, lemma_advanced, lemma_put_wf, lemma_same_places,
    lemma_window_wf, same_places,
};
use crate::element::{SurfaceKind, WindowElement};
use crate::grabs::ResizeEdge;
use crate::group::edges_facing_divider;
use crate::laws::{lemma_ids_match, lemma_window_replaced};
use crate::snap::{SnapGrid, SnapZone};
use crate::space::{lemma_placed_index_bounds, mapped_once, placed_index, Action, Layout};
use crate::utils::{Rectangle, Size};

verus! {

/// What advancing a resize leaves of the window.
proof fn lemma_advanced_window(layout: Layout, id: u64)
    requires
        layout.window(id) is Some,
        layout.window(id)->0.surfaced(),
    ensures
        ({
            let before = layout.window(id)->0;
            let after = layout.advancing(id);
            let window = after.window(id)->0;
            let next = before.resize_state().next_size(before.acked);
            &&& after.window(id) is Some
            &&& window == (WindowElement { client: window.client, ..before.settled() })
            &&& before.kind == SurfaceKind::Wayland && next is Some ==> {
                &&& window.client.size == next
                &&& window.client.resizing
                &&& after.actions == layout.actions.push(
                    Action::ResizeConfigure { window: id, client: window.client, size: next->0 },
                )
            }
        }),
{
    lemma_ids_match(layout);
    let before = layout.window(id)->0;
    let settled = before.settled();
    lemma_window_replaced(layout, settled, id);
    match before.resize_state().next_size(before.acked) {
        Some(size) => {
            let client = before.resized_client(size, true);
            lemma_window_replaced(layout, settled.telling(client), id);
            lemma_acted(
                layout.with_window(settled.telling(client)),
                Action::ResizeConfigure { window: id, client, size },
                id,
            );
            match layout.location(id) {
                Some(current) => lemma_acted(
                    layout.with_window(settled),
                    Action::ResizeX11 { window: id, rect: settled.anchored_rect(size, current) },
                    id,
                ),
                None => {},
            }
        },
        None => {},
    }
}

/// Driving one window moves nothing and leaves every other window as it is.
proof fn lemma_driving_others(
    layout: Layout,
    id: u64,
    edges: ResizeEdge,
    rect: Rectangle,
    other: u64,
)
    ensures
        same_places(layout, layout.driving(id, edges, rect)),
        other != id ==> layout.driving(id, edges, rect).window(other) == layout.window(other),
{
    lemma_ids_match(layout);
    match (layout.window(id), layout.location(id)) {
        (Some(window), Some(loc)) => {
            let driven = window.with_resize(
                window.resize_state().driven(
                    edges,
                    loc,
                    window.content_size(),
                    crate::xdg::undecorated(rect.size, window.state.is_ssd),
                ),
            );
            lemma_window_replaced(layout, driven, other);
            lemma_window_replaced(layout, driven, id);
            lemma_advanced(layout.with_window(driven), id, other);
        },
        _ => {},
    }
}

proof fn lemma_reflowing_others(
    layout: Layout,
    id: u64,
    window: u64,
    grid: SnapGrid,
    area: Rectangle,
    other: u64,
)
    ensures
        same_places(layout, layout.reflowing(id, window, grid, area)),
        other != id || other == window ==> layout.reflowing(id, window, grid, area).window(other)
            == layout.window(other),
{
    lemma_ids_match(layout);
    match layout.window(id) {
        Some(found) if id != window && !found.state.header_bar.fullscreen && found.state.snap
            is Some => {
            let zone = found.state.snap->0.zone;
            lemma_window_replaced(layout, found.regridded(grid), other);
            lemma_driving_others(
                layout.with_window(found.regridded(grid)),
                id,
                edges_facing_divider(zone),
                grid.cell(zone, area),
                other,
            );
        },
        _ => {},
    }
}

proof fn lemma_reflowed_others(
    layout: Layout,
    members: Seq<u64>,
    i: int,
    window: u64,
    grid: SnapGrid,
    area: Rectangle,
    other: u64,
)
    requires
        0 <= i <= members.len(),
    ensures
        ({
            let after = layout.reflowed(members, i, window, grid, area);
            &&& same_places(layout, after)
            &&& other == window || (forall|k: int| i <= k < members.len() ==> members[k] != other)
                ==> after.window(other) == layout.window(other)
        }),
    decreases members.len() - i,
{
    if i < members.len() {
        lemma_reflowing_others(layout, members[i], window, grid, area, other);
        lemma_reflowed_others(
            layout.reflowing(members[i], window, grid, area),
            members,
            i + 1,
            window,
            grid,
            area,
            other,
        );
    }
}

/// A member that is driven into its cell is in a resize to the content that fills
/// it.
pub open spec fn is_driven_into(window: WindowElement, cell: Rectangle, zone: SnapZone) -> bool {
    &&& window.resize is Resizing
    &&& has_room(cell.size, window.state.is_ssd) ==> is_framed(
        window.resize->Resizing_0.last_window_size,
        cell.size,
        window.state.is_ssd,
    )
    &&& window.resize->Resizing_0.edges == faces(zone)
}

/// The edges of a cell that the dividers move.
pub open spec fn faces(zone: SnapZone) -> ResizeEdge {
    match zone {
        SnapZone::LeftHalf => ResizeEdge { top: false, bottom: false, left: false, right: true },
        SnapZone::RightHalf => ResizeEdge { top: false, bottom: false, left: true, right: false },
        SnapZone::TopHalf => ResizeEdge { top: false, bottom: true, left: false, right: false },
        SnapZone::BottomHalf => ResizeEdge { top: true, bottom: false, left: false, right: false },
        SnapZone::TopLeft => ResizeEdge { top: false, bottom: true, left: false, right: true },
        SnapZone::TopRight => ResizeEdge { top: false, bottom: true, left: true, right: false },
        SnapZone::BottomLeft => ResizeEdge { top: true, bottom: false, left: false, right: true },
        SnapZone::BottomRight => ResizeEdge { top: true, bottom: false, left: true, right: false },
        SnapZone::Maximize => ResizeEdge { top: false, bottom: false, left: false, right: false },
    }
}

/// Whether the window can be driven along with its group.
pub open spec fn can_be_driven(layout: Layout, id: u64) -> bool {
    match layout.window(id) {
        Some(window) => {
            &&& layout.location(id) is Some
            &&& !window.ghosting()
            &&& window.client_alive
            &&& window.surface is Some
            &&& window.has_resize_data
            &&& window.kind == SurfaceKind::Wayland
            &&& window.state.snap is Some
            &&& !window.state.header_bar.fullscreen
        },
        None => false,
    }
}

proof fn lemma_reflowing_member(
    layout: Layout,
    id: u64,
    window: u64,
    grid: SnapGrid,
    area: Rectangle,
)
    requires
        can_be_driven(layout, id),
        id != window,
    ensures
        ({
            let before = layout.window(id)->0;
            let zone = before.state.snap->0.zone;
            let after = layout.reflowing(id, window, grid, area);
            let driven = after.window(id)->0;
            &&& after.window(id) is Some
            &&& is_driven_into(driven, grid.cell(zone, area), zone)
            &&& driven.state.snap is Some
            &&& driven.state.snap->0.grid == grid
            &&& driven.state.snap->0.zone == zone
            &&& driven.content_size() == before.content_size()
            &&& !(before.resize is Resizing) && driven.resize->Resizing_0.last_window_size
                != before.content_size() ==> {
                &&& driven.client.size == Some(driven.resize->Resizing_0.last_window_size)
                &&& driven.client.resizing
            }
        }),
{
    lemma_ids_match(layout);
    let found = layout.window(id)->0;
    let zone = found.state.snap->0.zone;
    let cell = grid.cell(zone, area);
    let kept = layout.with_window(found.regridded(grid));
    lemma_window_replaced(layout, found.regridded(grid), id);
    lemma_same_places(layout, kept, id);
    let regridded = found.regridded(grid);
    let loc = kept.location(id)->0;
    let driven = regridded.with_resize(
        regridded.resize_state().driven(
            edges_facing_divider(zone),
            loc,
            regridded.content_size(),
            crate::xdg::undecorated(cell.size, regridded.state.is_ssd),
        ),
    );
    let driving = kept.with_window(driven);
    lemma_window_replaced(kept, driven, id);
    lemma_advanced_window(driving, id);
}

/// The place of a tiled window among the members, which hold no window twice.
proof fn lemma_members(layout: Layout, i: int, id: u64)
    requires
        mapped_once(layout.elements),
        0 <= i <= layout.elements.len(),
    ensures
        ({
            let members = layout.members(i);
            &&& forall|k: int|
                0 <= k < members.len() ==> exists|j: int|
                    i <= j < layout.elements.len() && (#[trigger] layout.elements[j]).window
                        == #[trigger] members[k]
            &&& forall|a: int, b: int|
                0 <= a < b < members.len() ==> #[trigger] members[a] != #[trigger] members[b]
            &&& layout.is_member(id) && (exists|j: int|
                i <= j < layout.elements.len() && (#[trigger] layout.elements[j]).window == id)
                ==> members.contains(id)
        }),
    decreases layout.elements.len() - i,
{
    if i < layout.elements.len() {
        lemma_members(layout, i + 1, id);
        let first = layout.elements[i].window;
        let rest = layout.members(i + 1);
        let members = layout.members(i);
        if layout.is_member(first) {
            assert(members =~= seq![first] + rest);
            assert forall|k: int| 0 <= k < members.len() implies exists|j: int|
                i <= j < layout.elements.len() && (#[trigger] layout.elements[j]).window
                    == #[trigger] members[k] by {
                if k == 0 {
                    assert(layout.elements[i].window == members[k]);
                } else {
                    assert(members[k] == rest[k - 1]);
                    let j = choose|j: int|
                        i + 1 <= j < layout.elements.len() && (#[trigger] layout.elements[j]).window
                            == rest[k - 1];
                    assert(layout.elements[j].window == members[k]);
                }
            }
            assert forall|a: int, b: int| 0 <= a < b < members.len() implies #[trigger] members[a]
                != #[trigger] members[b] by {
                assert(members[b] == rest[b - 1]);
                if a > 0 {
                    assert(members[a] == rest[a - 1]);
                } else {
                    let j = choose|j: int|
                        i + 1 <= j < layout.elements.len() && (#[trigger] layout.elements[j]).window
                            == rest[b - 1];
                    assert(layout.elements[i].window != layout.elements[j].window);
                }
            }
            if first == id {
                assert(members[0] == id);
            } else if rest.contains(id) {
                let k = choose|k: int| 0 <= k < rest.len() && rest[k] == id;
                assert(members[k + 1] == id);
            }
        } else {
            assert(members == rest);
        }
        if layout.is_member(id) && (exists|j: int|
            i <= j < layout.elements.len() && (#[trigger] layout.elements[j]).window == id)
            && first != id {
            let j = choose|j: int|
                i <= j < layout.elements.len() && (#[trigger] layout.elements[j]).window == id;
            assert(i + 1 <= j);
        }
    }
}

proof fn lemma_reflowed_member(
    layout: Layout,
    members: Seq<u64>,
    i: int,
    window: u64,
    grid: SnapGrid,
    area: Rectangle,
    k: int,
)
    requires
        0 <= i <= k < members.len(),
        can_be_driven(layout, members[k]),
        members[k] != window,
        forall|a: int, b: int|
            0 <= a < b < members.len() ==> #[trigger] members[a] != #[trigger] members[b],
    ensures
        ({
            let id = members[k];
            let before = layout.window(id)->0;
            let zone = before.state.snap->0.zone;
            let after = layout.reflowed(members, i, window, grid, area);
            let driven = after.window(id)->0;
            &&& after.window(id) is Some
            &&& is_driven_into(driven, grid.cell(zone, area), zone)
            &&& driven.state.snap is Some
            &&& driven.state.snap->0.grid == grid
            &&& driven.state.snap->0.zone == zone
            &&& driven.content_size() == before.content_size()
            &&& !(before.resize is Resizing) && driven.resize->Resizing_0.last_window_size
                != before.content_size() ==> {
                &&& driven.client.size == Some(driven.resize->Resizing_0.last_window_size)
                &&& driven.client.resizing
            }
        }),
    decreases members.len() - i,
{
    let id = members[k];
    let next = layout.reflowing(members[i], window, grid, area);
    lemma_reflowing_others(layout, members[i], window, grid, area, id);
    lemma_same_places(layout, next, id);
    if i < k {
        lemma_reflowed_member(next, members, i + 1, window, grid, area, k);
    } else {
        lemma_reflowing_member(layout, id, window, grid, area);
        lemma_reflowed_others(next, members, i + 1, window, grid, area, id);
    }
}

/// When an edge of a tiled window is dragged, every other window of the group is
/// driven into its own cell between the moved dividers: its client is asked for
/// the content that fills the cell, and it is held by the edges that face the
/// dividers. None of them moves or changes its displayed size before its client
/// has answered, and windows outside the group are not touched.
pub proof fn dragged_edges_drive_the_group(
    layout: Layout,
    window: u64,
    area: Rectangle,
    edges: ResizeEdge,
    intended: Size,
    member: u64,
)
    requires
        layout.wf(),
        layout.window(window) is Some,
        layout.window(window)->0.state.snap is Some,
        layout.window(window)->0.state.snap->0.zone != SnapZone::Maximize,
        member != window,
        layout.window(member) is Some,
    ensures
        ({
            let after = layout.splitting(window, area, edges, intended);
            let grid = after.window(window)->0.state.snap->0.grid;
            let before = layout.window(member)->0;
            let driven = after.window(member)->0;
            &&& after.window(window) is Some
            &&& after.window(window)->0.state.snap is Some
            &&& after.window(window)->0.state.snap->0.zone == layout.window(
                window,
            )->0.state.snap->0.zone
            &&& same_places(layout, after)
            &&& after.window(member) is Some
            &&& can_be_driven(layout, member) ==> {
                let zone = before.state.snap->0.zone;
                &&& is_driven_into(driven, grid.cell(zone, area), zone)
                &&& driven.state.snap->0.grid == grid
                &&& driven.state.snap->0.zone == zone
                &&& driven.content_size() == before.content_size()
                &&& !(before.resize is Resizing) && driven.resize->Resizing_0.last_window_size
                    != before.content_size() ==> {
                    &&& driven.client.size == Some(driven.resize->Resizing_0.last_window_size)
                    &&& driven.client.resizing
                }
            }
            &&& before.state.snap is None || before.ghosting() ==> driven == before
        }),
{
    lemma_ids_match(layout);
    lemma_window_wf(layout, window);
    let found = layout.window(window)->0;
    let snap = found.state.snap->0;
    let frame = crate::xdg::decorated(intended, found.state.is_ssd);
    let dragged = snap.grid.dragged_to(snap.zone, area, edges.dragged(), frame);
    let grid = layout.clamped_grid(dragged, area, window);
    let kept = layout.with_window(found.regridded(grid));
    lemma_window_replaced(layout, found.regridded(grid), window);
    lemma_window_replaced(layout, found.regridded(grid), member);
    lemma_put_wf(layout, found.regridded(grid));
    lemma_same_places(layout, kept, member);
    let members = kept.members(0);
    reveal(Layout::wf);
    lemma_members(kept, 0, member);
    lemma_reflowed_others(kept, members, 0, window, grid, area, window);
    lemma_reflowed_others(kept, members, 0, window, grid, area, member);
    if can_be_driven(layout, member) {
        reveal(Layout::location);
        lemma_placed_index_bounds(kept.elements, member, 0);
        let j = placed_index(kept.elements, member, 0)->0;
        assert(kept.elements[j].window == member);
        let k = choose|k: int| 0 <= k < members.len() && members[k] == member;
        lemma_reflowed_member(kept, members, 0, window, grid, area, k);
    } else {
        lemma_window_survives(kept, members, 0, window, grid, area, member);
    }
    if layout.window(member)->0.state.snap is None || layout.window(member)->0.ghosting() {
        assert forall|k: int| 0 <= k < members.len() implies members[k] != member by {
            lemma_members_are_tiled(kept, 0, k);
        }
    }
}

proof fn lemma_members_are_tiled(layout: Layout, i: int, k: int)
    requires
        0 <= i <= layout.elements.len(),
        0 <= k < layout.members(i).len(),
    ensures
        layout.is_member(layout.members(i)[k]),
    decreases layout.elements.len() - i,
{
    if i < layout.elements.len() {
        let first = layout.elements[i].window;
        if layout.is_member(first) {
            if k > 0 {
                lemma_members_are_tiled(layout, i + 1, k - 1);
                assert(layout.members(i)[k] == layout.members(i + 1)[k - 1]);
            }
        } else {
            lemma_members_are_tiled(layout, i + 1, k);
        }
    }
}

proof fn lemma_window_survives(
    layout: Layout,
    members: Seq<u64>,
    i: int,
    window: u64,
    grid: SnapGrid,
    area: Rectangle,
    other: u64,
)
    requires
        0 <= i <= members.len(),
        layout.window(other) is Some,
    ensures
        layout.reflowed(members, i, window, grid, area).window(other) is Some,
    decreases members.len() - i,
{
    if i < members.len() {
        lemma_reflowing_exists(layout, members[i], window, grid, area, other);
        lemma_window_survives(
            layout.reflowing(members[i], window, grid, area),
            members,
            i + 1,
            window,
            grid,
            area,
            other,
        );
    }
}

proof fn lemma_reflowing_exists(
    layout: Layout,
    id: u64,
    window: u64,
    grid: SnapGrid,
    area: Rectangle,
    other: u64,
)
    requires
        layout.window(other) is Some,
    ensures
        layout.reflowing(id, window, grid, area).window(other) is Some,
{
    lemma_ids_match(layout);
    lemma_reflowing_others(layout, id, window, grid, area, other);
    if other == id {
        match layout.window(id) {
            Some(found) if id != window && !found.state.header_bar.fullscreen && found.state.snap
                is Some => {
                let zone = found.state.snap->0.zone;
                let kept = layout.with_window(found.regridded(grid));
                lemma_window_replaced(layout, found.regridded(grid), id);
                lemma_ids_match(kept);
                match (kept.window(id), kept.location(id)) {
                    (Some(w), Some(loc)) => {
                        let driven = w.with_resize(
                            w.resize_state().driven(
                                edges_facing_divider(zone),
                                loc,
                                w.content_size(),
                                crate::xdg::undecorated(
                                    grid.cell(zone, area).size,
                                    w.state.is_ssd,
                                ),
                            ),
                        );
                        lemma_window_replaced(kept, driven, id);
                        lemma_advanced(kept.with_window(driven), id, id);
                    },
                    _ => {},
                }
            },
            _ => {},
        }
    }
}

} // verus!
