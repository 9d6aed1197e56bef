//! What it means to drop a window on an edge of the work area.

use std::time::Instant;
use vstd::prelude::*;

use crate::drag::MoveSurfaceGrab;
use crate::effects::{
    has_room, heads_for, is_framed, lemma_same_windows, tiled_windows_fill_the_preview,
};
use crate::element::SurfaceKind;
use crate::laws::{lemma_ids_match, lemma_window_replaced};
use crate::shell::{first_grid, OCCUPIED_TOLERANCE};
use crate::snap::{zone_of, SnapGrid, SnapZone, SNAP_EDGE_MARGIN};
use crate::space::{Layout, Output};
use crate::state::Desk;
use crate::utils::{abs, FixedPoint, Rectangle, FIXED_ONE};

verus! {

/// Each zone has its own cell of the grid: halves and quarters reach the sides
/// they are named after, meet the others at the dividers, and fill the work area
/// on the axes they are not divided along.
pub proof fn zones_touch_their_sides(grid: SnapGrid, area: Rectangle)
    requires
        area.edges_fit(),
        grid.inside(area),
    ensures
        ({
            let (x, y) = (grid.x as int, grid.y as int);
            let (left, right) = (area.loc.x as int, area.right());
            let (top, bottom) = (area.loc.y as int, area.bottom());
            &&& spans(grid.cell(SnapZone::LeftHalf, area), left, x, top, bottom)
            &&& spans(grid.cell(SnapZone::RightHalf, area), x, right, top, bottom)
            &&& spans(grid.cell(SnapZone::TopHalf, area), left, right, top, y)
            &&& spans(grid.cell(SnapZone::BottomHalf, area), left, right, y, bottom)
            &&& spans(grid.cell(SnapZone::TopLeft, area), left, x, top, y)
            &&& spans(grid.cell(SnapZone::TopRight, area), x, right, top, y)
            &&& spans(grid.cell(SnapZone::BottomLeft, area), left, x, y, bottom)
            &&& spans(grid.cell(SnapZone::BottomRight, area), x, right, y, bottom)
            &&& spans(grid.cell(SnapZone::Maximize, area), left, right, top, bottom)
        }),
{
}

/// Whether `rect` reaches from `left` to `right` and from `top` to `bottom`.
pub open spec fn spans(rect: Rectangle, left: int, right: int, top: int, bottom: int) -> bool {
    &&& rect.loc.x == left && rect.loc.x + rect.size.w == right
    &&& rect.loc.y == top && rect.loc.y + rect.size.h == bottom
}

/// The zone under the pointer lies on the sides that the pointer is near: its cell
/// keeps away from the side opposite each, and reaches both sides of an axis
/// along which the pointer is near neither. Away from all sides there is no zone.
pub proof fn zones_lie_where_the_pointer_is(area: Rectangle, point: FixedPoint, grid: SnapGrid)
    requires
        area.edges_fit(),
        grid.inside(area),
        area.size.w > 2 * SNAP_EDGE_MARGIN,
        area.size.h > 2 * SNAP_EDGE_MARGIN,
    ensures
        ({
            let margin = SNAP_EDGE_MARGIN * FIXED_ONE;
            let left = point.x - area.loc.x * FIXED_ONE <= margin;
            let right = area.right() * FIXED_ONE - point.x <= margin;
            let top = point.y - area.loc.y * FIXED_ONE <= margin;
            let bottom = area.bottom() * FIXED_ONE - point.y <= margin;
            let zone = zone_of(area, point);
            let cell = grid.cell(zone->0, area);
            &&& zone is None <==> !left && !right && !top && !bottom
            &&& zone is Some ==> {
                &&& left <==> cell.right() < area.right()
                &&& right <==> cell.loc.x > area.loc.x
                &&& top <==> cell.bottom() < area.bottom()
                &&& bottom <==> cell.loc.y > area.loc.y
            }
        }),
{
    zones_touch_their_sides(grid, area);
}

/// Whether the window `id` lies within a few pixels of `rect`.
pub open spec fn lies_on(layout: Layout, id: u64, rect: Rectangle, now: Instant) -> bool {
    match (layout.window(id), layout.element_geometry(id, now)) {
        (Some(window), Some(geo)) => {
            &&& !window.ghosting()
            &&& abs(geo.loc.x - rect.loc.x) <= OCCUPIED_TOLERANCE
            &&& abs(geo.loc.y - rect.loc.y) <= OCCUPIED_TOLERANCE
            &&& abs(geo.size.w - rect.size.w) <= OCCUPIED_TOLERANCE
            &&& abs(geo.size.h - rect.size.h) <= OCCUPIED_TOLERANCE
        },
        _ => false,
    }
}

/// The snap target under the pointer is on the output under the pointer, in its
/// work area, and in the zone the pointer is in. Only at the top edge does it
/// depend on the other windows: it is the top half where one of them fills the
/// lower half, and the whole work area where none does.
pub proof fn targets_are_under_the_pointer(
    layout: Layout,
    pointer: FixedPoint,
    exclude: Option<u64>,
    now: Instant,
    k: int,
)
    ensures
        ({
            let output = layout.output_under(pointer);
            let target = layout.snap_target(pointer, exclude, now);
            let area = layout.work_area(output->0)->0;
            let zone = zone_of(area, pointer);
            let lower = SnapGrid::center(area).cell(SnapZone::BottomHalf, area);
            let windows = layout.elements_for(output->0);
            &&& target is Some <==> output is Some && layout.work_area(output->0) is Some && zone
                is Some
            &&& target is Some ==> {
                &&& target->0.output == output->0
                &&& target->0.area == area
                &&& zone != Some(SnapZone::TopHalf) ==> target->0.zone == zone->0
                &&& zone == Some(SnapZone::TopHalf) ==> {
                    &&& target->0.zone == SnapZone::TopHalf || target->0.zone
                        == SnapZone::Maximize
                    &&& 0 <= k < windows.len() && exclude != Some(windows[k]) && lies_on(
                        layout,
                        windows[k],
                        lower,
                        now,
                    ) ==> target->0.zone == SnapZone::TopHalf
                    &&& target->0.zone == SnapZone::TopHalf ==> exists|j: int|
                        0 <= j < windows.len() && exclude != Some(windows[j]) && lies_on(
                            layout,
                            #[trigger] windows[j],
                            lower,
                            now,
                        )
                }
            }
        }),
{
    reveal(Layout::snap_target);
    reveal(Layout::bottom_occupied);
    let output = layout.output_under(pointer);
    if output is Some && layout.work_area(output->0) is Some {
        let area = layout.work_area(output->0)->0;
        let lower = SnapGrid::center(area).cell(SnapZone::BottomHalf, area);
        let windows = layout.elements_for(output->0);
        if layout.bottom_occupied(output->0, area, exclude, now) {
            let j = choose|j: int|
                0 <= j < windows.len() && exclude != Some(windows[j]) && layout.fills(
                    #[trigger] windows[j],
                    lower,
                    now,
                );
            assert(lies_on(layout, windows[j], lower, now));
        }
        if 0 <= k < windows.len() && exclude != Some(windows[k]) && lies_on(
            layout,
            windows[k],
            lower,
            now,
        ) {
            assert(layout.fills(windows[k], lower, now));
        }
    }
}

/// A window that is moved takes note of the target that is under the pointer once
/// it has moved, and of that alone.
pub proof fn moves_note_the_target(
    desk: Desk,
    grab: MoveSurfaceGrab,
    pointer: FixedPoint,
    now: Instant,
)
    ensures
        ({
            let after = grab.moved(desk, pointer, now);
            let target = grab.target(desk.layout, pointer, now);
            &&& after.snap_candidate == target
            &&& target is Some ==> Some(target->0.output) == desk.layout.output_under(pointer)
            &&& desk.snap_candidate != target ==> after.snap_candidate_since == now
            &&& desk.snap_candidate == target ==> after.snap_candidate_since
                == desk.snap_candidate_since
        }),
{
    reveal(Layout::mapped);
    targets_are_under_the_pointer(
        grab.dragged(desk.layout, pointer, now),
        pointer,
        Some(grab.window),
        now,
        0,
    );
}

/// Whether the window `id` is tiled by the same snap in both layouts.
spec fn same_snap(a: Layout, b: Layout, id: u64) -> bool {
    match (a.window(id), b.window(id)) {
        (Some(x), Some(y)) => x.state.snap == y.state.snap,
        (None, None) => true,
        _ => false,
    }
}

proof fn lemma_same_grid(a: Layout, b: Layout, windows: Seq<u64>, i: int)
    requires
        0 <= i <= windows.len(),
        forall|k: int| 0 <= k < windows.len() ==> same_snap(a, b, #[trigger] windows[k]),
    ensures
        first_grid(a, windows, i) == first_grid(b, windows, i),
    decreases windows.len() - i,
{
    if i < windows.len() {
        lemma_same_grid(a, b, windows, i + 1);
        assert(same_snap(a, b, windows[i]));
    }
}

proof fn lemma_pinned_snap(layout: Layout, id: u64, other: u64)
    ensures
        same_snap(layout, layout.pinned(id), other),
{
    reveal(Layout::pinned);
    lemma_ids_match(layout);
    match (layout.location(id), layout.window(id)) {
        (Some(loc), Some(window)) => match window.state.animation {
            Some(animation) => lemma_window_replaced(
                layout,
                window.animated(animation.pinned(loc)),
                other,
            ),
            None => {},
        },
        _ => {},
    }
}

/// A window that is dropped on a target sets out for the rectangle that was
/// previewed for it, from where it was dropped, and is no longer dragged. Dropped
/// anywhere else it stays where it is.
pub proof fn dropped_windows_fill_the_preview(
    desk: Desk,
    grab: MoveSurfaceGrab,
    output: Output,
    accepted: bool,
    now: Instant,
    later: Instant,
)
    requires
        desk.layout.window(grab.window) is Some,
        desk.layout.location(grab.window) is Some,
        !desk.layout.window(grab.window)->0.ghosting(),
        !desk.layout.window(grab.window)->0.state.header_bar.fullscreen,
    ensures
        ({
            let id = grab.window;
            let found = desk.layout.window(id)->0;
            let after = grab.released(desk, accepted, now);
            &&& after.dragging_window is None
            &&& after.snap_candidate is None
            &&& grab.snap_target is None || grab.snap_target->0.zone != SnapZone::Maximize
                ==> after.layout.location(id) == desk.layout.location(id)
            &&& grab.snap_target is Some && grab.snap_target->0.zone != SnapZone::Maximize
                && grab.snap_target->0.output == output.id && found.kind == SurfaceKind::Wayland
                ==> {
                let shown = desk.layout.preview_ticked(
                    output,
                    grab.snap_target,
                    later,
                ).preview->0.rect->0;
                let size = after.layout.window(id)->0.client.size;
                &&& size is Some
                &&& heads_for(after.layout, id, shown.loc, size->0, now)
                &&& has_room(shown.size, found.state.is_ssd) ==> is_framed(
                    size->0,
                    shown.size,
                    found.state.is_ssd,
                )
            }
        }),
{
    let id = grab.window;
    lemma_ids_match(desk.layout);
    let pinned = desk.layout.pinned(id);
    let hidden = pinned.previews_hidden();
    assert(pinned.elements == desk.layout.elements && pinned.overlaps == desk.layout.overlaps
        && pinned.outputs == desk.layout.outputs && pinned.window(id) is Some && ({
        let (before, window) = (desk.layout.window(id)->0, pinned.window(id)->0);
        &&& window.kind == before.kind
        &&& window.ghosting() == before.ghosting()
        &&& window.state.header_bar == before.state.header_bar
        &&& window.state.is_ssd == before.state.is_ssd
        &&& window.state.snap == before.state.snap
    })) by {
        reveal(Layout::pinned);
        let found = desk.layout.window(id)->0;
        match found.state.animation {
            Some(animation) => lemma_window_replaced(
                desk.layout,
                found.animated(animation.pinned(desk.layout.location(id)->0)),
                id,
            ),
            None => {},
        }
    }
    assert(hidden.windows == pinned.windows && hidden.elements == pinned.elements
        && hidden.overlaps == pinned.overlaps) by {
        reveal(Layout::previews_hidden);
    }
    lemma_same_windows(pinned, hidden, id);
    assert(desk.layout.location(id) == pinned.location(id)) by {
        reveal(Layout::location);
    }
    let windows = desk.layout.elements_for(output.id);
    assert forall|k: int| 0 <= k < windows.len() implies same_snap(
        desk.layout,
        hidden,
        #[trigger] windows[k],
    ) by {
        lemma_same_windows(pinned, hidden, windows[k]);
        lemma_pinned_snap(desk.layout, id, windows[k]);
    }
    lemma_same_grid(desk.layout, hidden, windows, 0);
    match grab.snap_target {
        Some(target) => {
            if target.zone != SnapZone::Maximize {
                let shown_on = Output { id: target.output, ..output };
                tiled_windows_fill_the_preview(
                    hidden,
                    shown_on,
                    id,
                    target,
                    accepted,
                    now,
                    later,
                    id,
                );
                if target.output == output.id {
                    assert(hidden.snap_rect(target) == desk.layout.snap_rect(target));
                }
            }
        },
        None => {},
    }
}

} // verus!
