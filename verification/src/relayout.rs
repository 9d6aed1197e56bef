//! Where windows go when they open, and when outputs change.

use std::time::Instant;
use vstd::prelude::*;

use crate::animation::{VisibilityKind, WINDOW_VISIBILITY_NANOS};
use crate::clock::elapsed;
use crate::effects::{
    has_room, is_framed, lemma_acted, lemma_configured, lemma_configured_wf, lemma_mapped,
    lemma_put_wf, lemma_same_places, lemma_window_wf, same_places,
};
use crate::element::{ClientState, SurfaceKind, WindowElement};
use crate::laws::{lemma_ids_match, lemma_window_replaced, remembered_places_are_exact};
use crate::space::{Action, Layout};
use crate::ssd::HEADER_BAR_HEIGHT;
use crate::state::Desk;
use crate::utils::{fits, FixedPoint, Point, Rectangle, Size};
use crate::xdg::undecorated;

verus! {

/// A window is placed in the middle of the work area under the pointer: the room
/// on its left and on its right differ by a pixel at most, and so do those above
/// and below. One that is too large starts at the corner. A Wayland client is told
/// the bounds, and nothing else moves.
pub proof fn windows_are_placed_in_the_middle(
    layout: Layout,
    pointer: FixedPoint,
    id: u64,
    activate: bool,
    now: Instant,
    other: u64,
)
    requires
        layout.wf(),
        layout.window(id) is Some,
        layout.output_under(pointer) is Some,
        layout.work_area(layout.output_under(pointer)->0) is Some,
        layout.work_area(layout.output_under(pointer)->0)->0.edges_fit(),
        layout.window(id)->0.geometry_at(now).size.w >= 0,
        layout.window(id)->0.geometry_at(now).size.h >= 0,
    ensures
        ({
            let area = layout.work_area(layout.output_under(pointer)->0)->0;
            let size = layout.window(id)->0.geometry_at(now).size;
            let after = layout.placing(pointer, id, activate, now);
            let at = after.location(id)->0;
            let (left, right) = (at.x - area.loc.x, area.right() - (at.x + size.w));
            let (above, below) = (at.y - area.loc.y, area.bottom() - (at.y + size.h));
            &&& after.location(id) is Some
            &&& size.w <= area.size.w ==> 0 <= right - left <= 1 && left >= 0
            &&& size.h <= area.size.h ==> 0 <= below - above <= 1 && above >= 0
            &&& size.w > area.size.w ==> at.x == area.loc.x
            &&& size.h > area.size.h ==> at.y == area.loc.y
            &&& after.elements.last().window == id
            &&& after.window(id) is Some
            &&& layout.window(id)->0.kind == SurfaceKind::Wayland ==> after.window(
                id,
            )->0.client.bounds == Some(area.size)
            &&& activate && !layout.window(id)->0.ghosting() ==> after.window(
                id,
            )->0.client.activated
            &&& other != id ==> after.location(other) == layout.location(other)
        }),
{
    reveal(Layout::work_area);
    lemma_ids_match(layout);
    lemma_window_wf(layout, id);
    let window = layout.window(id)->0;
    let area = layout.placing_area(pointer);
    let told = window.telling(ClientState { bounds: Some(area.size), ..window.client });
    lemma_configured(layout, told, false, id);
    lemma_configured(layout, told, false, other);
    lemma_configured_wf(layout, told, false);
    let bounded = if window.kind == SurfaceKind::Wayland {
        layout.configuring(told, false)
    } else {
        layout
    };
    lemma_same_places(layout, bounded, other);
    let at = crate::events::centered(area, window.geometry_at(now).size);
    lemma_mapped(bounded, id, at, activate, id);
    lemma_mapped(bounded, id, at, activate, other);
}

/// A window of a new client is known, mapped, raised and active, and has the
/// keyboard focus if there is a keyboard. It waits for content before it fades in.
pub proof fn new_windows_take_the_focus(desk: Desk, id: u64, surface: u64, now: Instant)
    requires
        desk.wf(),
        desk.layout.window(id) is None,
    ensures
        ({
            let after = desk.opening(id, surface, now);
            let window = after.layout.window(id)->0;
            &&& after.layout.window(id) is Some
            &&& after.layout.location(id) is Some
            &&& after.layout.elements.last().window == id
            &&& window.kind == SurfaceKind::Wayland
            &&& window.surface == Some(surface)
            &&& window.client.activated
            &&& window.state.visibility.open_pending
            &&& !window.state.visibility.closing
            &&& desk.has_keyboard ==> after.focus == Some(id) && after.layout.actions.last() == (
            Action::SetFocus { focus: Some(id) })
            &&& !desk.has_keyboard ==> after.focus == desk.focus
            &&& after.pending_focus is None
        }),
{
    let window = WindowElement::fresh(id, SurfaceKind::Wayland, Some(surface)).opening();
    let known = desk.layout.with_new_window(window);
    assert(known.wf()) by {
        reveal(Layout::wf);
    }
    assert(known.window(id) == Some(window)) by {
        reveal(Layout::window);
        lemma_appended(desk.layout.windows, window, 0);
    }
    let area = known.placing_area(desk.pointer);
    let told = window.telling(ClientState { bounds: Some(area.size), ..window.client });
    lemma_configured(known, told, false, id);
    lemma_configured_wf(known, told, false);
    let at = crate::events::centered(area, window.geometry_at(now).size);
    lemma_mapped(known.configuring(told, false), id, at, true, id);
    let placed = known.placing(desk.pointer, id, true, now);
    lemma_acted(placed, Action::SetFocus { focus: Some(id) }, id);
    lemma_same_places(placed, placed.acting(Action::SetFocus { focus: Some(id) }), id);
}

proof fn lemma_appended(windows: Seq<WindowElement>, window: WindowElement, i: int)
    requires
        0 <= i <= windows.len(),
        crate::space::window_index(windows, window.id, i) is None,
    ensures
        crate::space::window_index(windows.push(window), window.id, i) == Some(
            windows.len() as int,
        ),
    decreases windows.len() - i,
{
    if i < windows.len() {
        assert(windows.push(window)[i] == windows[i]);
        lemma_appended(windows, window, i + 1);
    }
}

/// When an output changes, each window on it is laid out anew: one that covers it
/// fills all of it, a tiled one fills its cell of the divided work area, a
/// maximized one fills the work area, each with its frame, and their clients are
/// told so. Transitions are over, and no other window moves.
pub proof fn changed_outputs_are_filled(
    layout: Layout,
    id: u64,
    geo: Rectangle,
    area: Rectangle,
    other: u64,
)
    requires
        layout.wf(),
        layout.window(id) is Some,
        layout.window(id)->0.kind == SurfaceKind::Wayland,
        !layout.window(id)->0.ghosting(),
    ensures
        ({
            let found = layout.window(id)->0;
            let is_ssd = found.state.is_ssd;
            let after = layout.reapplied(id, geo, area);
            let window = after.window(id)->0;
            let bar = if is_ssd {
                HEADER_BAR_HEIGHT as int
            } else {
                0
            };
            let cell = crate::snap::SnapGrid::center(area).cell(found.state.snap->0.zone, area);
            &&& after.window(id) is Some
            &&& window.state.animation is None
            &&& found.state.header_bar.fullscreen ==> {
                &&& after.location(id) == Some(geo.loc)
                &&& window.client.fullscreen
                &&& window.client.size is Some
                &&& window.client.size->0.w == geo.size.w
                &&& geo.size.h >= bar ==> window.client.size->0.h == geo.size.h - bar
            }
            &&& !found.state.header_bar.fullscreen && found.state.snap is Some ==> {
                &&& after.location(id) == Some(cell.loc)
                &&& window.client.maximized
                &&& window.client.size is Some
                &&& has_room(cell.size, is_ssd) ==> is_framed(
                    window.client.size->0,
                    cell.size,
                    is_ssd,
                )
                &&& window.state.snap is Some
                &&& window.state.snap->0.zone == found.state.snap->0.zone
                &&& window.state.snap->0.grid.cell(found.state.snap->0.zone, area) == cell
                &&& window.state.snap->0.floating == found.state.snap->0.floating
            }
            &&& !found.state.header_bar.fullscreen && found.state.snap is None
                && found.client.maximized ==> {
                &&& after.location(id) == Some(area.loc)
                &&& window.client.maximized
                &&& window.client.size is Some
                &&& has_room(area.size, is_ssd) ==> is_framed(
                    window.client.size->0,
                    area.size,
                    is_ssd,
                )
            }
            &&& !found.state.header_bar.fullscreen && found.state.snap is None
                && !found.client.maximized && found.state.relative is Some && layout.home_area(id)
                is Some ==> {
                let home = layout.home_area(id)->0;
                &&& after.location(id) == Some(found.state.relative->0.location_in(home))
                &&& window.client.size == Some(
                    undecorated(found.state.relative->0.size_in(home), is_ssd),
                )
            }
            &&& other != id ==> {
                &&& after.location(other) == layout.location(other)
                &&& after.window(other) == layout.window(other)
            }
        }),
{
    lemma_ids_match(layout);
    lemma_window_wf(layout, id);
    let found = layout.window(id)->0;
    let still = found.stilled();
    let client = found.client;
    let is_ssd = found.state.is_ssd;
    if found.state.header_bar.fullscreen {
        let size = Some(crate::xdg::fullscreen_size(geo.size, is_ssd));
        lemma_retold(
            layout,
            still,
            ClientState { fullscreen: true, size, ..client },
            geo.loc,
            other,
        );
    } else if found.state.snap is Some {
        let grid = crate::snap::SnapGrid::center(area);
        let cell = grid.cell(found.state.snap->0.zone, area);
        let size = Some(undecorated(cell.size, is_ssd));
        lemma_retold(
            layout,
            still.regridded(grid),
            ClientState { maximized: true, size, ..client },
            cell.loc,
            other,
        );
    } else if found.client.maximized {
        let size = Some(crate::xdg::maximized_size(area.size, is_ssd));
        lemma_retold(
            layout,
            still,
            ClientState { maximized: true, size, ..client },
            area.loc,
            other,
        );
    } else {
        let kept = layout.with_window(still);
        lemma_window_replaced(layout, still, id);
        lemma_window_replaced(layout, still, other);
        lemma_put_wf(layout, still);
        lemma_same_places(layout, kept, id);
        lemma_same_places(layout, kept, other);
        reveal(Layout::absolute_on);
        match found.state.relative {
            Some(rel) => match kept.absolute(id, rel, is_ssd) {
                Some((loc, size)) => lemma_retold(
                    kept,
                    still,
                    ClientState { size: Some(size), ..client },
                    loc,
                    other,
                ),
                None => {},
            },
            None => {},
        }
    }
}

proof fn lemma_retold(
    layout: Layout,
    window: WindowElement,
    client: ClientState,
    loc: Point,
    other: u64,
)
    requires
        layout.wf(),
        window.wf(),
        layout.window(window.id) is Some,
    ensures
        ({
            let id = window.id;
            let after = layout.retold(window, client, loc);
            &&& after.location(id) == Some(loc)
            &&& after.window(id) == Some(
                WindowElement { client, configured: true, ..window },
            )
            &&& other != id ==> {
                &&& after.location(other) == layout.location(other)
                &&& after.window(other) == layout.window(other)
            }
        }),
{
    let id = window.id;
    let told = WindowElement { client, ..window };
    lemma_configured(layout, told, true, id);
    lemma_configured(layout, told, true, other);
    lemma_configured_wf(layout, told, true);
    let asked = layout.configuring(told, true);
    lemma_same_places(layout, asked, other);
    lemma_mapped(asked, id, loc, false, id);
    lemma_mapped(asked, id, loc, false, other);
}

/// Before an output changes, a floating window remembers exactly the place and the
/// size it has there; one that fills the screen keeps what it remembers.
pub proof fn floating_windows_remember_their_place(
    layout: Layout,
    id: u64,
    now: Instant,
    other: u64,
)
    requires
        layout.window(id) is Some,
        layout.location(id) is Some,
        layout.home(id) is Some,
        layout.home_area(id) is Some,
        ({
            let (area, at) = (layout.home_area(id)->0, layout.location(id)->0);
            fits(at.x - area.loc.x) && fits(at.y - area.loc.y)
        }),
    ensures
        ({
            let found = layout.window(id)->0;
            let after = layout.captured(id, now);
            let window = after.window(id)->0;
            let fills = found.state.header_bar.fullscreen || found.client.maximized;
            &&& found.ghosting() || fills ==> after == layout
            &&& !found.ghosting() && !fills ==> {
                &&& after.window(id) is Some
                &&& window.state.relative is Some
                &&& after.absolute(id, window.state.relative->0, found.state.is_ssd) == Some(
                    (
                        layout.location(id)->0,
                        undecorated(found.geometry_at(now).size, found.state.is_ssd),
                    ),
                )
            }
            &&& same_places(layout, after)
            &&& after.actions == layout.actions
            &&& other != id ==> after.window(other) == layout.window(other)
        }),
{
    lemma_ids_match(layout);
    let found = layout.window(id)->0;
    reveal(Layout::element_geometry);
    remembered_places_are_exact(layout, layout.home(id)->0, id, found.state.is_ssd, now);
    match layout.relative(id, now) {
        Some(rel) => {
            let kept = found.remembering(rel);
            lemma_window_replaced(layout, kept, id);
            lemma_window_replaced(layout, kept, other);
            lemma_same_places(layout, layout.with_window(kept), id);
            reveal(Layout::absolute_on);
        },
        None => {},
    }
}

/// Whether the edges of the rectangle are far from the ends of the coordinates.
pub open spec fn is_moderate(rect: Rectangle) -> bool {
    &&& i32::MIN / 2 < rect.loc.x <= rect.loc.x + rect.size.w < i32::MAX / 2
    &&& i32::MIN / 2 < rect.loc.y <= rect.loc.y + rect.size.h < i32::MAX / 2
}

/// Whether the point can be added to a rectangle with such edges twice over.
pub open spec fn is_near_origin(point: Point) -> bool {
    &&& i32::MIN / 4 < point.x < i32::MAX / 4
    &&& i32::MIN / 4 < point.y < i32::MAX / 4
}

/// Whether `inner` lies within `outer`.
pub open spec fn encloses(outer: Rectangle, inner: Rectangle) -> bool {
    &&& outer.loc.x <= inner.loc.x
    &&& outer.loc.y <= inner.loc.y
    &&& inner.loc.x + inner.size.w <= outer.loc.x + outer.size.w
    &&& inner.loc.y + inner.size.h <= outer.loc.y + outer.size.h
}

/// The room that a popup has, moved to where its parent is on the screen, is the
/// smallest one in which all outputs lie that its window reaches onto: each of
/// them does, and every `frame` in which they all do has that room in it.
pub proof fn popups_have_the_room_of_the_outputs(
    layout: Layout,
    id: u64,
    parent: Point,
    now: Instant,
    frame: Rectangle,
)
    requires
        layout.window(id) is Some,
        layout.location(id) is Some,
        layout.outputs_for(id).len() > 0,
        forall|j: int|
            0 <= j < layout.outputs_for(id).len() ==> layout.output_geometry(
                #[trigger] layout.outputs_for(id)[j],
            ) is Some && is_moderate(layout.output_geometry(layout.outputs_for(id)[j])->0),
        is_near_origin(layout.location(id)->0),
        is_near_origin(parent),
    ensures
        ({
            let at = layout.location(id)->0;
            let room = layout.popup_room(id, parent, now)->0;
            let (x, y) = (room.loc.x + parent.x + at.x, room.loc.y + parent.y + at.y);
            let shown = Rectangle { loc: Point { x: x as i32, y: y as i32 }, size: room.size };
            &&& layout.popup_room(id, parent, now) is Some
            &&& fits(x) && fits(y)
            &&& forall|j: int|
                0 <= j < layout.outputs_for(id).len() ==> encloses(
                    shown,
                    layout.output_geometry(#[trigger] layout.outputs_for(id)[j])->0,
                )
            &&& (forall|j: int|
                0 <= j < layout.outputs_for(id).len() ==> encloses(
                    frame,
                    layout.output_geometry(#[trigger] layout.outputs_for(id)[j])->0,
                )) ==> encloses(frame, shown)
        }),
{
    reveal(Layout::element_geometry);
    let outputs = layout.outputs_for(id);
    let (last, rest) = (outputs.len() - 1, outputs.drop_last());
    assert(layout.output_geometry(outputs[last]) is Some);
    assert forall|j: int| 0 <= j < rest.len() implies layout.output_geometry(#[trigger] rest[j])
        is Some && is_moderate(layout.output_geometry(rest[j])->0) by {
        assert(rest[j] == outputs[j]);
    }
    lemma_union(layout, layout.output_geometry(outputs.last())->0, rest, 0, frame);
    let reach = layout.reach(id)->0;
    assert forall|j: int| 0 <= j < outputs.len() implies encloses(
        reach,
        layout.output_geometry(#[trigger] outputs[j])->0,
    ) by {
        if j < last {
            assert(rest[j] == outputs[j]);
        }
    }
    if forall|j: int|
        0 <= j < outputs.len() ==> encloses(
            frame,
            layout.output_geometry(#[trigger] outputs[j])->0,
        ) {
        assert(encloses(frame, layout.output_geometry(outputs[last])->0));
        assert forall|j: int| 0 <= j < rest.len() implies encloses(
            frame,
            layout.output_geometry(#[trigger] rest[j])->0,
        ) by {
            assert(rest[j] == outputs[j]);
        }
    }
}

proof fn lemma_union(
    layout: Layout,
    base: Rectangle,
    outputs: Seq<u64>,
    i: int,
    frame: Rectangle,
)
    requires
        0 <= i <= outputs.len(),
        is_moderate(base),
        forall|j: int|
            0 <= j < outputs.len() ==> layout.output_geometry(#[trigger] outputs[j]) is Some
                && is_moderate(layout.output_geometry(outputs[j])->0),
    ensures
        layout.union(base, outputs, i) is Some,
        is_moderate(layout.union(base, outputs, i)->0),
        encloses(layout.union(base, outputs, i)->0, base),
        forall|j: int|
            i <= j < outputs.len() ==> encloses(
                layout.union(base, outputs, i)->0,
                layout.output_geometry(#[trigger] outputs[j])->0,
            ),
        encloses(frame, base) && (forall|j: int|
            i <= j < outputs.len() ==> encloses(
                frame,
                layout.output_geometry(#[trigger] outputs[j])->0,
            )) ==> encloses(frame, layout.union(base, outputs, i)->0),
    decreases outputs.len() - i,
{
    if i < outputs.len() {
        let geo = layout.output_geometry(outputs[i])->0;
        let both = base.merged(geo);
        assert(is_moderate(geo));
        assert(is_moderate(both) && encloses(both, base) && encloses(both, geo));
        assert(encloses(frame, base) && encloses(frame, geo) ==> encloses(frame, both));
        lemma_union(layout, both, outputs, i + 1, frame);
    }
}

/// A window whose closing is asked for fades out for the length of the transition
/// and takes no input meanwhile; its client is told to close exactly from the end
/// of the transition on, not before.
pub proof fn closing_asks_the_client_at_the_end(
    desk: Desk,
    id: u64,
    now: Instant,
    content: Size,
    later: Instant,
)
    requires
        desk.layout.window(id) is Some,
        !desk.layout.window(id)->0.state.visibility.closing,
        desk.layout.window(id)->0.state.visibility.close_sent_at is None,
    ensures
        ({
            let after = desk.closing(id, now).layout;
            let visibility = after.window(id)->0.state.visibility;
            &&& after.window(id) is Some
            &&& visibility.closing
            &&& !visibility.open_pending
            &&& visibility.animation is Some
            &&& visibility.animation->0.kind == VisibilityKind::Close
            &&& visibility.animation->0.start_time == now
            &&& visibility.sends_close(content, later) <==> elapsed(later, now)
                >= WINDOW_VISIBILITY_NANOS
        }),
{
    lemma_ids_match(desk.layout);
    let found = desk.layout.window(id)->0;
    lemma_window_replaced(desk.layout, found.closed(now), id);
    let closed = desk.layout.with_window(found.closed(now));
    lemma_acted(closed, Action::SetFocus { focus: None }, id);
}

} // verus!
