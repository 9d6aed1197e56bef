//! Where grabs start from, and what is left once they end.

use std::time::Instant;
use vstd::prelude::*;

use crate::clock::elapsed;
use crate::effects::{
    has_room, heads_for, is_framed, lemma_acted, lemma_covered, lemma_filled, lemma_glided,
    lemma_mapped, lemma_mapped_wf, lemma_put_wf, lemma_same_outputs, lemma_same_places,
    lemma_same_windows, lemma_window_wf, same_places,
};
use crate::element::{SurfaceKind, WindowElement};
use crate::events::moved_output;
use crate::grabs::{anchored, ResizeData, ResizeEdge, ResizeState};
use crate::input::GrabStart;
use crate::laws::{lemma_ids_match, lemma_window_replaced};
use crate::resize::ResizeGrabState;
use crate::shell::first_grid;
use crate::snap::{Snap, SnapGrid, SnapTarget, SnapZone, SNAP_PREVIEW_DWELL_NANOS};
use crate::space::{
    lemma_placed_exists, mapped_once, placed_index, Action, FullscreenSurface, Layout,
};
use crate::ssd::{cursor_for, CursorIcon, BTN_LEFT};
use crate::state::Desk;
use crate::utils::{fits, sat32, FixedPoint, Point, Rectangle, Serial, FIXED_ONE};

verus! {

/// A resize by an edge of the frame starts from the place and the size that the
/// window has, at the point that was pressed; the window stops moving on its own,
/// and nothing else changes.
pub proof fn edge_resizes_start_where_the_window_is(
    layout: Layout,
    id: u64,
    edges: ResizeEdge,
    pressed: FixedPoint,
    other: u64,
)
    requires
        layout.window(id) is Some,
        layout.location(id) is Some,
        layout.window(id)->0.is_alive(),
        layout.window(id)->0.surfaced(),
        layout.window(id)->0.has_resize_data,
        edges.left || edges.right || edges.top || edges.bottom,
    ensures
        ({
            let (found, at) = (layout.window(id)->0, layout.location(id)->0);
            let grab = layout.edge_grab(id, edges, pressed)->0;
            let after = layout.edge_grabbed(id, edges);
            let window = after.window(id)->0;
            let resize = window.resize_state()->Resizing_0;
            &&& layout.edge_grab(id, edges, pressed) is Some
            &&& grab.window == id
            &&& grab.edges == edges
            &&& grab.initial_window_location == at
            &&& grab.initial_window_size == found.content_size()
            &&& grab.pointer == grab.start_location
            &&& i64::MIN <= pressed.x + at.x * FIXED_ONE <= i64::MAX && i64::MIN <= pressed.y + at.y
                * FIXED_ONE <= i64::MAX ==> grab.start_location.x == pressed.x + at.x * FIXED_ONE
                && grab.start_location.y == pressed.y + at.y * FIXED_ONE
            &&& after.window(id) is Some
            &&& window.state.animation is None
            &&& window.resize_state() is Resizing
            &&& resize.edges == edges
            &&& resize.initial_window_location == at
            &&& resize.initial_window_size == found.content_size()
            &&& resize.last_window_size == found.content_size()
            &&& window.client == found.client
            &&& same_places(layout, after)
            &&& after.actions == layout.actions
            &&& other != id ==> after.window(other) == layout.window(other)
        }),
{
    lemma_ids_match(layout);
    let (found, at) = (layout.window(id)->0, layout.location(id)->0);
    let window = found.stilled().with_resize(
        ResizeState::Resizing(
            ResizeData::fresh(edges, at, found.content_size()),
        ),
    );
    lemma_window_replaced(layout, window, id);
    lemma_window_replaced(layout, window, other);
}

/// A resize that the client asked for starts from the place that the window has
/// and the size of the client's own geometry, at the point where the grab began.
pub proof fn client_resizes_start_where_the_window_is(
    layout: Layout,
    id: u64,
    edges: ResizeEdge,
    start: FixedPoint,
    tiled: bool,
    other: u64,
)
    requires
        layout.window(id) is Some,
        layout.location(id) is Some,
        layout.window(id)->0.surfaced(),
        layout.window(id)->0.has_resize_data,
    ensures
        ({
            let (found, at) = (layout.window(id)->0, layout.location(id)->0);
            let grab = layout.client_resize(id, edges, start, tiled)->0;
            let after = layout.client_resized(id, edges);
            let window = after.window(id)->0;
            let resize = window.resize_state()->Resizing_0;
            &&& layout.client_resize(id, edges, start, tiled) is Some
            &&& grab.window == id
            &&& grab.edges == edges
            &&& grab.initial_window_location == at
            &&& grab.initial_window_size == found.client_geometry.size
            &&& grab.start_location == start
            &&& grab.pointer == start
            &&& !tiled ==> grab.snap_area is None
            &&& after.window(id) is Some
            &&& window.resize_state() is Resizing
            &&& resize.edges == edges
            &&& resize.initial_window_location == at
            &&& resize.initial_window_size == found.client_geometry.size
            &&& resize.last_window_size == found.client_geometry.size
            &&& same_places(layout, after)
            &&& after.actions == layout.actions
            &&& other != id ==> after.window(other) == layout.window(other)
        }),
{
    lemma_ids_match(layout);
    let (found, at) = (layout.window(id)->0, layout.location(id)->0);
    let window = found.with_resize(
        ResizeState::Resizing(
            ResizeData::fresh(edges, at, found.client_geometry.size),
        ),
    );
    lemma_window_replaced(layout, window, id);
    lemma_window_replaced(layout, window, other);
}

/// An X11 window that took the fullscreen state covers the first output it reaches
/// onto and no other, without a frame, and is configured to exactly that output.
pub proof fn fullscreen_x11_windows_cover_their_output(
    layout: Layout,
    id: u64,
    other_output: u64,
    other: u64,
)
    requires
        layout.window(id) is Some,
        layout.location(id) is Some,
        layout.outputs_for(id).len() > 0,
        layout.output(layout.outputs_for(id)[0]) is Some,
        layout.output_geometry(layout.outputs_for(id)[0]) is Some,
    ensures
        ({
            let output = layout.outputs_for(id)[0];
            let geo = layout.output_geometry(output)->0;
            let after = layout.fullscreening_x11(id, true);
            &&& after.window(id) is Some
            &&& after.window(id)->0.client.fullscreen
            &&& !after.window(id)->0.state.is_ssd
            &&& after.output(output) is Some
            &&& after.output(output)->0.fullscreen == Some(FullscreenSurface { window: Some(id) })
            &&& after.actions == layout.actions.push(
                Action::SetFullscreenX11 { window: id, fullscreen: true },
            ).push(Action::ConfigureX11 { window: id, rect: geo })
            &&& other_output != output ==> after.output(other_output) == layout.output(
                other_output,
            )
            &&& after.location(other) == layout.location(other)
            &&& other != id ==> after.window(other) == layout.window(other)
            &&& layout.fullscreening_x11(id, false) == layout
        }),
{
    lemma_ids_match(layout);
    let output = layout.outputs_for(id)[0];
    let geo = layout.output_geometry(output)->0;
    let window = layout.window(id)->0.with_ssd(false).x11_fullscreen(true);
    let set = Action::SetFullscreenX11 { window: id, fullscreen: true };
    let place = Action::ConfigureX11 { window: id, rect: geo };
    let acted = layout.acting(set);
    lemma_acted(layout, set, id);
    lemma_acted(layout, set, other);
    lemma_ids_match(acted);
    let kept = acted.with_window(window);
    lemma_window_replaced(acted, window, id);
    lemma_window_replaced(acted, window, other);
    let placed = kept.acting(place);
    lemma_acted(kept, place, id);
    lemma_acted(kept, place, other);
    lemma_same_places(layout, placed, other);
    lemma_same_places(layout, placed, id);
    let after = placed.covered(output, id);
    lemma_covered(placed, output, id, other_output);
    lemma_covered(placed, output, id, output);
    lemma_same_windows(placed, after, id);
    lemma_same_windows(placed, after, other);
    lemma_same_outputs(layout, placed, output);
    lemma_same_outputs(layout, placed, other_output);
    assert(after == layout.fullscreening_x11(id, true));
}

/// A move of a maximized X11 window starts at the point where it was grabbed, and
/// the window is restored to its former size there; any other starts where it is.
pub proof fn x11_moves_take_maximized_windows_out(
    layout: Layout,
    id: u64,
    at: FixedPoint,
    other: u64,
)
    requires
        layout.window(id) is Some,
        layout.location(id) is Some,
        i32::MIN * FIXED_ONE <= at.x <= i32::MAX * FIXED_ONE,
        i32::MIN * FIXED_ONE <= at.y <= i32::MAX * FIXED_ONE,
    ensures
        ({
            let (found, loc) = (layout.window(id)->0, layout.location(id)->0);
            let origin = layout.x11_move_origin(found, loc, at);
            let after = layout.x11_move_begun(found, at);
            &&& !found.client.maximized ==> origin == loc && after == layout
            &&& found.client.maximized ==> {
                &&& at.x - FIXED_ONE < origin.x * FIXED_ONE < at.x + FIXED_ONE
                &&& at.y - FIXED_ONE < origin.y * FIXED_ONE < at.y + FIXED_ONE
                &&& after.window(id) is Some
                &&& !after.window(id)->0.client.maximized
                &&& after.window(id)->0.state.old_geometry is None
                &&& found.state.old_geometry is Some ==> after.actions.last() == (
                Action::ConfigureX11 {
                    window: id,
                    rect: Rectangle {
                        loc: origin,
                        size: found.state.old_geometry->0.size,
                    },
                })
                &&& same_places(layout, after)
                &&& other != id ==> after.window(other) == layout.window(other)
            }
        }),
{
    lemma_ids_match(layout);
    let found = layout.window(id)->0;
    reveal(FixedPoint::pixel);
    let set = Action::SetMaximizedX11 { window: id, maximized: false };
    let freed = found.x11_maximized(false, None);
    let acted = layout.acting(set);
    lemma_acted(layout, set, id);
    lemma_acted(layout, set, other);
    lemma_ids_match(acted);
    lemma_window_replaced(acted, freed, id);
    lemma_window_replaced(acted, freed, other);
    let told = acted.with_window(freed);
    match found.state.old_geometry {
        Some(old) => {
            let place = Action::ConfigureX11 {
                window: id,
                rect: Rectangle { loc: at.pixel(), size: old.size },
            };
            lemma_acted(told, place, id);
            lemma_acted(told, place, other);
        },
        None => {},
    }
}

/// A move of an X11 window follows a finger that is down, and else the pointer. A
/// maximized window goes to where the finger was put down, or where the pointer is
/// by now; any other moves on from where it is.
pub proof fn x11_moves_follow_the_finger_first(
    desk: Desk,
    window: u64,
    touch: Option<(u32, FixedPoint)>,
    pointer: Option<FixedPoint>,
)
    requires
        desk.layout.window(window) is Some,
        desk.layout.location(window) is Some,
    ensures
        ({
            let (found, loc) = (desk.layout.window(window)->0, desk.layout.location(window)->0);
            let (after, grab) = desk.x11_moving(window, touch, pointer);
            &&& grab is Some <==> touch is Some || pointer is Some
            &&& grab is None ==> after == desk
            &&& grab is Some ==> {
                &&& grab->0.window == window
                &&& grab->0.anchor is None
                &&& grab->0.snap_target is None
                &&& !found.client.maximized ==> grab->0.initial_window_location == loc && after
                    == desk
            }
            &&& match touch {
                Some((slot, start)) => {
                    &&& grab->0.slot == Some(slot)
                    &&& grab->0.start_location == start
                    &&& found.client.maximized ==> grab->0.initial_window_location == start.pixel()
                },
                None => pointer is Some ==> {
                    &&& grab->0.slot is None
                    &&& grab->0.start_location == pointer->0
                    &&& found.client.maximized ==> grab->0.initial_window_location
                        == desk.pointer.pixel()
                },
            }
        }),
{
}

/// A request starts a grab only with a device that is held down on the client that
/// asks; a finger that is down goes before the pointer, and is not replaced by it.
pub proof fn grabs_need_the_client_to_be_held(
    touch: Option<GrabStart>,
    pointer: Option<GrabStart>,
)
    ensures
        ({
            let granted = GrabStart::granted(touch, pointer);
            &&& granted is Some ==> granted->0.has_grab && granted->0.same_client
            &&& touch is Some && touch->0.has_grab ==> (granted == if touch->0.same_client {
                touch
            } else {
                None
            })
            &&& !(touch is Some && touch->0.has_grab) ==> (granted is Some <==> pointer is Some
                && pointer->0.has_grab && pointer->0.same_client) && (granted is Some ==> granted
                == pointer)
        }),
{
}

/// A press of the left button resizes a window by the edges that the cursor over
/// that point shows, from that point; no other button resizes it.
pub proof fn presses_resize_where_the_cursor_says(
    window: WindowElement,
    point: FixedPoint,
    button: u32,
    now: Instant,
)
    requires
        window.has_edges(),
    ensures
        ({
            let hovered = window.hovering(Some(point));
            let grip = hovered.pressed_edge(button, now);
            &&& button != BTN_LEFT ==> grip is None
            &&& grip is Some ==> {
                let (edges, at) = grip->0;
                &&& at == point
                &&& window.cursor_over(point, now) == cursor_for(edges)
            }
            &&& button == BTN_LEFT && grip is None ==> window.cursor_over(point, now)
                == CursorIcon::Default
        }),
{
}

/// A tile is previewed once it has been the candidate for the dwell time, and not
/// earlier; being noted again does not start the time over, and another candidate
/// does.
pub proof fn previews_wait_for_the_pointer_to_rest(
    desk: Desk,
    target: Option<SnapTarget>,
    noted: Instant,
    again: Instant,
    now: Instant,
)
    requires
        desk.snap_candidate != target,
    ensures
        ({
            let waiting = desk.noting(target, noted);
            let still = waiting.noting(target, again);
            &&& waiting.previewed(now) == still.previewed(now)
            &&& elapsed(now, noted) >= SNAP_PREVIEW_DWELL_NANOS ==> still.previewed(now) == target
            &&& elapsed(now, noted) < SNAP_PREVIEW_DWELL_NANOS ==> still.previewed(now) is None
        }),
{
}

/// Where the outputs stand after they were lined up from the `i`th on.
pub open spec fn side_by_side(layout: Layout, i: int) -> bool {
    forall|k: int|
        i <= k < layout.outputs.len() - 1 && (#[trigger] layout.outputs[k]).geometry is Some
            && layout.outputs[k + 1].geometry is Some && fits(
            layout.outputs[k].geometry->0.loc.x + layout.outputs[k].geometry->0.size.w,
        ) ==> layout.outputs[k + 1].geometry->0.loc.x == layout.outputs[k].geometry->0.loc.x
            + layout.outputs[k].geometry->0.size.w
}

/// Outputs stand side by side, from the left and in order, each as large as it
/// was, with their upper edges in line.
pub proof fn outputs_stand_side_by_side(layout: Layout, i: int, x: int, k: int)
    requires
        0 <= i <= layout.outputs.len(),
        fits(x),
        0 <= k < layout.outputs.len(),
    ensures
        ({
            let lined = layout.lined_up(i, x);
            &&& lined.outputs.len() == layout.outputs.len()
            &&& lined.windows == layout.windows
            &&& lined.elements == layout.elements
            &&& side_by_side(lined, i)
            &&& k < i ==> lined.outputs[k] == layout.outputs[k]
            &&& lined.outputs[k].id == layout.outputs[k].id
            &&& (lined.outputs[k].geometry is Some) == (layout.outputs[k].geometry is Some)
            &&& k >= i && layout.outputs[k].geometry is Some ==> {
                &&& lined.outputs[k].geometry->0.size == layout.outputs[k].geometry->0.size
                &&& lined.outputs[k].geometry->0.loc.y == 0
            }
            &&& k == i && layout.outputs[k].geometry is Some ==> lined.outputs[k].geometry->0.loc.x
                == x
        }),
    decreases layout.outputs.len() - i,
{
    if i < layout.outputs.len() {
        let output = layout.outputs[i];
        let width = match output.geometry {
            Some(geo) => geo.size.w as int,
            None => 0,
        };
        let loc = Point { x: x as i32, y: 0 };
        let moved = Layout {
            outputs: layout.outputs.update(i, moved_output(output, loc)),
            actions: layout.actions.push(Action::MapOutput { output: output.id, loc }).push(
                Action::ArrangeLayers { output: output.id },
            ),
            ..layout
        };
        let next = sat32(x + width);
        outputs_stand_side_by_side(moved, i + 1, next, k);
        outputs_stand_side_by_side(moved, i + 1, next, i);
        if i + 1 < layout.outputs.len() {
            outputs_stand_side_by_side(moved, i + 1, next, i + 1);
        }
    }
}

/// The grid of an output is that of a tiled window on it, and there is none only
/// where no window on it is tiled.
pub proof fn grids_are_those_of_tiled_windows(layout: Layout, windows: Seq<u64>, i: int, k: int)
    requires
        0 <= i <= k < windows.len(),
    ensures
        first_grid(layout, windows, i) is Some ==> exists|j: int|
            i <= j < windows.len() && layout.window(#[trigger] windows[j]) is Some && layout.window(
                windows[j],
            )->0.state.snap is Some && layout.window(windows[j])->0.state.snap->0.grid
                == first_grid(layout, windows, i)->0,
        layout.window(windows[k]) is Some && layout.window(windows[k])->0.state.snap is Some
            ==> first_grid(layout, windows, i) is Some,
    decreases windows.len() - i,
{
    if layout.window(windows[i]) is Some && layout.window(windows[i])->0.state.snap is Some {
        assert(first_grid(layout, windows, i) == Some(
            layout.window(windows[i])->0.state.snap->0.grid,
        ));
    } else if i + 1 < windows.len() {
        grids_are_those_of_tiled_windows(layout, windows, i + 1, if k == i { i + 1 } else { k });
    } else {
        assert(first_grid(layout, windows, i + 1) is None);
    }
}

/// The window that a surface belongs to is one that is mapped and owns it, and
/// there is none only where no mapped window owns it.
pub proof fn surfaces_belong_to_their_owner(layout: Layout, surface: u64, i: int, k: int)
    requires
        0 <= i <= k < layout.elements.len(),
    ensures
        layout.owner(surface, i) is Some ==> {
            let id = layout.owner(surface, i)->0;
            &&& layout.window(id) is Some && layout.window(id)->0.owns(surface)
            &&& exists|j: int|
                i <= j < layout.elements.len() && (#[trigger] layout.elements[j]).window == id
        },
        layout.window(layout.elements[k].window) is Some && layout.window(
            layout.elements[k].window,
        )->0.owns(surface) ==> layout.owner(surface, i) is Some,
    decreases layout.elements.len() - i,
{
    let first = layout.window(layout.elements[i].window);
    if first is Some && first->0.owns(surface) {
        assert(layout.owner(surface, i) == Some(layout.elements[i].window));
    } else if i + 1 < layout.elements.len() {
        surfaces_belong_to_their_owner(
            layout,
            surface,
            i + 1,
            if k == i {
                i + 1
            } else {
                k
            },
        );
    } else {
        assert(layout.owner(surface, i + 1) is None);
    }
}

/// Whether `later` holds the actions of `earlier`, and perhaps more.
pub open spec fn continues(earlier: Seq<Action>, later: Seq<Action>) -> bool {
    &&& earlier.len() <= later.len()
    &&& forall|j: int| 0 <= j < earlier.len() ==> earlier[j] == #[trigger] later[j]
}

/// Finishing the resize of one window touches no other.
proof fn lemma_finishing(layout: Layout, id: u64, serial: Serial, other: u64)
    ensures
        ({
            let after = layout.finishing(id, serial);
            &&& same_places(layout, after)
            &&& continues(layout.actions, after.actions)
            &&& other != id ==> after.window(other) == layout.window(other)
            &&& layout.window(id) is Some && layout.window(id)->0.kind == SurfaceKind::Wayland
                && layout.window(id)->0.resize_state() is Resizing ==> is_settled(
                layout,
                after,
                id,
                serial,
            )
        }),
{
    lemma_ids_match(layout);
    match layout.window(id) {
        Some(window) => match window.resize_state().intended() {
            Some(size) => match window.kind {
                SurfaceKind::Wayland => {
                    let client = window.resized_client(size, false);
                    let told = layout.with_window(window.telling(client));
                    let action = Action::FinalConfigure { window: id, client, serial };
                    lemma_window_replaced(layout, window.telling(client), id);
                    lemma_window_replaced(layout, window.telling(client), other);
                    lemma_acted(told, action, id);
                    lemma_acted(told, action, other);
                    assert(told.acting(action).actions.last() == action);
                    assert(told.acting(action).actions.contains(action));
                },
                SurfaceKind::X11 => match layout.location(id) {
                    Some(current) => {
                        let action = Action::SyncX11 {
                            window: id,
                            rect: window.anchored_rect(size, current),
                        };
                        let kept = window.with_resize(window.resize_state().committing());
                        let acted = layout.acting(action);
                        lemma_acted(layout, action, id);
                        lemma_acted(layout, action, other);
                        lemma_window_replaced(acted, kept, other);
                    },
                    None => {},
                },
            },
            None => {},
        },
        None => {},
    }
}

/// Whether the client of the window `id`, which was being resized, was told the
/// last size that the drag gave it, and that the resize is over.
pub open spec fn is_settled(before: Layout, after: Layout, id: u64, serial: Serial) -> bool {
    let resize = before.window(id)->0.resize_state()->Resizing_0;
    let client = after.window(id)->0.client;
    &&& after.window(id) is Some
    &&& client.size == Some(resize.last_window_size)
    &&& !client.resizing
    &&& after.actions.contains(Action::FinalConfigure { window: id, client, serial })
}

/// When the drag of a divider is let go, every window of the group that moved
/// along with it settles at the last size it was given.
pub proof fn letting_go_settles_the_group(
    layout: Layout,
    members: Seq<u64>,
    i: int,
    dragged: u64,
    serial: Serial,
    k: int,
    other: u64,
)
    requires
        0 <= i <= members.len(),
        members.no_duplicates(),
    ensures
        ({
            let after = layout.group_finished(members, i, dragged, serial);
            &&& same_places(layout, after)
            &&& continues(layout.actions, after.actions)
            &&& other == dragged || !members.skip(i).contains(other) ==> after.window(other)
                == layout.window(other)
            &&& i <= k < members.len() && members[k] != dragged && layout.window(members[k]) is Some
                && layout.window(members[k])->0.kind == SurfaceKind::Wayland
                && !layout.window(members[k])->0.state.header_bar.fullscreen
                && layout.window(members[k])->0.resize_state() is Resizing ==> is_settled(
                layout,
                after,
                members[k],
                serial,
            )
        }),
    decreases members.len() - i,
{
    if i < members.len() {
        let id = members[i];
        let next = layout.member_finished(id, dragged, serial);
        lemma_finishing(layout, id, serial, other);
        if i <= k < members.len() {
            lemma_finishing(layout, id, serial, members[k]);
        }
        letting_go_settles_the_group(next, members, i + 1, dragged, serial, k, other);
        letting_go_settles_the_group(next, members, i + 1, dragged, serial, k, id);
        assert(members.skip(i)[0] == id);
        assert forall|j: int| 0 <= j < members.skip(i + 1).len() implies #[trigger] members.skip(
            i + 1,
        )[j] == members.skip(i)[j + 1] by {}
        assert(!members.skip(i).contains(other) ==> other != id && !members.skip(i + 1).contains(
            other,
        ));
        assert(!members.skip(i + 1).contains(id));
        if k == i {
            let after = next.group_finished(members, i + 1, dragged, serial);
            assert(after.window(id) == next.window(id));
            if is_settled(layout, next, id, serial) {
                let action = Action::FinalConfigure {
                    window: id,
                    client: next.window(id)->0.client,
                    serial,
                };
                let j = choose|j: int| 0 <= j < next.actions.len() && next.actions[j] == action;
                assert(after.actions[j] == action);
            }
        }
    }
}

/// Whether the desk has the window `id` under its panel number `number`.
pub open spec fn is_numbered(desk: Desk, id: u64, number: u64) -> bool {
    &&& desk.layout.window(id) is Some
    &&& desk.layout.window(id)->0.state.panel_id == Some(number)
}

/// A window that the panel asks for comes back if it was minimized, to where it
/// was, goes on top of all others, and has the focus. The windows that were not
/// asked for stay where they are.
pub proof fn panels_bring_windows_to_the_front(desk: Desk, number: u64, other: u64)
    requires
        desk.layout.wf(),
        desk.has_keyboard,
        desk.numbered_window(desk.listed(), number, 0) is Some,
    ensures
        ({
            let id = desk.numbered_window(desk.listed(), number, 0)->0;
            let after = desk.panel_focused(number);
            let aside = placed_index(desk.minimized, id, 0);
            &&& is_numbered(desk, id, number)
            &&& after.focus == Some(id)
            &&& after.layout.actions.last() == (Action::SetFocus { focus: Some(id) })
            &&& aside is Some ==> after.layout.location(id) == Some(
                desk.minimized[aside->0].loc,
            ) && after.minimized == desk.minimized.remove(aside->0)
            &&& aside is None ==> after.layout.location(id) == desk.layout.location(id)
                && after.minimized == desk.minimized
            &&& aside is Some || desk.layout.location(id) is Some
                ==> after.layout.elements.last().window == id
            &&& other != id ==> after.layout.location(other) == desk.layout.location(other)
        }),
{
    lemma_numbered(desk, desk.listed(), number, 0);
    let id = desk.numbered_window(desk.listed(), number, 0)->0;
    let back = desk.unminimizing(id);
    match placed_index(desk.minimized, id, 0) {
        Some(i) => {
            lemma_mapped(desk.layout, id, desk.minimized[i].loc, true, id);
            lemma_mapped(desk.layout, id, desk.minimized[i].loc, true, other);
            lemma_mapped_wf(desk.layout, id, desk.minimized[i].loc, true);
        },
        None => {},
    }
    let raised = back.raised(id);
    match back.layout.location(id) {
        Some(loc) => {
            lemma_mapped(back.layout, id, loc, true, id);
            lemma_mapped(back.layout, id, loc, true, other);
        },
        None => {},
    }
    let raise = Action::RaiseX11 { window: id };
    let focus = Action::SetFocus { focus: Some(id) };
    lemma_acted(raised.layout, raise, id);
    lemma_same_places(raised.layout, raised.layout.acting(raise), id);
    lemma_same_places(raised.layout, raised.layout.acting(raise), other);
    let shown = match raised.layout.window(id) {
        Some(window) if window.kind == SurfaceKind::X11 => raised.layout.acting(raise),
        _ => raised.layout,
    };
    lemma_acted(shown, focus, id);
    lemma_same_places(shown, shown.acting(focus), id);
    lemma_same_places(shown, shown.acting(focus), other);
}

proof fn lemma_numbered(desk: Desk, windows: Seq<(u64, bool)>, number: u64, i: int)
    requires
        desk.numbered_window(windows, number, i) is Some,
    ensures
        is_numbered(desk, desk.numbered_window(windows, number, i)->0, number),
    decreases windows.len() - i,
{
    if 0 <= i < windows.len() {
        match desk.layout.window(windows[i].0) {
            Some(window) if window.state.panel_id == Some(number) => {},
            _ => lemma_numbered(desk, windows, number, i + 1),
        }
    }
}

/// Recentering one window of a group touches no other.
proof fn lemma_recentering(
    layout: Layout,
    id: u64,
    left: u64,
    grid: SnapGrid,
    area: Rectangle,
    now: Instant,
    other: u64,
)
    ensures
        ({
            let after = layout.recentering(id, left, grid, area, now);
            &&& same_places(layout, after)
            &&& other != id ==> after.window(other) == layout.window(other)
            &&& id != left && moves_with_group(layout, id) && layout.location(id) is Some
                ==> is_recentered(layout, after, id, grid, area, now)
        }),
{
    reveal(Layout::filled_size);
    lemma_ids_match(layout);
    match layout.window(id) {
        Some(found) => if found.state.snap is Some {
            let rect = grid.cell(found.state.snap->0.zone, area);
            let kept = layout.with_window(found.regridded(grid));
            lemma_window_replaced(layout, found.regridded(grid), id);
            lemma_window_replaced(layout, found.regridded(grid), other);
            lemma_ids_match(kept);
            lemma_filled(kept, id, rect, true, id);
            lemma_filled(kept, id, rect, true, other);
            let filled = kept.filling(id, rect, true);
            lemma_same_places(layout, filled, id);
            if layout.location(id) is Some {
                lemma_glided(filled, id, kept.filled_size(id, rect), rect.loc, now, id);
                lemma_glided(filled, id, kept.filled_size(id, rect), rect.loc, now, other);
            } else {
                reveal(Layout::gliding);
            }
        },
        None => {},
    }
}

/// Whether the window `id` is tiled in a group and follows it.
pub open spec fn moves_with_group(layout: Layout, id: u64) -> bool {
    &&& layout.window(id) is Some
    &&& layout.window(id)->0.state.snap is Some
    &&& !layout.window(id)->0.state.header_bar.fullscreen
    &&& layout.window(id)->0.kind == SurfaceKind::Wayland
}

/// Whether the window `id` keeps its zone, on `grid`, and sets out for it with a
/// frame that fills it.
pub open spec fn is_recentered(
    before: Layout,
    after: Layout,
    id: u64,
    grid: SnapGrid,
    area: Rectangle,
    now: Instant,
) -> bool {
    let (found, window) = (before.window(id)->0, after.window(id)->0);
    let rect = grid.cell(found.state.snap->0.zone, area);
    &&& after.window(id) is Some
    &&& window.state.snap == Some(Snap { grid, ..found.state.snap->0 })
    &&& window.client.size is Some
    &&& window.client.maximized
    &&& heads_for(after, id, rect.loc, window.client.size->0, now)
    &&& has_room(rect.size, found.state.is_ssd) ==> is_framed(
        window.client.size->0,
        rect.size,
        found.state.is_ssd,
    )
}

/// When one window leaves a tiled group, each of the others sets out for its own
/// zone on the new grid, with a frame that fills it. Nothing jumps.
pub proof fn groups_close_ranks(
    layout: Layout,
    members: Seq<u64>,
    i: int,
    left: u64,
    grid: SnapGrid,
    area: Rectangle,
    now: Instant,
    k: int,
    other: u64,
)
    requires
        0 <= i <= members.len(),
        members.no_duplicates(),
    ensures
        ({
            let after = layout.recentered(members, i, left, grid, area, now);
            &&& same_places(layout, after)
            &&& other == left || !members.skip(i).contains(other) ==> after.window(other)
                == layout.window(other)
            &&& i <= k < members.len() && members[k] != left && moves_with_group(layout, members[k])
                && layout.location(members[k]) is Some ==> is_recentered(
                layout,
                after,
                members[k],
                grid,
                area,
                now,
            )
        }),
    decreases members.len() - i,
{
    if i < members.len() {
        let id = members[i];
        let next = layout.recentering(id, left, grid, area, now);
        lemma_recentering(layout, id, left, grid, area, now, other);
        if i <= k < members.len() {
            lemma_recentering(layout, id, left, grid, area, now, members[k]);
            lemma_same_places(layout, next, members[k]);
        }
        groups_close_ranks(next, members, i + 1, left, grid, area, now, k, other);
        groups_close_ranks(next, members, i + 1, left, grid, area, now, k, id);
        assert(members.skip(i)[0] == id);
        assert forall|j: int| 0 <= j < members.skip(i + 1).len() implies #[trigger] members.skip(
            i + 1,
        )[j] == members.skip(i)[j + 1] by {}
        assert(!members.skip(i).contains(other) ==> other != id && !members.skip(i + 1).contains(
            other,
        ));
        assert(!members.skip(i + 1).contains(id));
        let after = next.recentered(members, i + 1, left, grid, area, now);
        lemma_same_places(next, after, id);
    }
}

/// When a window leaves a tiled group, every other tiled window that follows the
/// group is on the grid that splits the work area evenly, and sets out for its own
/// zone there.
pub proof fn groups_are_centered_again(
    layout: Layout,
    left: u64,
    id: u64,
    j: int,
    now: Instant,
    other: u64,
)
    requires
        layout.wf(),
        layout.home_area(left) is Some,
        id != left,
        0 <= j < layout.elements.len(),
        layout.elements[j].window == id,
        moves_with_group(layout, id),
        !layout.window(id)->0.ghosting(),
    ensures
        ({
            let area = layout.home_area(left)->0;
            let after = layout.closing_ranks(left, now);
            &&& is_recentered(layout, after, id, SnapGrid::center(area), area, now)
            &&& same_places(layout, after)
            &&& after.window(left) == layout.window(left)
            &&& layout.window(other) is Some && layout.window(other)->0.state.snap is None
                ==> after.window(other) == layout.window(other)
        }),
{
    let area = layout.home_area(left)->0;
    let grid = SnapGrid::center(area);
    let members = layout.members(0);
    assert(mapped_once(layout.elements)) by {
        reveal(Layout::wf);
    }
    lemma_members_once(layout, 0);
    lemma_listed(layout, id, j, 0);
    let k = choose|k: int| 0 <= k < members.len() && members[k] == id;
    assert(layout.location(id) is Some) by {
        reveal(Layout::location);
        lemma_placed_exists(layout.elements, id, j, 0);
    }
    groups_close_ranks(layout, members, 0, left, grid, area, now, k, left);
    lemma_members_are_tiled(layout, 0);
    assert(members.skip(0) == members);
    groups_close_ranks(layout, members, 0, left, grid, area, now, k, other);
}

/// A mapped window of the group is among its members.
proof fn lemma_listed(layout: Layout, id: u64, j: int, i: int)
    requires
        0 <= i <= j < layout.elements.len(),
        layout.elements[j].window == id,
        layout.is_member(id),
    ensures
        layout.members(i).contains(id),
    decreases j - i,
{
    if i == j {
        assert(layout.members(i)[0] == id);
    } else {
        lemma_listed(layout, id, j, i + 1);
        let rest = layout.members(i + 1);
        let k = choose|k: int| 0 <= k < rest.len() && rest[k] == id;
        if layout.is_member(layout.elements[i].window) {
            assert(layout.members(i)[k + 1] == id);
        }
    }
}

/// Only tiled windows are members of a group.
proof fn lemma_members_are_tiled(layout: Layout, i: int)
    requires
        0 <= i,
    ensures
        forall|j: int|
            0 <= j < layout.members(i).len() ==> layout.is_member(#[trigger] layout.members(i)[j]),
    decreases layout.elements.len() - i,
{
    if i < layout.elements.len() {
        lemma_members_are_tiled(layout, i + 1);
        let id = layout.elements[i].window;
        if layout.is_member(id) {
            assert forall|j: int| 0 <= j < layout.members(i).len() implies layout.is_member(
                #[trigger] layout.members(i)[j],
            ) by {
                if j > 0 {
                    assert(layout.members(i)[j] == layout.members(i + 1)[j - 1]);
                }
            }
        }
    }
}

/// The centered grid splits the area in halves: those on either side of a divider
/// differ by a pixel at most.
pub proof fn centered_grids_split_evenly(area: Rectangle)
    requires
        area.edges_fit(),
        area.size.w >= 2,
        area.size.h >= 2,
    ensures
        ({
            let grid = SnapGrid::center(area);
            let (left, right) = (
                grid.cell(SnapZone::LeftHalf, area),
                grid.cell(SnapZone::RightHalf, area),
            );
            let (top, bottom) = (
                grid.cell(SnapZone::TopHalf, area),
                grid.cell(SnapZone::BottomHalf, area),
            );
            &&& -1 <= left.size.w - right.size.w <= 1
            &&& -1 <= top.size.h - bottom.size.h <= 1
        }),
{
}

/// An X11 window that is let go is put where the edges that were not dragged stay
/// where they were, with the last size the drag gave it, and its client is told
/// exactly that.
pub proof fn released_x11_windows_keep_the_far_edge(
    layout: Layout,
    grab: ResizeGrabState,
    serial: Serial,
)
    requires
        layout.wf(),
        layout.window(grab.window) is Some,
        layout.location(grab.window) is Some,
        layout.window(grab.window)->0.kind == SurfaceKind::X11,
        layout.window(grab.window)->0.is_alive(),
        layout.window(grab.window)->0.resize_state() is Resizing,
    ensures
        ({
            let id = grab.window;
            let size = layout.window(id)->0.resize_state()->Resizing_0.last_window_size;
            let (was, old) = (grab.initial_window_location, grab.initial_window_size);
            let after = layout.let_go(grab, serial);
            let at = after.location(id)->0;
            let (far_x, far_y) = (was.x + old.w - size.w, was.y + old.h - size.h);
            &&& after.location(id) is Some
            &&& grab.edges.left && fits(old.w - size.w) && fits(far_x) ==> at.x + size.w == was.x
                + old.w
            &&& grab.edges.top && fits(old.h - size.h) && fits(far_y) ==> at.y + size.h == was.y
                + old.h
            &&& !grab.edges.left ==> at.x == layout.location(id)->0.x
            &&& !grab.edges.top ==> at.y == layout.location(id)->0.y
            &&& after.actions.contains(
                Action::SyncX11 { window: id, rect: Rectangle { loc: at, size } },
            )
        }),
{
    let id = grab.window;
    let window = layout.window(id)->0;
    lemma_ids_match(layout);
    lemma_window_wf(layout, id);
    let size = window.resize_state()->Resizing_0.last_window_size;
    let current = layout.location(id)->0;
    let loc = anchored(
        grab.edges,
        grab.initial_window_location,
        grab.initial_window_size,
        size,
        current,
    );
    let kept = window.with_resize(window.resize_state().committing());
    let put = layout.with_window(kept);
    lemma_window_replaced(layout, kept, id);
    lemma_put_wf(layout, kept);
    lemma_mapped(put, id, loc, true, id);
    lemma_mapped_wf(put, id, loc, true);
    let placed = put.mapped(id, loc, true);
    let sync = Action::SyncX11 { window: id, rect: Rectangle { loc, size } };
    let finished = placed.acting(sync);
    lemma_acted(placed, sync, id);
    lemma_same_places(placed, finished, id);
    assert(mapped_once(placed.elements)) by {
        reveal(Layout::wf);
    }
    lemma_members_once(finished, 0);
    letting_go_settles_the_group(finished, finished.members(0), 0, id, serial, 0, id);
    let after = finished.group_finished(finished.members(0), 0, id, serial);
    lemma_same_places(finished, after, id);
    let n = finished.actions.len() - 1;
    assert(finished.actions[n] == sync);
    assert(after.actions[n] == sync);
}

/// While an X11 window is resized, it is configured to the last size that the drag
/// gave it, at the place where the edges that are not dragged stay where they were.
/// It is not moved before it was resized, and one that has not answered yet is left
/// alone.
pub proof fn resized_x11_windows_keep_the_far_edge(layout: Layout, id: u64, other: u64)
    requires
        layout.window(id) is Some,
        layout.location(id) is Some,
        layout.window(id)->0.kind == SurfaceKind::X11,
        layout.window(id)->0.resize_state() is Resizing,
    ensures
        ({
            let found = layout.window(id)->0;
            let resize = found.resize_state()->Resizing_0;
            let size = resize.last_window_size;
            let (was, old) = (resize.initial_window_location, resize.initial_window_size);
            let after = layout.advancing(id);
            let asked = after.actions.last();
            &&& same_places(layout, after)
            &&& other != id ==> after.window(other) == layout.window(other)
            &&& found.configure_pending || found.resize_state().next_size(found.acked) is None
                ==> after.actions == layout.actions
            &&& !found.configure_pending && found.resize_state().next_size(found.acked) is Some ==> {
                let (x, y) = (asked->ResizeX11_rect.loc.x, asked->ResizeX11_rect.loc.y);
                &&& after.actions == layout.actions.push(asked)
                &&& asked is ResizeX11
                &&& asked->ResizeX11_window == id
                &&& asked->ResizeX11_rect.size == size
                &&& resize.edges.left && fits(old.w - size.w) && fits(was.x + old.w - size.w) ==> x
                    + size.w == was.x + old.w
                &&& resize.edges.top && fits(old.h - size.h) && fits(was.y + old.h - size.h) ==> y
                    + size.h == was.y + old.h
                &&& !resize.edges.left ==> x == layout.location(id)->0.x
                &&& !resize.edges.top ==> y == layout.location(id)->0.y
            }
        }),
{
    lemma_ids_match(layout);
    let found = layout.window(id)->0;
    let settled = found.settled();
    let kept = layout.with_window(settled);
    lemma_window_replaced(layout, settled, id);
    lemma_window_replaced(layout, settled, other);
    let size = found.resize_state()->Resizing_0.last_window_size;
    let action = Action::ResizeX11 {
        window: id,
        rect: settled.anchored_rect(size, layout.location(id)->0),
    };
    lemma_acted(kept, action, id);
    lemma_acted(kept, action, other);
}

/// The members of a group are mapped once, and so listed once.
proof fn lemma_members_once(layout: Layout, i: int)
    requires
        0 <= i,
        mapped_once(layout.elements),
    ensures
        layout.members(i).no_duplicates(),
        forall|j: int|
            0 <= j < layout.members(i).len() ==> exists|k: int|
                i <= k < layout.elements.len() && #[trigger] layout.members(i)[j] == (
                #[trigger] layout.elements[k]).window,
    decreases layout.elements.len() - i,
{
    if i < layout.elements.len() {
        lemma_members_once(layout, i + 1);
        let id = layout.elements[i].window;
        let rest = layout.members(i + 1);
        if layout.is_member(id) {
            assert(layout.members(i) == seq![id] + rest);
            assert forall|j: int| 0 <= j < rest.len() implies #[trigger] rest[j] != id by {
                let k = choose|k: int|
                    i + 1 <= k < layout.elements.len() && rest[j] == (
                    #[trigger] layout.elements[k]).window;
                assert(layout.elements[k].window != id);
            }
            assert forall|j: int| 0 <= j < layout.members(i).len() implies exists|k: int|
                i <= k < layout.elements.len() && #[trigger] layout.members(i)[j] == (
                #[trigger] layout.elements[k]).window by {
                if j == 0 {
                    assert(layout.members(i)[j] == layout.elements[i].window);
                } else {
                    assert(layout.members(i)[j] == rest[j - 1]);
                }
            }
        }
    }
}

} // verus!
