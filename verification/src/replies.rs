//! What clients are told, and what they get, in reply to what they do.

use std::time::Instant;
use vstd::prelude::*;

use crate::animation::VisibilityKind;
use crate::effects::{
    is_framed, lemma_acted, lemma_cleared, lemma_configured, lemma_mapped, lemma_same_outputs,
    lemma_same_places, lemma_same_windows, same_places,
};
use crate::element::{ClientState, SurfaceKind, WindowElement};
use crate::events::Commit;
use crate::laws::{lemma_ids_match, lemma_window_replaced};
use crate::space::{Action, FullscreenSurface, Layout, Placed};
use crate::ssd::{BORDER_WIDTH, HEADER_BAR_HEIGHT};
use crate::state::{CursorStatus, Desk};
use crate::utils::{fits, Point, Serial};

verus! {

/// When a fullscreen client acknowledges a configure, with the decoration mode
/// that it has by then, it has been told the size of its output, less the titlebar
/// if it has one. It is not told again what it knows.
pub proof fn fullscreen_clients_know_their_size(
    layout: Layout,
    id: u64,
    serial: Serial,
    server_side: bool,
    other: u64,
)
    requires
        layout.window(id) is Some,
        layout.location(id) is Some,
        layout.window(id)->0.kind == SurfaceKind::Wayland,
        layout.outputs_for(id).len() > 0,
        layout.output_geometry(layout.outputs_for(id)[0]) is Some,
    ensures
        ({
            let found = layout.window(id)->0;
            let geo = layout.output_geometry(layout.outputs_for(id)[0])->0;
            let after = layout.acknowledged(id, serial, server_side);
            let window = after.window(id)->0;
            let bar = if server_side {
                HEADER_BAR_HEIGHT as int
            } else {
                0
            };
            &&& after.window(id) is Some
            &&& window.state.is_ssd == server_side
            &&& found.state.header_bar.fullscreen && geo.size.h >= bar ==> {
                &&& window.client.size is Some
                &&& window.client.size->0.w == geo.size.w
                &&& window.client.size->0.h == geo.size.h - bar
            }
            &&& window.client.size == found.client.size ==> after.actions == layout.actions
            &&& window.client.size != found.client.size ==> after.actions == layout.actions.push(
                Action::Configure { window: id, client: window.client, send: true },
            )
            &&& !found.state.header_bar.fullscreen ==> window.client == found.client
            &&& same_places(layout, after)
            &&& other != id ==> after.window(other) == layout.window(other)
        }),
{
    lemma_ids_match(layout);
    let found = layout.window(id)->0;
    let acked = found.with_resize(found.resize_state().acked(serial, found.acked_resizing));
    let window = acked.with_ssd(server_side);
    let kept = layout.with_window(window);
    lemma_window_replaced(layout, window, id);
    lemma_window_replaced(layout, window, other);
    lemma_same_places(layout, kept, id);
    assert(kept.outputs_for(id) == layout.outputs_for(id));
    assert(kept.output_geometry(layout.outputs_for(id)[0]) == layout.output_geometry(
        layout.outputs_for(id)[0],
    ));
    match kept.fullscreen_fit(window) {
        Some(size) => {
            let told = window.telling(ClientState { size: Some(size), ..window.client });
            lemma_configured(kept, told, true, id);
            lemma_configured(kept, told, true, other);
        },
        None => {},
    }
}

/// An X11 window that leaves the fullscreen state has the frame it asked for
/// again, and the output that it covered shows the space again; no other output
/// is touched.
pub proof fn x11_windows_uncover_their_output(
    layout: Layout,
    id: u64,
    k: int,
    now: Instant,
    other_output: u64,
    other: u64,
)
    requires
        layout.window(id) is Some,
        layout.location(id) is Some,
        layout.window(id)->0.is_alive(),
        0 <= k < layout.outputs.len(),
        layout.output(layout.outputs[k].id) == Some(layout.outputs[k]),
        layout.outputs[k].fullscreen == Some(FullscreenSurface { window: Some(id) }),
        forall|j: int|
            0 <= j < k ==> (#[trigger] layout.outputs[j]).fullscreen != Some(
                FullscreenSurface { window: Some(id) },
            ),
    ensures
        ({
            let found = layout.window(id)->0;
            let output = layout.outputs[k].id;
            let after = layout.unfullscreening_x11(id, now);
            let window = after.window(id)->0;
            &&& after.window(id) is Some
            &&& !window.client.fullscreen
            &&& window.state.is_ssd == !found.decorated
            &&& after.output(output) is Some
            &&& after.output(output)->0.fullscreen == Some(FullscreenSurface { window: None })
            &&& other_output != output ==> after.output(other_output) == layout.output(
                other_output,
            )
            &&& after.location(other) == layout.location(other)
            &&& other != id ==> after.window(other) == layout.window(other)
        }),
{
    lemma_ids_match(layout);
    let found = layout.window(id)->0;
    let output = layout.outputs[k].id;
    let window = found.with_ssd(!found.decorated).x11_fullscreen(false);
    let unset = Action::SetFullscreenX11 { window: id, fullscreen: false };
    let kept = layout.with_window(window);
    lemma_window_replaced(layout, window, id);
    lemma_window_replaced(layout, window, other);
    let told = kept.acting(unset);
    lemma_acted(kept, unset, id);
    lemma_acted(kept, unset, other);
    lemma_first_covered(told, id, k, 0);
    let placed = match told.element_bbox(id, now) {
        Some(rect) => {
            lemma_acted(told, Action::ConfigureX11 { window: id, rect }, id);
            lemma_acted(told, Action::ConfigureX11 { window: id, rect }, other);
            told.acting(Action::ConfigureX11 { window: id, rect })
        },
        None => told,
    };
    lemma_same_outputs(layout, placed, output);
    lemma_same_outputs(layout, placed, other_output);
    lemma_same_places(layout, placed, other);
    lemma_same_places(layout, told, id);
    let after = placed.cleared(Some(output));
    lemma_cleared(placed, output, other_output);
    lemma_cleared(placed, output, output);
    lemma_same_windows(placed, after, id);
    lemma_same_windows(placed, after, other);
    assert(after == layout.unfullscreening_x11(id, now));
}

proof fn lemma_first_covered(layout: Layout, id: u64, k: int, i: int)
    requires
        0 <= i <= k < layout.outputs.len(),
        layout.outputs[k].fullscreen == Some(FullscreenSurface { window: Some(id) }),
        forall|j: int|
            i <= j < k ==> (#[trigger] layout.outputs[j]).fullscreen != Some(
                FullscreenSurface { window: Some(id) },
            ),
    ensures
        layout.output_covered_by(id, i) == Some(layout.outputs[k].id),
    decreases k - i,
{
    if i < k {
        lemma_first_covered(layout, id, k, i + 1);
    }
}

/// A window that was opened has the keyboard focus once the focus is handed over,
/// and it is handed over once.
pub proof fn pending_focus_is_handed_over_once(desk: Desk)
    requires
        desk.has_keyboard,
    ensures
        ({
            let after = desk.focusing();
            &&& after.pending_focus is None
            &&& desk.pending_focus is Some ==> after.focus == desk.pending_focus
                && after.layout.actions == desk.layout.actions.push(
                Action::SetFocus { focus: desk.pending_focus },
            )
            &&& desk.pending_focus is None ==> after == desk
            &&& after.focusing() == after
        }),
{
    reveal(Layout::acting);
}

/// A window that goes away takes the focus with it only if it had it.
pub proof fn others_keep_the_focus(desk: Desk, id: u64, now: Instant)
    requires
        desk.focus != Some(id),
    ensures
        desk.minimizing(id).focus == desk.focus,
        desk.closing(id, now).focus == desk.focus,
        desk.haunting(id, now).focus == desk.focus,
        desk.abandoning(id, now).focus == desk.focus,
{
}

/// Windows that are minimized stay in the list as long as they have a client, in
/// their order, and leave it with their client.
pub proof fn minimized_windows_leave_with_their_client(desk: Desk, now: Instant, k: int)
    requires
        0 <= k < desk.minimized.len(),
    ensures
        ({
            let after = desk.reaped(now);
            &&& after.layout.has_client(desk.minimized[k].window) ==> after.minimized.contains(
                desk.minimized[k],
            )
            &&& forall|j: int|
                0 <= j < after.minimized.len() ==> after.layout.has_client(
                    (#[trigger] after.minimized[j]).window,
                ) && desk.minimized.contains(after.minimized[j])
        }),
{
    let haunted = desk.all_abandoning(desk.layout.abandoned(0), 0, now);
    lemma_minimized_kept(desk, desk.layout.abandoned(0), 0, now);
    let with_client = |p: Placed| haunted.layout.has_client(p.window);
    broadcast use vstd::seq_lib::group_filter_ensures;

    assert(desk.minimized.filter(with_client) == desk.reaped(now).minimized);
    assert(desk.minimized.contains(desk.minimized[k]));
    assert forall|j: int| 0 <= j < desk.minimized.filter(with_client).len() implies with_client(
        #[trigger] desk.minimized.filter(with_client)[j],
    ) && desk.minimized.contains(desk.minimized.filter(with_client)[j]) by {
        lemma_filtered(desk.minimized, with_client, j);
    }
}

proof fn lemma_filtered(list: Seq<Placed>, keep: spec_fn(Placed) -> bool, j: int)
    requires
        0 <= j < list.filter(keep).len(),
    ensures
        list.contains(list.filter(keep)[j]),
    decreases list.len(),
{
    reveal(Seq::filter);
    let rest = list.drop_last().filter(keep);
    if j < rest.len() {
        lemma_filtered(list.drop_last(), keep, j);
        let k = choose|k: int|
            0 <= k < list.drop_last().len() && list.drop_last()[k] == rest[j];
        assert(list[k] == list.filter(keep)[j]);
    } else {
        assert(list[list.len() - 1] == list.filter(keep)[j]);
    }
}

proof fn lemma_minimized_kept(desk: Desk, windows: Seq<u64>, i: int, now: Instant)
    ensures
        desk.all_abandoning(windows, i, now).minimized == desk.minimized,
    decreases windows.len() - i,
{
    if 0 <= i < windows.len() {
        lemma_minimized_kept(desk.abandoning(windows[i], now), windows, i + 1, now);
    }
}

/// The ghost of a window is as large as the frame around what it showed last, and
/// fades from where its closing was; one that was not closing starts to.
pub proof fn ghosts_fade_from_the_last_frame(window: WindowElement, now: Instant)
    requires
        window.can_haunt(now),
        !window.state.header_bar.fullscreen,
    ensures
        ({
            let after = window.haunting(now);
            let (was, fading) = (
                window.state.visibility.animation,
                after.state.visibility.animation->0,
            );
            let (shown, frame) = (window.state.last_frame->0.size, after.ghost_state.size);
            &&& after.ghosting()
            &&& after.state.visibility.animation is Some
            &&& fading.kind == VisibilityKind::Close
            &&& !fading.is_finished(now)
            &&& was is Some && was->0.kind == VisibilityKind::Close ==> fading == was->0
            &&& !(was is Some && was->0.kind == VisibilityKind::Close) ==> fading.start_time == now
            &&& fits(shown.w + 2 * BORDER_WIDTH) && fits(
                shown.h + HEADER_BAR_HEIGHT + BORDER_WIDTH,
            ) ==> is_framed(shown, frame, window.state.is_ssd)
        }),
{
}

/// The offset of a commit's buffer moves the one thing that the surface is shown
/// as: the window, from where the same commit without an offset leaves it; else
/// the cursor, which stays where it is while its hotspot moves against the offset;
/// else the icon of a drag.
pub proof fn buffer_offsets_move_what_is_shown(desk: Desk, commit: Commit, by: Point, now: Instant)
    requires
        desk.layout.wf(),
        commit.buffer_delta == Some(by),
    ensures
        ({
            let still = Commit { buffer_delta: None, ..commit };
            let (after, before) = (desk.committed(commit, now), desk.committed(still, now));
            let (moved, kept) = (
                desk.window_committed(commit, now),
                desk.window_committed(still, now),
            );
            let is_cursor = desk.cursor_status == CursorStatus::Surface(commit.surface);
            let is_icon = desk.dnd_icon is Some && desk.dnd_icon->0.surface == commit.surface;
            let is_window = commit.is_root && commit.window is Some && desk.layout.window(
                commit.window->0,
            ) is Some && desk.layout.window(commit.window->0)->0.kind == SurfaceKind::Wayland;
            &&& before.cursor_hotspot == desk.cursor_hotspot
            &&& before.dnd_icon == desk.dnd_icon
            &&& is_window && kept.wf() && kept.location(commit.window->0) is Some ==> {
                let (to, from) = (
                    moved.location(commit.window->0)->0,
                    kept.location(commit.window->0)->0,
                );
                &&& moved.location(commit.window->0) is Some
                &&& fits(from.x + by.x) ==> to.x == from.x + by.x
                &&& fits(from.y + by.y) ==> to.y == from.y + by.y
                &&& after.cursor_hotspot == desk.cursor_hotspot
                &&& after.dnd_icon == desk.dnd_icon
            }
            &&& !is_window ==> moved == kept
            &&& !is_window && is_cursor ==> {
                let (to, from) = (after.cursor_hotspot, desk.cursor_hotspot);
                &&& fits(from.x - by.x) ==> to.x == from.x - by.x
                &&& fits(from.y - by.y) ==> to.y == from.y - by.y
                &&& after.dnd_icon == desk.dnd_icon
            }
            &&& !is_window && !is_cursor ==> after.cursor_hotspot == desk.cursor_hotspot
            &&& !is_window && !is_cursor && is_icon ==> {
                let (to, from) = (after.dnd_icon->0.offset, desk.dnd_icon->0.offset);
                &&& after.dnd_icon is Some && after.dnd_icon->0.surface == commit.surface
                &&& fits(from.x + by.x) ==> to.x == from.x + by.x
                &&& fits(from.y + by.y) ==> to.y == from.y + by.y
            }
        }),
{
    match commit.window {
        Some(id) => {
            let kept = desk.window_committed(Commit { buffer_delta: None, ..commit }, now);
            if kept.wf() && kept.location(id) is Some {
                lemma_mapped(kept, id, kept.location(id)->0.moved(by), false, id);
            }
        },
        None => {},
    }
}

} // verus!
