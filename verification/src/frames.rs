//! What each frame changes: how transitions play, and what is previewed.

use std::time::Instant;
use vstd::prelude::*;

use crate::animation::{
    ceil_div, cube, lemma_cube_bounds, lemma_cube_positive, lemma_steps, lerp_stays_between, steps,
    WindowAnimation, MAX_STEPS,
};
use crate::clock::elapsed;
use crate::laws::{lemma_ids_match, lemma_window_replaced, transitions_drive_the_location};
use crate::snap::SNAP_PREVIEW_DWELL_NANOS;
use crate::space::{Action, Layout, Output};
use crate::state::Desk;
use crate::utils::{max, min};

verus! {

/// A transition shows the window where it set out from when it starts, where it is
/// headed once its time is over, and between the two in between.
pub proof fn transitions_go_from_start_to_end(animation: WindowAnimation, now: Instant)
    requires
        !animation.content_pending,
    ensures
        ({
            let (from, to, at) = (animation.start, animation.end, animation.rect_at(now));
            let played = elapsed(now, animation.start_time);
            &&& played >= animation.duration ==> at == to
            &&& played == 0 && animation.duration > 0 ==> at == from
            &&& min(from.loc.x as int, to.loc.x as int) <= at.loc.x <= max(
                from.loc.x as int,
                to.loc.x as int,
            )
            &&& min(from.loc.y as int, to.loc.y as int) <= at.loc.y <= max(
                from.loc.y as int,
                to.loc.y as int,
            )
            &&& min(from.content.w as int, to.content.w as int) <= at.content.w <= max(
                from.content.w as int,
                to.content.w as int,
            )
            &&& min(from.content.h as int, to.content.h as int) <= at.content.h <= max(
                from.content.h as int,
                to.content.h as int,
            )
        }),
{
    reveal(WindowAnimation::eased_at);
    reveal(WindowAnimation::rect_at);
    let played = elapsed(now, animation.start_time);
    let (done, all) = steps(played, animation.duration as int);
    lemma_steps(played, animation.duration as int);
    let (num, den) = animation.eased_at(now);
    lemma_cube_positive(all);
    lemma_cube_bounds(all - done, all);
    assert(cube(0) == 0);
    if played == 0 && animation.duration > 0 {
        let unit = ceil_div(animation.duration as int, MAX_STEPS as int);
        assert(done == 0) by (nonlinear_arith)
            requires
                done == 0int / unit,
                unit != 0,
        ;
    }
    lerp_stays_between(animation.start.loc.x as int, animation.end.loc.x as int, num, den);
    lerp_stays_between(animation.start.loc.y as int, animation.end.loc.y as int, num, den);
    lerp_stays_between(animation.start.content.w as int, animation.end.content.w as int, num, den);
    lerp_stays_between(animation.start.content.h as int, animation.end.content.h as int, num, den);
}

/// Once the time of a transition is over, the window is at the place it was headed
/// for; the transition itself is over as soon as the client shows the size that it
/// was headed for, and not earlier.
pub proof fn finished_transitions_leave_the_window_at_its_goal(
    layout: Layout,
    id: u64,
    dragging: Option<u64>,
    now: Instant,
)
    requires
        layout.location(id) is Some,
        layout.window(id) is Some,
        !layout.window(id)->0.ghosting(),
        layout.window(id)->0.state.animation is Some,
        !layout.window(id)->0.state.animation->0.content_pending,
        dragging != Some(id),
    ensures
        ({
            let found = layout.window(id)->0;
            let animation = found.state.animation->0;
            let after = layout.transition_ticked(id, dragging, now);
            let (shown, goal) = (found.content_size(), animation.end.content);
            let is_over = elapsed(now, animation.start_time) >= animation.duration;
            &&& after.window(id) is Some
            &&& is_over ==> after.location(id) == Some(animation.end.loc)
            &&& is_over && shown == goal ==> after.window(id)->0.state.animation is None
            &&& !is_over || shown.w > goal.w + 1 || shown.w < goal.w - 1 || shown.h > goal.h + 1
                || shown.h < goal.h - 1 ==> after.window(id)->0.state.animation == Some(animation)
        }),
{
    let found = layout.window(id)->0;
    let animation = found.state.animation->0;
    lemma_ids_match(layout);
    transitions_drive_the_location(layout, id, dragging, now);
    transitions_go_from_start_to_end(animation, now);
    let settled = layout.with_window(found);
    lemma_window_replaced(layout, found, id);
    let moved = settled.relocated(id, animation.rect_at(now).loc);
    lemma_window_replaced(settled, found.stilled(), id);
    assert(moved.window(id) == settled.window(id)) by {
        reveal(Layout::relocated);
        reveal(Layout::window);
    }
    lemma_window_replaced(moved, found.stilled(), id);
}

/// A frame keeps the outputs.
proof fn lemma_transitions_keep_outputs(
    layout: Layout,
    windows: Seq<u64>,
    i: int,
    dragging: Option<u64>,
    now: Instant,
    over: Seq<u64>,
)
    ensures
        layout.transitions_ticked(windows, i, dragging, now, over).0.outputs == layout.outputs,
    decreases windows.len() - i,
{
    if 0 <= i < windows.len() {
        let id = windows[i];
        let next = layout.transition_ticked(id, dragging, now);
        assert(next.outputs == layout.outputs) by {
            reveal(Layout::with_window);
            reveal(Layout::relocated);
        }
        let gone = match layout.window(id) {
            Some(window) => window.ghost_over(now),
            None => false,
        };
        lemma_transitions_keep_outputs(
            next,
            windows,
            i + 1,
            dragging,
            now,
            if gone {
                over.push(id)
            } else {
                over
            },
        );
    }
}

proof fn lemma_retiring_keeps_outputs(layout: Layout, ghosts: Seq<u64>, i: int)
    ensures
        layout.ghosts_retired(ghosts, i).outputs == layout.outputs,
    decreases ghosts.len() - i,
{
    if 0 <= i < ghosts.len() {
        assert(layout.ghost_retired(ghosts[i]).outputs == layout.outputs) by {
            reveal(Layout::with_window);
            reveal(Layout::unmapped);
        }
        lemma_retiring_keeps_outputs(layout.ghost_retired(ghosts[i]), ghosts, i + 1);
    }
}

proof fn lemma_visibilities_keep_outputs(
    layout: Layout,
    windows: Seq<u64>,
    i: int,
    now: Instant,
    closing: Seq<u64>,
)
    ensures
        layout.visibilities_ticked(windows, i, now, closing).0.outputs == layout.outputs,
    decreases windows.len() - i,
{
    if 0 <= i < windows.len() {
        let id = windows[i];
        let close = match layout.window(id) {
            Some(window) => !window.ghosting() && window.state.visibility.sends_close(
                window.content_size(),
                now,
            ),
            None => false,
        };
        assert(layout.visibility_ticked(id, now).outputs == layout.outputs) by {
            reveal(Layout::with_window);
        }
        lemma_visibilities_keep_outputs(
            layout.visibility_ticked(id, now),
            windows,
            i + 1,
            now,
            if close {
                closing.push(id)
            } else {
                closing
            },
        );
    }
}

proof fn lemma_closes_keep_outputs(layout: Layout, windows: Seq<u64>, i: int)
    ensures
        layout.closes_sent(windows, i).outputs == layout.outputs,
    decreases windows.len() - i,
{
    if 0 <= i < windows.len() {
        let sent = layout.acting(Action::SendClose { window: windows[i] });
        assert(sent.outputs == layout.outputs) by {
            reveal(Layout::acting);
        }
        lemma_closes_keep_outputs(sent, windows, i + 1);
    }
}

/// A frame shows the preview of the candidate on its output, and on no other, once
/// the candidate has been one for the dwell time; before, it starts none. Outputs
/// are otherwise left alone.
pub proof fn frames_preview_the_candidate(desk: Desk, now: Instant, k: int)
    requires
        0 <= k < desk.layout.outputs.len(),
    ensures
        ({
            let before = desk.layout.outputs[k];
            let after = desk.ticked(now).layout.outputs[k];
            let is_due = desk.snap_candidate is Some && elapsed(now, desk.snap_candidate_since)
                >= SNAP_PREVIEW_DWELL_NANOS && desk.snap_candidate->0.output == before.id;
            &&& desk.ticked(now).layout.outputs.len() == desk.layout.outputs.len()
            &&& after == (Output { preview: after.preview, ..before })
            &&& is_due ==> after.preview is Some && after.preview->0.shown
                && after.preview->0.rect is Some
            &&& !is_due ==> {
                &&& (after.preview is Some) == (before.preview is Some)
                &&& before.preview is Some ==> after.preview->0.shown == before.preview->0.shown
            }
        }),
{
    let windows = desk.layout.mapped_ids();
    let (moved, over) = desk.layout.transitions_ticked(
        windows,
        0,
        desk.dragging_window,
        now,
        Seq::empty(),
    );
    lemma_transitions_keep_outputs(
        desk.layout,
        windows,
        0,
        desk.dragging_window,
        now,
        Seq::empty(),
    );
    lemma_retiring_keeps_outputs(moved, over, 0);
    let retired = moved.ghosts_retired(over, 0);
    lemma_visibilities_keep_outputs(retired, windows, 0, now, Seq::empty());
    let (seen, closing) = retired.visibilities_ticked(windows, 0, now, Seq::empty());
    lemma_closes_keep_outputs(seen, closing, 0);
    reveal(Layout::previews_ticked);
}

} // verus!
