//! That what is drawn, what is clicked and what is shown agree.

use std::time::Instant;
use vstd::prelude::*;

use crate::cursor::{shown_after, shown_at, total_delay, Image};
use crate::element::WindowElement;
use crate::grabs::ResizeEdge;
use crate::laws::lemma_ids_match;
use crate::render::{Draw, Icon};
use crate::space::{Action, Layout};
use crate::ssd::{
    cursor_for, edges_of, side_at, HeaderBar, HeaderPart, BUTTON_HEIGHT, BUTTON_WIDTH,
    HEADER_BAR_HEIGHT, ICON_SIZE,
};
use crate::state::Desk;
use crate::utils::{FixedPoint, Serial, Size, FIXED_ONE};

verus! {

/// The titlebar button that an icon belongs to.
pub open spec fn part_of(icon: Icon) -> HeaderPart {
    match icon {
        Icon::Close => HeaderPart::Close,
        Icon::Minimize => HeaderPart::Minimize,
        Icon::Maximize | Icon::Restore => HeaderPart::Maximize,
    }
}

/// Every icon on a titlebar is drawn within the button that it stands for: a click
/// anywhere on it presses that button. So is the highlight of a hovered button,
/// which covers all of it.
pub proof fn buttons_are_where_they_are_drawn(
    bar: HeaderBar,
    maximize: Icon,
    k: int,
    x: int,
)
    requires
        3 * BUTTON_WIDTH <= bar.width <= i32::MAX,
        maximize == Icon::Maximize || maximize == Icon::Restore,
        0 <= k < bar.icon_draws(maximize).len(),
    ensures
        bar.icon_draws(maximize).len() == 3,
        bar.icon_draws(maximize)[k] is Icon,
        ({
            let icon = bar.icon_draws(maximize)[k]->Icon_icon;
            let at = bar.icon_draws(maximize)[k]->Icon_at;
            &&& 0 <= at.y && at.y + ICON_SIZE <= BUTTON_HEIGHT
            &&& at.x * FIXED_ONE <= x < (at.x + ICON_SIZE) * FIXED_ONE ==> HeaderBar::part_at(x, bar.width)
                == part_of(icon)
        }),
        bar.close_button_hover ==> bar.bar_draws()[0] == (Draw::Fill {
            fill: bar.close_button,
            at: crate::render::at(bar.width - BUTTON_WIDTH, 0),
        }),
        HeaderBar::part_at(x, bar.width) == HeaderPart::Close <==> x >= (bar.width - BUTTON_WIDTH)
            * FIXED_ONE,
        HeaderBar::part_at(x, bar.width) == HeaderPart::Title <==> x < (bar.width - 3
            * BUTTON_WIDTH) * FIXED_ONE,
{
}

/// A click on an icon of a titlebar asks for what the icon shows, of the window
/// that the titlebar belongs to, and does nothing else.
pub proof fn buttons_do_what_they_show(
    desk: Desk,
    bar: HeaderBar,
    maximize: Icon,
    k: int,
    window: u64,
    serial: Serial,
)
    requires
        3 * BUTTON_WIDTH <= bar.width <= i32::MAX,
        maximize == Icon::Maximize || maximize == Icon::Restore,
        0 <= k < bar.icon_draws(maximize).len(),
        bar.pointer_loc is Some,
        ({
            let (at, p) = (bar.icon_draws(maximize)[k]->Icon_at, bar.pointer_loc->0);
            &&& at.x * FIXED_ONE <= p.x < (at.x + ICON_SIZE) * FIXED_ONE
            &&& at.y * FIXED_ONE <= p.y < (at.y + ICON_SIZE) * FIXED_ONE
        }),
    ensures
        ({
            let after = desk.clicked(bar, window, serial);
            &&& after == desk.over(after.layout)
            &&& after.layout.windows == desk.layout.windows
            &&& after.layout.elements == desk.layout.elements
            &&& after.layout.actions == desk.layout.actions.push(
                match bar.icon_draws(maximize)[k]->Icon_icon {
                    Icon::Close => Action::CloseLater { window },
                    Icon::Minimize => Action::MinimizeLater { window },
                    Icon::Maximize | Icon::Restore => Action::ToggleMaximizeLater { window },
                },
            )
        }),
{
    let p = bar.pointer_loc->0;
    buttons_are_where_they_are_drawn(bar, maximize, k, p.x as int);
    reveal(Layout::acting);
}

/// A press on the title, away from the buttons, starts a drag of the window from
/// the place it is at and the point that was pressed. Of a maximized window it
/// asks for a move instead.
pub proof fn titles_are_handles(desk: Desk, bar: HeaderBar, window: u64, serial: Serial)
    requires
        3 * BUTTON_WIDTH < bar.width <= i32::MAX,
        bar.pointer_loc is Some,
        0 <= bar.pointer_loc->0.x < (bar.width - 3 * BUTTON_WIDTH) * FIXED_ONE,
        0 <= bar.pointer_loc->0.y < HEADER_BAR_HEIGHT * FIXED_ONE,
        desk.layout.window(window) is Some,
        desk.layout.location(window) is Some,
    ensures
        ({
            let (found, at) = (desk.layout.window(window)->0, desk.layout.location(window)->0);
            let after = desk.clicked(bar, window, serial);
            let (drag, p) = (after.ssd_drag->0, bar.pointer_loc->0);
            &&& found.client.maximized ==> after.layout.actions == desk.layout.actions.push(
                Action::MoveLater { window, serial },
            ) && after.ssd_drag == desk.ssd_drag
            &&& !found.client.maximized ==> {
                &&& after.ssd_drag is Some
                &&& after.dragging_window == Some(window)
                &&& drag.window == window
                &&& drag.start_origin == at
                &&& drag.snap_target is None
                &&& i64::MIN <= p.x + at.x * FIXED_ONE <= i64::MAX ==> drag.start_global.x == p.x
                    + at.x * FIXED_ONE
                &&& i64::MIN <= p.y + at.y * FIXED_ONE <= i64::MAX ==> drag.start_global.y == p.y
                    + at.y * FIXED_ONE
            }
        }),
{
    reveal(Layout::acting);
}

/// The end of a titlebar drag leaves no drag and no candidate; the window that was
/// dragged is tiled exactly where a tile was its target.
pub proof fn drops_tile_the_dragged_window(desk: Desk)
    requires
        desk.ssd_drag is Some,
    ensures
        ({
            let drag = desk.ssd_drag->0;
            let after = desk.drag_ended();
            &&& after.ssd_drag is None
            &&& after.dragging_window is None
            &&& after.snap_candidate is None
            &&& drag.snap_target is Some ==> after.layout.actions == desk.layout.actions.push(
                Action::SnapLater { window: drag.window, target: drag.snap_target->0 },
            )
            &&& drag.snap_target is None ==> after.layout.actions == desk.layout.actions
        }),
{
    reveal(Layout::acting);
    reveal(Layout::pinned);
    reveal(Layout::previews_hidden);
    lemma_ids_match(desk.layout);
    reveal(Layout::with_window);
}

/// A press at an edge resizes by exactly the edges that the cursor shows there:
/// different edges have different cursors.
pub proof fn cursors_tell_the_edges_apart(a: ResizeEdge, b: ResizeEdge)
    requires
        !(a.left && a.right) && !(a.top && a.bottom),
        !(b.left && b.right) && !(b.top && b.bottom),
        cursor_for(a) == cursor_for(b),
    ensures
        a == b,
{
}

/// A fullscreen window, and a maximized one that is not tiled, cannot be resized
/// by its edges anywhere.
pub proof fn filled_screens_have_no_edges(window: WindowElement, point: FixedPoint, now: Instant)
    requires
        window.state.header_bar.fullscreen || (!window.ghosting() && window.client.maximized
            && window.state.snap is None),
    ensures
        window.edge_at(point, now) is None,
{
}

/// The client's content is drawn where its input goes.
pub proof fn content_is_drawn_where_input_goes(
    window: WindowElement,
    point: FixedPoint,
    title_width: int,
    now: Instant,
)
    requires
        !window.ghosting(),
        window.framed() || !window.state.is_ssd,
        window.target_at(point, now) is Content,
    ensures
        ({
            let drawn = window.draws(title_width, now).last();
            &&& drawn is Content
            &&& drawn->Content_at == window.target_at(point, now)->Content_offset
            &&& drawn->Content_committed == window.content_size()
            &&& window.state.animation is None ==> drawn->Content_display == window.content_size()
                && !drawn->Content_stretched
        }),
{
}

/// The resize grip is the same on both sides: a point and its mirror image are on
/// opposite edges.
pub proof fn grips_are_symmetric(x: int, y: int, size: Size)
    requires
        size.w >= 4,
        size.h >= 4,
    ensures
        ({
            let grip = edges_of(side_at(x, size.w as int), side_at(y, size.h as int));
            let (over_x, over_y) = (size.w * FIXED_ONE - 1 - x, size.h * FIXED_ONE - 1 - y);
            let across = edges_of(side_at(over_x, size.w as int), side_at(y, size.h as int));
            let below = edges_of(side_at(x, size.w as int), side_at(over_y, size.h as int));
            &&& grip is Some <==> across is Some
            &&& grip is Some <==> below is Some
            &&& grip is Some ==> {
                &&& across->0.left == grip->0.right && across->0.right == grip->0.left
                &&& across->0.top == grip->0.top && across->0.bottom == grip->0.bottom
                &&& below->0.top == grip->0.bottom && below->0.bottom == grip->0.top
                &&& below->0.left == grip->0.left && below->0.right == grip->0.right
                &&& !(grip->0.left && grip->0.right) && !(grip->0.top && grip->0.bottom)
            }
        }),
{
}

/// How long the first `j` images of `list` are shown together.
pub open spec fn time_before(images: Seq<Image>, list: Seq<int>, j: int) -> int
    decreases j,
{
    if j <= 0 {
        0
    } else {
        time_before(images, list, j - 1) + images[list[j - 1]].delay
    }
}

/// An animated cursor shows each image for its own time, one after the other, and
/// starts over: the image that is shown is the one whose time it is.
pub proof fn cursors_show_the_image_whose_time_it_is(images: Seq<Image>, list: Seq<int>, millis: int)
    requires
        list.len() > 0,
        0 <= millis,
        0 < time_before(images, list, list.len() as int) <= u32::MAX,
    ensures
        ({
            let total = time_before(images, list, list.len() as int);
            exists|j: int|
                0 <= j < list.len() && shown_at(images, list, millis) == #[trigger] list[j]
                    && time_before(images, list, j) <= millis % total < time_before(
                    images,
                    list,
                    j + 1,
                )
        }),
{
    let total = time_before(images, list, list.len() as int);
    lemma_total(images, list);
    lemma_shown(images, list, 0, millis % total);
}

proof fn lemma_total(images: Seq<Image>, list: Seq<int>)
    requires
        time_before(images, list, list.len() as int) <= u32::MAX,
    ensures
        total_delay(images, list) == time_before(images, list, list.len() as int),
    decreases list.len(),
{
    if list.len() > 0 {
        let rest = list.drop_last();
        lemma_prefix(images, list, rest.len() as int);
        lemma_total(images, rest);
    }
}

proof fn lemma_prefix(images: Seq<Image>, list: Seq<int>, j: int)
    requires
        0 <= j < list.len(),
    ensures
        time_before(images, list.drop_last(), j) == time_before(images, list, j),
    decreases j,
{
    if j > 0 {
        lemma_prefix(images, list, j - 1);
        assert(list.drop_last()[j - 1] == list[j - 1]);
    }
}

proof fn lemma_shown(images: Seq<Image>, list: Seq<int>, i: int, millis: int)
    requires
        0 <= i <= list.len(),
        0 <= millis < time_before(images, list, list.len() as int) - time_before(images, list, i),
    ensures
        exists|j: int|
            i <= j < list.len() && shown_after(images, list, i, millis) == #[trigger] list[j]
                && time_before(images, list, j) <= millis + time_before(images, list, i)
                < time_before(images, list, j + 1),
    decreases list.len() - i,
{
    if i < list.len() {
        let delay = images[list[i]].delay as int;
        assert(time_before(images, list, i + 1) == time_before(images, list, i) + delay);
        if millis < delay {
            assert(shown_after(images, list, i, millis) == list[i]);
        } else {
            lemma_shown(images, list, i + 1, millis - delay);
            let j = choose|j: int|
                i + 1 <= j < list.len() && shown_after(images, list, i + 1, millis - delay)
                    == #[trigger] list[j] && time_before(images, list, j) <= millis - delay
                    + time_before(images, list, i + 1) < time_before(images, list, j + 1);
            assert(shown_after(images, list, i, millis) == list[j]);
        }
    }
}

} // verus!
