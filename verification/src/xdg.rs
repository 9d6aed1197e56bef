//! Sizes and locations that toplevel requests work with.

use vstd::prelude::*;

use crate::ssd::{BORDER_WIDTH, HEADER_BAR_HEIGHT};
use crate::utils::{difference, larger, rounded_ratio, saturate, sum, FixedPoint, Point, Size, FIXED_ONE};

verus! {

use crate::ssd::DragAnchor;
use crate::utils::{fits, lemma_round_exact, lemma_round_scaled, max, round_ratio, sat32};

/// What is left of `v` after `chrome` pixels were taken off, at least `floor`.
pub open spec fn shrunk(v: int, chrome: int, floor: int) -> i32 {
    max(sat32(v - chrome), floor) as i32
}

/// The size of a fullscreen toplevel on an output.
pub open spec fn fullscreen_size(output: Size, is_ssd: bool) -> Size {
    if is_ssd {
        Size { w: output.w, h: shrunk(output.h as int, HEADER_BAR_HEIGHT as int, 0) }
    } else {
        output
    }
}

/// Size a toplevel should use while fullscreen.
///
/// Only server-decorated windows reserve room for the compositor's header bar.
/// Client-decorated windows have to fill the whole output, otherwise the
/// undecorated strip they leave behind is never painted (black).
pub fn fullscreen_content_size(output: Size, is_ssd: bool) -> (r: Size)
    ensures
        r == fullscreen_size(output, is_ssd),
{
    if is_ssd {
        Size { w: output.w, h: larger(difference(output.h, HEADER_BAR_HEIGHT), 0) }
    } else {
        output
    }
}

/// The content size of a maximized toplevel on an output.
pub open spec fn maximized_size(output: Size, is_ssd: bool) -> Size {
    if is_ssd {
        Size {
            w: shrunk(output.w as int, 2 * BORDER_WIDTH, 0),
            h: shrunk(output.h as int, HEADER_BAR_HEIGHT + BORDER_WIDTH, 0),
        }
    } else {
        output
    }
}

/// Size a toplevel should use while maximized, leaving room for the SSD frame
/// (borders + header bar) so the decorated window fits inside the output
/// instead of hanging off the right/bottom edge.
pub fn maximize_content_size(output: Size, is_ssd: bool) -> (r: Size)
    ensures
        r == maximized_size(output, is_ssd),
{
    if is_ssd {
        Size {
            w: larger(difference(output.w, 2 * BORDER_WIDTH), 0),
            h: larger(difference(output.h, HEADER_BAR_HEIGHT + BORDER_WIDTH), 0),
        }
    } else {
        output
    }
}

/// The size of the frame around `content`.
pub open spec fn decorated(content: Size, is_ssd: bool) -> Size {
    if is_ssd {
        Size {
            w: sat32(content.w + 2 * BORDER_WIDTH) as i32,
            h: sat32(content.h + HEADER_BAR_HEIGHT + BORDER_WIDTH) as i32,
        }
    } else {
        content
    }
}

/// Grow an undecorated content size into the full decorated size the SSD frame
/// occupies. Used when configuring X11 clients, whose `configure` takes the
/// frame rectangle rather than the content size.
pub fn decorated_content_size(content: Size, is_ssd: bool) -> (r: Size)
    ensures
        r == decorated(content, is_ssd),
{
    if is_ssd {
        Size {
            w: sum(content.w, 2 * BORDER_WIDTH),
            h: sum(content.h, HEADER_BAR_HEIGHT + BORDER_WIDTH),
        }
    } else {
        content
    }
}

/// The content that fits into a frame of size `decorated`.
pub open spec fn undecorated(decorated: Size, is_ssd: bool) -> Size {
    if is_ssd {
        Size {
            w: shrunk(decorated.w as int, 2 * BORDER_WIDTH, 1),
            h: shrunk(decorated.h as int, HEADER_BAR_HEIGHT + BORDER_WIDTH, 1),
        }
    } else {
        decorated
    }
}

/// Shrink a decorated rectangle's size back to the client's undecorated content
/// size. Inverse of [`decorated_content_size`].
pub fn undecorated_content_size(decorated: Size, is_ssd: bool) -> (r: Size)
    ensures
        r == undecorated(decorated, is_ssd),
{
    if is_ssd {
        Size {
            w: larger(difference(decorated.w, 2 * BORDER_WIDTH), 1),
            h: larger(difference(decorated.h, HEADER_BAR_HEIGHT + BORDER_WIDTH), 1),
        }
    } else {
        decorated
    }
}

/// The x origin that puts the fraction `rel / old_w` of a window `new_w` wide
/// at `grab_x`, where `rel` is how far into a window `old_w` wide it was
/// grabbed. A window without any width is taken to be grabbed in the middle.
#[verifier::opaque]
pub open spec fn origin_under_grab(grab_x: int, window_x: int, old_w: int, new_w: int) -> int {
    if old_w > 0 {
        let rel = grab_x - window_x * FIXED_ONE;
        sat32(round_ratio(grab_x * old_w - rel * new_w, FIXED_ONE * old_w))
    } else {
        sat32(round_ratio(2 * grab_x - FIXED_ONE * new_w, 2 * FIXED_ONE))
    }
}

/// The width of the frame that a drag restores to.
pub open spec fn restored_width(decorated_size: Size, restore: Option<Size>, is_ssd: bool) -> int {
    match restore {
        Some(size) => if is_ssd {
            sat32(size.w + 2 * BORDER_WIDTH)
        } else {
            size.w as int
        },
        None => decorated_size.w as int,
    }
}

/// Where a window dragged out of the maximized state goes.
pub open spec fn drag_origin(
    window_loc: Point,
    decorated_size: Size,
    grab: FixedPoint,
    restore: Option<Size>,
    is_ssd: bool,
) -> Point {
    Point {
        x: origin_under_grab(
            grab.x as int,
            window_loc.x as int,
            decorated_size.w as int,
            restored_width(decorated_size, restore, is_ssd),
        ) as i32,
        y: window_loc.y,
    }
}

/// Where to anchor a window being dragged out of the maximized state so the
/// pointer keeps grabbing the same spot on the titlebar: the same horizontal
/// fraction of the width, and the same vertical offset from the top.
pub fn restore_drag_location(
    window_loc: Point,
    decorated_size: Size,
    grab: FixedPoint,
    restore: Option<Size>,
    is_ssd: bool,
) -> (r: Point)
    ensures
        r == drag_origin(window_loc, decorated_size, grab, restore, is_ssd),
{
    reveal(origin_under_grab);
    let border: i32 = if is_ssd { 2 * BORDER_WIDTH } else { 0 };
    let new_w: i32 = match restore {
        Some(size) => sum(size.w, border),
        None => decorated_size.w,
    };
    let old_w = decorated_size.w;
    let one = FIXED_ONE as i128;
    let x = if old_w > 0 {
        let rel = grab.x as i128 - window_loc.x as i128 * one;
        proof {
            lemma_drag_products(grab.x as int, old_w as int, rel as int, new_w as int);
        }
        saturate(
            rounded_ratio(grab.x as i128 * old_w as i128 - rel * new_w as i128, one * old_w as i128),
        )
    } else {
        saturate(rounded_ratio(2 * grab.x as i128 - one * new_w as i128, 2 * one))
    };
    Point { x, y: window_loc.y }
}

proof fn lemma_drag_products(grab: int, old_w: int, rel: int, new_w: int)
    requires
        i64::MIN <= grab <= i64::MAX,
        fits(old_w),
        fits(new_w),
        -0x1_0000_0000_0000_0000 <= rel <= 0x1_0000_0000_0000_0000,
    ensures
        abs_le(grab * old_w, 0x8000_0000_0000_0000_0000_0000),
        abs_le(rel * new_w, 0x8000_0000_0000_0000_0000_0000),
{
    assert(abs_le(grab * old_w, 0x8000_0000_0000_0000_0000_0000)) by (nonlinear_arith)
        requires
            -0x8000_0000_0000_0000 <= grab <= 0x7fff_ffff_ffff_ffff,
            -0x8000_0000 <= old_w <= 0x7fff_ffff,
    ;
    assert(abs_le(rel * new_w, 0x8000_0000_0000_0000_0000_0000)) by (nonlinear_arith)
        requires
            -0x1_0000_0000_0000_0000 <= rel <= 0x1_0000_0000_0000_0000,
            -0x8000_0000 <= new_w <= 0x7fff_ffff,
    ;
}

spec fn abs_le(v: int, bound: int) -> bool {
    -bound <= v <= bound
}

/// Taking the frame off a decorated size gives back the content it was put
/// around.
pub proof fn undecorated_inverts_decorated(content: Size, is_ssd: bool)
    requires
        is_ssd ==> content.w >= 1 && content.h >= 1,
        fits(content.w + 2 * BORDER_WIDTH),
        fits(content.h + HEADER_BAR_HEIGHT + BORDER_WIDTH),
    ensures
        undecorated(decorated(content, is_ssd), is_ssd) == content,
{
}

/// The frame of a maximized window fits inside the output exactly whenever the
/// output is large enough to hold the chrome.
pub proof fn maximized_frame_fits_the_output(output: Size, is_ssd: bool)
    requires
        output.w >= 2 * BORDER_WIDTH,
        output.h >= HEADER_BAR_HEIGHT + BORDER_WIDTH,
    ensures
        decorated(maximized_size(output, is_ssd), is_ssd) == output,
{
}

/// The window restored under a drag keeps the grabbed spot under the pointer:
/// the pointer is within half a pixel of the same fraction of the new width.
pub proof fn restored_drag_keeps_the_grabbed_spot(
    grab_x: int,
    window_x: int,
    old_w: int,
    new_w: int,
)
    requires
        old_w > 0,
        fits(
            round_ratio(
                grab_x * old_w - (grab_x - window_x * FIXED_ONE) * new_w,
                FIXED_ONE * old_w,
            ),
        ),
    ensures
        ({
            let rel = grab_x - window_x * FIXED_ONE;
            let x = origin_under_grab(grab_x, window_x, old_w, new_w);
            // Everything is scaled by the old width to stay in whole numbers.
            crate::utils::abs(2 * (grab_x * old_w - (x * FIXED_ONE * old_w + rel * new_w)))
                <= FIXED_ONE * old_w
        }),
{
    reveal(origin_under_grab);
    let rel = grab_x - window_x * FIXED_ONE;
    let x = origin_under_grab(grab_x, window_x, old_w, new_w);
    assert(0 < FIXED_ONE * old_w);
    crate::utils::lemma_round_near(grab_x * old_w - rel * new_w, FIXED_ONE * old_w);
    assert(x * FIXED_ONE * old_w == x * (FIXED_ONE * old_w)) by (nonlinear_arith);
}

/// Where a drag puts a window is where its anchor puts it: a window that restores
/// to a size the compositor knows and one that is anchored until its client
/// chooses that size are held at the same spot.
pub proof fn anchors_agree_with_restored_drags(
    window_loc: Point,
    decorated_size: Size,
    grab: FixedPoint,
    restore: Option<Size>,
    is_ssd: bool,
    height: i32,
)
    ensures
        ({
            let width = restored_width(decorated_size, restore, is_ssd) as i32;
            let anchor = DragAnchor::of_grab(window_loc, decorated_size, grab);
            anchor.origin(grab, Size { w: width, h: height }) == drag_origin(
                window_loc,
                decorated_size,
                grab,
                restore,
                is_ssd,
            )
        }),
{
    reveal(DragAnchor::origin);
    reveal(origin_under_grab);
    let one = FIXED_ONE as int;
    let old_w = decorated_size.w as int;
    let new_w = restored_width(decorated_size, restore, is_ssd);
    let rel = grab.x - window_loc.x * FIXED_ONE;
    let anchor = DragAnchor::of_grab(window_loc, decorated_size, grab);
    assert(fits(new_w));
    assert(anchor.rel_y == grab.y - window_loc.y * one);
    assert(grab.y - anchor.rel_y == window_loc.y * one);
    lemma_round_exact(window_loc.y as int, one);
    if old_w > 0 {
        let at = grab.x * old_w - rel * new_w;
        assert(anchor.fraction_num == rel);
        assert(anchor.fraction_den == old_w * one);
        lemma_round_scaled(at, one * old_w, one);
        assert(grab.x * (old_w * one) - rel * (new_w * one) == one * at) by (nonlinear_arith)
            requires
                at == grab.x * old_w - rel * new_w,
        ;
        assert((old_w * one) * one == one * (one * old_w)) by (nonlinear_arith);
        assert(grab.x * anchor.fraction_den - anchor.fraction_num * (new_w * one) == one * at);
        assert(anchor.fraction_den * one == one * (one * old_w));
    } else {
        assert(anchor.fraction_num == 1 && anchor.fraction_den == 2);
        assert(grab.x * anchor.fraction_den - anchor.fraction_num * (new_w * one) == 2 * grab.x
            - one * new_w);
    }
}

/// A window that keeps its width does not move when its drag starts.
pub proof fn drag_without_a_new_width_stays_put(grab_x: int, window_x: int, width: int)
    requires
        width > 0,
        fits(window_x),
    ensures
        origin_under_grab(grab_x, window_x, width, width) == window_x,
{
    reveal(origin_under_grab);
    let rel = grab_x - window_x * FIXED_ONE;
    assert(grab_x * width - rel * width == window_x * (FIXED_ONE * width)) by (nonlinear_arith)
        requires
            rel == grab_x - window_x * FIXED_ONE,
    ;
    assert(0 < FIXED_ONE * width);
    crate::utils::lemma_round_exact(window_x, FIXED_ONE * width);
}

} // verus!
