use oxide_desktop::grabs::{ResizeEdge, X11ResizeEdge};
use oxide_desktop::ssd::{
    content_offset, fullscreen_content_offset, icon_offset, resize_cursor, resize_edge_band,
    CursorIcon, DragAnchor, GhostState, HeaderBar, HeaderPart, Paint,
};
use oxide_desktop::utils::{FixedPoint, Point, Size};
use oxide_desktop::xdg::{
    decorated_content_size, fullscreen_content_size, maximize_content_size, restore_drag_location,
    undecorated_content_size,
};

fn px(x: i32, y: i32) -> FixedPoint {
    FixedPoint::from_pixels(x, y)
}

fn edges(top: bool, bottom: bool, left: bool, right: bool) -> ResizeEdge {
    ResizeEdge { top, bottom, left, right }
}

#[test]
fn drag_anchor_adapts_to_committed_size() {
    // Grabbing the titlebar at 1/4 of a 1000px-wide maximized window, 15px
    // down from the top.
    let loc = Point::new(100, 50);
    let size = Size::new(1000, 600);
    let grab = px(350, 65);
    let anchor = DragAnchor::capture(loc, size, grab);
    assert_eq!(anchor.fraction_num * 4, anchor.fraction_den);
    assert_eq!(anchor.rel_y, 15 * 65536);

    // The client chose half the width; the pointer must stay at 25% of it.
    let located = anchor.locate(grab, Size::new(500, 400));
    assert_eq!(located, Point::new(225, 50));
    assert!((350.0 - (located.x as f64 + 0.25 * 500.0)).abs() < 1.0);
    assert!((65.0 - (located.y as f64 + 15.0)).abs() < 1.0);

    // The window keeps following the pointer, so the anchored spot stays
    // under it as it moves.
    let moved = px(450, 165);
    let located = anchor.locate(moved, Size::new(500, 400));
    assert_eq!(located, Point::new(325, 150));
}

#[test]
fn drag_anchor_zero_width_falls_back_to_center() {
    let anchor = DragAnchor::capture(Point::new(0, 0), Size::new(0, 0), px(10, 10));
    assert_eq!(anchor.fraction_num * 2, anchor.fraction_den);
}

#[test]
fn restore_drag_keeps_relative_grab() {
    let loc = Point::new(0, 0);
    let decorated = Size::new(1280, 800);
    let grab = px(640, 15);
    let restore = Some(Size::new(640, 480));
    // new decorated width = 640 + 4 = 644; middle -> 322
    // origin = (640 - 322, 15 - 15) = (318, 0)
    assert_eq!(restore_drag_location(loc, decorated, grab, restore, true), Point::new(318, 0));

    // no restore size -> fraction of the current width is unchanged
    let out = restore_drag_location(loc, decorated, grab, None, true);
    assert_eq!(out, Point::new(0, 0));
}

#[test]
fn anchors_and_restored_drags_agree() {
    let loc = Point::new(37, 11);
    let grab = px(501, 23);
    for width in [0, 1280] {
        let decorated = Size::new(width, 800);
        let anchor = DragAnchor::capture(loc, decorated, grab);
        let restored = restore_drag_location(loc, decorated, grab, Some(Size::new(333, 480)), true);
        assert_eq!(anchor.locate(grab, Size::new(337, 512)), restored);
        assert_eq!(restored.y, 11);
    }
}

#[test]
fn windows_without_a_width_are_grabbed_in_the_middle() {
    let out = restore_drag_location(
        Point::new(0, 7),
        Size::new(0, 0),
        px(100, 20),
        Some(Size::new(60, 40)),
        false,
    );
    assert_eq!(out, Point::new(70, 7));
}

#[test]
fn frames_are_added_and_taken_off() {
    let content = Size::new(640, 480);
    assert_eq!(decorated_content_size(content, true), Size::new(644, 512));
    assert_eq!(decorated_content_size(content, false), content);
    assert_eq!(undecorated_content_size(Size::new(644, 512), true), content);
    assert_eq!(undecorated_content_size(Size::new(3, 3), true), Size::new(1, 1));
    let output = Size::new(1920, 1080);
    assert_eq!(maximize_content_size(output, true), Size::new(1916, 1048));
    assert_eq!(decorated_content_size(maximize_content_size(output, true), true), output);
    assert_eq!(maximize_content_size(output, false), output);
    assert_eq!(fullscreen_content_size(output, true), Size::new(1920, 1050));
    assert_eq!(fullscreen_content_size(output, false), output);
    assert_eq!(fullscreen_content_size(Size::new(10, 10), true), Size::new(10, 0));
}

#[test]
fn resize_bands_reach_over_the_border() {
    let bar = HeaderBar::new();
    let size = Size::new(100, 80);
    assert_eq!(bar.resize_edge(px(-2, 40), size), Some(edges(false, false, true, false)));
    assert_eq!(bar.resize_edge(px(1, 1), size), Some(edges(true, false, true, false)));
    assert_eq!(bar.resize_edge(px(99, 79), size), Some(edges(false, true, false, true)));
    assert_eq!(bar.resize_edge(px(101, 40), size), Some(edges(false, false, false, true)));
    assert_eq!(bar.resize_edge(px(102, 40), size), None);
    assert_eq!(bar.resize_edge(px(-3, 40), size), None);
    assert_eq!(bar.resize_edge(px(2, 40), size), None);
    assert_eq!(bar.resize_edge(px(0, 0), Size::new(0, 10)), None);
    let mut covering = bar;
    covering.fullscreen = true;
    assert_eq!(covering.resize_edge(px(0, 0), size), None);
}

#[test]
fn tiled_clients_have_a_band_inside() {
    let size = Size::new(100, 80);
    assert_eq!(resize_edge_band(px(4, 40), size), Some(edges(false, false, true, false)));
    assert_eq!(resize_edge_band(px(5, 40), size), None);
    assert_eq!(resize_edge_band(px(96, 76), size), Some(edges(false, true, false, true)));
    assert_eq!(resize_edge_band(px(100, 40), size), Some(edges(false, false, false, true)));
    assert_eq!(resize_edge_band(px(101, 40), size), None);
    assert_eq!(resize_edge_band(px(-1, 40), size), None);
}

#[test]
fn cursors_point_at_the_edges() {
    assert_eq!(resize_cursor(edges(true, false, true, false)), CursorIcon::NwResize);
    assert_eq!(resize_cursor(edges(true, false, false, true)), CursorIcon::NeResize);
    assert_eq!(resize_cursor(edges(false, true, true, false)), CursorIcon::SwResize);
    assert_eq!(resize_cursor(edges(false, true, false, true)), CursorIcon::SeResize);
    assert_eq!(resize_cursor(edges(true, false, false, false)), CursorIcon::NResize);
    assert_eq!(resize_cursor(edges(false, true, false, false)), CursorIcon::SResize);
    assert_eq!(resize_cursor(edges(false, false, true, false)), CursorIcon::WResize);
    assert_eq!(resize_cursor(edges(false, false, false, true)), CursorIcon::EResize);
    assert_eq!(resize_cursor(ResizeEdge::none()), CursorIcon::Default);
}

#[test]
fn edges_have_the_numbers_of_the_protocol() {
    assert_eq!(ResizeEdge::from_bits(0), Some(ResizeEdge::none()));
    assert_eq!(ResizeEdge::from_bits(5), Some(edges(true, false, true, false)));
    assert_eq!(ResizeEdge::from_bits(10), Some(edges(false, true, false, true)));
    assert_eq!(ResizeEdge::from_bits(16), None);
    assert_eq!(ResizeEdge::from_x11(X11ResizeEdge::TopRight), edges(true, false, false, true));
    assert_eq!(ResizeEdge::from_x11(X11ResizeEdge::Bottom), edges(false, true, false, false));
}

#[test]
fn titlebars_have_three_buttons() {
    let mut bar = HeaderBar::new();
    bar.redraw(200, Size::new(196, 100), false);
    assert_eq!(bar.part_under_pointer(), None);
    bar.pointer_enter(px(180, 10));
    assert_eq!(bar.part_under_pointer(), Some(HeaderPart::Close));
    bar.pointer_enter(px(169, 10));
    assert_eq!(bar.part_under_pointer(), Some(HeaderPart::Maximize));
    bar.pointer_enter(px(110, 10));
    assert_eq!(bar.part_under_pointer(), Some(HeaderPart::Minimize));
    bar.pointer_enter(px(109, 10));
    assert_eq!(bar.part_under_pointer(), Some(HeaderPart::Title));
    assert!(bar.pointer_is_in_header());
    bar.pointer_enter(px(109, 30));
    assert!(!bar.pointer_is_in_header());
    bar.pointer_leave();
    assert_eq!(bar.pointer_loc, None);
}

#[test]
fn redrawing_follows_the_pointer() {
    let mut bar = HeaderBar::new();
    bar.redraw(200, Size::new(196, 100), true);
    assert_eq!(bar.background.size, Size::new(200, 30));
    assert_eq!(bar.background.paint, Paint::FocusedBackground);
    assert_eq!(bar.borders.bottom.size, Size::new(200, 2));
    assert_eq!(bar.borders.left.size, Size::new(2, 100));
    assert!(!bar.close_button_hover);

    bar.pointer_enter(px(190, 10));
    bar.redraw(200, Size::new(196, 100), true);
    assert!(bar.close_button_hover && !bar.maximize_button_hover);
    assert_eq!(bar.close_button.paint, Paint::ButtonHover);

    bar.pointer_enter(px(150, 10));
    bar.redraw(200, Size::new(196, 100), true);
    assert!(!bar.close_button_hover && bar.maximize_button_hover);
    assert_eq!(bar.close_button.paint, Paint::FocusedBackground);

    bar.pointer_enter(px(150, 40));
    bar.redraw(200, Size::new(196, 100), false);
    assert_eq!(bar.pointer_loc, None);
    assert_eq!(bar.maximize_button.paint, Paint::Background);

    bar.redraw(0, Size::new(0, 0), false);
    assert_eq!(bar.width, 0);
}

#[test]
fn offsets_leave_room_for_the_frame() {
    assert_eq!(content_offset(), Point::new(2, 30));
    assert_eq!(fullscreen_content_offset(), Point::new(0, 30));
    assert_eq!(icon_offset(), Point::new(10, 10));
}

#[test]
fn ghosts_have_a_size_while_they_last() {
    let mut state = GhostState::default();
    assert!(!state.is_active());
    assert_eq!(state.size(), None);
    state.begin(Size::new(10, 20));
    assert_eq!(state.size(), Some(Size::new(10, 20)));
    state.end();
    assert_eq!(state.size(), None);
}
