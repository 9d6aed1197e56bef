use std::time::{Duration, Instant};

use oxide_desktop::element::InputTarget;
use oxide_desktop::events::{handle_toplevel_commit, Commit, SurfaceRole};
use oxide_desktop::grabs::{ResizeEdge, ResizeState};
use oxide_desktop::input::{GrabStart, SSD};
use oxide_desktop::render::{Draw, Icon};
use oxide_desktop::resize::{
    advance_resize_configure, final_configure_sent, resize_configure_sent, toplevel_min_max_size,
};
use oxide_desktop::snap::{SnapTarget, SnapZone};
use oxide_desktop::space::{Action, Output, Overlap};
use oxide_desktop::ssd::{CursorIcon, BTN_LEFT};
use oxide_desktop::state::{AnvilState, CursorStatus};
use oxide_desktop::utils::{FixedPoint, Point, Rectangle, Serial, Size};

const LEFT: u64 = 1;

fn rect(x: i32, y: i32, w: i32, h: i32) -> Rectangle {
    Rectangle::new(Point::new(x, y), Size::new(w, h))
}

fn px(x: i32, y: i32) -> FixedPoint {
    FixedPoint::from_pixels(x, y)
}

fn serial(value: u32) -> Serial {
    Serial { value }
}

fn desk(now: Instant) -> AnvilState {
    let mut state = AnvilState::new(true, now);
    state.space.outputs.push(Output {
        id: LEFT,
        geometry: Some(rect(0, 0, 1000, 800)),
        zone: rect(0, 40, 1000, 760),
        preview: None,
        fullscreen: None,
    });
    state
}

fn open(state: &mut AnvilState, id: u64, x: i32, y: i32, w: i32, h: i32, now: Instant) {
    state.new_toplevel(id, 100 + id, now);
    let mut window = state.space.window(id).unwrap();
    window.client_geometry = rect(0, 0, w, h);
    window.client_bbox = rect(0, 0, w, h);
    window.configured = true;
    window.has_resize_data = true;
    window.state.is_ssd = true;
    window.state.visibility.open_pending = false;
    state.space.put(window);
    state.space.map_element(id, Point::new(x, y), true);
    state.space.overlaps.push(Overlap { window: id, output: LEFT });
    state.take_actions();
}

fn resize_to(state: &mut AnvilState, id: u64, size: Size, acked: u32) {
    let mut window = state.space.window(id).unwrap();
    window.client_geometry.size = size;
    window.client_bbox.size = size;
    window.acked = Some(serial(acked));
    window.acked_resizing = true;
    state.space.put(window);
}

fn target(zone: SnapZone) -> SnapTarget {
    SnapTarget { output: LEFT, area: rect(0, 40, 1000, 760), zone }
}

fn edges(top: bool, bottom: bool, left: bool, right: bool) -> ResizeEdge {
    ResizeEdge { top, bottom, left, right }
}

#[test]
fn titlebar_drags_follow_the_pointer_and_snap() {
    let now = Instant::now();
    let mut state = desk(now);
    open(&mut state, 7, 100, 140, 300, 200, now);
    let ssd = SSD { window: 7 };
    let mut window = state.space.window(7).unwrap();
    window.render_elements(0, now);
    state.space.put(window);
    ssd.update_hover(&mut state, px(50, 10), now);
    assert_eq!(ssd.button(&mut state, true, BTN_LEFT, serial(1), now), None);
    let drag = state.ssd_drag.unwrap();
    assert_eq!(drag.start_global, px(150, 150));
    assert_eq!(state.dragging_window, Some(7));

    state.update_ssd_drag_position(px(163, 157), now);
    assert_eq!(state.space.element_location(7), Some(Point::new(113, 147)));
    // The titlebar does not go under the panel.
    state.update_ssd_drag_position(px(150, 20), now);
    assert_eq!(state.space.element_location(7), Some(Point::new(100, 40)));
    state.update_ssd_drag_position(px(5, 400), now);
    assert_eq!(state.ssd_drag.unwrap().snap_target.unwrap().zone, SnapZone::LeftHalf);
    assert_eq!(state.snap_candidate.unwrap().zone, SnapZone::LeftHalf);
    state.take_actions();

    ssd.button(&mut state, false, BTN_LEFT, serial(2), now);
    assert_eq!(state.ssd_drag, None);
    assert_eq!(state.dragging_window, None);
    assert_eq!(
        state.take_actions(),
        vec![Action::SnapLater { window: 7, target: target(SnapZone::LeftHalf) }]
    );
}

#[test]
fn dragging_a_tiled_window_restores_its_size() {
    let now = Instant::now();
    let mut state = desk(now);
    open(&mut state, 7, 100, 140, 196, 168, now);
    state.apply_snap(7, target(SnapZone::LeftHalf), false, now);
    let mut window = state.space.window(7).unwrap().without_animation();
    window.client_bbox.size = Size::new(496, 728);
    window.client_geometry.size = Size::new(496, 728);
    window.state.header_bar.pointer_loc = Some(px(250, 10));
    window.state.header_bar.width = 500;
    window.client.maximized = false;
    state.space.put(window);
    state.space.map_element(7, Point::new(0, 40), false);
    let bar = state.space.window(7).unwrap().state.header_bar;
    bar.clicked(&mut state, 7, serial(3));
    state.update_ssd_drag_position(px(250, 50), now);
    let window = state.space.window(7).unwrap();
    assert!(!window.state.is_snapped());
    assert_eq!(window.client.size, Some(Size::new(196, 168)));
    // Grabbed in the middle, so the middle stays under the pointer.
    assert_eq!(state.space.element_location(7), Some(Point::new(150, 40)));
    state.space.unmap_elem(7);
    state.update_ssd_drag_position(px(0, 0), now);
    assert_eq!(state.ssd_drag, None);
}

#[test]
fn titlebar_buttons_act_later() {
    let now = Instant::now();
    let mut state = desk(now);
    open(&mut state, 7, 100, 140, 300, 200, now);
    let mut window = state.space.window(7).unwrap();
    window.render_elements(0, now);
    state.space.put(window);
    let ssd = SSD { window: 7 };
    for x in [290, 260, 230] {
        ssd.touch_motion(&mut state, px(x, 10));
        ssd.tool_button(&mut state, true, serial(1));
    }
    assert_eq!(
        state.take_actions(),
        vec![
            Action::CloseLater { window: 7 },
            Action::ToggleMaximizeLater { window: 7 },
            Action::MinimizeLater { window: 7 },
        ]
    );
    // Fingers press when they are lifted.
    ssd.touch_motion(&mut state, px(290, 10));
    ssd.tool_down(&mut state);
    assert!(state.take_actions().is_empty());
    ssd.touch_up(&mut state);
    assert_eq!(state.take_actions(), vec![Action::CloseLater { window: 7 }]);
    ssd.touch_motion(&mut state, px(100, 10));
    assert_eq!(ssd.touch_down(&mut state, 0, px(100, 10), now), None);
    assert!(state.ssd_drag.is_some());
    ssd.touch_up(&mut state);
    assert!(state.ssd_drag.is_none() && state.take_actions().is_empty());
    // A maximized window is moved as its client would ask for.
    let mut window = state.space.window(7).unwrap();
    window.client.maximized = true;
    state.space.put(window);
    ssd.tool_button(&mut state, true, serial(4));
    assert_eq!(state.take_actions(), vec![Action::MoveLater { window: 7, serial: serial(4) }]);
}

#[test]
fn hovering_shows_the_resize_cursor() {
    let now = Instant::now();
    let mut state = desk(now);
    open(&mut state, 7, 100, 140, 300, 200, now);
    let ssd = SSD { window: 7 };
    assert_eq!(ssd.window(), 7);
    ssd.update_hover(&mut state, px(-1, 100), now);
    assert_eq!(state.cursor_status, CursorStatus::Named(CursorIcon::WResize));
    ssd.update_hover(&mut state, px(100, 100), now);
    assert_eq!(state.cursor_status, CursorStatus::Named(CursorIcon::Default));
    state.cursor_status = CursorStatus::Surface(1);
    ssd.leave(&mut state);
    assert_eq!(state.cursor_status, CursorStatus::Named(CursorIcon::Default));
    assert_eq!(state.space.window(7).unwrap().state.header_bar.pointer_loc, None);
    ssd.touch_motion(&mut state, px(5, 5));
    ssd.proximity_out(&mut state);
    assert_eq!(state.space.window(7).unwrap().state.header_bar.pointer_loc, None);
}

#[test]
fn edges_of_tiled_clients_resize_the_group() {
    let now = Instant::now();
    let mut state = desk(now);
    open(&mut state, 7, 0, 40, 500, 760, now);
    let mut window = state.space.window(7).unwrap();
    window.state.is_ssd = false;
    state.space.put(window);
    let ssd = SSD { window: 7 };
    ssd.update_hover(&mut state, px(498, 300), now);
    assert_eq!(ssd.button(&mut state, true, BTN_LEFT, serial(1), now), None);
    state.apply_snap(7, target(SnapZone::LeftHalf), false, now);
    ssd.update_hover(&mut state, px(498, 300), now);
    assert_eq!(state.cursor_status, CursorStatus::Named(CursorIcon::EResize));
    let grab = ssd.button(&mut state, true, BTN_LEFT, serial(1), now).unwrap();
    assert_eq!(grab.resize.edges, edges(false, false, false, true));
    assert_eq!(grab.resize.snap_area, Some(rect(0, 40, 1000, 760)));
    assert_eq!(grab.cursor, CursorIcon::EResize);
}

#[test]
fn resizes_ask_for_one_size_at_a_time() {
    let now = Instant::now();
    let mut state = desk(now);
    open(&mut state, 7, 100, 140, 300, 200, now);
    let grab = state.start_ssd_resize(7, edges(true, false, true, false), BTN_LEFT, px(0, 0));
    let mut resize = grab.unwrap().resize;
    assert_eq!(resize.start_location, px(100, 140));
    state.take_actions();

    // Up and to the left: the window grows by as much.
    resize.update_pointer(px(80, 110));
    assert!(resize.on_frame(&mut state));
    let actions = state.take_actions();
    assert!(matches!(
        actions[..],
        [Action::ResizeConfigure { window: 7, size: Size { w: 320, h: 230 }, .. }]
    ));
    resize_configure_sent(7, &mut state.space, Some(serial(5)), Size::new(320, 230));
    resize.update_pointer(px(70, 110));
    assert!(resize.on_frame(&mut state));
    assert!(state.take_actions().is_empty());
    // What is shown is what was committed.
    assert_eq!(state.space.window(7).unwrap().resize_content_size(), Size::new(300, 200));

    // The commit moves the window and asks for the next size.
    resize_to(&mut state, 7, Size::new(320, 230), 5);
    handle_toplevel_commit(&mut state.space, 7, now);
    assert_eq!(state.space.element_location(7), Some(Point::new(80, 110)));
    assert_eq!(state.space.window(7).unwrap().resize_content_size(), Size::new(320, 230));
    let actions = state.take_actions();
    assert!(matches!(
        actions[1],
        Action::ResizeConfigure { window: 7, size: Size { w: 330, h: 230 }, .. }
    ));
    resize_configure_sent(7, &mut state.space, Some(serial(6)), Size::new(330, 230));

    // Letting go asks for the final size and waits for it to land.
    resize.finish(&mut state, serial(7));
    assert!(matches!(
        state.take_actions()[..],
        [Action::FinalConfigure { window: 7, serial: Serial { value: 7 }, .. }]
    ));
    final_configure_sent(7, &mut state.space, serial(8));
    state.ack_configure(7, serial(7), true);
    assert!(matches!(state.space.window(7).unwrap().resize, ResizeState::WaitingForFinalAck(..)));
    state.ack_configure(7, serial(8), true);
    assert!(matches!(state.space.window(7).unwrap().resize, ResizeState::WaitingForCommit(_)));
    resize_to(&mut state, 7, Size::new(330, 230), 8);
    handle_toplevel_commit(&mut state.space, 7, now);
    assert_eq!(state.space.window(7).unwrap().resize, ResizeState::NotResizing);
    assert_eq!(state.space.element_location(7), Some(Point::new(70, 110)));
}

#[test]
fn resizes_respect_the_limits_of_the_client() {
    let now = Instant::now();
    let mut state = desk(now);
    open(&mut state, 7, 100, 140, 300, 200, now);
    let mut window = state.space.window(7).unwrap();
    window.min_size = Size::new(250, 0);
    window.max_size = Size::new(0, 220);
    state.space.put(window);
    assert_eq!(toplevel_min_max_size(&window), (Size::new(250, 0), Size::new(0, 220)));
    let edges = edges(false, true, false, true);
    let mut resize = state.start_ssd_resize(7, edges, BTN_LEFT, px(304, 232)).unwrap().resize;
    let mut intended = |x, y| {
        resize.update_pointer(px(404 + x, 372 + y));
        resize.intended(&window)
    };
    assert_eq!(intended(0, 0), Size::new(300, 200));
    assert_eq!(intended(-100, 10), Size::new(250, 210));
    assert_eq!(intended(5000, 100), Size::new(5300, 220));
    assert_eq!(intended(0, -500), Size::new(300, 1));
    assert_eq!(state.start_ssd_resize(7, ResizeEdge::none(), BTN_LEFT, px(0, 0)), None);
}

#[test]
fn a_resized_member_drives_its_group() {
    let now = Instant::now();
    let mut state = desk(now);
    open(&mut state, 7, 0, 40, 496, 728, now);
    open(&mut state, 8, 500, 40, 496, 728, now);
    state.apply_snap(7, target(SnapZone::LeftHalf), false, now);
    state.apply_snap(8, target(SnapZone::RightHalf), false, now);
    let mut window = state.space.window(8).unwrap();
    window.min_size = Size::new(300, 100);
    state.space.put(window);
    let right = edges(false, false, false, true);
    let mut resize = state.start_ssd_resize(7, right, BTN_LEFT, px(500, 300)).unwrap().resize;
    state.take_actions();
    resize.update_pointer(px(600, 340));
    assert!(resize.on_frame(&mut state));
    assert_eq!(state.group_grid(LEFT).unwrap().x, 600);
    assert_eq!(state.space.window(8).unwrap().state.snap.unwrap().grid.x, 600);
    let actions = state.take_actions();
    assert!(matches!(
        actions[0],
        Action::ResizeConfigure { window: 8, size: Size { w: 396, h: 728 }, .. }
    ));
    assert!(matches!(
        actions[1],
        Action::ResizeConfigure { window: 7, size: Size { w: 596, h: 728 }, .. }
    ));
    // The divider stops where the neighbour cannot shrink further.
    resize.update_pointer(px(900, 340));
    resize.on_frame(&mut state);
    assert_eq!(state.space.window(8).unwrap().state.snap.unwrap().grid.x, 1000 - 304);
    resize.finish(&mut state, serial(3));
    let finals = state.take_actions();
    assert!(finals.iter().any(|a| matches!(a, Action::FinalConfigure { window: 7, .. })));
    assert!(finals.iter().any(|a| matches!(a, Action::FinalConfigure { window: 8, .. })));
    assert_eq!(AnvilState::sibling_edges(SnapZone::TopLeft), edges(false, true, false, true));
    assert_eq!(AnvilState::sibling_edges(SnapZone::RightHalf), edges(false, false, true, false));
}

#[test]
fn dead_windows_end_their_resize() {
    let now = Instant::now();
    let mut state = desk(now);
    open(&mut state, 7, 100, 140, 300, 200, now);
    let resize = state.start_ssd_resize(7, edges(true, false, false, false), 1, px(0, 0)).unwrap().resize;
    let mut window = state.space.window(7).unwrap();
    window.client_alive = false;
    state.space.put(window);
    assert!(!resize.on_frame(&mut state));
    resize.finish(&mut state, serial(1));
    assert!(state.take_actions().is_empty());
    advance_resize_configure(99, &mut state.space);
}

fn held(x: i32, y: i32) -> Option<GrabStart> {
    Some(GrabStart { has_grab: true, location: px(x, y), same_client: true, slot: None })
}

#[test]
fn client_moves_follow_the_pointer() {
    let now = Instant::now();
    let mut state = desk(now);
    open(&mut state, 7, 100, 140, 300, 200, now);
    let mut grab = state.move_request_xdg(7, None, held(150, 150), now).unwrap();
    assert_eq!(grab.initial_window_location, Point::new(100, 140));
    assert_eq!(state.dragging_window, Some(7));
    grab.motion(&mut state, None, px(250, 300), now);
    assert_eq!(state.space.element_location(7), Some(Point::new(200, 290)));
    grab.motion(&mut state, Some(1), px(500, 500), now);
    assert_eq!(state.space.element_location(7), Some(Point::new(200, 290)));
    grab.motion(&mut state, None, px(990, 400), now);
    assert_eq!(grab.snap_target.unwrap().zone, SnapZone::RightHalf);
    assert!(!grab.release(&mut state, Some(1), false, now));
    assert!(grab.release(&mut state, None, false, now));
    assert!(state.space.window(7).unwrap().state.is_snapped());
    assert_eq!(state.dragging_window, None);
    grab.unset(&mut state);
    assert_eq!(state.snap_candidate, None);
}

#[test]
fn moving_a_maximized_window_restores_it_under_the_pointer() {
    let now = Instant::now();
    let mut state = desk(now);
    open(&mut state, 7, 100, 140, 296, 168, now);
    state.maximize_window(7, false, now);
    let mut window = state.space.window(7).unwrap().without_animation();
    window.client_bbox.size = Size::new(996, 728);
    window.client_geometry.size = Size::new(996, 728);
    state.space.put(window);
    state.space.map_element(7, Point::new(0, 40), true);
    state.take_actions();
    let grab = state.move_request_xdg(7, None, held(500, 50), now).unwrap();
    assert_eq!(grab.initial_window_location, Point::new(350, 40));
    assert_eq!(grab.anchor, None);
    let window = state.space.window(7).unwrap();
    assert!(!window.is_maximized());
    assert_eq!(window.client.size, Some(Size::new(296, 168)));
    assert_eq!(window.state.animation.unwrap().end.loc, Point::new(350, 40));
}

#[test]
fn clients_that_choose_their_size_are_anchored() {
    let now = Instant::now();
    let mut state = desk(now);
    open(&mut state, 7, 0, 40, 1000, 760, now);
    let mut window = state.space.window(7).unwrap();
    window.state.is_ssd = false;
    window.client.maximized = true;
    state.space.put(window);
    let mut grab = state.move_request_xdg(7, None, held(250, 60), now).unwrap();
    assert!(grab.anchor.is_some());
    resize_to(&mut state, 7, Size::new(400, 300), 1);
    grab.motion(&mut state, None, px(300, 160), now);
    // A quarter of the width, and as far from the top.
    assert_eq!(state.space.element_location(7), Some(Point::new(200, 140)));
}

#[test]
fn grabs_need_a_button_of_the_same_client() {
    let now = Instant::now();
    let mut state = desk(now);
    open(&mut state, 7, 100, 140, 300, 200, now);
    let idle = Some(GrabStart { has_grab: false, location: px(0, 0), same_client: true, slot: Some(1) });
    let foreign = Some(GrabStart { has_grab: true, location: px(0, 0), same_client: false, slot: None });
    let finger = Some(GrabStart { has_grab: true, location: px(5, 5), same_client: true, slot: Some(2) });
    assert_eq!(state.move_request_xdg(7, idle, None, now), None);
    assert_eq!(state.move_request_xdg(7, None, foreign, now), None);
    assert_eq!(state.move_request_xdg(9, None, held(1, 1), now), None);
    assert_eq!(state.move_request_xdg(7, finger, held(1, 1), now).unwrap().slot, Some(2));
    let right = edges(false, false, false, true);
    assert!(state.resize_request(7, right, foreign, held(1, 1)).is_none());
    let (start, resize) = state.resize_request(7, right, None, held(1, 1)).unwrap();
    assert_eq!(start.location, px(1, 1));
    assert_eq!(resize.initial_window_size, Size::new(300, 200));
    assert!(matches!(state.space.window(7).unwrap().resize, ResizeState::Resizing(_)));
    let mut touch = state.start_ssd_touch_resize(7, right, 3, px(0, 0)).unwrap();
    touch.motion(4, px(9, 9));
    assert_eq!(touch.resize.pointer, px(100, 140));
    touch.motion(3, px(9, 9));
    assert_eq!(touch.resize.pointer, px(9, 9));
}

#[test]
fn input_goes_to_decorations_or_content() {
    let now = Instant::now();
    let mut state = desk(now);
    open(&mut state, 7, 100, 140, 300, 200, now);
    let window = state.space.window(7).unwrap();
    assert_eq!(window.geometry(now), rect(0, 0, 304, 232));
    assert_eq!(window.bbox(now), rect(-4, -4, 312, 240));
    assert_eq!(window.surface_under(px(100, 29), now), InputTarget::Decoration);
    assert_eq!(window.surface_under(px(305, 100), now), InputTarget::Decoration);
    let content = InputTarget::Content { offset: Point::new(2, 30) };
    assert_eq!(window.surface_under(px(100, 30), now), content);
    assert_eq!(window.is_in_input_region(px(100, 30), now), content);
    assert_eq!(window.is_in_input_region(px(100, 29), now), InputTarget::Decoration);
    let mut closing = window;
    closing.begin_close(now);
    assert_eq!(closing.is_in_input_region(px(100, 30), now), InputTarget::Nothing);
    let mut ghost = window;
    ghost.begin_ghost(Size::new(50, 60));
    assert_eq!(ghost.surface_under(px(10, 10), now), InputTarget::Nothing);
    assert_eq!(ghost.geometry(now), rect(0, 0, 50, 60));
    assert_eq!(ghost.bbox(now), rect(0, 0, 50, 60));
    let mut bare = window;
    bare.set_ssd(false);
    assert_eq!(bare.geometry(now), rect(0, 0, 300, 200));
    assert_eq!(bare.resize_edge_at(px(1, 100), now), None);
    assert_eq!(
        bare.surface_under(px(1, 100), now),
        InputTarget::Content { offset: Point::new(0, 0) }
    );
}

#[test]
fn plans_draw_the_frame_before_the_content() {
    let now = Instant::now();
    let mut state = desk(now);
    open(&mut state, 7, 100, 140, 300, 200, now);
    let mut window = state.space.window(7).unwrap();
    window.state.header_bar.pointer_loc = Some(px(300, 10));
    let plan = window.render_elements(40, now);
    assert_eq!(plan.frame, Size::new(304, 232));
    assert!(plan.visibility.is_none());
    let draws = plan.elements;
    // Three icons, the title, the hovered button, the bar, three borders and
    // the content.
    assert_eq!(draws.len(), 10);
    assert_eq!(draws[0], Draw::Icon { icon: Icon::Close, at: Point::new(284, 10) });
    assert_eq!(draws[1], Draw::Icon { icon: Icon::Maximize, at: Point::new(254, 10) });
    assert_eq!(draws[2], Draw::Icon { icon: Icon::Minimize, at: Point::new(224, 10) });
    assert_eq!(draws[3], Draw::Title { at: Point::new(8, 0) });
    assert!(matches!(draws[4], Draw::Fill { at: Point { x: 274, y: 0 }, .. }));
    assert!(matches!(draws[7], Draw::Fill { at: Point { x: 302, y: 30 }, .. }));
    assert!(matches!(draws[8], Draw::Fill { at: Point { x: 0, y: 230 }, .. }));
    assert_eq!(
        draws[9],
        Draw::Content {
            at: Point::new(2, 30),
            committed: Size::new(300, 200),
            display: Size::new(300, 200),
            stretched: false,
        }
    );
    window.state.header_bar.fullscreen = true;
    let plan = window.render_elements(0, now);
    assert_eq!(plan.frame, Size::new(300, 230));
    assert_eq!(plan.elements[1], Draw::Icon { icon: Icon::Restore, at: Point::new(250, 10) });
    assert_eq!(plan.elements.len(), 6);
}

#[test]
fn plans_crossfade_transitions_and_keep_ghosts() {
    let now = Instant::now();
    let mut state = desk(now);
    open(&mut state, 7, 100, 140, 300, 200, now);
    state.animate_window(7, Size::new(500, 400), Point::new(0, 40), now);
    assert_eq!(state.capture_window_snapshots(), vec![(7, Size::new(300, 200))]);
    state.snapshot_captured(7, Some(55), Size::new(300, 200));
    assert!(state.capture_window_snapshots().is_empty());
    let half = now + Duration::from_millis(135);
    let mut window = state.space.window(7).unwrap();
    let plan = window.render_elements(0, half);
    let n = plan.elements.len();
    match plan.elements[n - 2] {
        Draw::Snapshot { buffer, native, size, progress, .. } => {
            assert_eq!((buffer, native, size), (55, Size::new(300, 200), Size::new(475, 375)));
            assert_eq!(progress.num * 8, progress.den * 7);
        }
        other => panic!("{other:?}"),
    }
    assert!(matches!(plan.elements[n - 1], Draw::Content { stretched: true, .. }));

    let mut ghost = state.space.window(7).unwrap().without_animation();
    ghost.set_last_frame(rect(10, 20, 300, 200));
    ghost.begin_ghost(Size::new(304, 232));
    ghost.begin_close(now);
    let plan = ghost.render_elements(0, now);
    assert_eq!(*plan.elements.last().unwrap(), Draw::Frame { at: Point::new(2, 30) });
    assert!(plan.visibility.is_some());
    ghost.set_ssd(false);
    let plan = ghost.render_elements(0, now);
    assert_eq!(plan.elements, vec![Draw::Frame { at: Point::new(-10, -20) }]);
    assert_eq!(plan.frame, Size::new(300, 200));
    ghost.state.last_frame = None;
    assert!(ghost.render_elements(0, now).elements.is_empty());
}

#[test]
fn transitions_without_content_are_not_captured() {
    let now = Instant::now();
    let mut state = desk(now);
    open(&mut state, 7, 100, 140, 0, 0, now);
    state.animate_window(7, Size::new(500, 400), Point::new(0, 40), now);
    assert!(state.capture_window_snapshots().is_empty());
    let animation = state.space.window(7).unwrap().state.animation.unwrap();
    assert!(!animation.needs_snapshot() && animation.snapshot().is_none());
}

#[test]
fn commits_keep_the_frame_of_the_whole_window() {
    let now = Instant::now();
    let mut state = desk(now);
    open(&mut state, 7, 100, 140, 300, 200, now);
    // A subsurface: the frame is kept, the toplevel is left alone.
    state.commit(
        Commit {
            surface: 500,
            role: SurfaceRole::Other,
            window: Some(7),
            is_root: false,
            frame: Some(rect(1, 2, 3, 4)),
            buffer_delta: Some(Point::new(9, 9)),
        },
        now,
    );
    assert_eq!(state.space.window(7).unwrap().last_frame(), Some(rect(1, 2, 3, 4)));
    assert_eq!(state.space.element_location(7), Some(Point::new(100, 140)));
    assert!(state.take_actions().is_empty());
}
