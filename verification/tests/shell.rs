use std::time::{Duration, Instant};

use oxide_desktop::animation::WINDOW_ANIMATION_NANOS;
use oxide_desktop::element::{SurfaceKind, WindowElement};
use oxide_desktop::events::{
    center_in, ensure_initial_configure, first_wait, fixup_positions, next_wait, Commit, SurfaceRole,
    Wait, WaitOutcome,
};
use oxide_desktop::geometry::{
    absolute_geometry, absolute_location, apply_relative_geometries, capture_relative_geometries,
    clamp_window_position, output_for_window, output_work_area, relative_geometry_of, restore_target,
};
use oxide_desktop::popup::{grab, DeviceGrab};
use oxide_desktop::snap::{SnapTarget, SnapZone, SNAP_PREVIEW_DWELL_NANOS};
use oxide_desktop::space::{Action, FullscreenSurface, Output, Overlap};
use oxide_desktop::state::{AnvilState, CursorStatus, DndIcon};
use oxide_desktop::utils::{FixedPoint, Point, Rectangle, Serial, Size};

const LEFT: u64 = 1;
const RIGHT: u64 = 2;

fn rect(x: i32, y: i32, w: i32, h: i32) -> Rectangle {
    Rectangle::new(Point::new(x, y), Size::new(w, h))
}

fn px(x: i32, y: i32) -> FixedPoint {
    FixedPoint::from_pixels(x, y)
}

fn output(id: u64, x: i32, w: i32, h: i32, top: i32) -> Output {
    Output {
        id,
        geometry: Some(rect(x, 0, w, h)),
        zone: rect(0, top, w, h - top),
        preview: None,
        fullscreen: None,
    }
}

/// Two outputs side by side; a panel takes the top of the left one.
fn desk(now: Instant) -> AnvilState {
    let mut state = AnvilState::new(true, now);
    state.space.outputs.push(output(LEFT, 0, 1000, 800, 40));
    state.space.outputs.push(output(RIGHT, 1000, 600, 400, 0));
    state.pointer = px(500, 400);
    state
}

/// A server-decorated window that shows `w` by `h` pixels at `x`, `y`.
fn open(state: &mut AnvilState, id: u64, x: i32, y: i32, w: i32, h: i32, now: Instant) {
    state.new_toplevel(id, 100 + id, now);
    let mut window = state.space.window(id).unwrap();
    window.client_geometry = rect(0, 0, w, h);
    window.client_bbox = rect(0, 0, w, h);
    window.configured = true;
    window.has_resize_data = true;
    window.state.is_ssd = true;
    window.state.visibility.open_pending = false;
    state.space.put(window);
    state.space.map_element(id, Point::new(x, y), true);
    let output = if x < 1000 { LEFT } else { RIGHT };
    state.space.overlaps.push(Overlap { window: id, output });
    state.take_actions();
}

fn resize_to(state: &mut AnvilState, id: u64, size: Size) {
    let mut window = state.space.window(id).unwrap();
    window.client_geometry.size = size;
    window.client_bbox.size = size;
    state.space.put(window);
}

fn commit_of(id: u64) -> Commit {
    Commit {
        surface: 100 + id,
        role: SurfaceRole::Window { window: id },
        window: Some(id),
        is_root: true,
        frame: Some(rect(0, 0, 300, 200)),
        buffer_delta: None,
    }
}

#[test]
fn new_windows_open_under_the_pointer_and_take_the_focus() {
    let now = Instant::now();
    let mut state = desk(now);
    state.new_toplevel(7, 70, now);
    assert_eq!(state.space.element_location(7), Some(Point::new(500, 420)));
    assert_eq!(state.focus, Some(7));
    assert_eq!(state.pending_focus, None);
    let window = state.space.window(7).unwrap();
    assert!(window.state.visibility.open_pending);
    assert!(window.client.activated);
    assert_eq!(window.client.bounds, Some(Size::new(1000, 760)));
    let actions = state.take_actions();
    assert_eq!(actions.len(), 3);
    assert!(matches!(actions[0], Action::Configure { window: 7, send: false, .. }));
    assert_eq!(
        actions[1],
        Action::MapElement { window: 7, loc: Point::new(500, 420), activate: true }
    );
    assert_eq!(actions[2], Action::SetFocus { focus: Some(7) });
    assert!(state.take_actions().is_empty());
    assert_eq!(state.window_for_surface(70), Some(7));
    assert_eq!(state.window_for_surface(71), None);
}

#[test]
fn without_an_output_windows_open_in_a_fixed_area() {
    let now = Instant::now();
    let mut state = AnvilState::new(false, now);
    state.new_toplevel(7, 70, now);
    assert_eq!(state.space.element_location(7), Some(Point::new(400, 400)));
    assert_eq!(state.focus, None);
    assert_eq!(state.new_layer_surface(None), None);
    assert_eq!(state.new_layer_surface(Some(3)), Some(3));
    assert_eq!(desk(now).new_layer_surface(None), Some(LEFT));
    // A window that is too large starts at the corner.
    assert_eq!(center_in(rect(10, 20, 100, 100), Size::new(300, 50)), Point::new(10, 45));
}

#[test]
fn the_first_commit_is_answered_with_a_configure() {
    let now = Instant::now();
    let mut state = desk(now);
    state.new_toplevel(7, 107, now);
    state.take_actions();
    state.commit(commit_of(7), now);
    let window = state.space.window(7).unwrap();
    assert!(window.configured && window.has_resize_data);
    assert_eq!(window.last_frame(), Some(rect(0, 0, 300, 200)));
    let actions = state.take_actions();
    assert_eq!(actions.len(), 1);
    assert!(matches!(actions[0], Action::Configure { window: 7, send: true, .. }));
    state.commit(commit_of(7), now);
    assert!(state.take_actions().is_empty());
}

#[test]
fn minimized_windows_are_followed_too() {
    let now = Instant::now();
    let mut state = desk(now);
    state.new_toplevel(7, 107, now);
    state.new_toplevel(8, 108, now);
    state.minimize_request(7);
    state.take_actions();
    assert!(!state.space.window(7).unwrap().has_resize_data);
    state.commit(Commit { role: SurfaceRole::Other, window: None, frame: None, ..commit_of(7) }, now);
    assert!(state.space.window(7).unwrap().has_resize_data);
    assert!(!state.space.window(8).unwrap().has_resize_data);
    assert!(state.take_actions().is_empty());
}

#[test]
fn popups_and_layers_are_configured_once() {
    let now = Instant::now();
    let mut state = desk(now);
    ensure_initial_configure(&mut state.space, 55, SurfaceRole::Popup { configured: false });
    ensure_initial_configure(&mut state.space, 55, SurfaceRole::Popup { configured: true });
    ensure_initial_configure(&mut state.space, 55, SurfaceRole::InputPopup);
    ensure_initial_configure(&mut state.space, 55, SurfaceRole::Other);
    ensure_initial_configure(&mut state.space, 55, SurfaceRole::Layer { output: LEFT, configured: false });
    ensure_initial_configure(&mut state.space, 55, SurfaceRole::Layer { output: LEFT, configured: true });
    assert_eq!(
        state.take_actions(),
        vec![
            Action::ConfigurePopup,
            Action::ArrangeLayers { output: LEFT },
            Action::ConfigureLayer { output: LEFT },
            Action::ArrangeLayers { output: LEFT },
        ]
    );
}

#[test]
fn buffers_move_windows_cursors_and_icons() {
    let now = Instant::now();
    let mut state = desk(now);
    open(&mut state, 7, 100, 100, 300, 200, now);
    state.commit(Commit { buffer_delta: Some(Point::new(5, -5)), ..commit_of(7) }, now);
    assert_eq!(state.space.element_location(7), Some(Point::new(105, 95)));

    let other = Commit {
        surface: 9,
        role: SurfaceRole::Other,
        window: None,
        is_root: false,
        frame: None,
        buffer_delta: Some(Point::new(2, 3)),
    };
    state.cursor_status = CursorStatus::Surface(9);
    state.cursor_hotspot = Point::new(10, 10);
    state.dnd_icon = Some(DndIcon { surface: 9, offset: Point::new(1, 1) });
    state.commit(other, now);
    assert_eq!(state.cursor_hotspot, Point::new(8, 7));
    assert_eq!(state.dnd_icon.unwrap().offset, Point::new(1, 1));
    state.cursor_status = CursorStatus::Surface(8);
    state.commit(other, now);
    assert_eq!(state.cursor_hotspot, Point::new(8, 7));
    assert_eq!(state.dnd_icon.unwrap().offset, Point::new(3, 4));
}

#[test]
fn commits_wait_for_the_client_to_render() {
    assert_eq!(first_wait(false, true), None);
    assert_eq!(first_wait(true, true), Some(Wait::AcquirePoint));
    assert_eq!(first_wait(true, false), Some(Wait::Buffer));
    assert_eq!(next_wait(Wait::AcquirePoint, WaitOutcome::NotWatched), Some(Wait::Buffer));
    assert_eq!(next_wait(Wait::AcquirePoint, WaitOutcome::NothingToWaitFor), Some(Wait::Buffer));
    assert_eq!(next_wait(Wait::AcquirePoint, WaitOutcome::NoClient), None);
    assert_eq!(next_wait(Wait::AcquirePoint, WaitOutcome::Waiting), None);
    assert_eq!(next_wait(Wait::Buffer, WaitOutcome::NotWatched), None);
}

#[test]
fn work_areas_leave_the_panel_out() {
    let now = Instant::now();
    let mut state = desk(now);
    assert_eq!(output_work_area(&state.space, LEFT), Some(rect(0, 40, 1000, 760)));
    assert_eq!(output_work_area(&state.space, RIGHT), Some(rect(1000, 0, 600, 400)));
    assert_eq!(output_work_area(&state.space, 9), None);
    state.space.outputs[1].zone = rect(0, 0, 600, 0);
    assert_eq!(output_work_area(&state.space, RIGHT), None);
}

#[test]
fn windows_belong_to_the_output_under_their_corner() {
    let now = Instant::now();
    let mut state = desk(now);
    open(&mut state, 7, 900, 100, 300, 200, now);
    state.space.overlaps = vec![
        Overlap { window: 7, output: RIGHT },
        Overlap { window: 7, output: LEFT },
    ];
    assert_eq!(output_for_window(&state.space, 7), Some(LEFT));
    state.space.map_element(7, Point::new(-50, 100), false);
    assert_eq!(output_for_window(&state.space, 7), Some(RIGHT));
    state.space.overlaps.clear();
    assert_eq!(output_for_window(&state.space, 7), Some(LEFT));
}

#[test]
fn dragged_windows_stay_below_the_panel() {
    let now = Instant::now();
    let mut state = desk(now);
    open(&mut state, 7, 100, 100, 300, 200, now);
    let top = |x, y| clamp_window_position(&state.space, 7, px(x, y), Point::new(5, 10));
    assert_eq!(top(500, 20), Point::new(5, 40));
    assert_eq!(top(1200, 20), Point::new(5, 10));
    // Beyond every output the window's own decides.
    assert_eq!(top(-10, -10), Point::new(5, 40));
}

#[test]
fn layouts_survive_a_change_of_mode() {
    let now = Instant::now();
    let mut state = desk(now);
    open(&mut state, 7, 250, 230, 496, 348, now);
    open(&mut state, 8, 0, 40, 996, 728, now);
    let mut tiled = state.space.window(8).unwrap();
    tiled.client.maximized = true;
    state.space.put(tiled);
    let rel = relative_geometry_of(&state.space, 7, now).unwrap();
    assert_eq!(rel.x.num * 4, rel.x.den);
    let window = state.space.window(7).unwrap();
    assert_eq!(
        absolute_geometry(&state.space, &window, rel),
        Some((Point::new(250, 230), Size::new(496, 348)))
    );
    assert_eq!(absolute_location(&state.space, 7, rel), Some(Point::new(250, 230)));
    let target = restore_target(&state.space, &window, rel).unwrap();
    assert_eq!(target.content, Some(Size::new(496, 348)));

    capture_relative_geometries(&mut state.space, LEFT, now);
    assert!(state.space.window(7).unwrap().state.relative.is_some());
    assert!(state.space.window(8).unwrap().state.relative.is_none());
    state.space.outputs[0] = output(LEFT, 0, 2000, 1560, 40);
    state.take_actions();
    apply_relative_geometries(&mut state.space, LEFT);
    assert_eq!(state.space.element_location(7), Some(Point::new(500, 420)));
    assert_eq!(state.space.window(7).unwrap().client.size, Some(Size::new(996, 728)));
    assert_eq!(state.space.element_location(8), Some(Point::new(0, 40)));
    assert_eq!(state.space.window(8).unwrap().client.size, Some(Size::new(1996, 1488)));
    assert_eq!(state.take_actions().len(), 4);
}

#[test]
fn fullscreen_windows_are_refreshed_to_the_whole_output() {
    let now = Instant::now();
    let mut state = desk(now);
    open(&mut state, 7, 100, 140, 300, 200, now);
    state.fullscreen_request_xdg(7, None, &vec![], now);
    assert_eq!(state.space.window(7).unwrap().client.size, Some(Size::new(1000, 770)));
    state.space.outputs[0] = output(LEFT, 0, 2000, 1560, 40);
    state.take_actions();
    apply_relative_geometries(&mut state.space, LEFT);
    let window = state.space.window(7).unwrap();
    assert!(window.client.fullscreen && window.state.animation.is_none());
    assert_eq!(window.client.size, Some(Size::new(2000, 1530)));
    assert_eq!(state.space.element_location(7), Some(Point::new(0, 0)));
    let actions = state.take_actions();
    assert_eq!(actions.len(), 2);
    assert!(matches!(actions[0], Action::Configure { window: 7, send: true, .. }));

    // A client that turns out to decorate itself fills the output too.
    state.ack_configure(7, Serial { value: 1 }, false);
    assert_eq!(state.space.window(7).unwrap().client.size, Some(Size::new(2000, 1560)));
    state.take_actions();
    state.ack_configure(7, Serial { value: 2 }, false);
    assert!(state.take_actions().is_empty());
}

#[test]
fn outputs_are_added_after_the_others() {
    let now = Instant::now();
    let mut state = AnvilState::new(true, now);
    state.space.put_output(output(LEFT, 0, 1000, 800, 40));
    assert_eq!(state.space.primary_output(), None);
    state.space.add_output(output(LEFT, 0, 1000, 800, 40));
    state.space.add_output(output(RIGHT, 1000, 600, 400, 0));
    assert_eq!(state.space.primary_output(), Some(LEFT));
    assert_eq!(state.space.output_under(px(1200, 10)), Some(RIGHT));
    assert_eq!(output_work_area(&state.space, LEFT), Some(rect(0, 40, 1000, 760)));
}

#[test]
fn ghosts_need_a_frame_and_time_left() {
    let now = Instant::now();
    let mut state = desk(now);
    open(&mut state, 7, 100, 140, 300, 200, now);
    state.focus = Some(7);
    state.begin_window_ghost(7, now);
    assert_eq!(state.focus, Some(7));
    assert!(!state.space.window(7).unwrap().is_ghosting());
    assert!(!state.space.window(7).unwrap().is_closing());
    assert!(state.take_actions().is_empty());

    state.commit(commit_of(7), now);
    state.take_actions();
    let mut window = state.space.window(7).unwrap();
    window.begin_close(now);
    state.space.put(window);
    let over = now + Duration::from_millis(150);
    state.begin_window_ghost(7, over);
    assert_eq!(state.focus, Some(7));
    assert!(!state.space.window(7).unwrap().is_ghosting());
    assert!(state.take_actions().is_empty());

    state.begin_window_ghost(7, now + Duration::from_millis(149));
    assert_eq!(state.focus, None);
    assert!(state.space.window(7).unwrap().is_ghosting());
    assert_eq!(state.take_actions(), vec![Action::SetFocus { focus: None }]);

    // The focus does not stay on a window whose client is gone, frame or not.
    open(&mut state, 8, 100, 140, 300, 200, now);
    state.focus = Some(8);
    state.toplevel_destroyed(8, now);
    assert_eq!(state.focus, None);
    assert!(!state.space.window(8).unwrap().is_ghosting());
}

#[test]
fn maximizing_glides_and_unmaximizing_comes_back() {
    let now = Instant::now();
    let mut state = desk(now);
    open(&mut state, 7, 100, 140, 300, 200, now);
    state.toggle_maximize(7, false, now);
    let window = state.space.window(7).unwrap();
    assert!(window.is_maximized());
    assert_eq!(window.client.size, Some(Size::new(996, 728)));
    // The window stays put and the transition takes it there.
    assert_eq!(state.space.element_location(7), Some(Point::new(100, 140)));
    let animation = window.state.animation.unwrap();
    assert_eq!(animation.end.loc, Point::new(0, 40));
    assert_eq!(animation.end.content, Size::new(996, 728));
    let actions = state.take_actions();
    assert!(matches!(
        actions[..],
        [Action::MapElement { window: 7, .. }, Action::Configure { window: 7, send: true, .. }]
    ));

    // The transition ends, but waits for the client to adopt the size.
    let done = now + Duration::from_nanos(WINDOW_ANIMATION_NANOS as u64);
    state.tick_animations(done);
    assert_eq!(state.space.element_location(7), Some(Point::new(0, 40)));
    assert!(state.space.window(7).unwrap().state.animation.is_some());
    resize_to(&mut state, 7, Size::new(996, 727));
    state.tick_animations(done);
    assert!(state.space.window(7).unwrap().state.animation.is_none());

    state.toggle_maximize(7, false, done);
    let window = state.space.window(7).unwrap();
    assert!(!window.is_maximized());
    assert_eq!(window.client.size, Some(Size::new(300, 200)));
    assert_eq!(window.state.animation.unwrap().end.loc, Point::new(100, 140));
    assert_eq!(window.state.maximize_restore, None);
    // Once more there is nothing to restore to: the client picks its size.
    state.unmaximize_window(7, done);
    assert_eq!(state.space.window(7).unwrap().client.size, None);
}

#[test]
fn fullscreen_covers_the_output_and_leaves_it() {
    let now = Instant::now();
    let mut state = desk(now);
    open(&mut state, 7, 1100, 50, 300, 200, now);
    state.fullscreen_request_xdg(7, None, &vec![RIGHT], now);
    let window = state.space.window(7).unwrap();
    assert!(window.state.header_bar.fullscreen && window.client.fullscreen);
    assert_eq!(window.client.size, Some(Size::new(600, 370)));
    assert_eq!(window.client.fullscreen_output, Some(RIGHT));
    assert_eq!(
        state.space.output(RIGHT).unwrap().fullscreen,
        Some(FullscreenSurface { window: Some(7) })
    );
    state.take_actions();

    // The acknowledgement says that the client decorates itself after all.
    state.ack_configure(7, Serial { value: 1 }, false);
    assert_eq!(state.space.window(7).unwrap().client.size, Some(Size::new(600, 400)));
    state.ack_configure(7, Serial { value: 2 }, true);
    assert_eq!(state.space.window(7).unwrap().client.size, Some(Size::new(600, 370)));
    state.take_actions();

    state.toggle_maximize(7, false, now);
    let window = state.space.window(7).unwrap();
    assert!(!window.state.header_bar.fullscreen && !window.client.fullscreen);
    assert_eq!(window.client.size, Some(Size::new(300, 200)));
    assert_eq!(state.space.element_location(7), Some(Point::new(1100, 50)));
    assert_eq!(
        state.space.output(RIGHT).unwrap().fullscreen,
        Some(FullscreenSurface { window: None })
    );
    let actions = state.take_actions();
    assert!(actions.contains(&Action::ResetBuffers { output: RIGHT }));
    assert!(matches!(actions.last(), Some(Action::Configure { window: 7, send: true, .. })));
}

#[test]
fn windows_that_started_fullscreen_get_the_work_area() {
    let now = Instant::now();
    let mut state = desk(now);
    open(&mut state, 7, 0, 40, -4, -32, now);
    state.fullscreen_window(7, &vec![], false, now);
    let window = state.space.window(7).unwrap();
    assert_eq!(window.state.fullscreen_restore, None);
    assert_eq!(window.client.fullscreen_output, None);
    state.unfullscreen_window(7, now);
    assert_eq!(state.space.window(7).unwrap().client.size, Some(Size::new(1000, 730)));
}

#[test]
fn restored_windows_find_another_output() {
    let now = Instant::now();
    let mut state = desk(now);
    open(&mut state, 7, 1300, 200, 296, 168, now);
    state.fullscreen_window(7, &vec![], false, now);
    state.space.outputs.pop();
    state.space.overlaps.clear();
    state.unfullscreen_window(7, now);
    // Half way across and down, half as large: on the output that is left.
    assert_eq!(state.space.element_location(7), Some(Point::new(500, 420)));
    assert_eq!(state.space.window(7).unwrap().client.size, Some(Size::new(496, 348)));
}

fn target(zone: SnapZone) -> SnapTarget {
    SnapTarget { output: LEFT, area: rect(0, 40, 1000, 760), zone }
}

#[test]
fn tiling_fills_the_zone_and_unsnapping_comes_back() {
    let now = Instant::now();
    let mut state = desk(now);
    open(&mut state, 7, 100, 140, 300, 200, now);
    state.apply_snap(7, target(SnapZone::LeftHalf), false, now);
    let window = state.space.window(7).unwrap();
    assert!(window.state.is_snapped() && window.is_maximized());
    assert_eq!(window.client.size, Some(Size::new(496, 728)));
    let animation = window.state.animation.unwrap();
    assert_eq!(animation.end.loc, Point::new(0, 40));
    assert_eq!(animation.end.content, Size::new(496, 728));
    assert_eq!(state.snap_area_for(7), Some(rect(0, 40, 1000, 760)));
    let floating = window.state.snap.unwrap().floating;

    // Another zone keeps the geometry to come back to.
    state.apply_snap(7, target(SnapZone::TopRight), false, now);
    assert_eq!(state.space.window(7).unwrap().state.snap.unwrap().floating, floating);

    // The maximize button un-snaps a tiled window.
    state.toggle_maximize(7, false, now);
    let window = state.space.window(7).unwrap();
    assert!(!window.state.is_snapped() && !window.is_maximized());
    assert_eq!(window.client.size, Some(Size::new(300, 200)));
    assert_eq!(state.snap_area_for(7), None);
}

#[test]
fn the_top_zone_maximizes() {
    let now = Instant::now();
    let mut state = desk(now);
    open(&mut state, 7, 100, 140, 300, 200, now);
    state.apply_snap(7, target(SnapZone::Maximize), false, now);
    let window = state.space.window(7).unwrap();
    assert!(window.is_maximized() && !window.state.is_snapped());
}

#[test]
fn the_top_edge_depends_on_the_bottom_half() {
    let now = Instant::now();
    let mut state = desk(now);
    open(&mut state, 7, 2, 421, 996, 350, now);
    let top = px(500, 45);
    assert_eq!(state.snap_zone_at(top, None, now).unwrap().zone, SnapZone::TopHalf);
    assert_eq!(state.snap_zone_at(top, Some(7), now).unwrap().zone, SnapZone::Maximize);
    assert!(state.bottom_half_occupied(LEFT, rect(0, 40, 1000, 760), None, now));
    state.space.relocate_element(7, Point::new(5, 421));
    assert_eq!(state.snap_zone_at(top, None, now).unwrap().zone, SnapZone::Maximize);
    assert_eq!(state.snap_zone_at(px(500, 400), None, now), None);
    assert_eq!(state.snap_zone_at(px(-500, 400), None, now), None);
}

#[test]
fn previews_appear_after_a_while_where_the_window_will_be() {
    let now = Instant::now();
    let mut state = desk(now);
    open(&mut state, 7, 100, 140, 300, 200, now);
    state.apply_snap(7, target(SnapZone::LeftHalf), false, now);
    let mut window = state.space.window(7).unwrap();
    window.state.snap.as_mut().unwrap().grid.x = 300;
    state.space.put(window);
    assert_eq!(state.group_grid(LEFT).unwrap().x, 300);
    assert_eq!(state.group_grid(RIGHT), None);

    state.note_snap_target(Some(target(SnapZone::RightHalf)), now);
    let dwell = Duration::from_nanos(SNAP_PREVIEW_DWELL_NANOS as u64);
    state.tick_snap_preview(now + dwell / 2);
    assert!(state.space.output(LEFT).unwrap().preview.is_none());
    state.tick_snap_preview(now + dwell);
    state.tick_snap_preview(now + dwell * 2);
    let preview = state.space.output(LEFT).unwrap().preview.unwrap();
    assert_eq!(preview.get(), Some(rect(300, 40, 700, 760)));
    assert!(preview.alpha().num > 0);
    assert!(state.space.output(RIGHT).unwrap().preview.is_none());
    // The same target changes nothing, another one starts anew.
    state.note_snap_target(Some(target(SnapZone::RightHalf)), now + dwell * 3);
    assert_eq!(state.snap_candidate_since, now);
    state.clear_snap_preview();
    assert_eq!(state.snap_candidate, None);
    assert!(!state.space.output(LEFT).unwrap().preview.unwrap().shown);
    state.tick_snap_preview(now + dwell * 9);
    assert_eq!(state.space.output(LEFT).unwrap().preview.unwrap().get(), None);
}

#[test]
fn the_rest_of_a_group_is_centered_again() {
    let now = Instant::now();
    let mut state = desk(now);
    open(&mut state, 7, 100, 140, 300, 200, now);
    open(&mut state, 8, 400, 140, 300, 200, now);
    state.apply_snap(7, target(SnapZone::LeftHalf), false, now);
    state.apply_snap(8, target(SnapZone::RightHalf), false, now);
    let mut window = state.space.window(8).unwrap();
    window.state.snap.as_mut().unwrap().grid.x = 300;
    state.space.put(window);
    state.recenter_snap_group(7, now);
    let window = state.space.window(8).unwrap();
    assert_eq!(window.state.snap.unwrap().grid.x, 500);
    assert_eq!(window.client.size, Some(Size::new(496, 728)));
    assert_eq!(window.state.animation.unwrap().end.loc, Point::new(500, 40));
}

#[test]
fn minimized_windows_are_restored_where_they_were() {
    let now = Instant::now();
    let mut state = desk(now);
    open(&mut state, 7, 100, 140, 300, 200, now);
    open(&mut state, 8, 200, 240, 300, 200, now);
    state.focus = Some(7);
    state.minimize_request(7);
    assert_eq!(state.space.element_location(7), None);
    assert_eq!(state.focus, None);
    assert_eq!(state.minimized.len(), 1);
    state.minimize_request(7);
    assert_eq!(state.minimized.len(), 1);
    state.minimize_request(8);
    state.unminimize_request(7);
    assert_eq!(state.space.element_location(7), Some(Point::new(100, 140)));
    assert!(state.space.window(7).unwrap().client.activated);
    state.restore_last_minimized();
    assert_eq!(state.space.element_location(8), Some(Point::new(200, 240)));
    assert!(!state.space.window(7).unwrap().client.activated);
    state.restore_last_minimized();
    assert!(state.minimized.is_empty());
    // The window that was minimized last comes back first.
    state.minimize_request(7);
    state.minimize_request(8);
    state.restore_last_minimized();
    assert_eq!(state.space.element_location(8), Some(Point::new(200, 240)));
    assert_eq!(state.space.element_location(7), None);
    assert_eq!(state.minimized.len(), 1);
}

#[test]
fn closing_fades_asks_once_and_gives_up() {
    let now = Instant::now();
    let mut state = desk(now);
    open(&mut state, 7, 100, 140, 300, 200, now);
    state.focus = Some(7);
    state.close_window(7, now);
    assert!(state.space.window(7).unwrap().is_closing());
    assert_eq!(state.focus, None);
    state.take_actions();
    state.tick_animations(now + Duration::from_millis(149));
    assert!(state.take_actions().is_empty());
    let closed = now + Duration::from_millis(150);
    state.tick_animations(closed);
    assert_eq!(state.take_actions(), vec![Action::SendClose { window: 7 }]);
    state.tick_animations(closed + Duration::from_secs(2));
    assert!(state.take_actions().is_empty());
    assert!(state.space.window(7).unwrap().is_closing());
    state.tick_animations(closed + Duration::from_millis(2001));
    assert!(!state.space.window(7).unwrap().is_closing());
    assert!(state.space.window(7).unwrap().visibility(closed).is_none());
}

#[test]
fn opens_wait_for_content() {
    let now = Instant::now();
    let mut state = desk(now);
    state.new_toplevel(7, 107, now);
    state.tick_animations(now);
    assert!(state.space.window(7).unwrap().state.visibility.open_pending);
    resize_to(&mut state, 7, Size::new(10, 10));
    state.tick_animations(now);
    let visibility = state.space.window(7).unwrap().state.visibility;
    assert!(!visibility.open_pending && visibility.animation.is_some());
    state.tick_animations(now + Duration::from_millis(150));
    assert!(state.space.window(7).unwrap().state.visibility.animation.is_none());
}

#[test]
fn abandoned_windows_close_from_their_last_frame() {
    let now = Instant::now();
    let mut state = desk(now);
    open(&mut state, 7, 100, 140, 300, 200, now);
    open(&mut state, 8, 200, 240, 300, 200, now);
    open(&mut state, 9, 200, 240, 300, 200, now);
    state.commit(commit_of(7), now);
    for id in [7, 8, 9] {
        let mut window = state.space.window(id).unwrap();
        window.client_alive = false;
        state.space.put(window);
    }
    state.minimize_request(9);
    state.reap_closing_windows(now);
    assert!(state.minimized.is_empty());
    let window = state.space.window(7).unwrap();
    assert!(window.is_ghosting() && window.alive() && window.is_closing());
    assert_eq!(window.ghost_size(), Some(Size::new(304, 232)));
    // Without a frame there is nothing to draw.
    assert!(!state.space.window(8).unwrap().is_ghosting());

    state.tick_animations(now + Duration::from_millis(100));
    assert!(state.space.element_location(7).is_some());
    state.tick_animations(now + Duration::from_millis(150));
    assert_eq!(state.space.element_location(7), None);
    assert!(!state.space.window(7).unwrap().alive());
}

#[test]
fn destroyed_windows_become_ghosts_only_while_mapped() {
    let now = Instant::now();
    let mut state = desk(now);
    open(&mut state, 7, 100, 140, 300, 200, now);
    state.commit(commit_of(7), now);
    state.minimize_request(7);
    state.toplevel_destroyed(7, now);
    assert!(!state.space.window(7).unwrap().is_ghosting());
    state.restore_last_minimized();
    state.commit(commit_of(7), now);
    state.toplevel_destroyed(7, now);
    assert!(state.space.window(7).unwrap().is_ghosting());
}

#[test]
fn clients_that_never_choose_a_size_are_not_waited_for() {
    let now = Instant::now();
    let mut state = desk(now);
    open(&mut state, 7, 0, 40, 996, 728, now);
    state.animate_client_unmaximize(7, Point::new(50, 60), now);
    assert!(state.space.window(7).unwrap().state.animation.unwrap().content_pending());
    state.tick_animations(now + Duration::from_millis(499));
    assert_eq!(state.space.element_location(7), Some(Point::new(0, 40)));
    let overdue = now + Duration::from_millis(500);
    state.tick_animations(overdue);
    assert!(!state.space.window(7).unwrap().state.animation.unwrap().content_pending());
    state.tick_animations(overdue + Duration::from_millis(300));
    assert_eq!(state.space.element_location(7), Some(Point::new(50, 60)));

    // A client that does choose one goes on at once.
    state.animate_client_unmaximize(7, Point::new(10, 60), overdue);
    resize_to(&mut state, 7, Size::new(400, 300));
    state.commit(commit_of(7), overdue);
    let animation = state.space.window(7).unwrap().state.animation.unwrap();
    assert_eq!(animation.end.content, Size::new(400, 300));
    assert!(!animation.content_pending());
}

#[test]
fn drags_pin_the_transition_where_the_window_is_dropped() {
    let now = Instant::now();
    let mut state = desk(now);
    open(&mut state, 7, 100, 140, 300, 200, now);
    state.animate_window(7, Size::new(500, 400), Point::new(300, 300), now);
    state.dragging_window = Some(7);
    state.tick_animations(now + Duration::from_millis(200));
    assert_eq!(state.space.element_location(7), Some(Point::new(100, 140)));
    state.pin_window_animation(7);
    state.dragging_window = None;
    state.tick_animations(now + Duration::from_millis(300));
    assert_eq!(state.space.element_location(7), Some(Point::new(100, 140)));
    // A transition to where the window is does not start.
    open(&mut state, 8, 100, 140, 300, 200, now);
    state.animate_window(8, Size::new(300, 200), Point::new(100, 140), now);
    assert!(state.space.window(8).unwrap().state.animation.is_none());
}

#[test]
fn outputs_line_up_and_lost_windows_come_back() {
    let now = Instant::now();
    let mut state = desk(now);
    open(&mut state, 7, 100, 140, 300, 200, now);
    open(&mut state, 8, 5000, 140, 300, 200, now);
    state.space.outputs[0].geometry = Some(rect(50, 70, 1000, 800));
    fixup_positions(&mut state.space, px(1300, 100), now);
    assert_eq!(state.space.output_geometry(LEFT), Some(rect(0, 0, 1000, 800)));
    assert_eq!(state.space.output_geometry(RIGHT), Some(rect(1000, 0, 600, 400)));
    assert_eq!(state.space.element_location(7), Some(Point::new(100, 140)));
    assert_eq!(state.space.element_location(8), Some(Point::new(1148, 84)));
    let actions = state.take_actions();
    assert_eq!(actions[0], Action::MapOutput { output: LEFT, loc: Point::new(0, 0) });
    assert_eq!(actions[1], Action::ArrangeLayers { output: LEFT });
    assert_eq!(actions[2], Action::MapOutput { output: RIGHT, loc: Point::new(1000, 0) });
}

#[test]
fn popups_have_the_room_of_the_outputs() {
    let now = Instant::now();
    let mut state = desk(now);
    open(&mut state, 7, 900, 100, 300, 200, now);
    state.space.overlaps.push(Overlap { window: 7, output: RIGHT });
    assert_eq!(
        state.unconstrain_popup(7, Point::new(10, 20), now),
        Some(rect(-910, -120, 1600, 800))
    );
    state.space.overlaps.clear();
    assert_eq!(state.unconstrain_popup(7, Point::new(10, 20), now), None);
}

#[test]
fn popups_grab_what_nobody_else_holds() {
    let free = Some(DeviceGrab { is_grabbed: false, by_request: false, by_previous: false });
    let taken = Some(DeviceGrab { is_grabbed: true, by_request: false, by_previous: false });
    let own = Some(DeviceGrab { is_grabbed: true, by_request: false, by_previous: true });
    let both = grab(free, own);
    assert!(both.keyboard && both.pointer && !both.dismissed);
    let none = grab(taken, free);
    assert!(!none.keyboard && !none.pointer && none.dismissed);
    let half = grab(own, taken);
    assert!(half.keyboard && !half.pointer && half.dismissed);
    let pointer = grab(None, free);
    assert!(!pointer.keyboard && pointer.pointer && !pointer.dismissed);
}

#[test]
fn fullscreen_surfaces_are_forgotten_with_their_window() {
    let mut surface = FullscreenSurface::default();
    surface.set(7);
    assert_eq!(surface.get(true), Some(7));
    assert_eq!(surface.get(false), None);
    assert_eq!(surface.clear(), None);
}

#[test]
fn only_the_activated_window_is_active() {
    let now = Instant::now();
    let mut state = desk(now);
    open(&mut state, 7, 100, 140, 300, 200, now);
    open(&mut state, 8, 200, 240, 300, 200, now);
    assert!(!state.space.window(7).unwrap().is_activated());
    state.space.map_element(7, Point::new(1, 2), true);
    assert!(state.space.window(7).unwrap().is_activated());
    assert!(!state.space.window(8).unwrap().is_activated());
    assert_eq!(state.space.elements.last().unwrap().window, 7);
    state.space.map_element(8, Point::new(3, 4), false);
    assert!(state.space.window(7).unwrap().is_activated());
}

#[test]
fn windows_are_described_by_their_facts() {
    let window = WindowElement::new(3, SurfaceKind::X11, None);
    assert!(window.is_x11() && !window.is_wayland());
    assert!(!window.has_live_surface() && window.alive());
    assert!(!window.owns_surface(1));
    assert!(WindowElement::new(3, SurfaceKind::Wayland, Some(1)).owns_surface(1));
}
