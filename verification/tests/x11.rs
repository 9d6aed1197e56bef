use std::time::Instant;

use oxide_desktop::capture::{
    capture_surface_tree, frame_geometry, SurfaceFrame, SurfaceNode, SurfaceView,
};
use oxide_desktop::element::{SurfaceKind, WindowElement};
use oxide_desktop::grabs::{ResizeEdge, ResizeState};
use oxide_desktop::panel::parse_snapshot;
use oxide_desktop::panel_ipc::{focus_request, PanelIpc, WindowName};
use oxide_desktop::resize::advance_resize_configure;
use oxide_desktop::space::{Action, FullscreenSurface, Output};
use oxide_desktop::state::AnvilState;
use oxide_desktop::utils::{FixedPoint, Point, Rectangle, Serial, Size};
use oxide_desktop::x11::configure_request;

fn rect(x: i32, y: i32, w: i32, h: i32) -> Rectangle {
    Rectangle::new(Point::new(x, y), Size::new(w, h))
}

fn px(x: i32, y: i32) -> FixedPoint {
    FixedPoint::from_pixels(x, y)
}

fn desk(now: Instant) -> AnvilState {
    let mut state = AnvilState::new(true, now);
    state.space.outputs.push(Output {
        id: 1,
        geometry: Some(rect(0, 0, 1000, 800)),
        zone: rect(0, 40, 1000, 760),
        preview: None,
        fullscreen: None,
    });
    state
}

fn open(state: &mut AnvilState, id: u64, loc: Point, size: Size) {
    let mut window = WindowElement::new(id, SurfaceKind::X11, Some(100 + id));
    window.client_geometry.size = size;
    window.client_bbox.size = size;
    window.has_resize_data = true;
    state.space.add_window(window);
    state.space.map_element(id, loc, true);
    state.take_actions();
}

#[test]
fn x11_windows_are_placed_and_decorated() {
    let now = Instant::now();
    let mut state = desk(now);
    state.map_window_request(7, Some(107), false, now);
    assert_eq!(state.space.element_location(7), Some(Point::new(500, 420)));
    assert!(state.space.window(7).unwrap().is_ssd());
    let actions = state.take_actions();
    assert_eq!(
        actions[1],
        Action::ConfigureX11 { window: 7, rect: rect(500, 420, 0, 0) }
    );
    state.map_window_request(8, None, true, now);
    assert!(!state.space.window(8).unwrap().is_ssd());
    state.mapped_override_redirect_window(9, None, Point::new(3, 4));
    assert_eq!(state.space.element_location(9), Some(Point::new(3, 4)));
    state.configure_notify(9, rect(5, 6, 7, 8));
    assert_eq!(state.space.element_location(9), Some(Point::new(5, 6)));
    state.take_actions();
    state.unmapped_window(9, true);
    state.unmapped_window(7, false);
    assert_eq!(
        state.take_actions(),
        vec![
            Action::UnmapElement { window: 9 },
            Action::UnmapElement { window: 7 },
            Action::SetMappedX11 { window: 7, mapped: false },
        ]
    );
    state.configure_notify(9, rect(5, 6, 7, 8));
    assert_eq!(state.space.element_location(9), None);
}

#[test]
fn x11_windows_may_change_their_size_only() {
    let last = rect(1, 2, 30, 40);
    assert_eq!(configure_request(last, Some(50), None), rect(1, 2, 50, 40));
    assert_eq!(configure_request(last, None, Some(60)), rect(1, 2, 30, 60));
    assert_eq!(configure_request(last, Some(0xffff_ffff), None).size.w, -1);
}

#[test]
fn x11_windows_are_maximized_if_they_take_it() {
    let now = Instant::now();
    let mut state = desk(now);
    open(&mut state, 7, Point::new(100, 140), Size::new(300, 200));
    assert!(state.toggle_asks_x11(7));
    assert_eq!(state.x11_request_target(7), Some(rect(0, 0, 1000, 800)));
    assert_eq!(state.x11_request_target(8), None);
    state.toggle_maximize(7, false, now);
    assert!(!state.space.window(7).unwrap().is_maximized());
    state.toggle_maximize(7, true, now);
    assert!(state.space.window(7).unwrap().is_maximized());
    assert_eq!(state.space.element_location(7), Some(Point::new(0, 0)));
    assert!(!state.toggle_asks_x11(7));
    state.take_actions();
    state.toggle_maximize(7, false, now);
    assert_eq!(state.space.element_location(7), Some(Point::new(100, 140)));
    let actions = state.take_actions();
    assert_eq!(actions[0], Action::SetMaximizedX11 { window: 7, maximized: false });
    assert_eq!(actions[1], Action::ConfigureX11 { window: 7, rect: rect(100, 140, 300, 200) });
}

#[test]
fn x11_windows_cover_their_output() {
    let now = Instant::now();
    let mut state = desk(now);
    open(&mut state, 7, Point::new(100, 140), Size::new(300, 200));
    state.fullscreen_window(7, &vec![], false, now);
    assert_eq!(state.space.output(1).unwrap().fullscreen, None);
    state.fullscreen_window(7, &vec![], true, now);
    assert_eq!(
        state.space.output(1).unwrap().fullscreen,
        Some(FullscreenSurface { window: Some(7) })
    );
    state.take_actions();
    state.unfullscreen_window(7, now);
    assert!(state.space.window(7).unwrap().is_ssd());
    assert_eq!(state.space.output(1).unwrap().fullscreen, Some(FullscreenSurface { window: None }));
    let actions = state.take_actions();
    assert_eq!(actions[0], Action::SetFullscreenX11 { window: 7, fullscreen: false });
    assert_eq!(actions[1], Action::ConfigureX11 { window: 7, rect: rect(96, 136, 312, 240) });
    assert_eq!(actions[2], Action::ResetBuffers { output: 1 });
}

#[test]
fn x11_moves_start_under_the_pointer() {
    let now = Instant::now();
    let mut state = desk(now);
    open(&mut state, 7, Point::new(100, 140), Size::new(300, 200));
    let grab = state.move_request_x11(7, None, Some(px(120, 150))).unwrap();
    assert_eq!(grab.initial_window_location, Point::new(100, 140));
    state.maximize_request_x11(7, true, now);
    state.take_actions();
    state.pointer = FixedPoint { x: 200 * 65536 + 40000, y: -(3 * 65536 + 1) };
    let grab = state.move_request_x11(7, None, Some(px(120, 150))).unwrap();
    assert_eq!(grab.initial_window_location, Point::new(200, -3));
    assert_eq!(grab.start_location, px(120, 150));
    assert_eq!(
        state.take_actions(),
        vec![
            Action::SetMaximizedX11 { window: 7, maximized: false },
            Action::ConfigureX11 { window: 7, rect: rect(200, -3, 300, 200) },
        ]
    );
    let grab = state.move_request_x11(7, Some((4, px(9, 9))), None).unwrap();
    assert_eq!(grab.slot, Some(4));
    assert_eq!(state.move_request_x11(7, None, None), None);
    assert_eq!(state.move_request_x11(8, Some((4, px(9, 9))), None), None);
}

#[test]
fn x11_resizes_are_synchronized() {
    let now = Instant::now();
    let mut state = desk(now);
    open(&mut state, 7, Point::new(100, 140), Size::new(300, 200));
    let left = ResizeEdge { top: false, bottom: false, left: true, right: false };
    assert_eq!(state.resize_request_x11(7, left, None), None);
    let mut resize = state.resize_request_x11(7, left, Some(px(100, 200))).unwrap();
    resize.update_pointer(px(60, 200));
    assert!(resize.on_frame(&mut state));
    assert_eq!(
        state.take_actions(),
        vec![Action::ResizeX11 { window: 7, rect: rect(60, 140, 340, 200) }]
    );
    // While one is on its way nothing more is asked for.
    let mut window = state.space.window(7).unwrap();
    window.configure_pending = true;
    state.space.put(window);
    advance_resize_configure(7, &mut state.space);
    assert!(state.take_actions().is_empty());
    resize.finish(&mut state, Serial { value: 1 });
    assert_eq!(state.space.element_location(7), Some(Point::new(60, 140)));
    assert!(matches!(state.space.window(7).unwrap().resize, ResizeState::WaitingForCommit(_)));
    assert_eq!(
        *state.take_actions().last().unwrap(),
        Action::SyncX11 { window: 7, rect: rect(60, 140, 340, 200) }
    );
}

#[test]
fn the_selection_belongs_to_focused_x11_windows() {
    let now = Instant::now();
    let mut state = desk(now);
    open(&mut state, 7, Point::new(100, 140), Size::new(300, 200));
    assert!(!state.allow_selection_access(true));
    state.focus = Some(7);
    assert!(state.allow_selection_access(true));
    assert!(!state.allow_selection_access(false));
}

#[test]
fn surface_trees_add_their_offsets_up() {
    let view = |x, y, w| Some(SurfaceView { offset: Point::new(x, y), dst: Size::new(w, w) });
    let nodes = vec![
        SurfaceNode { parent: None, view: view(1, 2, 10), buffer: Some(5) },
        SurfaceNode { parent: Some(0), view: view(10, 20, 20), buffer: Some(6) },
        SurfaceNode { parent: Some(1), view: view(100, 200, 30), buffer: None },
        SurfaceNode { parent: Some(0), view: None, buffer: Some(7) },
        SurfaceNode { parent: Some(3), view: view(0, 0, 40), buffer: Some(8) },
        SurfaceNode { parent: Some(2), view: view(1000, 0, 50), buffer: Some(9) },
    ];
    let frames = capture_surface_tree(&nodes, &vec![1, 0, 2, 3, 4, 5]);
    assert_eq!(
        frames,
        vec![
            SurfaceFrame { buffer: 6, location: Point::new(11, 22), size: Size::new(20, 20) },
            SurfaceFrame { buffer: 5, location: Point::new(1, 2), size: Size::new(10, 10) },
            SurfaceFrame { buffer: 9, location: Point::new(1111, 222), size: Size::new(50, 50) },
        ]
    );
    assert_eq!(frame_geometry(None, &frames), Some(rect(0, 0, 20, 20)));
    assert_eq!(frame_geometry(Some(rect(1, 2, 3, 4)), &frames), Some(rect(1, 2, 3, 4)));
    assert_eq!(frame_geometry(Some(rect(1, 2, 3, 4)), &vec![]), None);
}

fn names() -> Vec<WindowName> {
    vec![WindowName { window: 7, app_id: "xterm".to_string(), title: "a\tb".to_string() }]
}

#[test]
fn the_panel_lists_and_focuses_windows() {
    let now = Instant::now();
    let mut state = desk(now);
    open(&mut state, 7, Point::new(100, 140), Size::new(300, 200));
    open(&mut state, 8, Point::new(100, 140), Size::new(300, 200));
    state.focus = Some(8);
    state.minimize_request(7);
    let first = state.next_panel_id;
    let mut ipc = PanelIpc::new();
    ipc.accepted();
    let tick = state.tick_panel(&mut ipc, &names());
    let expected = format!("list\t2\t{}\t0\t0\t\t\t{}\t0\t1\txterm\ta b", first, first + 1);
    assert_eq!(tick.snapshot, expected.replace("\t0\t0\t\t\t", "\t1\t0\t\t\t"));
    assert_eq!(tick.line, Some(format!("{}\n", tick.snapshot)));
    ipc.sent(&tick.snapshot);

    // Numbers are kept, and what did not change is not sent again.
    let again = state.tick_panel(&mut ipc, &names());
    assert_eq!(again.snapshot, tick.snapshot);
    assert_eq!(again.line, None);
    state.take_actions();

    ipc.received(focus_request(first + 1).as_bytes());
    ipc.received(b"\naccent\t1\t0\t0\n");
    let tick = state.tick_panel(&mut ipc, &names());
    assert_eq!(tick.messages.len(), 2);
    assert_eq!(state.focus, Some(7));
    assert_eq!(state.space.element_location(7), Some(Point::new(100, 140)));
    assert!(state.minimized.is_empty());
    let actions = state.take_actions();
    assert_eq!(actions[2], Action::RaiseX11 { window: 7 });
    assert_eq!(actions[3], Action::SetFocus { focus: Some(7) });
    assert!(tick.line.is_some());
    state.focus_panel_window(999);
    assert!(state.take_actions().is_empty());
}

#[test]
fn without_a_panel_nothing_is_published() {
    let now = Instant::now();
    let mut state = desk(now);
    open(&mut state, 7, Point::new(100, 140), Size::new(300, 200));
    state.take_actions();
    let first = state.next_panel_id;
    let mut ipc = PanelIpc::new();
    ipc.received(focus_request(first).as_bytes());
    ipc.received(b"\n");
    let tick = state.tick_panel(&mut ipc, &names());
    assert_eq!((tick.line, tick.messages.len()), (None, 0));
    assert_eq!(tick.snapshot, "");
    assert_eq!(state.next_panel_id, first);
    assert_eq!(state.space.window(7).unwrap().state.panel_id, None);
    assert!(state.take_actions().is_empty());
}

#[test]
fn the_last_words_of_a_panel_are_heard() {
    let now = Instant::now();
    let mut state = desk(now);
    open(&mut state, 7, Point::new(100, 140), Size::new(300, 200));
    open(&mut state, 8, Point::new(100, 140), Size::new(300, 200));
    let mut ipc = PanelIpc::new();
    ipc.accepted();
    let tick = state.tick_panel(&mut ipc, &names());
    ipc.sent(&tick.snapshot);
    state.focus = Some(8);
    state.take_actions();
    // A request that arrives together with the end of the connection.
    let number = state.space.window(7).unwrap().state.panel_id.unwrap();
    ipc.received(format!("{}\nfoc", focus_request(number)).as_bytes());
    ipc.disconnected();
    let tick = state.tick_panel(&mut ipc, &names());
    assert_eq!((tick.line, tick.messages.len()), (None, 1));
    assert_eq!(state.focus, Some(7));
    // It is heard once, and the next panel does not repeat it.
    state.focus = Some(8);
    let tick = state.tick_panel(&mut ipc, &names());
    assert_eq!((tick.snapshot.as_str(), tick.messages.len()), ("", 0));
    ipc.accepted();
    let tick = state.tick_panel(&mut ipc, &names());
    assert_eq!(tick.messages.len(), 0);
    assert_eq!(state.focus, Some(8));
    // A panel that cannot be written to has nothing more to say.
    ipc.write_failed();
    assert_eq!(state.tick_panel(&mut ipc, &names()).snapshot, "");
}

#[test]
fn every_window_has_a_number_of_its_own() {
    let now = Instant::now();
    let mut state = desk(now);
    for id in [7, 8, 9] {
        open(&mut state, id, Point::new(100, 140), Size::new(300, 200));
    }
    state.minimize_request(8);
    let windows = parse_snapshot(&state.panel_snapshot(&names())).unwrap();
    let numbers: Vec<u64> = windows.iter().map(|window| window.id).collect();
    assert_eq!(numbers, vec![1, 2, 3]);
    state.restore_last_minimized();
    let windows = parse_snapshot(&state.panel_snapshot(&names())).unwrap();
    let numbers: Vec<u64> = windows.iter().map(|window| window.id).collect();
    assert_eq!(numbers, vec![1, 2, 3]);
    assert_eq!(state.space.window(8).unwrap().state.panel_id, Some(3));
}

#[test]
fn ghosts_are_not_listed() {
    let now = Instant::now();
    let mut state = desk(now);
    open(&mut state, 7, Point::new(100, 140), Size::new(300, 200));
    let mut window = state.space.window(7).unwrap();
    window.begin_ghost(Size::new(1, 1));
    state.space.put(window);
    assert_eq!(state.panel_snapshot(&names()), "list\t0");
}
