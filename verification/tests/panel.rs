use oxide_desktop::apps::{
    application_dirs, desktop_file_icon, desktop_id, icon_candidates, is_desktop_file, is_icon_path,
    resolve_icon, style_sheet, DesktopIcons,
};
use oxide_desktop::panel::{
    app_button, draw_indicators, group_app_id, group_windows, next_window_id, parse_snapshot,
    push_sanitized, window_tooltip, write_snapshot, Indicators, WindowInfo,
};
use oxide_desktop::panel_ipc::{
    focus_request, parse_message, socket_file_name, take_snapshots, PanelIpc, PanelMessage,
};
use oxide_desktop::strings::{chars_of, parse_u64, push_decimal, split, trim};

fn make(id: u64, focused: bool, app_id: &str) -> WindowInfo {
    WindowInfo {
        id,
        focused,
        minimized: false,
        app_id: app_id.to_string(),
        title: String::new(),
    }
}

#[test]
fn parses_a_snapshot() {
    let windows =
        parse_snapshot("list\t2\t7\t1\t0\tfirefox\tMozilla\t8\t0\t1\t\tTerminal").unwrap();
    assert_eq!(windows.len(), 2);
    assert_eq!(windows[0].id, 7);
    assert!(windows[0].focused);
    assert!(!windows[0].minimized);
    assert_eq!(windows[0].app_id, "firefox");
    assert_eq!(windows[0].title, "Mozilla");
    assert_eq!(windows[1].id, 8);
    assert!(!windows[1].focused);
    assert!(windows[1].minimized);
    assert_eq!(windows[1].app_id, "");
    assert_eq!(windows[1].title, "Terminal");
}

#[test]
fn ignores_other_messages() {
    assert!(parse_snapshot("focus\t3").is_none());
}

#[test]
fn refuses_incomplete_snapshots() {
    assert!(parse_snapshot("list").is_none());
    assert!(parse_snapshot("list\tmany").is_none());
    assert!(parse_snapshot("list\t1\t7\t1\t0\tfirefox").is_none());
    assert!(parse_snapshot("list\t1\tx\t1\t0\tfirefox\tMozilla").is_none());
    assert_eq!(parse_snapshot("list\t0").unwrap().len(), 0);
}

#[test]
fn cycles_through_an_apps_windows() {
    let make = |id, focused| make(id, focused, "alacritty");
    let windows = [make(1, false), make(2, true), make(3, false)];
    let refs: Vec<&WindowInfo> = windows.iter().collect();
    assert_eq!(next_window_id(&refs), 3, "next after the focused window");

    let windows = [make(4, false), make(5, false)];
    let refs: Vec<&WindowInfo> = windows.iter().collect();
    assert_eq!(next_window_id(&refs), 4, "first when none is focused");
}

#[test]
fn the_last_window_is_followed_by_the_first() {
    let windows = [make(1, false, "a"), make(2, false, "a"), make(3, true, "a")];
    let refs: Vec<&WindowInfo> = windows.iter().collect();
    assert_eq!(next_window_id(&refs), 1);
}

#[test]
fn reads_icon_from_desktop_entry() {
    let contents = "[Desktop Entry]\nName=Foo\nIcon[de]=lokal\nIcon=foo-icon\n";
    assert_eq!(desktop_file_icon(contents).as_deref(), Some("foo-icon"));
}

#[test]
fn reads_icons_of_the_right_group_only() {
    assert_eq!(desktop_file_icon("Icon=early\n[Other]\nIcon=no\n"), None);
    let contents = "# comment\r\n\r\n  [Desktop Entry]  \r\n Icon= \r\n[Action]\r\nIcon=x\r\n[Desktop Entry]\r\n  Icon= last\t";
    assert_eq!(desktop_file_icon(contents).as_deref(), Some("last"));
}

#[test]
fn maps_nested_desktop_files_to_ids() {
    let mut icons = DesktopIcons::new();
    assert!(is_desktop_file("foo.desktop"));
    icons.collect("sub/foo.desktop", "[Desktop Entry]\nIcon=foo\n");
    assert_eq!(icons.get("sub-foo").as_deref(), Some("foo"));
}

#[test]
fn earlier_files_win() {
    let mut icons = DesktopIcons::new();
    icons.collect("Foo.desktop", "[Desktop Entry]\nIcon=first\n");
    icons.collect("Foo.desktop", "[Desktop Entry]\nIcon=second\n");
    icons.collect("foo.desktop", "[Desktop Entry]\nIcon=third\n");
    assert_eq!(icons.get("Foo").as_deref(), Some("first"));
    // The lowercase form of an id names the same icon.
    assert_eq!(icons.get("foo").as_deref(), Some("first"));
    assert_eq!(icons.desktop_icon("FOO").as_deref(), Some("first"));
    assert_eq!(icons.desktop_icon("bar"), None);
    icons.collect("bar.desktop", "[Desktop Entry]\nName=Bar\n");
    assert_eq!(icons.get("bar"), None);
}

#[test]
fn ids_and_names_of_desktop_files() {
    assert_eq!(desktop_id("a/b/c.desktop"), "a-b-c");
    assert_eq!(desktop_id("plain"), "plain");
    assert!(!is_desktop_file(".desktop"));
    assert!(!is_desktop_file("foo.txt"));
}

#[test]
fn icons_have_candidates() {
    let mut icons = DesktopIcons::new();
    icons.collect("Foo.desktop", "[Desktop Entry]\nIcon=/opt/foo.png\n");
    let names = icon_candidates("Foo", &icons);
    assert_eq!(names, vec!["/opt/foo.png".to_string(), "Foo".to_string(), "foo".to_string()]);
    assert_eq!(icon_candidates("bar", &icons), vec!["bar".to_string()]);
    assert!(icon_candidates("", &icons).is_empty());
    assert!(is_icon_path("/opt/foo.png") && !is_icon_path("foo"));
    assert_eq!(resolve_icon(&names, &vec![false, false, true]), "foo");
    assert_eq!(resolve_icon(&names, &vec![false]), "application-x-executable");
}

#[test]
fn application_directories_in_order() {
    assert_eq!(
        application_dirs(Some("/data"), Some("/home/me"), Some("/a:::/b/")),
        vec!["/data/applications", "/a/applications", "/b/applications"]
    );
    assert_eq!(
        application_dirs(None, Some("/home/me"), None),
        vec![
            "/home/me/.local/share/applications",
            "/usr/local/share/applications",
            "/usr/share/applications"
        ]
    );
    assert!(application_dirs(None, None, Some("")).is_empty());
}

#[test]
fn snapshots_survive_the_wire() {
    let mut first = make(7, true, "fire\tfox");
    first.title = "one\ntwo\rthree".to_string();
    let mut second = make(18446744073709551615, false, "");
    second.minimized = true;
    let text = write_snapshot(&vec![first, second]);
    assert_eq!(
        text,
        "list\t2\t7\t1\t0\tfire fox\tone two three\t18446744073709551615\t0\t1\t\t"
    );
    let windows = parse_snapshot(&text).unwrap();
    assert_eq!(windows.len(), 2);
    assert_eq!(windows[0].app_id, "fire fox");
    assert_eq!(windows[1].id, u64::MAX);
    assert!(windows[1].minimized);
}

#[test]
fn sanitizing_replaces_what_breaks_lines() {
    let mut out = String::from("x");
    push_sanitized(&mut out, "a\tb\nc\rd e");
    assert_eq!(out, "xa b c d e");
}

#[test]
fn windows_are_grouped_by_app() {
    let windows = vec![
        make(1, false, "a"),
        make(2, false, ""),
        make(3, true, "b"),
        make(4, false, "a"),
        make(5, false, ""),
    ];
    let groups = group_windows(&windows);
    assert_eq!(groups.len(), 4);
    assert_eq!(groups[0].windows, vec![0, 3]);
    assert_eq!(groups[1].windows, vec![1]);
    assert_eq!(groups[2].windows, vec![2]);
    assert_eq!(groups[3].windows, vec![4]);
    assert_eq!(group_app_id(&groups[0]), "a");
    assert_eq!(group_app_id(&groups[1]), "");
}

#[test]
fn buttons_sum_their_windows_up() {
    let mut windows = vec![make(1, false, "a"), make(2, true, "a")];
    windows[0].title = "One".to_string();
    windows[0].minimized = true;
    let refs: Vec<&WindowInfo> = windows.iter().collect();
    let button = app_button(&refs);
    assert!(button.focused && !button.minimized);
    assert_eq!(button.tooltip, "2 windows");
    assert_eq!(button.target, 1);
    let button = app_button(&refs[..1]);
    assert!(!button.focused && button.minimized);
    assert_eq!(button.tooltip, "One (minimized)");
    assert_eq!(window_tooltip(&windows[1]), "a");
}

#[test]
fn dots_become_a_line_when_they_do_not_fit() {
    match draw_indicators(34, 6, 2) {
        // 8 pixels of dots in 34: they start at 13, so the centers are at 14.5
        // and 19.5.
        Indicators::Dots { centers, y } => {
            assert_eq!(centers, vec![29, 39]);
            assert_eq!(y, 6);
        }
        other => panic!("{other:?}"),
    }
    assert!(matches!(draw_indicators(34, 6, 6), Indicators::Dots { .. }));
    match draw_indicators(34, 6, 7) {
        Indicators::Line { x, y, width } => assert_eq!((x, y, width), (6, 4, 56)),
        other => panic!("{other:?}"),
    }
    match draw_indicators(3, 6, 2) {
        Indicators::Line { x, y, width } => assert_eq!((x, y, width), (1, 4, 4)),
        other => panic!("{other:?}"),
    }
}

#[test]
fn the_style_sheet_carries_the_accent() {
    let sheet = style_sheet((1, 20, 255));
    assert!(sheet.contains("    color: rgb(1, 20, 255);\n"));
    assert!(sheet.contains("    background-color: rgba(1, 20, 255, 0.28);\n"));
    assert!(sheet.starts_with("\nwindow.panel-window {\n"));
    assert!(sheet.ends_with("    opacity: 0.45;\n}\n"));
}

#[test]
fn messages_are_read_line_by_line() {
    let mut ipc = PanelIpc::new();
    ipc.accepted();
    ipc.received(b"focus\t 12 \nnoise\nfocus\tx\naccent\t0.5\t0.25\t1\t9\nfoc");
    let messages = ipc.poll();
    assert_eq!(messages.len(), 2);
    assert!(matches!(messages[0], PanelMessage::Focus(12)));
    match &messages[1] {
        PanelMessage::Accent(r, g, b) => {
            assert_eq!((r.as_str(), g.as_str(), b.as_str()), ("0.5", "0.25", "1"))
        }
        other => panic!("{other:?}"),
    }
    assert_eq!(ipc.read_buf, b"foc".to_vec());
    ipc.received(b"us\t3\n");
    assert!(matches!(ipc.poll()[0], PanelMessage::Focus(3)));
    assert!(ipc.read_buf.is_empty());
}

#[test]
fn invalid_bytes_do_not_stop_the_reader() {
    let mut ipc = PanelIpc::new();
    ipc.received(&[0xff, 0xfe, b'\n']);
    ipc.received(b"focus\t4\n");
    let messages = ipc.poll();
    assert_eq!(messages.len(), 1);
    assert!(matches!(messages[0], PanelMessage::Focus(4)));
}

#[test]
fn window_lists_are_read_line_by_line() {
    let mut pending = b"list\t0\nhello\nlist\t1\t7\t1\t0\tapp\tT\xc3\xa4".to_vec();
    let lists = take_snapshots(&mut pending);
    assert_eq!(lists.len(), 1);
    assert!(lists[0].is_empty());
    assert_eq!(pending, b"list\t1\t7\t1\t0\tapp\tT\xc3\xa4".to_vec());
    pending.extend_from_slice(b"b\nlist");
    let lists = take_snapshots(&mut pending);
    assert_eq!(lists.len(), 1);
    assert_eq!((lists[0][0].id, lists[0][0].title.as_str()), (7, "T\u{e4}b"));
    assert_eq!(pending, b"list".to_vec());
    assert!(take_snapshots(&mut pending).is_empty());
}

#[test]
fn what_is_written_arrives() {
    let mut first = make(7, true, "caf\u{e9}\n");
    first.title = "a\tb".to_string();
    let line = write_snapshot(&vec![first, make(8, false, "")]) + "\n";
    let mut pending = line.into_bytes();
    let lists = take_snapshots(&mut pending);
    assert!(pending.is_empty());
    assert_eq!(lists.len(), 1);
    let ids: Vec<u64> = lists[0].iter().map(|window| window.id).collect();
    assert_eq!(ids, vec![7, 8]);
    assert_eq!(lists[0][0].app_id, "caf\u{e9} ");
    assert_eq!(lists[0][0].title, "a b");

    let mut ipc = PanelIpc::new();
    ipc.accepted();
    ipc.received((focus_request(8) + "\n").as_bytes());
    let messages = ipc.poll();
    assert!(matches!(messages[..], [PanelMessage::Focus(8)]));
}

#[test]
fn white_space_is_what_unicode_says() {
    let spaces = "\t\n\u{b}\u{c}\r \u{85}\u{a0}\u{1680}\u{2000}\u{2001}\u{2002}\u{2003}\u{2004}\u{2005}\
        \u{2006}\u{2007}\u{2008}\u{2009}\u{200a}\u{2028}\u{2029}\u{202f}\u{205f}\u{3000}";
    for c in (0..=0x10ffffu32).filter_map(char::from_u32) {
        assert_eq!(trim(&vec![c]).is_empty(), spaces.contains(c), "{c:?}");
    }
}

#[test]
fn accents_need_three_parts() {
    assert!(parse_message("accent\t1\t2").is_none());
    assert!(parse_message("accent\t1\t2\t3").is_some());
    assert!(parse_message("focus\t-1").is_none());
    assert!(parse_message("focus\t+1").is_some());
}

#[test]
fn snapshots_are_sent_when_they_change() {
    let mut ipc = PanelIpc::new();
    assert_eq!(ipc.send("list\t0"), None);
    ipc.accepted();
    assert_eq!(ipc.send("list\t0"), Some("list\t0\n".to_string()));
    ipc.sent("list\t0");
    assert_eq!(ipc.send("list\t0"), None);
    // A panel that connects anew needs the list again.
    ipc.accepted();
    assert_eq!(ipc.send("list\t0"), Some("list\t0\n".to_string()));
    ipc.disconnected();
    assert_eq!(ipc.send("list\t1"), None);
}

#[test]
fn sockets_are_named_after_the_display() {
    assert_eq!(socket_file_name("wayland-1"), "oxide-panel-wayland-1.sock");
}

#[test]
fn numbers_are_written_and_read() {
    let mut out = String::new();
    push_decimal(&mut out, 0);
    push_decimal(&mut out, 10203);
    assert_eq!(out, "010203");
    assert_eq!(parse_u64(&chars_of("18446744073709551615")), Some(u64::MAX));
    assert_eq!(parse_u64(&chars_of("18446744073709551616")), None);
    assert_eq!(parse_u64(&chars_of("99999999999999999999999")), None);
    assert_eq!(parse_u64(&chars_of("+7")), Some(7));
    assert_eq!(parse_u64(&chars_of("+")), None);
    assert_eq!(parse_u64(&chars_of("")), None);
    assert_eq!(parse_u64(&chars_of("1_0")), None);
    assert_eq!(parse_u64(&chars_of("007")), Some(7));
}

#[test]
fn texts_are_split_and_trimmed() {
    let parts = split(&chars_of("a::b:"), ':');
    assert_eq!(parts, vec![vec!['a'], vec![], vec!['b'], vec![]]);
    assert_eq!(trim(&chars_of(" \u{a0}\tx y\u{2003}\n")), chars_of("x y"));
    assert!(trim(&chars_of("  ")).is_empty());
}
