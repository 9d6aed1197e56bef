use oxide_desktop::backend::{command, detect_backend, Backend, Command};
use oxide_desktop::cursor::{
    animation_millis, fallback_image, frame, load_icon_for, load_named, nearest_images, Cursor,
    CursorError, CursorFile, Image,
};

fn image(size: u32, width: u32, delay: u32, mark: u8) -> Image {
    Image {
        size,
        width,
        height: width,
        xhot: 0,
        yhot: 0,
        delay,
        pixels_rgba: vec![mark],
        pixels_argb: vec![],
    }
}

/// A cursor file with a single 4x4 image.
fn cursor_file() -> Vec<u8> {
    let mut file = vec![
        0x58, 0x63, 0x75, 0x72, 0x10, 0, 0, 0, 0, 0, 1, 0, 1, 0, 0, 0, 2, 0, 0xFD, 0xFF, 4, 0, 0,
        0, 0x1C, 0, 0, 0, 0x24, 0, 0, 0, 2, 0, 0xFD, 0xFF, 4, 0, 0, 0, 1, 0, 0, 0, 4, 0, 0, 0, 4,
        0, 0, 0, 1, 0, 0, 0, 2, 0, 0, 0, 50, 0, 0, 0,
    ];
    for i in 0..16u8 {
        file.extend_from_slice(&[i, 0, 0, 128]);
    }
    file
}

#[test]
fn cursor_files_are_parsed() {
    let images = load_named(&CursorFile::Contents(cursor_file())).unwrap();
    assert_eq!(images.len(), 1);
    assert_eq!((images[0].size, images[0].width, images[0].height), (4, 4, 4));
    assert_eq!((images[0].xhot, images[0].yhot, images[0].delay), (1, 2, 50));
    assert_eq!(images[0].pixels_rgba.len(), 64);
    assert_eq!(&images[0].pixels_rgba[4..8], &[1, 0, 0, 128]);
    assert_eq!(&images[0].pixels_argb[4..8], &[128, 1, 0, 0]);
}

#[test]
fn missing_and_broken_files_are_told_apart() {
    let error = load_named(&CursorFile::Missing).unwrap_err();
    assert!(matches!(error, CursorError::NoCursor));
    assert_eq!(error.message(), "Theme has no matching cursor");
    let error = load_named(&CursorFile::Unreadable("denied".to_string())).unwrap_err();
    assert!(matches!(error, CursorError::File(_)));
    assert_eq!(error.message(), "Error opening xcursor file: denied");
    let error = load_named(&CursorFile::Contents(vec![1, 2, 3])).unwrap_err();
    assert!(matches!(error, CursorError::Parse));
    assert_eq!(error.message(), "Failed to parse XCursor file");
}

#[test]
fn the_first_file_that_is_a_cursor_is_taken() {
    let files = vec![
        CursorFile::Missing,
        CursorFile::Unreadable("denied".to_string()),
        CursorFile::Contents(vec![0]),
        CursorFile::Contents(cursor_file()),
        CursorFile::Missing,
    ];
    assert_eq!(load_icon_for(&files).unwrap().len(), 1);
    let files = vec![CursorFile::Missing, CursorFile::Contents(vec![0])];
    assert!(load_icon_for(&files).is_none());
}

#[test]
fn the_nearest_size_is_taken() {
    let images = vec![image(16, 16, 1, 0), image(24, 24, 1, 1), image(32, 32, 1, 2), image(24, 24, 1, 3)];
    assert_eq!(nearest_images(24, &images), vec![1, 3]);
    assert_eq!(nearest_images(100, &images), vec![2]);
    // Of two sizes that are as near the first is taken.
    assert_eq!(nearest_images(20, &images), vec![0]);
    assert!(nearest_images(20, &vec![]).is_empty());
}

#[test]
fn animations_show_each_image_for_its_time() {
    let images = vec![image(24, 24, 10, 0), image(48, 48, 7, 9), image(24, 24, 5, 1)];
    assert_eq!(frame(0, 24, &images).pixels_rgba, vec![0]);
    assert_eq!(frame(9, 24, &images).pixels_rgba, vec![0]);
    assert_eq!(frame(10, 24, &images).pixels_rgba, vec![1]);
    assert_eq!(frame(14, 24, &images).pixels_rgba, vec![1]);
    assert_eq!(frame(15, 24, &images).pixels_rgba, vec![0]);
    assert_eq!(frame(10 + 15 * 7, 24, &images).pixels_rgba, vec![1]);
}

#[test]
fn still_and_empty_cursors() {
    let images = vec![image(24, 24, 0, 5), image(24, 24, 0, 6)];
    assert_eq!(frame(1000, 24, &images).pixels_rgba, vec![5]);
    let blank = frame(1000, 24, &vec![]);
    assert_eq!((blank.width, blank.height, blank.size), (1, 1, 24));
    assert_eq!(blank.pixels_rgba, vec![0, 0, 0, 0]);
}

#[test]
fn themes_without_a_cursor_fall_back() {
    let mut cursor = Cursor::load(None, vec![7; 4]);
    assert_eq!(cursor.size, 24);
    assert!(!cursor.is_loaded(1));
    cursor.remember(1, None);
    cursor.remember(2, Some(vec![image(48, 48, 1, 3)]));
    assert!(cursor.is_loaded(1));
    let arrow = cursor.get_image(1, 2, 0);
    assert_eq!((arrow.size, arrow.width, arrow.height, arrow.xhot, arrow.yhot), (48, 64, 64, 1, 1));
    assert_eq!(arrow.pixels_rgba, vec![7; 4]);
    assert_eq!(cursor.get_image(2, 2, 0).pixels_rgba, vec![3]);
    // What was loaded first stays.
    cursor.remember(2, None);
    assert_eq!(cursor.get_image(2, 2, 0).pixels_rgba, vec![3]);
    assert_eq!(Cursor::load(Some(32), vec![]).size, 32);
    assert_eq!(fallback_image(9, &vec![1, 2]).pixels_rgba, vec![1, 2]);
}

#[test]
fn long_times_wrap_around() {
    assert_eq!(animation_millis(0x1_0000_0005), 5);
    assert_eq!(animation_millis(7), 7);
}

#[test]
fn backends_are_detected() {
    assert_eq!(detect_backend(false, false, true), Some(Backend::Udev));
    assert_eq!(detect_backend(false, false, false), None);
    assert_eq!(detect_backend(true, true, true), Some(Backend::X11));
    assert_eq!(detect_backend(true, false, true), Some(Backend::Winit));
}

#[test]
fn arguments_choose_the_backend() {
    assert_eq!(command(Some("--help"), Some(Backend::X11)), Command::Usage);
    assert_eq!(command(Some("-h"), None), Command::Usage);
    assert_eq!(command(Some("--winit"), None), Command::Run(Backend::Winit));
    assert_eq!(command(Some("--tty-udev"), None), Command::Run(Backend::Udev));
    assert_eq!(command(Some("--x11"), None), Command::Run(Backend::X11));
    assert_eq!(command(Some("--x12"), Some(Backend::X11)), Command::UnknownBackend);
    assert_eq!(command(None, Some(Backend::Udev)), Command::Run(Backend::Udev));
    assert_eq!(command(None, None), Command::Usage);
}
