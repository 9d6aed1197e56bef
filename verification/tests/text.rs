use oxide_desktop::render::Icon;
use oxide_desktop::text::{icon_pattern, rasterize, xbm_icon, Canvas, GlyphPixel, TitleCache};
use oxide_desktop::utils::Size;

fn dot(x: i32, y: i32, coverage: u8) -> GlyphPixel {
    GlyphPixel { x, y, w: 1, h: 1, coverage }
}

#[test]
fn empty_title_has_nothing_to_draw() {
    assert!(rasterize("", 200, 30, (255, 255, 255), 0, &vec![]).is_none());
}

#[test]
fn rasterizes_a_title() {
    let glyphs = vec![dot(3, 4, 200), dot(4, 4, 255)];
    let (canvas, size) = rasterize("Hello", 200, 30, (255, 255, 255), 31, &glyphs).unwrap();
    assert!(size.w > 0 && size.h == 30);
    assert_eq!(size, Size::new(31, 30));
    assert_eq!(canvas.pixels.len(), 31 * 30 * 4);
    let at = (4 * 31 + 4) * 4;
    assert_eq!(&canvas.pixels[at..at + 4], &[255, 255, 255, 255]);
    assert_eq!(&canvas.pixels[at - 4..at], &[200, 200, 200, 200]);
}

#[test]
fn long_title_is_truncated_to_the_available_width() {
    let (_, size) = rasterize(
        "a very long window title that will not fit",
        40,
        30,
        (255, 255, 255),
        300,
        &vec![],
    )
    .unwrap();
    assert!(size.w <= 40);
}

#[test]
fn titles_need_room() {
    assert!(rasterize("x", 0, 30, (1, 2, 3), 5, &vec![]).is_none());
    assert!(rasterize("x", 10, 0, (1, 2, 3), 5, &vec![]).is_none());
    let (_, size) = rasterize("x", 10, 30, (1, 2, 3), 0, &vec![]).unwrap();
    assert_eq!(size.w, 1);
}

#[test]
fn glyphs_are_blended_over_each_other() {
    let mut canvas = Canvas::new(2, 1);
    canvas.draw(dot(0, 0, 128), (200, 100, 0));
    assert_eq!(canvas.pixels, vec![100, 50, 0, 128, 0, 0, 0, 0]);
    canvas.draw(dot(0, 0, 128), (200, 100, 0));
    // 100 + 100 * 127 / 255, 50 + 50 * 127 / 255, 0, 128 + 128 * 127 / 255
    assert_eq!(canvas.pixels, vec![149, 74, 0, 191, 0, 0, 0, 0]);
    // What covers nothing, lies outside or is no single pixel is skipped.
    canvas.draw(dot(1, 0, 0), (200, 100, 0));
    canvas.draw(dot(2, 0, 9), (200, 100, 0));
    canvas.draw(dot(0, -1, 9), (200, 100, 0));
    canvas.draw(GlyphPixel { x: 1, y: 0, w: 2, h: 1, coverage: 9 }, (200, 100, 0));
    assert_eq!(canvas.pixels, vec![149, 74, 0, 191, 0, 0, 0, 0]);
}

#[test]
fn titles_are_laid_out_when_they_change() {
    let mut cache = TitleCache::new();
    assert_eq!(cache.update(0, Some("One")), None);
    assert_eq!(cache.update(306, Some("One")), Some(200));
    cache.drawn(Some(Size::new(50, 30)));
    assert_eq!(cache.title_width, 50);
    assert_eq!(cache.update(306, Some("One")), None);
    assert_eq!(cache.update(306, None), None);
    assert_eq!(cache.update(307, Some("One")), Some(201));
    assert_eq!(cache.update(307, Some("Two")), Some(201));
    // A bar that is too narrow has no room at all.
    assert_eq!(cache.update(50, Some("Two")), Some(0));
    cache.drawn(None);
    assert_eq!(cache.title_width, 0);
}

#[test]
fn icons_are_bitmaps() {
    let pixels = xbm_icon(&icon_pattern(Icon::Minimize), 10, 10, (204, 204, 204));
    assert_eq!(pixels.len(), 400);
    assert!(pixels[..8 * 40].iter().all(|&byte| byte == 0));
    assert_eq!(&pixels[8 * 40..8 * 40 + 4], &[204, 204, 204, 255]);
    assert_eq!(&pixels[396..], &[204, 204, 204, 255]);
    let pixels = xbm_icon(&icon_pattern(Icon::Maximize), 10, 10, (1, 2, 3));
    // The third row is a frame: two set pixels at the left and at the right.
    let row: Vec<bool> = (0..10).map(|x| pixels[2 * 40 + x * 4 + 3] == 255).collect();
    assert_eq!(row, vec![true, true, false, false, false, false, false, false, true, true]);
    assert_eq!(icon_pattern(Icon::Close)[0], 0x03);
    assert_eq!(icon_pattern(Icon::Restore)[19], 0xFC);
}
