use std::time::{Duration, Instant};

use oxide_desktop::geometry::RelativeGeometry;
use oxide_desktop::snap::{
    zone_at, Edges, SnapGrid, SnapPreviewState, SnapZone, SNAP_PREVIEW_FADE_NANOS,
};
use oxide_desktop::utils::{FixedPoint, Point, Rectangle, Size};

fn area() -> Rectangle {
    Rectangle::new(Point::new(100, 30), Size::new(200, 100))
}

fn grid_area() -> Rectangle {
    Rectangle::new(Point::new(0, 0), Size::new(1000, 800))
}

fn at(x: i32, y: i32) -> FixedPoint {
    FixedPoint::from_pixels(x, y)
}

#[test]
fn default_grid_divides_evenly() {
    let area = grid_area();
    let grid = SnapGrid::centered(area);
    assert_eq!(
        grid.rect(SnapZone::TopLeft, area),
        Rectangle::new(Point::new(0, 0), Size::new(500, 400))
    );
    assert_eq!(grid.rect(SnapZone::LeftHalf, area).size, Size::new(500, 800));
    assert_eq!(grid.rect(SnapZone::TopHalf, area).size, Size::new(1000, 400));
}

#[test]
fn growing_top_right_shrinks_every_other_cell() {
    let area = grid_area();
    // Top-right grows from 500x400 to 700x500: divider moves left and down.
    let grid = SnapGrid::centered(area).with_dragged_edges(
        SnapZone::TopRight,
        area,
        Edges { left: true, bottom: true, ..Default::default() },
        Size::new(700, 500),
    );
    assert_eq!(grid, SnapGrid { x: 300, y: 500 });

    assert_eq!(
        grid.rect(SnapZone::TopRight, area),
        Rectangle::new(Point::new(300, 0), Size::new(700, 500))
    );
    // Below loses height, left loses width, diagonal loses both.
    assert_eq!(grid.rect(SnapZone::BottomRight, area).size, Size::new(700, 300));
    assert_eq!(grid.rect(SnapZone::TopLeft, area).size, Size::new(300, 500));
    assert_eq!(grid.rect(SnapZone::BottomLeft, area).size, Size::new(300, 300));
}

#[test]
fn dragging_left_edge_of_right_cell_moves_divider() {
    let area = grid_area();
    let grid = SnapGrid::centered(area).with_dragged_edges(
        SnapZone::TopRight,
        area,
        Edges { left: true, ..Default::default() },
        Size::new(600, 400),
    );
    assert_eq!(grid.x, 400);
}

#[test]
fn detects_edges_and_corners() {
    let area = area();
    assert_eq!(zone_at(area, at(105, 80)), Some(SnapZone::LeftHalf));
    assert_eq!(zone_at(area, at(295, 80)), Some(SnapZone::RightHalf));
    assert_eq!(zone_at(area, at(200, 35)), Some(SnapZone::TopHalf));
    assert_eq!(zone_at(area, at(200, 125)), Some(SnapZone::BottomHalf));
    assert_eq!(zone_at(area, at(105, 35)), Some(SnapZone::TopLeft));
    assert_eq!(zone_at(area, at(295, 35)), Some(SnapZone::TopRight));
    assert_eq!(zone_at(area, at(105, 125)), Some(SnapZone::BottomLeft));
    assert_eq!(zone_at(area, at(295, 125)), Some(SnapZone::BottomRight));
    assert_eq!(zone_at(area, at(200, 80)), None);
}

#[test]
fn preview_fades_in_and_out_keeping_its_rect() {
    let fade = Duration::from_nanos(SNAP_PREVIEW_FADE_NANOS as u64);
    let mut preview = SnapPreviewState::default();
    let rect = Rectangle::new(Point::new(0, 0), Size::new(10, 10));
    let start = Instant::now();

    preview.show(rect);
    preview.tick(start);
    preview.tick(start + fade);
    assert_eq!(preview.alpha().num, preview.alpha().den);
    assert_eq!(preview.get(), Some(rect));

    preview.fade_out();
    preview.tick(start + fade * 2);
    assert_eq!(preview.alpha().num, 0);
    assert_eq!(preview.get(), None, "rect is dropped once invisible");
}

#[test]
fn previews_tell_whether_they_changed() {
    let fade = Duration::from_nanos(SNAP_PREVIEW_FADE_NANOS as u64);
    let start = Instant::now();
    let mut preview = SnapPreviewState::hidden_at(start);
    let rect = Rectangle::new(Point::new(0, 0), Size::new(10, 10));
    assert!(!preview.tick(start + fade));
    preview.show(rect);
    // No time has passed: nothing changes, and the rectangle stays.
    assert!(!preview.tick(start + fade));
    assert_eq!((preview.alpha().num, preview.get()), (0, Some(rect)));
    assert!(preview.tick(start + fade + fade / 2));
    assert!(!preview.tick(start + fade + fade / 2));
    assert!(preview.tick(start + fade * 2));
    assert!(!preview.tick(start + fade * 3));
    preview.fade_out();
    assert!(!preview.tick(start + fade * 3));
    assert_eq!(preview.get(), Some(rect));
    assert!(preview.tick(start + fade * 4));
    assert_eq!(preview.get(), None);
}

#[test]
fn zones_tile_the_work_area_without_gaps() {
    let area = area();
    assert_eq!(
        SnapZone::LeftHalf.rect(area).size.w + SnapZone::RightHalf.rect(area).size.w,
        area.size.w
    );
    assert_eq!(
        SnapZone::TopHalf.rect(area).size.h + SnapZone::BottomHalf.rect(area).size.h,
        area.size.h
    );
    assert_eq!(SnapZone::BottomRight.rect(area).loc, Point::new(200, 80));
}

#[test]
fn odd_areas_lose_no_pixel() {
    let area = Rectangle::new(Point::new(3, 5), Size::new(101, 57));
    let left = SnapZone::LeftHalf.rect(area);
    let right = SnapZone::RightHalf.rect(area);
    assert_eq!((left.size.w, right.size.w), (50, 51));
    assert_eq!(left.loc.x + left.size.w, right.loc.x);
    assert_eq!(SnapZone::Maximize.rect(area), area);
}

#[test]
fn dividers_stay_inside_the_area() {
    let area = grid_area();
    let edges = Edges { left: true, bottom: true, ..Default::default() };
    let grid =
        SnapGrid::centered(area).with_dragged_edges(SnapZone::TopRight, area, edges, Size::new(5000, 9000));
    assert_eq!(grid, SnapGrid { x: 1, y: 799 });
    let grid =
        SnapGrid::centered(area).with_dragged_edges(SnapZone::TopRight, area, edges, Size::new(-5, 0));
    assert_eq!(grid, SnapGrid { x: 999, y: 1 });
    // A zone that spans an axis has no divider to move on it.
    let grid =
        SnapGrid::centered(area).with_dragged_edges(SnapZone::LeftHalf, area, edges, Size::new(100, 100));
    assert_eq!(grid, SnapGrid { x: 100, y: 400 });
}

#[test]
fn zones_know_their_sides() {
    assert!(SnapZone::TopLeft.left_of_center() && SnapZone::TopLeft.above_center());
    assert!(!SnapZone::TopLeft.right_of_center() && !SnapZone::TopLeft.below_center());
    assert!(SnapZone::TopHalf.spans_width() && !SnapZone::TopHalf.spans_height());
    assert!(SnapZone::RightHalf.spans_height() && !SnapZone::RightHalf.spans_width());
    assert!(SnapZone::Maximize.spans_width() && SnapZone::Maximize.spans_height());
}

#[test]
fn zones_are_fractions_of_the_work_area() {
    let rel = SnapZone::BottomRight.relative();
    assert_eq!(rel.location(grid_area()), Point::new(500, 400));
    assert_eq!(rel.content_size(grid_area(), false), Size::new(500, 400));
}

#[test]
fn edges_of_the_zones_are_exact() {
    // Half a pixel beyond the margin is outside of it.
    let edge = FixedPoint { x: 116 * 65536, y: 80 * 65536 };
    assert_eq!(zone_at(area(), edge), Some(SnapZone::LeftHalf));
    let beyond = FixedPoint { x: 116 * 65536 + 1, y: 80 * 65536 };
    assert_eq!(zone_at(area(), beyond), None);
}

#[test]
fn preview_is_half_way_after_half_the_fade() {
    let start = Instant::now();
    let mut preview = SnapPreviewState::hidden_at(start);
    preview.show(area());
    let half = Duration::from_nanos((SNAP_PREVIEW_FADE_NANOS / 2) as u64);
    assert!(preview.tick(start + half));
    let alpha = preview.alpha();
    assert_eq!(alpha.num * 2, alpha.den);
    assert_eq!(preview.get(), Some(area()));
    assert!(preview.tick(start + half * 2));
    assert!(!preview.tick(start + half * 3));
}

#[test]
fn fractions_survive_a_change_of_resolution() {
    let old = Rectangle::new(Point::new(0, 40), Size::new(1920, 1040));
    let new = Rectangle::new(Point::new(100, 40), Size::new(1280, 680));
    let rel = RelativeGeometry::capture(Point::new(960, 300), Size::new(480, 520), old);
    assert_eq!(rel.location(old), Point::new(960, 300));
    assert_eq!(rel.content_size(old, false), Size::new(480, 520));
    assert_eq!(rel.location(new), Point::new(740, 210));
    assert_eq!(rel.content_size(new, true), Size::new(316, 308));
}
