use std::time::{Duration, Instant};

use oxide_desktop::animation::{
    lerp_pixel, visibility_at, Ratio, SnapshotState, VisibilityAnimation, VisibilityKind, WindowAnimation,
    WindowRect, MAX_STEPS, VISIBILITY_SCALE_EXCESS, WINDOW_ANIMATION_NANOS,
    WINDOW_VISIBILITY_NANOS,
};
use oxide_desktop::utils::{Point, Size};

fn value(ratio: Ratio) -> f64 {
    ratio.num as f64 / ratio.den as f64
}

fn excess() -> f64 {
    VISIBILITY_SCALE_EXCESS as f64 / 100.0
}

#[test]
fn open_fades_in_and_shrinks_into_place() {
    let seen = visibility_at(VisibilityKind::Open, 0, 100);
    assert!(value(seen.opacity).abs() < 1e-6, "starts transparent");
    assert!((value(seen.scale) - (1.0 + excess())).abs() < 1e-6);

    let seen = visibility_at(VisibilityKind::Open, 100, 100);
    assert!((value(seen.opacity) - 1.0).abs() < 1e-6, "ends opaque");
    assert!((value(seen.scale) - 1.0).abs() < 1e-6, "ends at natural size");
}

#[test]
fn close_fades_out_and_grows_away() {
    let seen = visibility_at(VisibilityKind::Close, 0, 100);
    assert!((value(seen.opacity) - 1.0).abs() < 1e-6);
    assert!((value(seen.scale) - 1.0).abs() < 1e-6);

    let seen = visibility_at(VisibilityKind::Close, 100, 100);
    assert!(value(seen.opacity).abs() < 1e-6, "ends transparent");
    assert!((value(seen.scale) - (1.0 + excess())).abs() < 1e-6);
}

#[test]
fn close_mirrors_open() {
    // Closing is the open transition played backwards: the eased progress
    // and scale are symmetric around the half-way point.
    for progress in [0, 20, 50, 80, 100] {
        let open = visibility_at(VisibilityKind::Open, progress, 100);
        let close = visibility_at(VisibilityKind::Close, 100 - progress, 100);
        assert!((value(open.opacity) - value(close.opacity)).abs() < 1e-6);
        assert!((value(open.scale) - value(close.scale)).abs() < 1e-6);
    }
}

#[test]
fn pinning_location_keeps_size_interpolation() {
    let start = WindowRect::from_geometry(Point::new(0, 0), Size::new(100, 100));
    let end = WindowRect::from_geometry(Point::new(200, 200), Size::new(50, 50));
    let mut animation = WindowAnimation::new(start, end, Duration::from_millis(100));
    animation.pin_location(Point::new(10, 20));
    let (rect, _) = animation.sample(Instant::now());
    assert_eq!(rect.loc, Point::new(10, 20));
    assert!(rect.content.w <= 100 && rect.content.w >= 50);
}

#[test]
fn finished_only_after_the_duration() {
    let duration = Duration::from_millis(100);
    let before = Instant::now();
    let animation = VisibilityAnimation::new(VisibilityKind::Open, duration);
    let after = Instant::now() + duration;
    assert!(!animation.finished(before));
    assert!(animation.finished(after));
    assert!(animation.finished(after + duration));
}

#[test]
fn easing_is_cubic() {
    let half = visibility_at(VisibilityKind::Open, 1, 2);
    assert_eq!(half.opacity, Ratio { num: 7, den: 8 });
    let half = visibility_at(VisibilityKind::Close, 1, 2);
    assert_eq!(half.opacity, Ratio { num: 7, den: 8 });
}

#[test]
fn opens_and_closes_take_their_time() {
    let opening = VisibilityAnimation::open();
    assert_eq!(opening.kind(), VisibilityKind::Open);
    assert_eq!(opening.duration, WINDOW_VISIBILITY_NANOS);
    assert_eq!(VisibilityAnimation::close().kind(), VisibilityKind::Close);
    assert!(WINDOW_ANIMATION_NANOS <= MAX_STEPS);
}

#[test]
fn transitions_may_take_any_time() {
    let hour = Duration::from_secs(3600);
    let begun = Instant::now();
    let animation = VisibilityAnimation {
        start_time: begun,
        ..VisibilityAnimation::new(VisibilityKind::Open, hour)
    };
    assert_eq!(animation.sample(begun).opacity.num, 0);
    let half = animation.sample(begun + hour / 2);
    assert!((value(half.opacity) - 0.875).abs() < 1e-6);
    let nearly = animation.sample(begun + hour - Duration::from_nanos(1));
    assert!(nearly.opacity.num < nearly.opacity.den);
    let over = animation.sample(begun + hour);
    assert_eq!(over.opacity.num, over.opacity.den);

    let start = WindowRect::from_geometry(Point::new(i32::MIN, 0), Size::new(100, 100));
    let end = WindowRect::from_geometry(Point::new(i32::MAX, 80), Size::new(200, 300));
    let glide = WindowAnimation::starting_at(start, end, Duration::MAX.as_nanos(), begun);
    assert_eq!(glide.sample(begun).0, start);
    let glide = WindowAnimation::starting_at(start, end, hour.as_nanos(), begun);
    assert_eq!(glide.sample(begun + hour / 2).0.loc.y, 70);
    assert_eq!(glide.sample(begun + hour).0, end);
    // Up to a quarter of an hour the curve is exact.
    let minute = Duration::from_secs(60).as_nanos();
    let half = visibility_at(VisibilityKind::Open, 5 * minute, 10 * minute);
    assert_eq!(half.opacity.num * 8, half.opacity.den * 7);
    // What has no length has played out.
    let at_once = visibility_at(VisibilityKind::Close, 0, 0);
    assert_eq!(at_once.opacity.num, 0);
}

#[test]
fn halves_of_a_pixel_round_away_from_zero() {
    let half = Ratio { num: 1, den: 2 };
    assert_eq!((lerp_pixel(0, 1, half), lerp_pixel(1, 0, half)), (1, 1));
    assert_eq!((lerp_pixel(0, -1, half), lerp_pixel(-1, 0, half)), (-1, -1));
    assert_eq!(lerp_pixel(-2, 1, half), -1);
    assert_eq!(lerp_pixel(i32::MIN, i32::MAX, half), -1);
    assert_eq!(lerp_pixel(-10, 10, Ratio { num: 1, den: 3 }), -3);
    let huge = Ratio { num: u128::MAX - 1, den: u128::MAX };
    assert_eq!(lerp_pixel(7, 1000, huge), 1000);
    assert_eq!(lerp_pixel(i32::MAX, i32::MIN, Ratio { num: 1, den: 1 }), i32::MIN);
}

#[test]
fn transitions_glide_from_start_to_end() {
    let start = WindowRect::from_geometry(Point::new(0, 0), Size::new(100, 100));
    let end = WindowRect::from_geometry(Point::new(80, -80), Size::new(200, 300));
    let begun = Instant::now();
    let animation = WindowAnimation::starting_at(start, end, 1_000_000_000, begun);
    assert_eq!(animation.sample(begun).0, start);
    // Half way through, seven eighths of the way are done.
    let (rect, progress) = animation.sample(begun + Duration::from_millis(500));
    assert_eq!(rect.loc, Point::new(70, -70));
    assert_eq!(rect.content, Size::new(188, 275));
    assert!((value(progress) - 0.875).abs() < 1e-9);
    let (rect, progress) = animation.sample(begun + Duration::from_millis(1000));
    assert_eq!(rect, end);
    assert_eq!(progress.num, progress.den);
    // Later it stays there, and a transition without any length is there at once.
    assert_eq!(animation.sample(begun + Duration::from_millis(5000)).0, end);
    let instant = WindowAnimation::starting_at(start, end, 0, begun);
    assert_eq!(instant.sample(begun).0, end);
}

#[test]
fn a_pending_size_holds_the_transition() {
    let start = WindowRect::from_geometry(Point::new(0, 0), Size::new(100, 100));
    let begun = Instant::now();
    let mut animation = WindowAnimation::starting_at(start, start, 1_000_000_000, begun);
    animation.wait_for_content();
    assert!(animation.content_pending());
    let later = begun + Duration::from_millis(700);
    assert_eq!(animation.sample(later).0, start);
    animation.resolve_content(Size::new(60, 40), later);
    assert!(!animation.content_pending());
    assert_eq!(animation.started_at(), later);
    assert_eq!(animation.sample(later + Duration::from_millis(1000)).0.content, Size::new(60, 40));
}

#[test]
fn snapshots_are_kept_with_the_transition() {
    let rect = WindowRect::from_geometry(Point::new(0, 0), Size::new(10, 10));
    let mut animation = WindowAnimation::new(rect, rect, Duration::from_millis(10));
    assert!(animation.needs_snapshot());
    assert_eq!(animation.snapshot(), None);
    animation.set_snapshot(7, Size::new(10, 10));
    assert!(!animation.needs_snapshot());
    assert_eq!(animation.snapshot(), Some((7, Size::new(10, 10))));
    animation.set_snapshot_unavailable();
    assert!(matches!(animation.snapshot, SnapshotState::Unavailable));
}

#[test]
fn decorations_add_to_the_animated_content() {
    let rect = WindowRect::from_geometry(Point::new(0, 0), Size::new(100, 50));
    assert_eq!(rect.decorated(true), Size::new(104, 82));
    assert_eq!(rect.decorated(false), Size::new(100, 50));
}
