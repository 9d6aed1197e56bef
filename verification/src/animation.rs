//! Window transitions: the open/close fade and the maximize/unmaximize glide.
//!
//! Progress is kept exact. A transition that has played for `played` of `total`
//! nanoseconds is eased with cubic curves, so its eased progress is a ratio
//! whose denominator is the cube of `total`; renderers turn that ratio into
//! whatever number format they draw with. A transition of more nanoseconds than
//! can be cubed is counted in longer steps.

use std::time::{Duration, Instant};
use vstd::prelude::*;

use crate::clock::elapsed_nanos;
use crate::utils::{Point, Size};
use crate::xdg::decorated_content_size;

verus! {

use crate::clock::{duration_nanos, elapsed};
use crate::utils::{fits, lemma_round_between, min, round_ratio, sat32};
use crate::xdg::decorated;

/// How long the maximize/unmaximize transition takes, in nanoseconds.
pub const WINDOW_ANIMATION_NANOS: u128 = 270_000_000;

/// How long a window takes to fade/scale in when it opens, or out when it
/// closes, in nanoseconds.
pub const WINDOW_VISIBILITY_NANOS: u128 = 150_000_000;

/// How much larger than its final size, in percent, a window is drawn at the
/// start of the open transition; the close transition grows out by the same
/// amount.
pub const VISIBILITY_SCALE_EXCESS: u128 = 8;

/// How long a client-decorated window may take to commit the size it restores
/// to before its transition settles on the last committed size, in
/// nanoseconds.
pub const CONTENT_PENDING_TIMEOUT_NANOS: u128 = 500_000_000;

/// The most steps that a transition is counted in: their cube, in percent, still
/// fits into 128 bits. A transition of so many nanoseconds, or fewer, is counted
/// in nanoseconds; that is more than a quarter of an hour.
pub const MAX_STEPS: u128 = 0x100_0000_0000;

/// A fraction.
#[derive(Debug, Clone, Copy, PartialEq, Eq, Structural)]
pub struct Ratio {
    pub num: u128,
    pub den: u128,
}

/// Which direction [`VisibilityAnimation`] plays in.
#[derive(Debug, Clone, Copy, PartialEq, Eq, Structural)]
pub enum VisibilityKind {
    /// Fade in with an ease-out curve, shrinking from a larger size.
    Open,
    /// Fade out with an ease-in curve, growing to a larger size.
    Close,
}

/// The opacity and the center scale a window is drawn with.
#[derive(Debug, Clone, Copy, PartialEq, Eq, Structural)]
pub struct Visibility {
    pub opacity: Ratio,
    pub scale: Ratio,
}

/// A window's open/close transition: a purely visual fade plus a scale about
/// the window's center. Unlike [`WindowAnimation`] it never changes the window's
/// layout, so the client is unaware of it.
#[derive(Debug, Clone, Copy)]
pub struct VisibilityAnimation {
    pub kind: VisibilityKind,
    pub start_time: Instant,
    /// How long the transition takes, in nanoseconds.
    pub duration: u128,
}

/// A numerator and a denominator as a fraction.
pub open spec fn ratio_of(parts: (int, int)) -> Ratio {
    Ratio { num: parts.0 as u128, den: parts.1 as u128 }
}

/// `v` to the third power.
pub open spec fn cube(v: int) -> int {
    v * v * v
}

/// The ease-out curve at `played / total`: one minus the cube of what is left.
pub open spec fn ease_out(played: int, total: int) -> (int, int) {
    (cube(total) - cube(total - played), cube(total))
}

/// The ease-in curve at `played / total`: the cube of the progress.
pub open spec fn ease_in(played: int, total: int) -> (int, int) {
    (cube(played), cube(total))
}

/// The opacity of a visibility transition, as numerator and denominator.
///
/// Opening uses ease-out (the window snaps towards its final look early),
/// closing uses ease-in (it lingers, then leaves quickly).
pub open spec fn opacity_at(kind: VisibilityKind, played: int, total: int) -> (int, int) {
    match kind {
        VisibilityKind::Open => ease_out(played, total),
        VisibilityKind::Close => (cube(total) - ease_in(played, total).0, cube(total)),
    }
}

/// The center scale of a visibility transition, as numerator and denominator:
/// the natural size plus the part of the excess that the fade has not covered.
pub open spec fn scale_at(kind: VisibilityKind, played: int, total: int) -> (int, int) {
    let (num, den) = opacity_at(kind, played, total);
    (100 * den + VISIBILITY_SCALE_EXCESS * (den - num), 100 * den)
}

/// `a / b`, rounded up.
pub open spec fn ceil_div(a: int, b: int) -> int {
    a / b + (if a % b > 0 { 1int } else { 0 })
}

/// How many steps of a transition of `total` nanoseconds have been completed
/// after `played` of them, and how many there are. The steps are as short as
/// their number allows, and the last one ends with the transition. A transition
/// without any length has already played out.
pub open spec fn steps(played: int, total: int) -> (int, int) {
    if total <= 0 {
        (1, 1)
    } else {
        let unit = ceil_div(total, MAX_STEPS as int);
        let all = ceil_div(total, unit);
        (if played >= total { all } else { played / unit }, all)
    }
}

proof fn lemma_ceil_div(a: int, b: int)
    requires
        0 < a,
        0 < b,
    ensures
        0 < ceil_div(a, b),
        (ceil_div(a, b) - 1) * b < a <= ceil_div(a, b) * b,
{
    let q = a / b;
    let r = a % b;
    assert(a == q * b + r && 0 <= r < b) by (nonlinear_arith)
        requires
            0 < b,
            q == a / b,
            r == a % b,
    ;
    assert(q >= 0) by (nonlinear_arith)
        requires
            0 < a == q * b + r,
            r < b,
            0 < b,
    ;
    assert((q - 1) * b == q * b - b && (q + 1) * b == q * b + b) by (nonlinear_arith);
    if r == 0 {
        assert(q > 0) by (nonlinear_arith)
            requires
                0 < a == q * b,
                0 < b,
        ;
    }
}

/// The steps are few enough, and all of them are completed exactly when the
/// transition has played out.
pub proof fn lemma_steps(played: int, total: int)
    requires
        0 <= played,
        0 <= total,
    ensures
        0 <= steps(played, total).0 <= steps(played, total).1 <= MAX_STEPS,
        0 < steps(played, total).1,
        steps(played, total).0 == steps(played, total).1 <==> played >= total,
{
    if 0 < total {
        let most = MAX_STEPS as int;
        let unit = ceil_div(total, most);
        let all = ceil_div(total, unit);
        lemma_ceil_div(total, most);
        lemma_ceil_div(total, unit);
        assert(all - 1 < most) by (nonlinear_arith)
            requires
                (all - 1) * unit < total <= unit * most,
                0 < unit,
        ;
        if played < total {
            let done = played / unit;
            assert(0 <= done < all) by (nonlinear_arith)
                requires
                    0 <= played < total <= all * unit,
                    0 < unit,
                    done == played / unit,
            ;
        }
    }
}

/// A transition of as many nanoseconds as there may be steps, or fewer, is
/// counted in nanoseconds.
pub proof fn short_transitions_are_exact(played: int, total: int)
    requires
        0 <= played <= total,
        0 < total <= MAX_STEPS,
    ensures
        steps(played, total) == (played, total),
{
    assert(ceil_div(total, MAX_STEPS as int) == 1);
    assert(total / 1 == total && total % 1 == 0 && played / 1 == played);
}

/// `a / b`, rounded up.
fn divided_up(a: u128, b: u128) -> (r: u128)
    requires
        0 < a,
        0 < b,
    ensures
        r == ceil_div(a as int, b as int),
{
    let q = a / b;
    if a % b > 0 {
        assert(q < a) by (nonlinear_arith)
            requires
                q == a / b,
                a % b > 0,
                0 < a,
                0 < b,
        ;
        q + 1
    } else {
        q
    }
}

/// How many steps of a transition have been completed, and how many there are.
fn counted(played: u128, total: u128) -> (r: (u128, u128))
    ensures
        (r.0 as int, r.1 as int) == steps(played as int, total as int),
        r.0 <= r.1 <= MAX_STEPS,
        0 < r.1,
        r.0 == r.1 <==> played >= total,
{
    proof {
        lemma_steps(played as int, total as int);
    }
    if total == 0 {
        return (1, 1);
    }
    proof {
        lemma_ceil_div(total as int, MAX_STEPS as int);
    }
    let unit = divided_up(total, MAX_STEPS);
    let all = divided_up(total, unit);
    if played >= total {
        (all, all)
    } else {
        (played / unit, all)
    }
}

pub proof fn lemma_cube_bounds(v: int, bound: int)
    requires
        0 <= v <= bound,
    ensures
        0 <= cube(v) <= cube(bound),
        0 <= v * v <= bound * bound,
{
    assert(0 <= v * v <= bound * bound) by (nonlinear_arith)
        requires
            0 <= v <= bound,
    ;
    assert(0 <= v * v * v <= bound * bound * bound) by (nonlinear_arith)
        requires
            0 <= v <= bound,
            0 <= v * v <= bound * bound,
    ;
}

pub proof fn lemma_cube_positive(v: int)
    requires
        0 < v,
    ensures
        0 < cube(v),
{
    assert(0 < v * v * v) by (nonlinear_arith)
        requires
            0 < v,
    ;
}

fn cubed(v: u128) -> (r: u128)
    requires
        v <= MAX_STEPS,
    ensures
        r == cube(v as int),
        r <= 0x100_0000_0000_0000_0000_0000_0000_0000,
{
    proof {
        lemma_cube_bounds(v as int, MAX_STEPS as int);
        assert(cube(0x100_0000_0000int) == 0x100_0000_0000_0000_0000_0000_0000_0000int)
            by (nonlinear_arith);
        assert(0x100_0000_0000int * 0x100_0000_0000int == 0x1_0000_0000_0000_0000_0000int)
            by (nonlinear_arith);
    }
    v * v * v
}

/// The ease-out curve after `played` of `total` nanoseconds.
pub fn ease_out_cubic(played: u128, total: u128) -> (r: Ratio)
    ensures
        ({
            let (done, all) = steps(played as int, total as int);
            (r.num as int, r.den as int) == ease_out(done, all)
        }),
        0 < r.den <= 0x100_0000_0000_0000_0000_0000_0000_0000,
        r.num <= r.den,
        r.num == r.den <==> played >= total,
{
    let (done, all) = counted(played, total);
    proof {
        lemma_cube_positive(all as int);
        lemma_cube_bounds((all - done) as int, all as int);
        lemma_ease_out_ends(done as int, all as int);
    }
    let den = cubed(all);
    Ratio { num: den - cubed(all - done), den }
}

/// The ease-in curve after `played` of `total` nanoseconds.
pub fn ease_in_cubic(played: u128, total: u128) -> (r: Ratio)
    ensures
        ({
            let (done, all) = steps(played as int, total as int);
            (r.num as int, r.den as int) == ease_in(done, all)
        }),
        0 < r.den <= 0x100_0000_0000_0000_0000_0000_0000_0000,
        r.num <= r.den,
{
    let (done, all) = counted(played, total);
    proof {
        lemma_cube_positive(all as int);
        lemma_cube_bounds(done as int, all as int);
    }
    Ratio { num: cubed(done), den: cubed(all) }
}

/// The opacity and center scale for a visibility transition that has played for
/// `played` of `total` nanoseconds.
pub fn visibility_at(kind: VisibilityKind, played: u128, total: u128) -> (r: Visibility)
    ensures
        ({
            let (done, all) = steps(played as int, total as int);
            &&& (r.opacity.num as int, r.opacity.den as int) == opacity_at(kind, done, all)
            &&& (r.scale.num as int, r.scale.den as int) == scale_at(kind, done, all)
        }),
{
    let opacity = match kind {
        VisibilityKind::Open => ease_out_cubic(played, total),
        VisibilityKind::Close => {
            let eased = ease_in_cubic(played, total);
            Ratio { num: eased.den - eased.num, den: eased.den }
        },
    };
    let scale = Ratio {
        num: 100 * opacity.den + VISIBILITY_SCALE_EXCESS * (opacity.den - opacity.num),
        den: 100 * opacity.den,
    };
    Visibility { opacity, scale }
}

impl VisibilityAnimation {
    /// An open transition that starts now.
    pub fn open() -> (r: Self)
        ensures
            r.kind == VisibilityKind::Open,
            r.duration == WINDOW_VISIBILITY_NANOS,
    {
        Self::starting_at(VisibilityKind::Open, WINDOW_VISIBILITY_NANOS, Instant::now())
    }

    /// A close transition that starts now.
    pub fn close() -> (r: Self)
        ensures
            r.kind == VisibilityKind::Close,
            r.duration == WINDOW_VISIBILITY_NANOS,
    {
        Self::starting_at(VisibilityKind::Close, WINDOW_VISIBILITY_NANOS, Instant::now())
    }

    /// A transition of length `duration` that starts now.
    pub fn new(kind: VisibilityKind, duration: Duration) -> (r: Self)
        ensures
            r.kind == kind,
            r.duration == duration_nanos(duration),
    {
        Self::starting_at(kind, duration.as_nanos(), Instant::now())
    }

    /// A transition of `duration` nanoseconds that starts at `start_time`.
    pub fn starting_at(kind: VisibilityKind, duration: u128, start_time: Instant) -> (r: Self)
        ensures
            r == (VisibilityAnimation { kind, start_time, duration }),
    {
        VisibilityAnimation { kind, start_time, duration }
    }

    /// The direction this transition plays in.
    pub fn kind(&self) -> (r: VisibilityKind)
        ensures
            r == self.kind,
    {
        self.kind
    }

    /// Whether the transition has fully played out at `now`.
    pub open spec fn is_finished(self, now: Instant) -> bool {
        elapsed(now, self.start_time) >= self.duration
    }

    /// Whether the transition has fully played out at `now`.
    pub fn finished(&self, now: Instant) -> (r: bool)
        ensures
            r == self.is_finished(now),
    {
        elapsed_nanos(now, self.start_time) >= self.duration
    }

    /// The opacity and center scale at `now`.
    #[verifier::opaque]
    pub open spec fn seen_at(self, now: Instant) -> Visibility {
        let (done, all) = steps(elapsed(now, self.start_time), self.duration as int);
        Visibility {
            opacity: ratio_of(opacity_at(self.kind, done, all)),
            scale: ratio_of(scale_at(self.kind, done, all)),
        }
    }

    /// The opacity and center scale to draw the window with at `now`.
    pub fn sample(&self, now: Instant) -> (r: Visibility)
        ensures
            r == self.seen_at(now),
    {
        reveal(VisibilityAnimation::seen_at);
        visibility_at(self.kind, elapsed_nanos(now, self.start_time), self.duration)
    }
}

/// A window's visual geometry: the decorated top-left corner plus the *content*
/// size (the area the client draws into). The SSD chrome is derived from the
/// content size, so animating the content is enough to animate the whole frame.
#[derive(Debug, Clone, Copy, PartialEq, Eq, Structural)]
pub struct WindowRect {
    pub loc: Point,
    pub content: Size,
}

impl WindowRect {
    /// The visual geometry of a window at `loc` that draws `content`.
    pub fn from_geometry(loc: Point, content: Size) -> (r: Self)
        ensures
            r == (WindowRect { loc, content }),
    {
        WindowRect { loc, content }
    }

    /// The full decorated size (content plus SSD chrome) for a server-decorated
    /// window; equal to the content size for client-decorated windows.
    pub fn decorated(&self, is_ssd: bool) -> (r: Size)
        ensures
            r == decorated(self.content, is_ssd),
    {
        decorated_content_size(self.content, is_ssd)
    }
}

/// The pre-transition pixels of the window, captured once so the transition can
/// crossfade from them to the live frame.
#[derive(Debug, Clone, Copy, PartialEq, Eq, Structural)]
pub enum SnapshotState {
    /// Not captured yet; a renderer must do so before the next draw.
    Pending,
    /// The key of the frozen pre-transition frame and its (logical) content
    /// size.
    Captured { buffer: u64, size: Size },
    /// Capture isn't possible (e.g. the window has no buffer yet).
    Unavailable,
}

/// An in-flight window transition. Sampling interpolates the geometry with an
/// ease-out curve; the window is drawn at the sampled rect for the whole
/// duration so it does not have to wait for the client to commit a new size.
#[derive(Debug, Clone, Copy)]
pub struct WindowAnimation {
    pub start: WindowRect,
    pub end: WindowRect,
    pub start_time: Instant,
    /// How long the transition takes, in nanoseconds.
    pub duration: u128,
    pub snapshot: SnapshotState,
    /// Whether the final content size is still to be chosen by the client. The
    /// window stays at its start geometry until then.
    pub content_pending: bool,
}

/// The point between `a` and `b` at the fraction `num / den` of the way,
/// rounded to a whole pixel.
pub open spec fn lerp(a: int, b: int, num: int, den: int) -> int {
    sat32(round_ratio(a * den + (b - a) * num, den))
}

/// The sum of two numbers, each a whole part and so many of `den` parts.
fn joined(a: (u64, u128), b: (u64, u128), den: u128) -> (r: (u64, u128))
    requires
        a.0 <= 0x1_0000_0000,
        b.0 <= 0x1_0000_0000,
        a.1 < den,
        b.1 < den,
    ensures
        r.0 * den + r.1 == (a.0 + b.0) * den + a.1 + b.1,
        r.1 < den,
{
    let whole = a.0 + b.0;
    if a.1 >= den - b.1 {
        assert((whole + 1) * den == whole * den + den) by (nonlinear_arith);
        (whole + 1, a.1 - (den - b.1))
    } else {
        (whole, a.1 + b.1)
    }
}

/// The fraction `num / den` of `d`, as a whole part and so many of `den` parts.
fn share(d: u32, num: u128, den: u128) -> (r: (u64, u128))
    requires
        0 < den,
        num <= den,
    ensures
        r.0 * den + r.1 == d * num,
        r.1 < den,
        r.0 <= d,
    decreases d,
{
    if d == 0 {
        return (0, 0);
    }
    let half = share(d / 2, num, den);
    let twice = joined(half, half, den);
    let rest = d % 2;
    let h = d / 2;
    assert((half.0 + half.0) * den == 2 * (half.0 * den)) by (nonlinear_arith);
    assert(d * num == 2 * (h * num) + rest * num) by (nonlinear_arith)
        requires
            d == 2 * h + rest,
    ;
    assert((2 * h) * num == 2 * (h * num)) by (nonlinear_arith);
    proof {
        lemma_whole_part(twice.0 as int, twice.1 as int, 2 * h as int, num as int, den as int);
    }
    let all = if rest == 0 {
        twice
    } else {
        assert(rest * num == num) by (nonlinear_arith)
            requires
                rest == 1,
        ;
        let one: (u64, u128) = if num == den { (1, 0) } else { (0, num) };
        assert((twice.0 + one.0) * den + twice.1 + one.1 == twice.0 * den + twice.1 + num)
            by (nonlinear_arith)
            requires
                (one.0 == 1 && one.1 == 0 && num == den) || (one.0 == 0 && one.1 == num),
        ;
        joined(twice, one, den)
    };
    proof {
        lemma_whole_part(all.0 as int, all.1 as int, d as int, num as int, den as int);
    }
    all
}

/// The whole part of a fraction of `d` is at most `d`.
proof fn lemma_whole_part(whole: int, part: int, d: int, num: int, den: int)
    requires
        whole * den + part == d * num,
        0 <= part,
        0 <= num <= den,
        0 < den,
        0 <= d,
    ensures
        whole <= d,
{
    assert(whole <= d) by (nonlinear_arith)
        requires
            whole * den + part == d * num,
            0 <= part,
            0 <= num <= den,
            0 < den,
            0 <= d,
    ;
}

/// A number between two whole ones rounds to the nearer one, and half way to the
/// one further from zero.
proof fn lemma_round_split(whole: int, part: int, den: int)
    requires
        0 <= part < den,
    ensures
        round_ratio(whole * den + part, den) == whole + (if (whole >= 0 && 2 * part >= den) || 2 * part
            > den {
            1int
        } else {
            0
        }),
{
    let at = whole * den + part;
    if whole >= 0 {
        assert(at >= 0) by (nonlinear_arith)
            requires
                at == whole * den + part,
                whole >= 0,
                0 <= part < den,
        ;
        let (q, r) = if 2 * part >= den {
            (whole + 1, 2 * part - den)
        } else {
            (whole, 2 * part + den)
        };
        assert(2 * at + den == q * (2 * den) + r) by (nonlinear_arith)
            requires
                at == whole * den + part,
                (q == whole + 1 && r == 2 * part - den) || (q == whole && r == 2 * part + den),
        ;
        vstd::arithmetic::div_mod::lemma_fundamental_div_mod_converse(2 * at + den, 2 * den, q, r);
    } else {
        assert(at < 0) by (nonlinear_arith)
            requires
                at == whole * den + part,
                whole <= -1,
                0 <= part < den,
        ;
        let (q, r) = if 2 * part > den {
            (-whole - 1, 3 * den - 2 * part)
        } else {
            (-whole, den - 2 * part)
        };
        assert(2 * (-at) + den == q * (2 * den) + r) by (nonlinear_arith)
            requires
                at == whole * den + part,
                (q == -whole - 1 && r == 3 * den - 2 * part) || (q == -whole && r == den - 2 * part),
        ;
        vstd::arithmetic::div_mod::lemma_fundamental_div_mod_converse(
            2 * (-at) + den,
            2 * den,
            q,
            r,
        );
    }
}

/// The point between `a` and `b` at the fraction `t` of the way.
pub fn lerp_pixel(a: i32, b: i32, t: Ratio) -> (r: i32)
    requires
        0 < t.den,
        t.num <= t.den,
    ensures
        r == lerp(a as int, b as int, t.num as int, t.den as int),
{
    let up = a <= b;
    let low = if up { a } else { b };
    let distance = if up { (b as i64 - a as i64) as u32 } else { (a as i64 - b as i64) as u32 };
    let num = if up { t.num } else { t.den - t.num };
    let (whole, part) = share(distance, num, t.den);
    let at = low as i64 + whole as i64;
    proof {
        let (x, y, n, den) = (a as int, b as int, t.num as int, t.den as int);
        assert(x * den + (y - x) * n == at * den + part) by (nonlinear_arith)
            requires
                whole * den + part == distance * num,
                at == low + whole,
                (low == x && distance == y - x && num == n) || (low == y && distance == x - y && num
                    == den - n),
        ;
        let exact = at * den + part;
        let (lo, hi) = (min(x, y), crate::utils::max(x, y));
        assert(lo * den <= exact <= hi * den) by (nonlinear_arith)
            requires
                exact == x * den + (y - x) * n,
                0 <= n <= den,
                lo <= x <= hi,
                lo <= y <= hi,
        ;
        lemma_round_split(at as int, part as int, den);
        lemma_round_between(exact, den, lo, hi);
    }
    let nearer = part > t.den - part;
    let half = part == t.den - part;
    if nearer || (half && at >= 0) {
        (at + 1) as i32
    } else {
        at as i32
    }
}

/// The transition's endpoints are met exactly, and every sample lies between
/// them.
pub proof fn lerp_stays_between(a: int, b: int, num: int, den: int)
    requires
        fits(a),
        fits(b),
        0 <= num <= den,
        0 < den,
    ensures
        min(a, b) <= lerp(a, b, num, den) <= crate::utils::max(a, b),
        num == 0 ==> lerp(a, b, num, den) == a,
        num == den ==> lerp(a, b, num, den) == b,
{
    let at = a * den + (b - a) * num;
    let lo = min(a, b);
    let hi = crate::utils::max(a, b);
    assert(lo * den <= at <= hi * den) by (nonlinear_arith)
        requires
            0 <= num <= den,
            at == a * den + (b - a) * num,
            lo <= a <= hi,
            lo <= b <= hi,
    ;
    lemma_round_between(at, den, lo, hi);
    if num == 0 {
        assert(at == a * den) by (nonlinear_arith)
            requires
                num == 0,
                at == a * den + (b - a) * num,
        ;
        lemma_round_between(at, den, a, a);
    }
    if num == den {
        assert(at == b * den) by (nonlinear_arith)
            requires
                num == den,
                at == a * den + (b - a) * num,
        ;
        lemma_round_between(at, den, b, b);
    }
}

impl WindowAnimation {
    /// A transition from `start` to `end` that starts now.
    pub fn new(start: WindowRect, end: WindowRect, duration: Duration) -> (r: Self)
        ensures
            r.start == start,
            r.end == end,
            r.duration == duration_nanos(duration),
            r.snapshot == SnapshotState::Pending,
            !r.content_pending,
    {
        Self::starting_at(start, end, duration.as_nanos(), Instant::now())
    }

    /// A transition from `start` to `end` that starts at `start_time`.
    pub fn starting_at(
        start: WindowRect,
        end: WindowRect,
        duration: u128,
        start_time: Instant,
    ) -> (r: Self)
        ensures
            r == Self::fresh(start, end, duration, start_time),
    {
        WindowAnimation {
            start,
            end,
            start_time,
            duration,
            snapshot: SnapshotState::Pending,
            content_pending: false,
        }
    }

    /// The transition from `start` to `end` that begins at `start_time`.
    pub open spec fn fresh(
        start: WindowRect,
        end: WindowRect,
        duration: u128,
        start_time: Instant,
    ) -> WindowAnimation {
        WindowAnimation {
            start,
            end,
            start_time,
            duration,
            snapshot: SnapshotState::Pending,
            content_pending: false,
        }
    }

    /// Whether a renderer still needs to capture the pre-transition pixels.
    pub fn needs_snapshot(&self) -> (r: bool)
        ensures
            r == (self.snapshot is Pending),
    {
        matches!(self.snapshot, SnapshotState::Pending)
    }

    /// The frozen pre-transition frame and the content size it was captured at.
    pub open spec fn captured(self) -> Option<(u64, Size)> {
        match self.snapshot {
            SnapshotState::Captured { buffer, size } => Some((buffer, size)),
            _ => None,
        }
    }

    /// The frozen pre-transition frame and the content size it was captured at.
    pub fn snapshot(&self) -> (r: Option<(u64, Size)>)
        ensures
            r == self.captured(),
    {
        match self.snapshot {
            SnapshotState::Captured { buffer, size } => Some((buffer, size)),
            _ => None,
        }
    }

    /// Keep the frozen pre-transition frame.
    pub fn set_snapshot(&mut self, buffer: u64, size: Size)
        ensures
            *final(self) == (WindowAnimation {
                snapshot: SnapshotState::Captured { buffer, size },
                ..*old(self)
            }),
    {
        self.snapshot = SnapshotState::Captured { buffer, size };
    }

    /// Record that no pre-transition frame can be had.
    pub fn set_snapshot_unavailable(&mut self)
        ensures
            *final(self) == (WindowAnimation {
                snapshot: SnapshotState::Unavailable,
                ..*old(self)
            }),
    {
        self.snapshot = SnapshotState::Unavailable;
    }

    /// Hold the window at its start geometry until the client has chosen the
    /// size it restores to.
    pub fn wait_for_content(&mut self)
        ensures
            *final(self) == (WindowAnimation { content_pending: true, ..*old(self) }),
    {
        self.content_pending = true;
    }

    /// Whether the final content size is still to be chosen by the client.
    pub fn content_pending(&self) -> (r: bool)
        ensures
            r == self.content_pending,
    {
        self.content_pending
    }

    /// When the transition started.
    pub fn started_at(&self) -> (r: Instant)
        ensures
            r == self.start_time,
    {
        self.start_time
    }

    /// The transition with its final content size filled in, playing from
    /// `now`. A transition that was not waiting for a size stays as it is.
    pub open spec fn resolved(self, content: Size, now: Instant) -> WindowAnimation {
        if self.content_pending {
            WindowAnimation {
                end: WindowRect { loc: self.end.loc, content },
                start_time: now,
                content_pending: false,
                ..self
            }
        } else {
            self
        }
    }

    /// Fill in the final content size once it is known and let the transition
    /// play from `now`.
    pub fn resolve_content(&mut self, content: Size, now: Instant)
        ensures
            *final(self) == old(self).resolved(content, now),
    {
        if self.content_pending {
            self.end = WindowRect { loc: self.end.loc, content };
            self.start_time = now;
            self.content_pending = false;
        }
    }

    /// The transition with both ends of its path at `loc`.
    pub open spec fn pinned(self, loc: Point) -> WindowAnimation {
        WindowAnimation {
            start: WindowRect { loc, content: self.start.content },
            end: WindowRect { loc, content: self.end.content },
            ..self
        }
    }

    /// Pin the animation's location to `loc`, leaving the content interpolation
    /// untouched. Used when an interactive drag ends mid-transition: the window
    /// stays where it was dropped instead of sliding to the original target
    /// while its size finishes animating.
    pub fn pin_location(&mut self, loc: Point)
        ensures
            *final(self) == old(self).pinned(loc),
    {
        self.start = WindowRect { loc, content: self.start.content };
        self.end = WindowRect { loc, content: self.end.content };
    }

    /// The eased progress at `now`, as numerator and denominator.
    #[verifier::opaque]
    pub open spec fn eased_at(self, now: Instant) -> (int, int) {
        if self.content_pending {
            (0, 1)
        } else {
            let (done, all) = steps(elapsed(now, self.start_time), self.duration as int);
            ease_out(done, all)
        }
    }

    /// The interpolated geometry at `now`, in whole pixels.
    #[verifier::opaque]
    pub open spec fn rect_at(self, now: Instant) -> WindowRect {
        let (num, den) = self.eased_at(now);
        WindowRect {
            loc: Point {
                x: lerp(self.start.loc.x as int, self.end.loc.x as int, num, den) as i32,
                y: lerp(self.start.loc.y as int, self.end.loc.y as int, num, den) as i32,
            },
            content: Size {
                w: lerp(self.start.content.w as int, self.end.content.w as int, num, den) as i32,
                h: lerp(self.start.content.h as int, self.end.content.h as int, num, den) as i32,
            },
        }
    }

    /// Whether the curve is done at `now`.
    pub open spec fn is_done(self, now: Instant) -> bool {
        !self.content_pending && elapsed(now, self.start_time) >= self.duration
    }

    /// The interpolated geometry at `now`, along with the eased progress. The
    /// same eased value drives the crossfade so the fade and the geometry move
    /// at the same rate.
    pub fn sample(&self, now: Instant) -> (r: (WindowRect, Ratio))
        ensures
            r.0 == self.rect_at(now),
            (r.1.num as int, r.1.den as int) == self.eased_at(now),
            r.1 == ratio_of(self.eased_at(now)),
            r.1.num <= r.1.den,
            0 < r.1.den,
            r.1.num == r.1.den <==> self.is_done(now),
    {
        reveal(WindowAnimation::eased_at);
        reveal(WindowAnimation::rect_at);
        let eased = if self.content_pending {
            Ratio { num: 0, den: 1 }
        } else {
            ease_out_cubic(elapsed_nanos(now, self.start_time), self.duration)
        };
        let rect = WindowRect {
            loc: Point {
                x: lerp_pixel(self.start.loc.x, self.end.loc.x, eased),
                y: lerp_pixel(self.start.loc.y, self.end.loc.y, eased),
            },
            content: Size {
                w: lerp_pixel(self.start.content.w, self.end.content.w, eased),
                h: lerp_pixel(self.start.content.h, self.end.content.h, eased),
            },
        };
        (rect, eased)
    }
}

/// The ease-out curve ends at one, and only there.
proof fn lemma_ease_out_ends(played: int, total: int)
    requires
        0 <= played <= total,
        0 < total,
    ensures
        ease_out(played, total).0 == ease_out(played, total).1 <==> played == total,
{
    if played < total {
        lemma_cube_positive(total - played);
    } else {
        assert(cube(0) == 0) by (nonlinear_arith);
    }
}

/// Closing is the open transition played backwards: the opacity and the scale
/// of one at any progress are those of the other at the mirrored progress.
pub proof fn close_mirrors_open(played: int, total: int)
    requires
        0 <= played <= total,
    ensures
        opacity_at(VisibilityKind::Open, played, total) == opacity_at(
            VisibilityKind::Close,
            total - played,
            total,
        ),
        scale_at(VisibilityKind::Open, played, total) == scale_at(
            VisibilityKind::Close,
            total - played,
            total,
        ),
{
}

/// An opening window starts transparent at the enlarged scale and ends opaque
/// at its natural size; a closing one starts and ends the other way around.
pub proof fn visibility_endpoints(total: int)
    requires
        0 < total,
    ensures
        ({
            let den = cube(total);
            let enlarged = ((100 + VISIBILITY_SCALE_EXCESS) * den, 100 * den);
            let natural = (100 * den, 100 * den);
            &&& 0 < den
            &&& opacity_at(VisibilityKind::Open, 0, total) == (0int, den)
            &&& scale_at(VisibilityKind::Open, 0, total) == enlarged
            &&& opacity_at(VisibilityKind::Open, total, total) == (den, den)
            &&& scale_at(VisibilityKind::Open, total, total) == natural
            &&& opacity_at(VisibilityKind::Close, 0, total) == (den, den)
            &&& scale_at(VisibilityKind::Close, 0, total) == natural
            &&& opacity_at(VisibilityKind::Close, total, total) == (0int, den)
            &&& scale_at(VisibilityKind::Close, total, total) == enlarged
        }),
{
    lemma_cube_positive(total);
    assert(cube(0) == 0) by (nonlinear_arith);
}

/// The opacity of an opening window never falls as the transition plays, and
/// never leaves the range from transparent to opaque.
pub proof fn opening_never_dims(earlier: int, later: int, total: int)
    requires
        0 <= earlier <= later <= total,
    ensures
        0 <= opacity_at(VisibilityKind::Open, earlier, total).0 <= opacity_at(
            VisibilityKind::Open,
            later,
            total,
        ).0 <= cube(total),
{
    lemma_cube_bounds(total - later, total - earlier);
    lemma_cube_bounds(total - earlier, total);
}

/// A transition that has finished stays finished.
pub proof fn finished_stays_finished(
    animation: VisibilityAnimation,
    earlier: Instant,
    later: Instant,
)
    requires
        crate::clock::instant_nanos(earlier) <= crate::clock::instant_nanos(later),
        animation.is_finished(earlier),
    ensures
        animation.is_finished(later),
{
}

/// Pinning fixes the location for the rest of the transition and leaves the
/// size interpolation as it was.
pub proof fn pinning_keeps_size_interpolation(
    animation: WindowAnimation,
    loc: Point,
    now: Instant,
)
    ensures
        animation.pinned(loc).rect_at(now).loc == loc,
        animation.pinned(loc).rect_at(now).content == animation.rect_at(now).content,
{
    reveal(WindowAnimation::eased_at);
    reveal(WindowAnimation::rect_at);
    let (num, den) = animation.eased_at(now);
    if !animation.content_pending {
        let total = animation.duration as int;
        let played = elapsed(now, animation.start_time);
        let (done, all) = steps(played, total);
        lemma_steps(played, total);
        lemma_cube_positive(all);
        lemma_cube_bounds(all - done, all);
    }
    assert(animation.pinned(loc).eased_at(now) == (num, den));
    lerp_stays_between(loc.x as int, loc.x as int, num, den);
    lerp_stays_between(loc.y as int, loc.y as int, num, den);
}

} // verus!
