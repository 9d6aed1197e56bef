//! Logical geometry: integer points, sizes and rectangles, and the fixed-point
//! positions that input devices report.

use vstd::prelude::*;

verus! {

/// Whether `v` is representable as an `i32`.
pub open spec fn fits(v: int) -> bool {
    i32::MIN <= v <= i32::MAX
}

/// `v` limited to the range of an `i32`.
pub open spec fn sat32(v: int) -> int {
    if v < i32::MIN {
        i32::MIN as int
    } else if v > i32::MAX {
        i32::MAX as int
    } else {
        v
    }
}

/// `v` limited to the range of an `i64`.
pub open spec fn sat64(v: int) -> int {
    if v < i64::MIN {
        i64::MIN as int
    } else if v > i64::MAX {
        i64::MAX as int
    } else {
        v
    }
}

/// The larger of two numbers.
pub open spec fn max(a: int, b: int) -> int {
    if a >= b {
        a
    } else {
        b
    }
}

/// The smaller of two numbers.
pub open spec fn min(a: int, b: int) -> int {
    if a <= b {
        a
    } else {
        b
    }
}

/// `v` limited to `lo..=hi`.
pub open spec fn clamp(v: int, lo: int, hi: int) -> int {
    if v < lo {
        lo
    } else if v > hi {
        hi
    } else {
        v
    }
}

/// The absolute value of `v`.
pub open spec fn abs(v: int) -> int {
    if v < 0 {
        -v
    } else {
        v
    }
}

/// `num / den` rounded to the nearest integer, halves away from zero.
pub open spec fn round_ratio(num: int, den: int) -> int
    recommends
        den > 0,
{
    if num >= 0 {
        (2 * num + den) / (2 * den)
    } else {
        -((2 * (-num) + den) / (2 * den))
    }
}

/// `num / den` with the fraction dropped.
pub open spec fn trunc_ratio(num: int, den: int) -> int
    recommends
        den > 0,
{
    if num >= 0 {
        num / den
    } else {
        -((-num) / den)
    }
}

/// A location in logical pixels.
#[derive(Debug, Clone, Copy, PartialEq, Eq, Structural)]
pub struct Point {
    pub x: i32,
    pub y: i32,
}

/// An extent in logical pixels.
#[derive(Debug, Clone, Copy, PartialEq, Eq, Structural)]
pub struct Size {
    pub w: i32,
    pub h: i32,
}

/// A rectangle in logical pixels: its top-left corner and its extent.
#[derive(Debug, Clone, Copy, PartialEq, Eq, Structural)]
pub struct Rectangle {
    pub loc: Point,
    pub size: Size,
}

impl Point {
    /// The point `by` further.
    pub open spec fn moved(self, by: Point) -> Point {
        Point { x: sat32(self.x + by.x) as i32, y: sat32(self.y + by.y) as i32 }
    }

    /// The point `by` further.
    pub fn plus(self, by: Point) -> (r: Point)
        ensures
            r == self.moved(by),
    {
        Point { x: sum(self.x, by.x), y: sum(self.y, by.y) }
    }

    /// The point at `x`, `y`.
    pub fn new(x: i32, y: i32) -> (r: Self)
        ensures
            r == (Point { x, y }),
    {
        Point { x, y }
    }
}

impl Size {
    /// The size `w` by `h`.
    pub fn new(w: i32, h: i32) -> (r: Self)
        ensures
            r == (Size { w, h }),
    {
        Size { w, h }
    }
}

impl Default for Point {
    fn default() -> (r: Self)
        ensures
            r == (Point { x: 0, y: 0 }),
    {
        Point { x: 0, y: 0 }
    }
}

impl Default for Size {
    fn default() -> (r: Self)
        ensures
            r == (Size { w: 0, h: 0 }),
    {
        Size { w: 0, h: 0 }
    }
}

impl Rectangle {
    /// The rectangle of `size` at `loc`.
    pub fn new(loc: Point, size: Size) -> (r: Self)
        ensures
            r == (Rectangle { loc, size }),
    {
        Rectangle { loc, size }
    }

    /// The rectangle of `size` at the origin.
    pub fn from_size(size: Size) -> (r: Self)
        ensures
            r == (Rectangle { loc: Point { x: 0, y: 0 }, size }),
    {
        Rectangle { loc: Point { x: 0, y: 0 }, size }
    }

    /// The x coordinate just past the right edge.
    pub open spec fn right(self) -> int {
        self.loc.x + self.size.w
    }

    /// The y coordinate just past the bottom edge.
    pub open spec fn bottom(self) -> int {
        self.loc.y + self.size.h
    }

    /// Whether both far edges are representable.
    pub open spec fn edges_fit(self) -> bool {
        fits(self.right()) && fits(self.bottom())
    }

    /// Whether the pixel at `p` lies inside this rectangle.
    pub open spec fn has(self, p: Point) -> bool {
        &&& self.loc.x <= p.x < sat32(self.right())
        &&& self.loc.y <= p.y < sat32(self.bottom())
    }

    /// Whether the pixel at `p` lies inside this rectangle.
    pub fn contains(&self, p: Point) -> (r: bool)
        ensures
            r == self.has(p),
    {
        let right = saturate(self.loc.x as i128 + self.size.w as i128);
        let bottom = saturate(self.loc.y as i128 + self.size.h as i128);
        p.x >= self.loc.x && p.x < right && p.y >= self.loc.y && p.y < bottom
    }

    /// The x coordinate just past the right edge, kept within range.
    pub open spec fn right_edge(self) -> int {
        sat32(self.right())
    }

    /// The y coordinate just past the bottom edge, kept within range.
    pub open spec fn bottom_edge(self) -> int {
        sat32(self.bottom())
    }

    /// The smallest rectangle that covers the corners of both rectangles.
    pub open spec fn merged(self, other: Rectangle) -> Rectangle {
        let x0 = min(min(self.loc.x as int, self.right_edge()), min(other.loc.x as int, other.right_edge()));
        let x1 = max(max(self.loc.x as int, self.right_edge()), max(other.loc.x as int, other.right_edge()));
        let y0 = min(min(self.loc.y as int, self.bottom_edge()), min(other.loc.y as int, other.bottom_edge()));
        let y1 = max(max(self.loc.y as int, self.bottom_edge()), max(other.loc.y as int, other.bottom_edge()));
        Rectangle {
            loc: Point { x: x0 as i32, y: y0 as i32 },
            size: Size { w: sat32(x1 - x0) as i32, h: sat32(y1 - y0) as i32 },
        }
    }

    /// The smallest rectangle that covers the corners of both rectangles.
    pub fn merge(&self, other: Rectangle) -> (r: Rectangle)
        ensures
            r == self.merged(other),
    {
        let (a0, a1) = (self.loc.x, sum(self.loc.x, self.size.w));
        let (b0, b1) = (other.loc.x, sum(other.loc.x, other.size.w));
        let (c0, c1) = (self.loc.y, sum(self.loc.y, self.size.h));
        let (d0, d1) = (other.loc.y, sum(other.loc.y, other.size.h));
        let x0 = smaller(smaller(a0, a1), smaller(b0, b1));
        let x1 = larger(larger(a0, a1), larger(b0, b1));
        let y0 = smaller(smaller(c0, c1), smaller(d0, d1));
        let y1 = larger(larger(c0, c1), larger(d0, d1));
        Rectangle {
            loc: Point { x: x0, y: y0 },
            size: Size { w: difference(x1, x0), h: difference(y1, y0) },
        }
    }
}

/// The smaller of two numbers.
pub fn smaller(a: i32, b: i32) -> (r: i32)
    ensures
        r == min(a as int, b as int),
{
    if a <= b {
        a
    } else {
        b
    }
}

/// The sum of two coordinates, kept within their range.
pub fn sum(a: i32, b: i32) -> (r: i32)
    ensures
        r == sat32(a + b),
{
    saturate(a as i128 + b as i128)
}

/// The difference of two coordinates, kept within their range.
pub fn difference(a: i32, b: i32) -> (r: i32)
    ensures
        r == sat32(a - b),
{
    saturate(a as i128 - b as i128)
}

/// Whether two coordinates differ by at most `tolerance`.
pub fn near(a: i32, b: i32, tolerance: i32) -> (r: bool)
    ensures
        r == (abs(a - b) <= tolerance),
{
    let d = a as i64 - b as i64;
    -(tolerance as i64) <= d && d <= tolerance as i64
}

/// The larger of two numbers.
pub fn larger(a: i32, b: i32) -> (r: i32)
    ensures
        r == max(a as int, b as int),
{
    if a >= b {
        a
    } else {
        b
    }
}

/// How many fixed-point steps make up one logical pixel.
pub const FIXED_ONE: i64 = 0x1_0000;

/// A position reported by an input device, in steps of 1/65536 of a logical
/// pixel.
#[derive(Debug, Clone, Copy, PartialEq, Eq, Structural)]
pub struct FixedPoint {
    pub x: i64,
    pub y: i64,
}

impl FixedPoint {
    /// The position of the corner of pixel `x`, `y`.
    pub fn from_pixels(x: i32, y: i32) -> (r: Self)
        ensures
            r == Self::at_pixel(Point { x, y }),
    {
        FixedPoint { x: x as i64 * FIXED_ONE, y: y as i64 * FIXED_ONE }
    }

    /// The position `by` pixels further.
    pub open spec fn moved(self, by: Point) -> FixedPoint {
        FixedPoint {
            x: sat64(self.x + by.x * FIXED_ONE) as i64,
            y: sat64(self.y + by.y * FIXED_ONE) as i64,
        }
    }

    /// The position `by` pixels further.
    pub fn plus(self, by: Point) -> (r: Self)
        ensures
            r == self.moved(by),
    {
        let x = by.x as i64 * FIXED_ONE;
        let y = by.y as i64 * FIXED_ONE;
        FixedPoint {
            x: saturate64(self.x as i128 + x as i128),
            y: saturate64(self.y as i128 + y as i128),
        }
    }

    /// The pixel nearest to `origin` moved along with the pointer from `start`
    /// to here.
    #[verifier::opaque]
    pub open spec fn dragged_from(self, start: FixedPoint, origin: Point) -> Point {
        Point {
            x: sat32(round_ratio(origin.x * FIXED_ONE + (self.x - start.x), FIXED_ONE as int)) as i32,
            y: sat32(round_ratio(origin.y * FIXED_ONE + (self.y - start.y), FIXED_ONE as int)) as i32,
        }
    }

    /// The pixel nearest to `origin` moved along with the pointer from `start`
    /// to here.
    pub fn drag_from(self, start: FixedPoint, origin: Point) -> (r: Point)
        ensures
            r == self.dragged_from(start, origin),
    {
        reveal(FixedPoint::dragged_from);
        let one = FIXED_ONE as i128;
        let x = origin.x as i128 * one + (self.x as i128 - start.x as i128);
        let y = origin.y as i128 * one + (self.y as i128 - start.y as i128);
        Point { x: saturate(rounded_ratio(x, one)), y: saturate(rounded_ratio(y, one)) }
    }

    /// The pixel that `origin` moves to when the pointer moved from `start` to
    /// here by so many whole pixels.
    #[verifier::opaque]
    pub open spec fn stepped_from(self, start: FixedPoint, origin: Point) -> Point {
        origin.moved(
            Point {
                x: sat32(round_ratio(self.x - start.x, FIXED_ONE as int)) as i32,
                y: sat32(round_ratio(self.y - start.y, FIXED_ONE as int)) as i32,
            },
        )
    }

    /// The pixel that `origin` moves to when the pointer moved from `start` to
    /// here by so many whole pixels.
    pub fn step_from(self, start: FixedPoint, origin: Point) -> (r: Point)
        ensures
            r == self.stepped_from(start, origin),
    {
        reveal(FixedPoint::stepped_from);
        let one = FIXED_ONE as i128;
        origin.plus(
            Point {
                x: saturate(rounded_ratio(self.x as i128 - start.x as i128, one)),
                y: saturate(rounded_ratio(self.y as i128 - start.y as i128, one)),
            },
        )
    }

    /// The pixel that holds this position, counted towards the origin.
    #[verifier::opaque]
    pub open spec fn pixel(self) -> Point {
        Point {
            x: sat32(trunc_ratio(self.x as int, FIXED_ONE as int)) as i32,
            y: sat32(trunc_ratio(self.y as int, FIXED_ONE as int)) as i32,
        }
    }

    /// The pixel that holds this position, counted towards the origin.
    pub fn to_pixel(self) -> (r: Point)
        ensures
            r == self.pixel(),
    {
        reveal(FixedPoint::pixel);
        Point { x: truncated(self.x), y: truncated(self.y) }
    }

    /// The position of the corner of pixel `p`.
    pub open spec fn at_pixel(p: Point) -> FixedPoint {
        FixedPoint { x: (p.x * FIXED_ONE) as i64, y: (p.y * FIXED_ONE) as i64 }
    }
}

/// `v` limited to the range of an `i64`.
fn saturate64(v: i128) -> (r: i64)
    ensures
        r == sat64(v as int),
{
    if v < i64::MIN as i128 {
        i64::MIN
    } else if v > i64::MAX as i128 {
        i64::MAX
    } else {
        v as i64
    }
}

/// The whole pixels in a number of fixed-point steps.
fn truncated(v: i64) -> (r: i32)
    ensures
        r == sat32(trunc_ratio(v as int, FIXED_ONE as int)),
{
    let (v, one) = (v as i128, FIXED_ONE as i128);
    saturate(if v >= 0 { v / one } else { -((-v) / one) })
}

/// `num / den` rounded to the nearest integer, halves away from zero.
pub fn rounded_ratio(num: i128, den: i128) -> (r: i128)
    requires
        0 < den <= 0x1000_0000_0000_0000_0000_0000_0000_0000,
        -0x2000_0000_0000_0000_0000_0000_0000_0000 <= num
            <= 0x2000_0000_0000_0000_0000_0000_0000_0000,
    ensures
        r == round_ratio(num as int, den as int),
{
    if num >= 0 {
        (2 * num + den) / (2 * den)
    } else {
        -((2 * (-num) + den) / (2 * den))
    }
}

/// `v` limited to the range of an `i32`.
pub fn saturate(v: i128) -> (r: i32)
    ensures
        r == sat32(v as int),
{
    if v < i32::MIN as i128 {
        i32::MIN
    } else if v > i32::MAX as i128 {
        i32::MAX
    } else {
        v as i32
    }
}

/// The serial number of a protocol event. Serials count up and wrap around.
#[derive(Debug, Clone, Copy, PartialEq, Eq, Structural)]
pub struct Serial {
    pub value: u32,
}

impl Serial {
    /// Whether this serial was issued after `other`, or is `other`. Two serials
    /// less than half the range apart compare by value; further apart, the
    /// counter has wrapped around in between.
    pub open spec fn no_older_than(self, other: Serial) -> bool {
        if abs(self.value - other.value) < u32::MAX / 2 {
            self.value >= other.value
        } else {
            self.value <= other.value
        }
    }

    /// Whether this serial was issued after `other`, or is `other`.
    pub fn is_no_older_than(&self, other: Serial) -> (r: bool)
        ensures
            r == self.no_older_than(other),
    {
        let distance = if self.value > other.value {
            self.value - other.value
        } else {
            other.value - self.value
        };
        if distance < u32::MAX / 2 {
            self.value >= other.value
        } else {
            self.value <= other.value
        }
    }
}

/// Rounding a ratio that is a whole number gives that number.
pub proof fn lemma_round_exact(v: int, den: int)
    requires
        0 < den,
    ensures
        round_ratio(v * den, den) == v,
{
    if v * den >= 0 {
        assert((2 * (v * den) + den) / (2 * den) == v) by (nonlinear_arith)
            requires
                0 < den,
        ;
    } else {
        assert((2 * (-(v * den)) + den) / (2 * den) == -v) by (nonlinear_arith)
            requires
                0 < den,
        ;
    }
}

/// A ratio rounds to the same number when both of its parts are scaled.
pub proof fn lemma_round_scaled(num: int, den: int, k: int)
    requires
        0 < den,
        0 < k,
    ensures
        round_ratio(k * num, k * den) == round_ratio(num, den),
{
    assert(k * num >= 0 <==> num >= 0) by (nonlinear_arith)
        requires
            0 < k,
    ;
    let part = if num >= 0 { 2 * num + den } else { 2 * (-num) + den };
    let whole = 2 * den;
    assert(k * part == (if num >= 0 { 2 * (k * num) + k * den } else { 2 * (-(k * num)) + k * den }))
        by (nonlinear_arith)
        requires
            part == (if num >= 0 { 2 * num + den } else { 2 * (-num) + den }),
    ;
    assert(k * whole == 2 * (k * den)) by (nonlinear_arith)
        requires
            whole == 2 * den,
    ;
    vstd::arithmetic::div_mod::lemma_truncate_middle(part, whole, k);
    vstd::arithmetic::div_mod::lemma_div_multiples_vanish_quotient(k, part, whole);
}

/// A ratio that lies between two whole numbers rounds to a number between them.
pub proof fn lemma_round_between(at: int, den: int, lo: int, hi: int)
    requires
        0 < den,
        lo * den <= at <= hi * den,
    ensures
        lo <= round_ratio(at, den) <= hi,
{
    if at >= 0 {
        let q = (2 * at + den) / (2 * den);
        assert(2 * den * q <= 2 * at + den < 2 * den * (q + 1)) by (nonlinear_arith)
            requires
                0 < den,
                q == (2 * at + den) / (2 * den),
        ;
        assert(lo <= q <= hi) by (nonlinear_arith)
            requires
                0 < den,
                lo * den <= at <= hi * den,
                2 * den * q <= 2 * at + den < 2 * den * (q + 1),
        ;
    } else {
        let q = (2 * (-at) + den) / (2 * den);
        assert(2 * den * q <= 2 * (-at) + den < 2 * den * (q + 1)) by (nonlinear_arith)
            requires
                0 < den,
                q == (2 * (-at) + den) / (2 * den),
        ;
        assert(lo <= -q <= hi) by (nonlinear_arith)
            requires
                0 < den,
                lo * den <= at <= hi * den,
                2 * den * q <= 2 * (-at) + den < 2 * den * (q + 1),
        ;
    }
}

/// A rounded ratio is at most half a unit away from the ratio.
pub proof fn lemma_round_near(at: int, den: int)
    requires
        0 < den,
    ensures
        abs(2 * (at - round_ratio(at, den) * den)) <= den,
{
    if at >= 0 {
        let q = (2 * at + den) / (2 * den);
        assert(abs(2 * (at - q * den)) <= den) by (nonlinear_arith)
            requires
                0 < den,
                q == (2 * at + den) / (2 * den),
        ;
    } else {
        let q = (2 * (-at) + den) / (2 * den);
        assert(abs(2 * (at - (-q) * den)) <= den) by (nonlinear_arith)
            requires
                0 < den,
                q == (2 * (-at) + den) / (2 * den),
        ;
    }
}

} // verus!
