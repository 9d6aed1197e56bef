//! Window titles: when they are drawn anew, and how the pixels of their glyphs
//! become a premultiplied RGBA buffer for the SSD titlebar.
//!
//! Laying a title out takes fonts, so the program does that. It is only asked to
//! when a title or its available width actually changes (see [`TitleCache`]).

use vstd::prelude::*;

use crate::render::Icon;
use crate::ssd::{BUTTON_WIDTH, TITLE_PADDING};
use crate::strings::{chars_of, same_text, text_of};
use crate::utils::{larger, Size};

verus! {

use crate::utils::{clamp, max};

/// The title of a window as it was last laid out.
#[derive(Debug)]
pub struct TitleCache {
    /// The window title, cached so it is only re-rasterized when it or the
    /// available width changes.
    pub title: String,
    /// Logical width of the rasterized title; `0` means there is nothing to
    /// draw.
    pub title_width: i32,
    /// The width the title was last laid out for, to detect relayouts.
    pub title_max_width: i32,
}

/// The width that a titlebar of `width` has for its title: what the three
/// buttons and the padding leave.
pub open spec fn title_room(width: int) -> int {
    max(width - 3 * BUTTON_WIDTH - 2 * TITLE_PADDING, 0)
}

impl TitleCache {
    /// No title was laid out yet.
    pub fn new() -> (r: Self)
        ensures
            r.title@ == Seq::<char>::empty(),
            r.title_width == 0,
            r.title_max_width == -1,
    {
        let title = String::new();
        assert(title@ =~= Seq::<char>::empty());
        TitleCache { title, title_width: 0, title_max_width: -1 }
    }

    /// Whether a titlebar of `width` needs the title laid out anew. A bar without
    /// any width needs none, and without a title the one it has is kept.
    pub open spec fn outdated(self, width: u32, title: Option<&str>) -> bool {
        width > 0 && match title {
            Some(title) => title@ != self.title@ || title_room(width as int) != self.title_max_width,
            None => false,
        }
    }

    /// Take note of the title that a titlebar of `width` shows. Returns the width
    /// to lay it out in, if that has to be done anew.
    pub fn update(&mut self, width: u32, title: Option<&str>) -> (r: Option<i32>)
        requires
            width <= i32::MAX,
        ensures
            r == (if old(self).outdated(width, title) {
                Some(title_room(width as int) as i32)
            } else {
                None::<i32>
            }),
            r is Some ==> {
                &&& final(self).title@ == title->0@
                &&& final(self).title_max_width == r->0
                &&& final(self).title_width == old(self).title_width
            },
            r is None ==> *final(self) == *old(self),
    {
        if width == 0 {
            return None;
        }
        let room = larger(width as i32 - BUTTON_WIDTH as i32 * 3 - 2 * TITLE_PADDING, 0);
        if let Some(title) = title {
            if !same_text(title, self.title.as_str()) || room != self.title_max_width {
                self.title = text_of(&chars_of(title));
                self.title_max_width = room;
                return Some(room);
            }
        }
        None
    }

    /// The title was laid out, if there was anything to draw.
    pub fn drawn(&mut self, size: Option<Size>)
        ensures
            final(self).title@ == old(self).title@,
            final(self).title_max_width == old(self).title_max_width,
            final(self).title_width == (match size {
                Some(size) => size.w,
                None => 0,
            }),
    {
        self.title_width =
        match size {
            Some(size) => size.w,
            None => 0,
        };
    }
}

/// A title that was laid out is not laid out again until it or its width
/// changes.
pub proof fn titles_are_laid_out_once(cache: TitleCache, width: u32, title: &str)
    requires
        cache.title@ == title@,
        cache.title_max_width == title_room(width as int),
    ensures
        !cache.outdated(width, Some(title)),
{
}

/// What a glyph covers of a rectangle of pixels.
#[derive(Debug, Clone, Copy, PartialEq, Eq, Structural)]
pub struct GlyphPixel {
    pub x: i32,
    pub y: i32,
    pub w: u32,
    pub h: u32,
    /// How much is covered, out of 255.
    pub coverage: u8,
}

/// A picture of premultiplied RGBA pixels, row by row.
#[derive(Debug)]
pub struct Canvas {
    pub width: i32,
    pub height: i32,
    pub pixels: Vec<u8>,
}

/// A channel of the base color, scaled by the coverage, over what is there.
pub open spec fn over(base: int, coverage: int, below: int) -> int {
    base * coverage / 255 + below * (255 - coverage) / 255
}

/// The channel at `i` of a pixel after a glyph was drawn over it; the last
/// channel is the alpha.
pub open spec fn channel(base: (u8, u8, u8), i: int) -> int {
    if i == 0 {
        base.0 as int
    } else if i == 1 {
        base.1 as int
    } else if i == 2 {
        base.2 as int
    } else {
        255
    }
}

impl Canvas {
    /// Whether there is a pixel for every place.
    pub open spec fn wf(self) -> bool {
        &&& self.width > 0 && self.height > 0
        &&& self.width * self.height * 4 <= i32::MAX
        &&& self.pixels@.len() == self.width * self.height * 4
    }

    /// Whether a glyph's pixel falls on the canvas.
    pub open spec fn shows(self, pixel: GlyphPixel) -> bool {
        &&& pixel.w == 1 && pixel.h == 1 && pixel.coverage > 0
        &&& 0 <= pixel.x < self.width
        &&& 0 <= pixel.y < self.height
    }

    /// Where the channels of the pixel at `x`, `y` begin.
    pub open spec fn offset(self, x: int, y: int) -> int {
        (y * self.width + x) * 4
    }

    /// The pixels after a glyph's pixel was drawn in the color `base`.
    pub open spec fn drawn(self, pixel: GlyphPixel, base: (u8, u8, u8)) -> Seq<u8> {
        if self.shows(pixel) {
            let start = self.offset(pixel.x as int, pixel.y as int);
            Seq::new(
                self.pixels@.len(),
                |i: int|
                    if start <= i < start + 4 {
                        over(
                            channel(base, i - start),
                            pixel.coverage as int,
                            self.pixels@[i] as int,
                        ) as u8
                    } else {
                        self.pixels@[i]
                    },
            )
        } else {
            self.pixels@
        }
    }

    /// A transparent canvas.
    pub fn new(width: i32, height: i32) -> (r: Self)
        requires
            width > 0,
            height > 0,
            width * height * 4 <= i32::MAX,
        ensures
            r.wf(),
            r.width == width,
            r.height == height,
            forall|i: int| 0 <= i < r.pixels@.len() ==> #[trigger] r.pixels@[i] == 0,
    {
        let n = width as i64 * height as i64 * 4;
        let mut pixels: Vec<u8> = Vec::new();
        let mut i: i64 = 0;
        while i < n
            invariant
                0 <= i <= n,
                n == width * height * 4,
                pixels.len() == i,
                forall|k: int| 0 <= k < i ==> #[trigger] pixels@[k] == 0,
            decreases n - i,
        {
            pixels.push(0);
            i += 1;
        }
        Canvas { width, height, pixels }
    }

    /// Draw a glyph's pixel in the color `base`, over what is there in case
    /// glyphs overlap. The renderer blends with premultiplied alpha, so the base
    /// color is scaled by the glyph's coverage.
    pub fn draw(&mut self, pixel: GlyphPixel, base: (u8, u8, u8))
        requires
            old(self).wf(),
        ensures
            final(self).wf(),
            final(self).width == old(self).width,
            final(self).height == old(self).height,
            final(self).pixels@ == old(self).drawn(pixel, base),
    {
        let (x, y) = (pixel.x, pixel.y);
        if pixel.w != 1 || pixel.h != 1 || x < 0 || y < 0 || x >= self.width || y >= self.height {
            return;
        }
        if pixel.coverage == 0 {
            return;
        }
        proof {
            let (w, h) = (self.width as int, self.height as int);
            assert(0 <= y * w && y * w + w <= w * h) by (nonlinear_arith)
                requires
                    0 <= y < h,
                    0 < w,
            ;
        }
        let start = ((y as i64 * self.width as i64 + x as i64) * 4) as usize;
        let r = blend(base.0, pixel.coverage, self.pixels[start]);
        let g = blend(base.1, pixel.coverage, self.pixels[start + 1]);
        let b = blend(base.2, pixel.coverage, self.pixels[start + 2]);
        let a = blend(255, pixel.coverage, self.pixels[start + 3]);
        self.pixels.set(start, r);
        self.pixels.set(start + 1, g);
        self.pixels.set(start + 2, b);
        self.pixels.set(start + 3, a);
        assert(self.pixels@ =~= old(self).drawn(pixel, base));
    }
}

/// A channel of the base color, scaled by the coverage, over what is there.
fn blend(base: u8, coverage: u8, below: u8) -> (r: u8)
    ensures
        r == over(base as int, coverage as int, below as int),
{
    let (b, c, p) = (base as u32, coverage as u32, below as u32);
    assert(b * c <= 255 * c && p * (255 - c) <= 255 * (255 - c)) by (nonlinear_arith)
        requires
            0 <= b <= 255,
            0 <= c <= 255,
            0 <= p <= 255,
    ;
    assert(b * c / 255 <= c);
    assert(p * (255 - c) / 255 <= 255 - c);
    (b * c / 255 + p * (255 - c) / 255) as u8
}

/// The pixels after each of `glyphs`, from `i` on, was drawn.
pub open spec fn painted(
    canvas: Seq<u8>,
    width: i32,
    height: i32,
    glyphs: Seq<GlyphPixel>,
    i: int,
    base: (u8, u8, u8),
) -> Seq<u8>
    decreases glyphs.len() - i,
{
    if i < 0 || i >= glyphs.len() {
        canvas
    } else {
        painted(pixel_over(canvas, width, height, glyphs[i], base), width, height, glyphs, i + 1, base)
    }
}

/// The pixels of a canvas after one of a glyph was drawn.
pub open spec fn pixel_over(
    canvas: Seq<u8>,
    width: i32,
    height: i32,
    pixel: GlyphPixel,
    base: (u8, u8, u8),
) -> Seq<u8> {
    let start = (pixel.y * width + pixel.x) * 4;
    let shown = pixel.w == 1 && pixel.h == 1 && pixel.coverage > 0 && 0 <= pixel.x < width && 0
        <= pixel.y < height;
    if shown {
        Seq::new(
            canvas.len(),
            |i: int|
                if start <= i < start + 4 {
                    over(channel(base, i - start), pixel.coverage as int, canvas[i] as int) as u8
                } else {
                    canvas[i]
                },
        )
    } else {
        canvas
    }
}

/// Whether there is anything to draw of a title.
pub open spec fn is_drawable(text: Seq<char>, max_width: int, height: int) -> bool {
    text.len() > 0 && max_width > 0 && height > 0
}

/// The width of a title that is `line_width` wide, within `max_width`.
pub open spec fn title_width(line_width: int, max_width: int) -> int {
    clamp(line_width, 1, max_width)
}

/// Rasterize `text` into a premultiplied RGBA buffer of at most `max_width`
/// logical pixels wide and `height` tall. `line_width` is the width of the
/// shaped line, which is truncated with an ellipsis when it does not fit, and
/// `glyphs` are its pixels. Returns `None` when there is nothing to draw.
pub fn rasterize(
    text: &str,
    max_width: i32,
    height: i32,
    base: (u8, u8, u8),
    line_width: i32,
    glyphs: &Vec<GlyphPixel>,
) -> (r: Option<(Canvas, Size)>)
    requires
        is_drawable(text@, max_width as int, height as int) ==> title_width(
            line_width as int,
            max_width as int,
        ) * height * 4 <= i32::MAX,
    ensures
        r is Some <==> is_drawable(text@, max_width as int, height as int),
        r is Some ==> {
            let (canvas, size) = r->0;
            let width = title_width(line_width as int, max_width as int);
            &&& size.w == width && size.h == height
            &&& canvas.width == width && canvas.height == height
            &&& canvas.wf()
            &&& canvas.pixels@ == painted(
                Seq::new((width * height * 4) as nat, |i: int| 0u8),
                canvas.width,
                height,
                glyphs@,
                0,
                base,
            )
        },
{
    let chars = chars_of(text);
    if chars.len() == 0 || max_width <= 0 || height <= 0 {
        return None;
    }
    // Size the output to the shaped line so we don't allocate a full-width
    // buffer for a short title.
    let width = crate::snap::clamped(line_width, 1, max_width);
    let mut canvas = Canvas::new(width, height);
    let ghost clear = Seq::new((width * height * 4) as nat, |i: int| 0u8);
    assert(canvas.pixels@ =~= clear);
    let mut i: usize = 0;
    while i < glyphs.len()
        invariant
            i <= glyphs.len(),
            canvas.wf(),
            canvas.width == width,
            canvas.height == height,
            painted(canvas.pixels@, width, height, glyphs@, i as int, base) == painted(
                clear,
                width,
                height,
                glyphs@,
                0,
                base,
            ),
        decreases glyphs.len() - i,
    {
        assert(canvas.drawn(glyphs@[i as int], base) =~= pixel_over(
            canvas.pixels@,
            width,
            height,
            glyphs@[i as int],
            base,
        ));
        canvas.draw(glyphs[i], base);
        i += 1;
    }
    Some((canvas, Size { w: width, h: height }))
}

/// A title never takes more room than it has, and always takes some.
pub proof fn titles_fit_their_room(line_width: int, max_width: int)
    requires
        max_width > 0,
    ensures
        1 <= title_width(line_width, max_width) <= max_width,
{
}

/// The bits of an icon, 10 rows of two bytes, the leftmost pixel lowest.
pub fn icon_pattern(icon: Icon) -> (r: [u8; 20])
    ensures
        r@ == pattern_of(icon),
{
    let pattern: [u8; 20] = match icon {
        Icon::Close => [
            0x03, 0xFF, 0x87, 0xFF, 0xCE, 0xFD, 0xFC, 0xFC, 0x78, 0xFC, 0x78, 0xFC, 0xFC, 0xFC,
            0xCE, 0xFD, 0x87, 0xFF, 0x03, 0xFF,
        ],
        Icon::Maximize => [
            0xFF, 0x03, 0xFF, 0x03, 0x03, 0x03, 0x03, 0x03, 0x03, 0x03, 0x03, 0x03, 0x03, 0x03,
            0x03, 0x03, 0xFF, 0x03, 0xFF, 0x03,
        ],
        Icon::Minimize => [
            0x00, 0x00, 0x00, 0x00, 0x00, 0x00, 0x00, 0x00, 0x00, 0x00, 0x00, 0x00, 0x00, 0x00,
            0x00, 0x00, 0xFF, 0x03, 0xFF, 0x03,
        ],
        Icon::Restore => [
            0xFC, 0xFF, 0xFC, 0xFF, 0xFF, 0xFF, 0xFF, 0xFF, 0xC3, 0xFF, 0xC3, 0xFF, 0xC3, 0xFF,
            0xC3, 0xFF, 0xFF, 0xFC, 0xFF, 0xFC,
        ],
    };
    assert(pattern@ =~= pattern_of(icon));
    pattern
}

/// The bits of an icon.
pub open spec fn pattern_of(icon: Icon) -> Seq<u8> {
    match icon {
        Icon::Close => seq![
            0x03, 0xFF, 0x87, 0xFF, 0xCE, 0xFD, 0xFC, 0xFC, 0x78, 0xFC, 0x78, 0xFC, 0xFC, 0xFC,
            0xCE, 0xFD, 0x87, 0xFF, 0x03, 0xFF,
        ],
        Icon::Maximize => seq![
            0xFF, 0x03, 0xFF, 0x03, 0x03, 0x03, 0x03, 0x03, 0x03, 0x03, 0x03, 0x03, 0x03, 0x03,
            0x03, 0x03, 0xFF, 0x03, 0xFF, 0x03,
        ],
        Icon::Minimize => seq![
            0x00, 0x00, 0x00, 0x00, 0x00, 0x00, 0x00, 0x00, 0x00, 0x00, 0x00, 0x00, 0x00, 0x00,
            0x00, 0x00, 0xFF, 0x03, 0xFF, 0x03,
        ],
        Icon::Restore => seq![
            0xFC, 0xFF, 0xFC, 0xFF, 0xFF, 0xFF, 0xFF, 0xFF, 0xC3, 0xFF, 0xC3, 0xFF, 0xC3, 0xFF,
            0xC3, 0xFF, 0xFF, 0xFC, 0xFF, 0xFC,
        ],
    }
}

/// Two to the power of `n`.
pub open spec fn power(n: int) -> int
    decreases n,
{
    if n <= 0 {
        1
    } else {
        2 * power(n - 1)
    }
}

/// The bit of a bitmap at `x`, `y`: each row starts with a new byte, and the
/// leftmost pixel of a byte is its lowest bit.
pub open spec fn bit_at(pattern: Seq<u8>, width: int, x: int, y: int) -> bool {
    pattern[y * ((width + 7) / 8) + x / 8] as int / power(x % 8) % 2 == 1
}

/// The channel `c` of the pixel at `x`, `y` of a bitmap in the color `color`: the
/// color where the bit is set, nothing where it is not.
pub open spec fn bitmap_channel(
    pattern: Seq<u8>,
    width: int,
    color: (u8, u8, u8),
    x: int,
    y: int,
    c: int,
) -> u8 {
    if bit_at(pattern, width, x, y) {
        channel(color, c) as u8
    } else {
        0
    }
}

/// The RGBA pixels of a bitmap in the color `color`.
pub fn xbm_icon(pattern: &[u8], width: u32, height: u32, color: (u8, u8, u8)) -> (r: Vec<u8>)
    requires
        pattern@.len() >= height * ((width + 7) / 8),
        width * height * 4 <= u32::MAX,
    ensures
        r@.len() == width * height * 4,
        forall|x: int, y: int, c: int|
            0 <= x < width && 0 <= y < height && 0 <= c < 4 ==> r@[#[trigger] rgba_index(
                width as int,
                x,
                y,
                c,
            )] == bitmap_channel(pattern@, width as int, color, x, y, c),
{
    let bytes_per_row = (width as u64 + 7) / 8;
    let mut rgba: Vec<u8> = Vec::new();
    let mut y: u32 = 0;
    while y < height
        invariant
            y <= height,
            bytes_per_row == (width + 7) / 8,
            pattern@.len() >= height * ((width + 7) / 8),
            width * height * 4 <= u32::MAX,
            rgba@.len() == y * width * 4,
            forall|px: int, py: int, c: int|
                0 <= px < width && 0 <= py < y && 0 <= c < 4 ==> rgba@[#[trigger] rgba_index(
                    width as int,
                    px,
                    py,
                    c,
                )] == bitmap_channel(pattern@, width as int, color, px, py, c),
        decreases height - y,
    {
        let mut x: u32 = 0;
        while x < width
            invariant
                x <= width,
                y < height,
                bytes_per_row == (width + 7) / 8,
                pattern@.len() >= height * ((width + 7) / 8),
                width * height * 4 <= u32::MAX,
                rgba@.len() == y * width * 4 + x * 4,
                forall|px: int, py: int, c: int|
                    0 <= px < width && 0 <= py < y && 0 <= c < 4 ==> rgba@[#[trigger] rgba_index(
                        width as int,
                        px,
                        py,
                        c,
                    )] == bitmap_channel(pattern@, width as int, color, px, py, c),
                forall|px: int, c: int|
                    0 <= px < x && 0 <= c < 4 ==> rgba@[#[trigger] rgba_index(
                        width as int,
                        px,
                        y as int,
                        c,
                    )] == bitmap_channel(pattern@, width as int, color, px, y as int, c),
            decreases width - x,
        {
            proof {
                lemma_in_pattern(width as int, height as int, x as int, y as int);
                lemma_rows_apart(width as int, x as int, y as int);
            }
            let index = (y as u64 * bytes_per_row + x as u64 / 8) as usize;
            let bit = nth_bit(pattern[index], x % 8);
            let ghost before = rgba@;
            if bit {
                rgba.push(color.0);
                rgba.push(color.1);
                rgba.push(color.2);
                rgba.push(255);
            } else {
                rgba.push(0);
                rgba.push(0);
                rgba.push(0);
                rgba.push(0);
            }
            assert(forall|i: int| 0 <= i < before.len() ==> rgba@[i] == before[i]);
            x += 1;
        }
        y += 1;
        proof {
            let (w, yy) = (width as int, y as int);
            assert((yy - 1) * w * 4 + w * 4 == yy * w * 4) by (nonlinear_arith);
        }
    }
    assert(height * width * 4 == width * height * 4) by (nonlinear_arith);
    rgba
}

/// Where the channel `c` of the pixel at `x`, `y` is.
pub open spec fn rgba_index(width: int, x: int, y: int, c: int) -> int {
    (y * width + x) * 4 + c
}

/// The bit `n` of a byte.
fn nth_bit(byte: u8, n: u32) -> (r: bool)
    requires
        n < 8,
    ensures
        r == (byte as int / power(n as int) % 2 == 1),
{
    let mut rest = byte;
    let mut i: u32 = 0;
    while i < n
        invariant
            i <= n,
            n < 8,
            rest == byte as int / power(i as int),
        decreases n - i,
    {
        proof {
            lemma_power_positive(i as int);
            let p = power(i as int);
            assert(byte as int / (2 * p) == byte as int / p / 2) by (nonlinear_arith)
                requires
                    p > 0,
                    byte as int >= 0,
            ;
        }
        rest = rest / 2;
        i += 1;
    }
    rest % 2 == 1
}

proof fn lemma_power_positive(n: int)
    ensures
        power(n) > 0,
    decreases n,
{
    if n > 0 {
        lemma_power_positive(n - 1);
    }
}

proof fn lemma_in_pattern(width: int, height: int, x: int, y: int)
    requires
        0 <= x < width,
        0 <= y < height,
        width * height * 4 <= u32::MAX,
        width <= u32::MAX,
        height <= u32::MAX,
    ensures
        0 <= y * ((width + 7) / 8) + x / 8 < height * ((width + 7) / 8),
        0 <= y * ((width + 7) / 8) <= u64::MAX - 0x1_0000_0000,
{
    let row = (width + 7) / 8;
    assert(x / 8 < row);
    assert(y * row + row <= height * row) by (nonlinear_arith)
        requires
            0 <= y < height,
            0 <= row,
    ;
    assert(row <= width);
    assert(y * row <= width * height) by (nonlinear_arith)
        requires
            0 <= y < height,
            0 <= row <= width,
    ;
    assert(0 <= y * row) by (nonlinear_arith)
        requires
            0 <= y,
            0 <= row,
    ;
}

/// The pixels before the one at `x`, `y` have their channels before its.
proof fn lemma_rows_apart(width: int, x: int, y: int)
    requires
        0 <= x < width,
        0 <= y,
    ensures
        y * width * 4 + x * 4 == rgba_index(width, x, y, 0),
        forall|px: int, py: int, c: int|
            0 <= px < width && 0 <= py < y && 0 <= c < 4 ==> 0 <= #[trigger] rgba_index(
                width,
                px,
                py,
                c,
            ) < y * width * 4,
{
    assert(y * width * 4 + x * 4 == (y * width + x) * 4) by (nonlinear_arith);
    assert forall|px: int, py: int, c: int|
        0 <= px < width && 0 <= py < y && 0 <= c < 4 implies 0 <= #[trigger] rgba_index(
        width,
        px,
        py,
        c,
    ) < y * width * 4 by {
        assert(0 <= (py * width + px) * 4 + c < y * width * 4) by (nonlinear_arith)
            requires
                0 <= px < width,
                0 <= py < y,
                0 <= c < 4,
        ;
    }
}

} // verus!
