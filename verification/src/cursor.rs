//! Cursor images: choosing one for a size and a moment.

use vstd::prelude::*;

use crate::strings::{chars_of, push_text, text_of};

verus! {

/// An image of a cursor.
#[derive(Debug)]
pub struct Image {
    /// The nominal size of the image.
    pub size: u32,
    pub width: u32,
    pub height: u32,
    /// The pixel where the tip of the arrow is.
    pub xhot: u32,
    pub yhot: u32,
    /// How long the image is shown in an animation, in milliseconds.
    pub delay: u32,
    pub pixels_rgba: Vec<u8>,
    pub pixels_argb: Vec<u8>,
}

/// An image of a cursor, with its pixels as a sequence.
#[verifier::ext_equal]
pub struct Picture {
    pub size: u32,
    pub width: u32,
    pub height: u32,
    pub xhot: u32,
    pub yhot: u32,
    pub delay: u32,
    pub pixels_rgba: Seq<u8>,
    pub pixels_argb: Seq<u8>,
}

impl View for Image {
    type V = Picture;

    open spec fn view(&self) -> Picture {
        Picture {
            size: self.size,
            width: self.width,
            height: self.height,
            xhot: self.xhot,
            yhot: self.yhot,
            delay: self.delay,
            pixels_rgba: self.pixels_rgba@,
            pixels_argb: self.pixels_argb@,
        }
    }
}

/// Several images, with their pixels as sequences.
pub open spec fn pictures(images: Seq<Image>) -> Seq<Picture> {
    Seq::new(images.len(), |i: int| images[i]@)
}

/// Whether an image has the pixels its dimensions call for, and its hotspot
/// within them.
pub open spec fn is_sound(picture: Picture) -> bool {
    &&& 1 <= picture.width <= 0x7fff && 1 <= picture.height <= 0x7fff
    &&& picture.xhot <= picture.width && picture.yhot <= picture.height
    &&& picture.pixels_rgba.len() == 4 * picture.width * picture.height
    &&& picture.pixels_argb.len() == 4 * picture.width * picture.height
}

/// Whether every image is sound.
pub open spec fn all_sound(images: Seq<Picture>) -> bool {
    forall|i: int| 0 <= i < images.len() ==> is_sound(#[trigger] images[i])
}

/// The images in an XCursor file, if it is one.
pub uninterp spec fn xcursor_images(content: Seq<u8>) -> Option<Seq<Picture>>;

/// `xcursor::parser::parse_xcursor`: the images of an XCursor file, in the order
/// of its table of contents, or nothing if the file is malformed. Every image it
/// hands out is sound. How the file is laid out is left unsaid.
#[verifier::external_body]
fn parse_xcursor(content: &Vec<u8>) -> (r: Option<Vec<Image>>)
    ensures
        match (r, xcursor_images(content@)) {
            (Some(images), Some(held)) => pictures(images@) == held,
            (None, None) => true,
            _ => false,
        },
        r is Some ==> all_sound(pictures(r->0@)),
{
    let convert = |i: xcursor::parser::Image| Image {
        size: i.size,
        width: i.width,
        height: i.height,
        xhot: i.xhot,
        yhot: i.yhot,
        delay: i.delay,
        pixels_rgba: i.pixels_rgba,
        pixels_argb: i.pixels_argb,
    };
    xcursor::parser::parse_xcursor(content).map(|images| images.into_iter().map(convert).collect())
}

/// Why a cursor could not be loaded.
#[derive(Debug)]
pub enum CursorError {
    /// The theme has no matching cursor.
    NoCursor,
    /// The file cannot be opened or read, for this reason.
    File(String),
    /// The file is no XCursor file.
    Parse,
}

impl CursorError {
    /// What to tell the user.
    pub fn message(&self) -> (r: String)
        ensures
            r@ == (match self {
                CursorError::NoCursor => "Theme has no matching cursor"@,
                CursorError::File(reason) => "Error opening xcursor file: "@ + reason@,
                CursorError::Parse => "Failed to parse XCursor file"@,
            }),
    {
        match self {
            CursorError::NoCursor => text_of(&chars_of("Theme has no matching cursor")),
            CursorError::File(reason) => {
                let mut message = String::new();
                push_text(&mut message, "Error opening xcursor file: ");
                assert(message@ =~= "Error opening xcursor file: "@);
                push_text(&mut message, reason.as_str());
                message
            },
            CursorError::Parse => text_of(&chars_of("Failed to parse XCursor file")),
        }
    }
}

/// What became of looking a cursor up in its theme.
#[derive(Debug)]
pub enum CursorFile {
    /// The theme has no such cursor.
    Missing,
    /// Its file cannot be opened or read, for this reason.
    Unreadable(String),
    Contents(Vec<u8>),
}

/// The images in a cursor file, if it is one that can be read.
pub open spec fn loaded(file: CursorFile) -> Option<Seq<Picture>> {
    match file {
        CursorFile::Contents(bytes) => xcursor_images(bytes@),
        _ => None,
    }
}

/// The images in a cursor file, or why there are none.
pub fn load_named(file: &CursorFile) -> (r: Result<Vec<Image>, CursorError>)
    ensures
        match r {
            Ok(images) => Some(pictures(images@)) == loaded(*file) && all_sound(pictures(images@)),
            Err(error) => loaded(*file) is None && match file {
                CursorFile::Missing => error is NoCursor,
                CursorFile::Unreadable(reason) => error is File && error->File_0@ == reason@,
                CursorFile::Contents(_) => error is Parse,
            },
        },
{
    match file {
        CursorFile::Missing => Err(CursorError::NoCursor),
        CursorFile::Unreadable(reason) => Err(
            CursorError::File(text_of(&chars_of(reason.as_str()))),
        ),
        CursorFile::Contents(bytes) => match parse_xcursor(bytes) {
            Some(images) => Ok(images),
            None => Err(CursorError::Parse),
        },
    }
}

/// The images of the first of `files`, from `i` on, that is a cursor.
pub open spec fn first_loaded(files: Seq<CursorFile>, i: int) -> Option<Seq<Picture>>
    decreases files.len() - i,
{
    if i < 0 || i >= files.len() {
        None
    } else {
        match loaded(files[i]) {
            Some(images) => Some(images),
            None => first_loaded(files, i + 1),
        }
    }
}

/// Load the icon for a shape, from the files of its candidate names: the
/// standard name first, then the legacy Xcursor aliases used by older themes,
/// and as a last resort whatever the theme considers a default cursor.
pub fn load_icon_for(files: &Vec<CursorFile>) -> (r: Option<Vec<Image>>)
    ensures
        match (r, first_loaded(files@, 0)) {
            (Some(images), Some(held)) => pictures(images@) == held && all_sound(held),
            (None, None) => true,
            _ => false,
        },
{
    let mut i: usize = 0;
    while i < files.len()
        invariant
            i <= files.len(),
            first_loaded(files@, 0) == first_loaded(files@, i as int),
        decreases files.len() - i,
    {
        if let Ok(images) = load_named(&files[i]) {
            return Some(images);
        }
        i += 1;
    }
    None
}

/// How far apart two nominal sizes are. Sizes are compared as signed numbers.
pub open spec fn size_distance(a: u32, b: u32) -> int {
    crate::utils::abs(crate::x11::signed(a) - crate::x11::signed(b))
}

fn distance(a: u32, b: u32) -> (r: i64)
    ensures
        r == size_distance(a, b),
{
    let a: i64 = if a <= 0x7fff_ffff { a as i64 } else { a as i64 - 0x1_0000_0000 };
    let b: i64 = if b <= 0x7fff_ffff { b as i64 } else { b as i64 - 0x1_0000_0000 };
    if a >= b {
        a - b
    } else {
        b - a
    }
}

/// Whether the image at `k` is the first of those whose nominal size is nearest
/// to `size`.
pub open spec fn is_nearest(size: u32, images: Seq<Image>, k: int) -> bool {
    &&& 0 <= k < images.len()
    &&& forall|i: int|
        0 <= i < images.len() ==> size_distance(size, images[k].size) <= size_distance(
            size,
            (#[trigger] images[i]).size,
        )
    &&& forall|i: int|
        0 <= i < k ==> size_distance(size, images[k].size) < size_distance(
            size,
            (#[trigger] images[i]).size,
        )
}

/// The indices of the images, from `i` on, with the dimensions of the one at
/// `k`.
pub open spec fn same_dimensions(images: Seq<Image>, k: int, i: int) -> Seq<int>
    decreases images.len() - i,
{
    if i < 0 || i >= images.len() {
        Seq::empty()
    } else if images[i].width == images[k].width && images[i].height == images[k].height {
        seq![i] + same_dimensions(images, k, i + 1)
    } else {
        same_dimensions(images, k, i + 1)
    }
}

/// Numbers as indices.
pub open spec fn indices(list: Seq<usize>) -> Seq<int> {
    Seq::new(list.len(), |i: int| list[i] as int)
}

/// The images that are nearest to `size`: those with the dimensions of the first
/// one whose nominal size is nearest. An empty theme has none.
pub fn nearest_images(size: u32, images: &Vec<Image>) -> (r: Vec<usize>)
    ensures
        images@.len() == 0 ==> r@.len() == 0,
        images@.len() > 0 ==> exists|k: int|
            #![trigger is_nearest(size, images@, k)]
            is_nearest(size, images@, k) && indices(r@) == same_dimensions(images@, k, 0),
{
    let mut list: Vec<usize> = Vec::new();
    if images.len() == 0 {
        return list;
    }
    let mut k: usize = 0;
    let mut i: usize = 1;
    while i < images.len()
        invariant
            1 <= i <= images.len(),
            k < i,
            forall|j: int|
                0 <= j < i ==> size_distance(size, images@[k as int].size) <= size_distance(
                    size,
                    (#[trigger] images@[j]).size,
                ),
            forall|j: int|
                0 <= j < k ==> size_distance(size, images@[k as int].size) < size_distance(
                    size,
                    (#[trigger] images@[j]).size,
                ),
        decreases images.len() - i,
    {
        if distance(size, images[i].size) < distance(size, images[k].size) {
            k = i;
        }
        i += 1;
    }
    assert(is_nearest(size, images@, k as int));
    let mut j: usize = 0;
    assert(indices(list@) + same_dimensions(images@, k as int, 0) =~= same_dimensions(
        images@,
        k as int,
        0,
    ));
    while j < images.len()
        invariant
            j <= images.len(),
            k < images.len(),
            indices(list@) + same_dimensions(images@, k as int, j as int) == same_dimensions(
                images@,
                k as int,
                0,
            ),
        decreases images.len() - j,
    {
        if images[j].width == images[k].width && images[j].height == images[k].height {
            proof {
                let rest = same_dimensions(images@, k as int, j + 1);
                assert(indices(list@.push(j)) =~= indices(list@).push(j as int));
                assert(indices(list@) + (seq![j as int] + rest) =~= indices(list@).push(j as int)
                    + rest);
            }
            list.push(j);
        }
        j += 1;
    }
    assert(indices(list@) + Seq::<int>::empty() =~= indices(list@));
    list
}

/// A number, or the largest 32-bit number if it is larger than that.
pub open spec fn sat_u32(v: int) -> int {
    if v > u32::MAX {
        u32::MAX as int
    } else {
        v
    }
}

/// The length of an animation of the images `list`, in milliseconds.
pub open spec fn total_delay(images: Seq<Image>, list: Seq<int>) -> int
    decreases list.len(),
{
    if list.len() == 0 {
        0
    } else {
        sat_u32(total_delay(images, list.drop_last()) + images[list.last()].delay)
    }
}

/// The image of `list`, from `i` on, that an animation shows after `millis`
/// milliseconds; the first where it is over.
pub open spec fn shown_after(images: Seq<Image>, list: Seq<int>, i: int, millis: int) -> int
    decreases list.len() - i,
{
    if i < 0 || i >= list.len() {
        list[0]
    } else if millis < images[list[i]].delay {
        list[i]
    } else {
        shown_after(images, list, i + 1, millis - images[list[i]].delay)
    }
}

/// The image that the animation of the images `list` shows at `millis`
/// milliseconds. The animation repeats, and one without any length does not
/// move.
pub open spec fn shown_at(images: Seq<Image>, list: Seq<int>, millis: int) -> int {
    let total = total_delay(images, list);
    if total == 0 {
        list[0]
    } else {
        shown_after(images, list, 0, millis % total)
    }
}

/// The image that stands for a cursor without any image.
pub open spec fn blank(size: u32) -> Picture {
    Picture {
        size,
        width: 1,
        height: 1,
        xhot: 0,
        yhot: 0,
        delay: 1,
        pixels_rgba: seq![0u8, 0, 0, 0],
        pixels_argb: Seq::empty(),
    }
}

fn copy_bytes(bytes: &Vec<u8>) -> (r: Vec<u8>)
    ensures
        r@ == bytes@,
{
    let mut out: Vec<u8> = Vec::new();
    out.extend_from_slice(bytes.as_slice());
    assert(out@ =~= bytes@);
    out
}

impl Image {
    /// A copy of the image.
    pub fn copy(&self) -> (r: Image)
        ensures
            r@ == self@,
    {
        Image {
            size: self.size,
            width: self.width,
            height: self.height,
            xhot: self.xhot,
            yhot: self.yhot,
            delay: self.delay,
            pixels_rgba: copy_bytes(&self.pixels_rgba),
            pixels_argb: copy_bytes(&self.pixels_argb),
        }
    }
}

/// The image to show at `millis` milliseconds, at the nominal size nearest to
/// `size`. Malformed or empty themes have a 1x1 transparent pixel.
pub fn frame(millis: u32, size: u32, images: &Vec<Image>) -> (r: Image)
    ensures
        images@.len() == 0 ==> r@ == blank(size),
        images@.len() > 0 ==> exists|k: int|
            #![trigger is_nearest(size, images@, k)]
            {
                let list = same_dimensions(images@, k, 0);
                let shown = shown_at(images@, list, millis as int);
                &&& is_nearest(size, images@, k)
                &&& 0 <= shown < images@.len()
                &&& r@ == images@[shown]@
            },
{
    let list = nearest_images(size, images);
    if images.len() == 0 {
        let mut pixels: Vec<u8> = Vec::new();
        pixels.push(0);
        pixels.push(0);
        pixels.push(0);
        pixels.push(0);
        let image = Image {
            size,
            width: 1,
            height: 1,
            xhot: 0,
            yhot: 0,
            delay: 1,
            pixels_rgba: pixels,
            pixels_argb: Vec::new(),
        };
        assert(image@ =~= blank(size));
        return image;
    }
    let ghost nearest = indices(list@);
    let ghost k = choose|k: int|
        #![trigger is_nearest(size, images@, k)]
        is_nearest(size, images@, k) && indices(list@) == same_dimensions(images@, k, 0);
    proof {
        lemma_same_dimensions(images@, k, 0);
        lemma_includes_itself(images@, k, 0);
        assert forall|i: int| 0 <= i < list@.len() implies list@[i] < images@.len() by {
            assert(nearest[i] == list@[i]);
        }
    }
    let mut total: u32 = 0;
    let mut i: usize = 0;
    assert(nearest.take(0) =~= Seq::empty());
    while i < list.len()
        invariant
            i <= list.len(),
            nearest == indices(list@),
            forall|j: int| 0 <= j < list@.len() ==> list@[j] < images@.len(),
            total == total_delay(images@, nearest.take(i as int)),
        decreases list.len() - i,
    {
        proof {
            let longer = nearest.take(i + 1);
            assert(longer.drop_last() =~= nearest.take(i as int));
            assert(longer.last() == list@[i as int]);
        }
        total = total.saturating_add(images[list[i]].delay);
        i += 1;
    }
    assert(nearest.take(i as int) =~= nearest);
    assert(nearest[0] == list@[0]);
    if total == 0 {
        return images[list[0]].copy();
    }
    let mut left: u32 = millis % total;
    let mut j: usize = 0;
    while j < list.len()
        invariant
            j <= list.len(),
            nearest == indices(list@),
            nearest == same_dimensions(images@, k, 0),
            is_nearest(size, images@, k),
            forall|j: int| 0 <= j < list@.len() ==> list@[j] < images@.len(),
            total == total_delay(images@, nearest),
            total != 0,
            shown_after(images@, nearest, j as int, left as int) == shown_at(
                images@,
                nearest,
                millis as int,
            ),
        decreases list.len() - j,
    {
        assert(nearest[j as int] == list@[j as int]);
        if left < images[list[j]].delay {
            return images[list[j]].copy();
        }
        left -= images[list[j]].delay;
        j += 1;
    }
    images[list[0]].copy()
}

/// Every image of the same dimensions is an image.
proof fn lemma_same_dimensions(images: Seq<Image>, k: int, i: int)
    requires
        0 <= i,
    ensures
        forall|j: int|
            0 <= j < same_dimensions(images, k, i).len() ==> i <= #[trigger] same_dimensions(
                images,
                k,
                i,
            )[j] < images.len(),
    decreases images.len() - i,
{
    if i < images.len() {
        lemma_same_dimensions(images, k, i + 1);
        let rest = same_dimensions(images, k, i + 1);
        let all = same_dimensions(images, k, i);
        assert forall|j: int| 0 <= j < all.len() implies i <= #[trigger] all[j] < images.len() by {
            if all.len() == rest.len() {
                assert(all[j] == rest[j]);
            } else if j > 0 {
                assert(all[j] == rest[j - 1]);
            }
        }
    }
}

/// An image has its own dimensions.
proof fn lemma_includes_itself(images: Seq<Image>, k: int, i: int)
    requires
        0 <= i <= k < images.len(),
    ensures
        same_dimensions(images, k, i).len() > 0,
    decreases k - i,
{
    if i < k {
        lemma_includes_itself(images, k, i + 1);
    }
}

/// The animation repeats: it shows the same image again after its length.
pub proof fn animation_repeats(images: Seq<Image>, list: Seq<int>, millis: int)
    requires
        total_delay(images, list) > 0,
        0 <= millis,
    ensures
        shown_at(images, list, millis + total_delay(images, list)) == shown_at(
            images,
            list,
            millis,
        ),
{
    let total = total_delay(images, list);
    assert((millis + total) % total == millis % total) by (nonlinear_arith)
        requires
            total > 0,
            0 <= millis,
    ;
}

/// The plain arrow of a theme that is missing or malformed, with the pixels of
/// the built-in cursor.
pub fn fallback_image(size: u32, pixels: &Vec<u8>) -> (r: Image)
    ensures
        r@ == (Picture {
            size,
            width: 64,
            height: 64,
            xhot: 1,
            yhot: 1,
            delay: 1,
            pixels_rgba: pixels@,
            pixels_argb: Seq::empty(),
        }),
{
    let image = Image {
        size,
        width: 64,
        height: 64,
        xhot: 1,
        yhot: 1,
        delay: 1,
        pixels_rgba: copy_bytes(pixels),
        pixels_argb: Vec::new(),
    };
    assert(image.pixels_argb@ =~= Seq::empty());
    image
}

/// Milliseconds as the 32-bit number that an animation counts with.
pub fn animation_millis(millis: u128) -> (r: u32)
    ensures
        r == millis % 0x1_0000_0000,
{
    (millis % 0x1_0000_0000) as u32
}

/// What was loaded for a shape: its images, unless the theme has none.
#[derive(Debug)]
pub struct CachedIcon {
    pub shape: u64,
    pub images: Option<Vec<Image>>,
}

/// A cursor theme's images.
#[derive(Debug)]
pub struct Cursor {
    /// The nominal size of the cursor.
    pub size: u32,
    /// What was loaded so far.
    pub cache: Vec<CachedIcon>,
    /// The pixels of the built-in cursor.
    pub fallback: Vec<u8>,
}

/// The entry of `shape` in `cache`, from `i` on.
pub open spec fn cached(cache: Seq<CachedIcon>, shape: u64, i: int) -> Option<int>
    decreases cache.len() - i,
{
    if i < 0 || i >= cache.len() {
        None
    } else if cache[i].shape == shape {
        Some(i)
    } else {
        cached(cache, shape, i + 1)
    }
}

/// The size a cursor has when none is asked for.
pub const DEFAULT_SIZE: u32 = 24;

impl Cursor {
    /// A cursor of `size`, if one is asked for. Nothing was loaded yet.
    pub fn load(size: Option<u32>, fallback: Vec<u8>) -> (r: Self)
        ensures
            r.size == (match size {
                Some(size) => size,
                None => DEFAULT_SIZE,
            }),
            r.cache@.len() == 0,
            r.fallback == fallback,
    {
        let size = match size {
            Some(size) => size,
            None => DEFAULT_SIZE,
        };
        Cursor { size, cache: Vec::new(), fallback }
    }

    /// Where `shape` is in the cache.
    fn find(&self, shape: u64) -> (r: Option<usize>)
        ensures
            match (r, cached(self.cache@, shape, 0)) {
                (Some(i), Some(k)) => i == k && i < self.cache.len(),
                (None, None) => true,
                _ => false,
            },
    {
        let mut i: usize = 0;
        while i < self.cache.len()
            invariant
                i <= self.cache.len(),
                cached(self.cache@, shape, 0) == cached(self.cache@, shape, i as int),
            decreases self.cache.len() - i,
        {
            if self.cache[i].shape == shape {
                return Some(i);
            }
            i += 1;
        }
        None
    }

    /// Whether `shape` was loaded.
    pub fn is_loaded(&self, shape: u64) -> (r: bool)
        ensures
            r == cached(self.cache@, shape, 0) is Some,
    {
        self.find(shape).is_some()
    }

    /// Remember what was loaded for `shape`, unless something was already.
    pub fn remember(&mut self, shape: u64, images: Option<Vec<Image>>)
        ensures
            final(self).size == old(self).size,
            final(self).fallback == old(self).fallback,
            final(self).cache@ == (if cached(old(self).cache@, shape, 0) is Some {
                old(self).cache@
            } else {
                old(self).cache@.push(CachedIcon { shape, images })
            }),
    {
        if self.find(shape).is_none() {
            self.cache.push(CachedIcon { shape, images });
        }
    }

    /// Resolve a cursor icon for the current frame. Falls back to a plain arrow
    /// if the theme is missing or malformed.
    pub fn get_image(&self, shape: u64, scale: u32, millis: u128) -> (r: Image)
        requires
            self.size * scale <= u32::MAX,
        ensures
            match cached(self.cache@, shape, 0) {
                Some(i) if self.cache@[i].images is Some => {
                    let images = self.cache@[i].images->0@;
                    let size = (self.size * scale) as u32;
                    let now = millis as int % 0x1_0000_0000;
                    &&& images.len() == 0 ==> r@ == blank(size)
                    &&& images.len() > 0 ==> exists|k: int|
                        #![trigger is_nearest(size, images, k)]
                        {
                            let shown = shown_at(images, same_dimensions(images, k, 0), now);
                            &&& is_nearest(size, images, k)
                            &&& 0 <= shown < images.len()
                            &&& r@ == images[shown]@
                        }
                },
                _ => r@ == (Picture {
                    size: (self.size * scale) as u32,
                    width: 64,
                    height: 64,
                    xhot: 1,
                    yhot: 1,
                    delay: 1,
                    pixels_rgba: self.fallback@,
                    pixels_argb: Seq::empty(),
                }),
            },
    {
        let size = self.size * scale;
        if let Some(i) = self.find(shape) {
            if let Some(images) = &self.cache[i].images {
                return frame(animation_millis(millis), size, images);
            }
        }
        fallback_image(size, &self.fallback)
    }
}

} // verus!
