//! Pictures of formulas as lines of half blocks: two rows of pixels to a line of
//! text.

use crate::numbers::{decimal, decimal_text};
use crate::text::texts;
use vstd::prelude::*;
use vstd::string::*;

verus! {

/// A pixel that is less opaque is not shown.
pub const ALPHA_THRESHOLD: u8 = 24;

/// A pixel.
#[derive(Clone, Copy, Debug, PartialEq, Eq, Structural)]
pub struct Pixel {
    pub r: u8,
    pub g: u8,
    pub b: u8,
    pub a: u8,
}

/// A picture, row by row.
pub struct Raster {
    pub pixels: Vec<Pixel>,
    pub width: usize,
    pub height: usize,
}

impl Raster {
    /// Whether the picture is not empty and holds a pixel for each place.
    pub open spec fn wf(&self) -> bool {
        &&& self.width > 0
        &&& self.height > 0
        &&& self.pixels.len() == self.width * self.height
    }

    /// The pixel at a place.
    pub open spec fn at(&self, x: int, y: int) -> Pixel {
        self.pixels@[y * self.width + x]
    }

    /// The pixel at a place.
    pub fn pixel(&self, x: usize, y: usize) -> (r: Pixel)
        requires
            self.wf(),
            x < self.width,
            y < self.height,
        ensures
            r == self.at(x as int, y as int),
    {
        proof {
            lemma_place(x as int, y as int, self.width as int, self.height as int);
        }
        self.pixels[y * self.width + x]
    }
}

proof fn lemma_place(x: int, y: int, width: int, height: int)
    requires
        0 <= x < width,
        0 <= y < height,
    ensures
        0 <= y * width + x < width * height,
        0 <= y * width <= y * width + x,
{
    assert(y * width + x < (y + 1) * width) by (nonlinear_arith)
        requires
            0 <= x < width,
    ;
    assert((y + 1) * width <= height * width) by (nonlinear_arith)
        requires
            0 <= y < height,
            0 < width,
    ;
    assert(0 <= y * width) by (nonlinear_arith)
        requires
            0 <= y,
            0 < width,
    ;
    assert(height * width == width * height) by (nonlinear_arith);
}

// ---------------------------------------------------------------------------
// Decoding

/// The width, the height and the channels of a picture in a file.
pub uninterp spec fn decoded_image(png: Seq<u8>) -> Option<(u32, u32, Seq<u8>)>;

/// `image::load_from_memory` and `to_rgba8` decode a picture: its width, its height,
/// and four channels for each pixel, row by row. They depend on the bytes alone.
#[verifier::external_body]
fn decode_image(png: &Vec<u8>) -> (r: Option<(u32, u32, Vec<u8>)>)
    ensures
        (match r {
            Some(x) => Some((x.0, x.1, x.2@)),
            None => None,
        }) == decoded_image(png@),
        match r {
            Some(x) => x.2.len() == 4 * x.0 * x.1,
            None => true,
        },
{
    let image = image::load_from_memory(png).ok()?.to_rgba8();
    Some((image.width(), image.height(), image.into_raw()))
}

/// The pixels of channels.
pub open spec fn pixels_of(raw: Seq<u8>) -> Seq<Pixel> {
    Seq::new(
        raw.len() / 4,
        |i: int| Pixel { r: raw[4 * i], g: raw[4 * i + 1], b: raw[4 * i + 2], a: raw[4 * i + 3] },
    )
}

/// Whether the pixel at a place is shown.
pub open spec fn shown_at(pixels: Seq<Pixel>, width: int, x: int, y: int) -> bool {
    pixels[y * width + x].a >= ALPHA_THRESHOLD
}

/// Whether the box from `(x0, y0)` to `(x1, y1)` is the least that holds every pixel
/// that is shown.
pub open spec fn is_bounding_box(
    pixels: Seq<Pixel>,
    width: int,
    height: int,
    x0: int,
    y0: int,
    x1: int,
    y1: int,
) -> bool {
    &&& 0 <= x0 <= x1 < width
    &&& 0 <= y0 <= y1 < height
    &&& forall|x: int, y: int|
        0 <= x < width && 0 <= y < height && #[trigger] shown_at(pixels, width, x, y) ==> x0 <= x
            <= x1 && y0 <= y <= y1
    &&& exists|y: int| y0 <= y <= y1 && #[trigger] shown_at(pixels, width, x0, y)
    &&& exists|y: int| y0 <= y <= y1 && #[trigger] shown_at(pixels, width, x1, y)
    &&& exists|x: int| x0 <= x <= x1 && #[trigger] shown_at(pixels, width, x, y0)
    &&& exists|x: int| x0 <= x <= x1 && #[trigger] shown_at(pixels, width, x, y1)
}

/// Whether a picture is a part of another.
pub open spec fn is_crop(
    r: Raster,
    pixels: Seq<Pixel>,
    width: int,
    x0: int,
    y0: int,
    x1: int,
    y1: int,
) -> bool {
    &&& r.wf()
    &&& r.width == x1 - x0 + 1
    &&& r.height == y1 - y0 + 1
    &&& forall|x: int, y: int|
        0 <= x < r.width && 0 <= y < r.height ==> #[trigger] r.at(x, y) == pixels[(y0 + y) * width
            + (x0 + x)]
}

/// Whether nothing of a picture is shown.
pub open spec fn nothing_shown(pixels: Seq<Pixel>, width: int, height: int) -> bool {
    forall|x: int, y: int|
        0 <= x < width && 0 <= y < height ==> !#[trigger] shown_at(pixels, width, x, y)
}

/// The pixels of channels.
fn collect_pixels(raw: &Vec<u8>) -> (r: Vec<Pixel>)
    ensures
        r@ == pixels_of(raw@),
{
    let mut out: Vec<Pixel> = Vec::new();
    let n: usize = raw.len() / 4;
    let mut i: usize = 0;
    while i < n
        invariant
            i <= n,
            n == raw.len() / 4,
            out@ =~= pixels_of(raw@).take(i as int),
        decreases n - i,
    {
        out.push(
            Pixel { r: raw[4 * i], g: raw[4 * i + 1], b: raw[4 * i + 2], a: raw[4 * i + 3] },
        );
        i += 1;
    }
    assert(out@ =~= pixels_of(raw@));
    out
}

/// Cuts a picture to the least box that holds every pixel that is shown; nothing
/// where none is.
pub fn trim_pixels(pixels: &Vec<Pixel>, width: usize, height: usize) -> (r: Option<Raster>)
    requires
        width > 0,
        height > 0,
        pixels.len() == width * height,
    ensures
        match r {
            Some(t) => exists|x0: int, y0: int, x1: int, y1: int|
                #[trigger] is_bounding_box(
                    pixels@,
                    width as int,
                    height as int,
                    x0,
                    y0,
                    x1,
                    y1,
                ) && is_crop(t, pixels@, width as int, x0, y0, x1, y1),
            None => nothing_shown(pixels@, width as int, height as int),
        },
{
    let ghost w = width as int;
    let ghost h = height as int;
    let mut found: bool = false;
    let mut x0: usize = 0;
    let mut y0: usize = 0;
    let mut x1: usize = 0;
    let mut y1: usize = 0;
    let mut y: usize = 0;
    // Places at which the four sides are attained.
    let ghost mut left: int = 0;
    let ghost mut right: int = 0;
    let ghost mut top: int = 0;
    let ghost mut bottom: int = 0;
    while y < height
        invariant
            y <= height,
            width > 0,
            w == width,
            h == height,
            pixels.len() == width * height,
            !found ==> forall|a: int, b: int|
                0 <= a < w && 0 <= b < y ==> !#[trigger] shown_at(pixels@, w, a, b),
            found ==> {
                &&& x0 <= x1 < width
                &&& y0 <= y1 < y
                &&& y0 <= left <= y1 && shown_at(pixels@, w, x0 as int, left)
                &&& y0 <= right <= y1 && shown_at(pixels@, w, x1 as int, right)
                &&& x0 <= top <= x1 && shown_at(pixels@, w, top, y0 as int)
                &&& x0 <= bottom <= x1 && shown_at(pixels@, w, bottom, y1 as int)
                &&& forall|a: int, b: int|
                    0 <= a < w && 0 <= b < y && #[trigger] shown_at(pixels@, w, a, b) ==> x0 <= a
                        <= x1 && y0 <= b <= y1
            },
        decreases height - y,
    {
        let mut x: usize = 0;
        while x < width
            invariant
                x <= width,
                y < height,
                width > 0,
                w == width,
                h == height,
                pixels.len() == width * height,
                !found ==> (forall|a: int, b: int|
                    0 <= a < w && 0 <= b < y ==> !#[trigger] shown_at(pixels@, w, a, b)) && (
                forall|a: int| 0 <= a < x ==> !#[trigger] shown_at(pixels@, w, a, y as int)),
                found ==> {
                    &&& x0 <= x1 < width
                    &&& y0 <= y1 <= y
                    &&& y0 <= left <= y1 && shown_at(pixels@, w, x0 as int, left)
                    &&& y0 <= right <= y1 && shown_at(pixels@, w, x1 as int, right)
                    &&& x0 <= top <= x1 && shown_at(pixels@, w, top, y0 as int)
                    &&& x0 <= bottom <= x1 && shown_at(pixels@, w, bottom, y1 as int)
                    &&& forall|a: int, b: int|
                        0 <= a < w && 0 <= b < y && #[trigger] shown_at(pixels@, w, a, b) ==> x0
                            <= a <= x1 && y0 <= b <= y1
                    &&& forall|a: int|
                        0 <= a < x && #[trigger] shown_at(pixels@, w, a, y as int) ==> x0 <= a
                            <= x1 && y0 <= y <= y1
                },
            decreases width - x,
        {
            proof {
                lemma_place(x as int, y as int, w, h);
            }
            if pixels[y * width + x].a >= ALPHA_THRESHOLD {
                assert(shown_at(pixels@, w, x as int, y as int));
                if !found {
                    found = true;
                    x0 = x;
                    x1 = x;
                    y0 = y;
                    y1 = y;
                    proof {
                        left = y as int;
                        right = y as int;
                        top = x as int;
                        bottom = x as int;
                    }
                } else {
                    if x < x0 {
                        x0 = x;
                        proof {
                            left = y as int;
                        }
                    }
                    if x > x1 {
                        x1 = x;
                        proof {
                            right = y as int;
                        }
                    }
                    if y > y1 {
                        y1 = y;
                        proof {
                            bottom = x as int;
                        }
                    }
                }
            }
            x += 1;
        }
        assert forall|a: int, b: int| 0 <= a < w && 0 <= b < y + 1 && #[trigger] shown_at(
            pixels@,
            w,
            a,
            b,
        ) implies found && x0 <= a <= x1 && y0 <= b <= y1 by {
            if b == y {
                assert(shown_at(pixels@, w, a, y as int));
            }
        }
        y += 1;
    }
    if !found {
        return None;
    }
    let tw: usize = x1 - x0 + 1;
    let th: usize = y1 - y0 + 1;
    let mut out: Vec<Pixel> = Vec::new();
    let mut dy: usize = 0;
    while dy < th
        invariant
            dy <= th,
            th == y1 - y0 + 1,
            tw == x1 - x0 + 1,
            x0 <= x1 < width,
            y0 <= y1 < height,
            w == width,
            h == height,
            pixels.len() == width * height,
            out.len() == dy * tw,
            forall|a: int, b: int|
                0 <= a < tw && 0 <= b < dy ==> #[trigger] out@[b * tw + a] == pixels@[(y0 + b) * w
                    + (x0 + a)],
        decreases th - dy,
    {
        let mut dx: usize = 0;
        let ghost base = dy * tw;
        while dx < tw
            invariant
                dx <= tw,
                dy < th,
                th == y1 - y0 + 1,
                tw == x1 - x0 + 1,
                x0 <= x1 < width,
                y0 <= y1 < height,
                w == width,
                h == height,
                pixels.len() == width * height,
                base == dy * tw,
                out.len() == base + dx,
                forall|a: int, b: int|
                    0 <= a < tw && 0 <= b < dy ==> #[trigger] out@[b * tw + a] == pixels@[(y0 + b)
                        * w + (x0 + a)],
                forall|a: int|
                    0 <= a < dx ==> #[trigger] out@[base + a] == pixels@[(y0 + dy) * w + (x0 + a)],
            decreases tw - dx,
        {
            proof {
                lemma_place(x0 + dx, y0 + dy, w, h);
            }
            let ghost before = out@;
            out.push(pixels[(y0 + dy) * width + (x0 + dx)]);
            assert forall|a: int, b: int| 0 <= a < tw && 0 <= b < dy implies #[trigger] out@[b * tw
                + a] == pixels@[(y0 + b) * w + (x0 + a)] by {
                lemma_place(a, b, tw as int, dy as int);
                assert(tw * dy == dy * tw) by (nonlinear_arith);
                assert(before[b * tw + a] == out@[b * tw + a]);
            }
            dx += 1;
        }
        assert((dy + 1) * tw == dy * tw + tw) by (nonlinear_arith);
        assert forall|a: int, b: int| 0 <= a < tw && 0 <= b < dy + 1 implies #[trigger] out@[b * tw
            + a] == pixels@[(y0 + b) * w + (x0 + a)] by {
            if b == dy {
                assert(out@[base + a] == pixels@[(y0 + dy) * w + (x0 + a)]);
            }
        }
        dy += 1;
    }
    let r: Raster = Raster { pixels: out, width: tw, height: th };
    proof {
        assert(th * tw == tw * th) by (nonlinear_arith);
        assert(is_bounding_box(
            pixels@,
            w,
            h,
            x0 as int,
            y0 as int,
            x1 as int,
            y1 as int,
        ));
        assert forall|x: int, y: int| 0 <= x < r.width && 0 <= y < r.height implies #[trigger] r.at(
            x,
            y,
        ) == pixels@[(y0 + y) * w + (x0 + x)] by {
            assert(out@[y * tw + x] == pixels@[(y0 + y) * w + (x0 + x)]);
        }
        assert(is_crop(r, pixels@, w, x0 as int, y0 as int, x1 as int, y1 as int));
    }
    Some(r)
}

/// Whether a picture is what is shown of the one in a file.
pub open spec fn trims_to(png: Seq<u8>, t: Raster) -> bool {
    match decoded_image(png) {
        None => false,
        Some(x) => exists|x0: int, y0: int, x1: int, y1: int|
            #[trigger] is_bounding_box(
                pixels_of(x.2),
                x.0 as int,
                x.1 as int,
                x0,
                y0,
                x1,
                y1,
            ) && is_crop(t, pixels_of(x.2), x.0 as int, x0, y0, x1, y1),
    }
}

/// Whether a file holds no picture of which anything is shown.
pub open spec fn nothing_to_show(png: Seq<u8>) -> bool {
    match decoded_image(png) {
        None => true,
        Some(x) => x.0 == 0 || x.1 == 0 || nothing_shown(
            pixels_of(x.2),
            x.0 as int,
            x.1 as int,
        ),
    }
}

/// Decodes a picture and cuts it to what is shown; nothing where it cannot be
/// decoded, is empty, or nothing of it is shown.
pub fn decode_and_trim(png: &Vec<u8>) -> (r: Option<Raster>)
    ensures
        match r {
            Some(t) => t.wf() && trims_to(png@, t),
            None => nothing_to_show(png@),
        },
{
    let (width, height, raw): (u32, u32, Vec<u8>) = match decode_image(png) {
        Some(x) => x,
        None => {
            return None;
        }
    };
    if width == 0 || height == 0 {
        return None;
    }
    let pixels: Vec<Pixel> = collect_pixels(&raw);
    let ghost w = width as int;
    let ghost h = height as int;
    proof {
        assert(4 * w * h == 4 * (w * h)) by (nonlinear_arith);
        assert((4 * (w * h)) / 4 == w * h);
        assert(pixels.len() == w * h);
    }
    let r: Option<Raster> = trim_pixels(&pixels, width as usize, height as usize);
    proof {
        assert(decoded_image(png@) == Some((width, height, raw@)));
        if r is Some {
            let t = r->0;
            let (x0, y0, x1, y1) = choose|x0: int, y0: int, x1: int, y1: int|
                #[trigger] is_bounding_box(pixels@, w, h, x0, y0, x1, y1) && is_crop(
                    t,
                    pixels@,
                    w,
                    x0,
                    y0,
                    x1,
                    y1,
                );
            assert(is_bounding_box(pixels_of(raw@), w, h, x0, y0, x1, y1));
            assert(is_crop(t, pixels_of(raw@), w, x0, y0, x1, y1));
            assert(t.wf());
            let x = decoded_image(png@)->0;
            assert(x.2 == raw@ && x.0 == width && x.1 == height);
            assert(is_bounding_box(pixels_of(x.2), x.0 as int, x.1 as int, x0, y0, x1, y1));
            assert(trims_to(png@, t));
        }
    }
    r
}

// ---------------------------------------------------------------------------
// Scaling

/// Division, rounded up.
pub open spec fn div_up(a: int, b: int) -> int {
    (a + b - 1) / b
}

/// The first of the source's places that a place in the target stands for.
pub open spec fn first_place(x: int, source: int, target: int) -> int {
    let s = x * source / target;
    if s < source - 1 {
        s
    } else {
        source - 1
    }
}

/// The place behind the last of those that a place in the target stands for.
pub open spec fn last_place(x: int, source: int, target: int) -> int {
    let e = div_up((x + 1) * source, target);
    let low = first_place(x, source, target) + 1;
    if e < low {
        low
    } else if e > source {
        source
    } else {
        e
    }
}

/// A channel of a pixel.
pub open spec fn channel(p: Pixel, c: int) -> int {
    if c == 0 {
        p.r as int
    } else if c == 1 {
        p.g as int
    } else if c == 2 {
        p.b as int
    } else {
        p.a as int
    }
}

/// The sum of a channel over part of a row.
pub open spec fn row_sum(r: Raster, c: int, x0: int, x1: int, y: int) -> int
    decreases x1 - x0,
{
    if x1 <= x0 {
        0
    } else {
        row_sum(r, c, x0, x1 - 1, y) + channel(r.at(x1 - 1, y), c)
    }
}

/// The sum of a channel over a box.
pub open spec fn box_sum(r: Raster, c: int, x0: int, x1: int, y0: int, y1: int) -> int
    decreases y1 - y0,
{
    if y1 <= y0 {
        0
    } else {
        box_sum(r, c, x0, x1, y0, y1 - 1) + row_sum(r, c, x0, x1, y1 - 1)
    }
}

/// The average of a box of pixels.
pub open spec fn box_average(r: Raster, x0: int, x1: int, y0: int, y1: int) -> Pixel {
    let n = (x1 - x0) * (y1 - y0);
    Pixel {
        r: (box_sum(r, 0, x0, x1, y0, y1) / n) as u8,
        g: (box_sum(r, 1, x0, x1, y0, y1) / n) as u8,
        b: (box_sum(r, 2, x0, x1, y0, y1) / n) as u8,
        a: (box_sum(r, 3, x0, x1, y0, y1) / n) as u8,
    }
}

/// The pixel at a place of the picture scaled to a size: the nearest where neither
/// side shrinks, the average of what the place stands for otherwise.
pub open spec fn sampled(r: Raster, x: int, y: int, tw: int, th: int) -> Pixel {
    if tw >= r.width && th >= r.height {
        r.at(first_place(x, r.width as int, tw), first_place(y, r.height as int, th))
    } else {
        box_average(
            r,
            first_place(x, r.width as int, tw),
            last_place(x, r.width as int, tw),
            first_place(y, r.height as int, th),
            last_place(y, r.height as int, th),
        )
    }
}

proof fn lemma_row_sum_bounds(r: Raster, c: int, x0: int, x1: int, y: int)
    requires
        x0 <= x1,
    ensures
        0 <= row_sum(r, c, x0, x1, y) <= 255 * (x1 - x0),
    decreases x1 - x0,
{
    if x0 < x1 {
        lemma_row_sum_bounds(r, c, x0, x1 - 1, y);
    }
}

proof fn lemma_box_sum_bounds(r: Raster, c: int, x0: int, x1: int, y0: int, y1: int)
    requires
        x0 <= x1,
        y0 <= y1,
    ensures
        0 <= box_sum(r, c, x0, x1, y0, y1) <= 255 * ((x1 - x0) * (y1 - y0)),
    decreases y1 - y0,
{
    if y0 < y1 {
        lemma_box_sum_bounds(r, c, x0, x1, y0, y1 - 1);
        lemma_row_sum_bounds(r, c, x0, x1, y1 - 1);
        assert((x1 - x0) * (y1 - y0) == (x1 - x0) * (y1 - 1 - y0) + (x1 - x0)) by (nonlinear_arith);
    } else {
        assert((x1 - x0) * (y1 - y0) == 0) by (nonlinear_arith)
            requires
                y1 == y0,
        ;
    }
}

fn scaled_first(x: usize, source: usize, target: usize) -> (r: usize)
    requires
        source > 0,
        target > 0,
    ensures
        r == first_place(x as int, source as int, target as int),
        r < source,
{
    assert(x * source <= 0xffff_ffff_ffff_ffff * 0xffff_ffff_ffff_ffff) by (nonlinear_arith)
        requires
            0 <= x <= 0xffff_ffff_ffff_ffff,
            0 <= source <= 0xffff_ffff_ffff_ffff,
    ;
    assert(0 <= x * source) by (nonlinear_arith)
        requires
            0 <= x,
            0 <= source,
    ;
    let s: u128 = (x as u128) * (source as u128) / (target as u128);
    if s < (source - 1) as u128 {
        s as usize
    } else {
        source - 1
    }
}

fn scaled_last(x: usize, source: usize, target: usize, first: usize) -> (r: usize)
    requires
        source > 0,
        target > 0,
        first == first_place(x as int, source as int, target as int),
        first < source,
    ensures
        r == last_place(x as int, source as int, target as int),
        first < r <= source,
{
    assert((x + 1) * source <= 0x1_0000_0000_0000_0000 * 0xffff_ffff_ffff_ffff) by (nonlinear_arith)
        requires
            0 <= x <= 0xffff_ffff_ffff_ffff,
            0 <= source <= 0xffff_ffff_ffff_ffff,
    ;
    assert(0 <= (x + 1) * source) by (nonlinear_arith)
        requires
            0 <= x,
            0 <= source,
    ;
    let a: u128 = ((x as u128) + 1) * (source as u128);
    let up: u128 = if a % (target as u128) == 0 {
        a / (target as u128)
    } else {
        a / (target as u128) + 1
    };
    proof {
        let n = a as int;
        let t = target as int;
        assert(n == t * (n / t) + n % t) by (nonlinear_arith)
            requires
                t > 0,
        ;
        vstd::arithmetic::div_mod::lemma_mod_bound(n, t);
        let q = n / t;
        if n % t == 0 {
            assert((n + t - 1) / t == q) by (nonlinear_arith)
                requires
                    n == t * q,
                    t > 0,
            ;
        } else {
            assert((n + t - 1) / t == q + 1) by (nonlinear_arith)
                requires
                    n == t * q + n % t,
                    0 < n % t < t,
                    t > 0,
            ;
        }
        assert(up == div_up(n, t));
    }
    if up < (first + 1) as u128 {
        first + 1
    } else if up > source as u128 {
        source
    } else {
        up as usize
    }
}

/// The pixel at a place of the picture scaled to a size.
pub fn sample(raster: &Raster, x: usize, y: usize, target_width: usize, target_height: usize) -> (r:
    Pixel)
    requires
        raster.wf(),
        target_width > 0,
        target_height > 0,
    ensures
        r == sampled(
            *raster,
            x as int,
            y as int,
            target_width as int,
            target_height as int,
        ),
{
    let x0: usize = scaled_first(x, raster.width, target_width);
    let y0: usize = scaled_first(y, raster.height, target_height);
    if target_width >= raster.width && target_height >= raster.height {
        return raster.pixel(x0, y0);
    }
    let x1: usize = scaled_last(x, raster.width, target_width, x0);
    let y1: usize = scaled_last(y, raster.height, target_height, y0);
    let mut sr: u128 = 0;
    let mut sg: u128 = 0;
    let mut sb: u128 = 0;
    let mut sa: u128 = 0;
    let mut sy: usize = y0;
    proof {
        assert((x1 - x0) * (y0 - y0) == 0) by (nonlinear_arith);
    }
    while sy < y1
        invariant
            raster.wf(),
            x0 < x1 <= raster.width,
            y0 <= sy <= y1 <= raster.height,
            sr == box_sum(*raster, 0, x0 as int, x1 as int, y0 as int, sy as int),
            sg == box_sum(*raster, 1, x0 as int, x1 as int, y0 as int, sy as int),
            sb == box_sum(*raster, 2, x0 as int, x1 as int, y0 as int, sy as int),
            sa == box_sum(*raster, 3, x0 as int, x1 as int, y0 as int, sy as int),
        decreases y1 - sy,
    {
        let ghost br = sr;
        let ghost bg = sg;
        let ghost bb = sb;
        let ghost ba = sa;
        proof {
            lemma_box_sum_bounds(*raster, 0, x0 as int, x1 as int, y0 as int, sy as int);
            lemma_box_sum_bounds(*raster, 1, x0 as int, x1 as int, y0 as int, sy as int);
            lemma_box_sum_bounds(*raster, 2, x0 as int, x1 as int, y0 as int, sy as int);
            lemma_box_sum_bounds(*raster, 3, x0 as int, x1 as int, y0 as int, sy as int);
            assert((x1 - x0) * (sy - y0) <= raster.width * raster.height) by (nonlinear_arith)
                requires
                    0 <= x0 < x1 <= raster.width,
                    0 <= y0 <= sy <= raster.height,
            ;
        }
        let mut sx: usize = x0;
        while sx < x1
            invariant
                raster.wf(),
                x0 <= sx <= x1 <= raster.width,
                sy < raster.height,
                br <= 255 * 0xffff_ffff_ffff_ffff,
                bg <= 255 * 0xffff_ffff_ffff_ffff,
                bb <= 255 * 0xffff_ffff_ffff_ffff,
                ba <= 255 * 0xffff_ffff_ffff_ffff,
                sr == br + row_sum(*raster, 0, x0 as int, sx as int, sy as int),
                sg == bg + row_sum(*raster, 1, x0 as int, sx as int, sy as int),
                sb == bb + row_sum(*raster, 2, x0 as int, sx as int, sy as int),
                sa == ba + row_sum(*raster, 3, x0 as int, sx as int, sy as int),
            decreases x1 - sx,
        {
            proof {
                lemma_row_sum_bounds(*raster, 0, x0 as int, sx as int, sy as int);
                lemma_row_sum_bounds(*raster, 1, x0 as int, sx as int, sy as int);
                lemma_row_sum_bounds(*raster, 2, x0 as int, sx as int, sy as int);
                lemma_row_sum_bounds(*raster, 3, x0 as int, sx as int, sy as int);
            }
            let p: Pixel = raster.pixel(sx, sy);
            sr = sr + p.r as u128;
            sg = sg + p.g as u128;
            sb = sb + p.b as u128;
            sa = sa + p.a as u128;
            sx += 1;
        }
        sy += 1;
    }
    let nx: usize = x1 - x0;
    let ny: usize = y1 - y0;
    assert(0 < nx * ny <= 0xffff_ffff_ffff_ffff * 0xffff_ffff_ffff_ffff) by (nonlinear_arith)
        requires
            0 < nx <= 0xffff_ffff_ffff_ffff,
            0 < ny <= 0xffff_ffff_ffff_ffff,
    ;
    let count: u128 = (nx as u128) * (ny as u128);
    proof {
        lemma_box_sum_bounds(*raster, 0, x0 as int, x1 as int, y0 as int, y1 as int);
        lemma_box_sum_bounds(*raster, 1, x0 as int, x1 as int, y0 as int, y1 as int);
        lemma_box_sum_bounds(*raster, 2, x0 as int, x1 as int, y0 as int, y1 as int);
        lemma_box_sum_bounds(*raster, 3, x0 as int, x1 as int, y0 as int, y1 as int);
        lemma_average_fits(sr as int, count as int);
        lemma_average_fits(sg as int, count as int);
        lemma_average_fits(sb as int, count as int);
        lemma_average_fits(sa as int, count as int);
    }
    Pixel {
        r: (sr / count) as u8,
        g: (sg / count) as u8,
        b: (sb / count) as u8,
        a: (sa / count) as u8,
    }
}

proof fn lemma_average_fits(sum: int, n: int)
    requires
        0 <= sum <= 255 * n,
        n > 0,
    ensures
        0 <= sum / n <= 255,
{
    assert(0 <= sum / n <= 255) by (nonlinear_arith)
        requires
            0 <= sum <= 255 * n,
            n > 0,
    ;
}

// ---------------------------------------------------------------------------
// Half blocks

/// A picture as lines of text, all equally wide.
pub struct MathArt {
    pub lines: Vec<String>,
    pub cols: usize,
}

/// What a [`MathArt`] holds, as values.
#[verifier::ext_equal]
pub struct MathArtModel {
    pub lines: Seq<Seq<char>>,
    pub cols: usize,
}

impl View for MathArt {
    type V = MathArtModel;

    open spec fn view(&self) -> MathArtModel {
        MathArtModel {
            lines: texts(self.lines@),
            cols: self.cols,
        }
    }
}


/// How many lines a formula takes by itself: half its pixels, at most `max_rows`.
pub open spec fn block_rows(height: nat, cell_height: nat, max_rows: nat) -> int {
    let cell = if cell_height < 1 {
        1
    } else {
        cell_height as int
    };
    let most = if max_rows < 1 {
        1
    } else {
        max_rows as int
    };
    let rows = div_up(div_up(height as int, 2), cell);
    if rows < 1 {
        1
    } else if rows > most {
        most
    } else {
        rows
    }
}

/// How many lines a formula takes by itself. `cell_height` is the height of a line
/// of the terminal in pixels.
pub fn natural_block_rows(height: usize, cell_height: u16, max_rows: usize) -> (r: usize)
    ensures
        r == block_rows(height as nat, cell_height as nat, max_rows as nat),
        1 <= r,
{
    let cell: u128 = if cell_height < 1 { 1 } else { cell_height as u128 };
    let most: usize = if max_rows < 1 { 1 } else { max_rows };
    let half: u128 = ((height as u128) + 1) / 2;
    let rows: u128 = (half + cell - 1) / cell;
    if rows < 1 {
        1
    } else if rows > most as u128 {
        most
    } else {
        rows as usize
    }
}

/// Whether a pixel is shown.
pub open spec fn is_shown(p: Pixel) -> bool {
    p.a >= ALPHA_THRESHOLD
}

/// The numbers of a colour.
pub open spec fn colour(p: Pixel) -> Seq<char> {
    decimal(p.r as nat) + ";"@ + decimal(p.g as nat) + ";"@ + decimal(p.b as nat)
}

/// Two pixels, one above the other, as one character.
pub open spec fn cell_text(top: Pixel, bottom: Pixel) -> Seq<char> {
    if is_shown(top) && is_shown(bottom) {
        "\x1b[38;2;"@ + colour(top) + "m\x1b[48;2;"@ + colour(bottom) + "m▀"@
    } else if is_shown(top) {
        "\x1b[49m\x1b[38;2;"@ + colour(top) + "m▀"@
    } else if is_shown(bottom) {
        "\x1b[49m\x1b[38;2;"@ + colour(bottom) + "m▄"@
    } else {
        "\x1b[49m "@
    }
}

fn colour_text(p: Pixel) -> (r: String)
    ensures
        r@ == colour(p),
{
    let r: String = decimal_text(p.r as u64);
    let g: String = decimal_text(p.g as u64);
    let b: String = decimal_text(p.b as u64);
    let mut out: String = r;
    out.append(";");
    out.append(&g);
    out.append(";");
    out.append(&b);
    out
}

/// Two pixels, one above the other, as one character.
pub fn halfblock_cell(top: Pixel, bottom: Pixel) -> (r: String)
    ensures
        r@ == cell_text(top, bottom),
{
    let top_shown: bool = top.a >= ALPHA_THRESHOLD;
    let bottom_shown: bool = bottom.a >= ALPHA_THRESHOLD;
    let upper: String = colour_text(top);
    let lower: String = colour_text(bottom);
    if top_shown && bottom_shown {
        let mut out: String = "\x1b[38;2;".to_owned();
        out.append(&upper);
        out.append("m\x1b[48;2;");
        out.append(&lower);
        out.append("m▀");
        out
    } else if top_shown {
        let mut out: String = "\x1b[49m\x1b[38;2;".to_owned();
        out.append(&upper);
        out.append("m▀");
        out
    } else if bottom_shown {
        let mut out: String = "\x1b[49m\x1b[38;2;".to_owned();
        out.append(&lower);
        out.append("m▄");
        out
    } else {
        "\x1b[49m ".to_owned()
    }
}

/// The first `n` characters of a line of half blocks.
pub open spec fn line_cells(r: Raster, row: int, n: nat, tw: int, th: int) -> Seq<char>
    decreases n,
{
    if n == 0 {
        seq![]
    } else {
        line_cells(r, row, (n - 1) as nat, tw, th) + cell_text(
            sampled(r, n - 1, row * 2, tw, th),
            sampled(r, n - 1, row * 2 + 1, tw, th),
        )
    }
}

/// A line of half blocks.
pub open spec fn art_line(r: Raster, row: int, tw: int, th: int) -> Seq<char> {
    line_cells(r, row, tw as nat, tw, th) + "\x1b[0m"@
}

/// The size in pixels of a picture of `target_rows` lines that is at most `max_cols`
/// wide.
pub open spec fn art_size(width: int, height: int, target_rows: int, max_cols: int) -> (int, int) {
    let rows = if target_rows < 1 {
        1
    } else {
        target_rows
    };
    let most = if max_cols < 1 {
        1
    } else {
        max_cols
    };
    let wide = div_up(width * (rows * 2), height);
    let natural = if wide < 1 {
        1
    } else {
        wide
    };
    if natural > most {
        let high = div_up(height * most, width);
        let at_least = if high < 2 {
            2
        } else {
            high
        };
        (most, at_least + at_least % 2)
    } else {
        (natural, rows * 2)
    }
}

fn ceil_div(a: u128, b: u128) -> (r: u128)
    requires
        b > 0,
    ensures
        r == div_up(a as int, b as int),
{
    proof {
        if b >= 2 {
            assert(a / b <= a / 2) by (nonlinear_arith)
                requires
                    b >= 2,
            ;
        } else {
            assert(a % b == 0) by (nonlinear_arith)
                requires
                    b == 1,
            ;
        }
    }
    let r: u128 = if a % b == 0 { a / b } else { a / b + 1 };
    proof {
        let n = a as int;
        let t = b as int;
        assert(n == t * (n / t) + n % t) by (nonlinear_arith)
            requires
                t > 0,
        ;
        vstd::arithmetic::div_mod::lemma_mod_bound(n, t);
        let q = n / t;
        if n % t == 0 {
            assert((n + t - 1) / t == q) by (nonlinear_arith)
                requires
                    n == t * q,
                    t > 0,
            ;
        } else {
            assert((n + t - 1) / t == q + 1) by (nonlinear_arith)
                requires
                    n == t * q + n % t,
                    0 < n % t < t,
                    t > 0,
            ;
        }
    }
    r
}

proof fn lemma_shrinks(w: int, h: int, target: int, most: int)
    requires
        w > 0,
        h > 0,
        most > 0,
        target > 0,
        div_up(w * target, h) > most,
    ensures
        div_up(h * most, w) <= target,
{
    let a = w * target;
    assert(most * h < a) by (nonlinear_arith)
        requires
            (a + h - 1) / h > most,
            h > 0,
    ;
    let b = h * most;
    assert(b == most * h) by (nonlinear_arith)
        requires
            b == h * most,
    ;
    assert((b + w - 1) / w <= target) by (nonlinear_arith)
        requires
            b < w * target,
            w > 0,
    ;
}

/// Whether lines show a picture in `target_rows` lines, at most `max_cols` wide.
pub open spec fn draws(art: MathArt, raster: Raster, target_rows: int, max_cols: int) -> bool {
    let size = art_size(raster.width as int, raster.height as int, target_rows, max_cols);
    &&& art.cols == size.0
    &&& art.lines.len() == size.1 / 2
    &&& forall|i: int|
        0 <= i < art.lines.len() ==> (#[trigger] art.lines@[i])@ == art_line(
            raster,
            i,
            size.0,
            size.1,
        )
}

/// A picture as half blocks: `target_rows` lines, or fewer where it would be wider
/// than `max_cols`.
pub fn halfblock_from_raster(raster: &Raster, target_rows: usize, max_cols: usize) -> (r: MathArt)
    requires
        raster.wf(),
        target_rows < usize::MAX / 2,
    ensures
        draws(r, *raster, target_rows as int, max_cols as int),
{
    let rows: usize = if target_rows < 1 { 1 } else { target_rows };
    let most: usize = if max_cols < 1 { 1 } else { max_cols };
    let ghost w = raster.width as int;
    let ghost h = raster.height as int;
    assert(w * (rows * 2) <= 0xffff_ffff_ffff_ffff * 0xffff_ffff_ffff_ffff) by (nonlinear_arith)
        requires
            0 <= w <= 0xffff_ffff_ffff_ffff,
            0 <= rows * 2 <= 0xffff_ffff_ffff_ffff,
    ;
    assert(0 <= w * (rows * 2)) by (nonlinear_arith)
        requires
            0 <= w,
            0 <= rows,
    ;
    let tall: usize = rows * 2;
    let wide: u128 = ceil_div((raster.width as u128) * (tall as u128), raster.height as u128);
    let natural: u128 = if wide < 1 { 1 } else { wide };
    let width_px: usize;
    let height_px: usize;
    if natural > most as u128 {
        assert(h * most <= 0xffff_ffff_ffff_ffff * 0xffff_ffff_ffff_ffff) by (nonlinear_arith)
            requires
                0 <= h <= 0xffff_ffff_ffff_ffff,
                0 <= most <= 0xffff_ffff_ffff_ffff,
        ;
        assert(0 <= h * most) by (nonlinear_arith)
            requires
                0 <= h,
                0 <= most,
        ;
        let high: u128 = ceil_div((raster.height as u128) * (most as u128), raster.width as u128);
        proof {
            lemma_shrinks(w, h, tall as int, most as int);
        }
        let at_least: usize = if high < 2 { 2 } else { high as usize };
        width_px = most;
        height_px = at_least + at_least % 2;
    } else {
        width_px = natural as usize;
        height_px = tall;
    }
    let count: usize = height_px / 2;
    let mut lines: Vec<String> = Vec::new();
    let mut row: usize = 0;
    while row < count
        invariant
            row <= count,
            count == height_px / 2,
            raster.wf(),
            width_px > 0,
            height_px > 0,
            lines.len() == row,
            forall|i: int|
                0 <= i < row ==> (#[trigger] lines@[i])@ == art_line(
                    *raster,
                    i,
                    width_px as int,
                    height_px as int,
                ),
        decreases count - row,
    {
        let mut line: String = String::new();
        let mut x: usize = 0;
        assert(line@ =~= line_cells(*raster, row as int, 0, width_px as int, height_px as int));
        while x < width_px
            invariant
                x <= width_px,
                row < count,
                count == height_px / 2,
                raster.wf(),
                width_px > 0,
                height_px > 0,
                line@ == line_cells(
                    *raster,
                    row as int,
                    x as nat,
                    width_px as int,
                    height_px as int,
                ),
            decreases width_px - x,
        {
            let top: Pixel = sample(raster, x, row * 2, width_px, height_px);
            let bottom: Pixel = sample(raster, x, row * 2 + 1, width_px, height_px);
            let cell: String = halfblock_cell(top, bottom);
            line.append(&cell);
            x += 1;
        }
        line.append("\x1b[0m");
        lines.push(line);
        row += 1;
    }
    MathArt { lines: lines, cols: width_px }
}

/// A picture in a file as half blocks.
pub fn halfblock_art(png: &Vec<u8>, target_rows: usize, max_cols: usize) -> (r: Option<MathArt>)
    requires
        target_rows < usize::MAX / 2,
    ensures
        match r {
            Some(art) => exists|t: Raster|
                #[trigger] trims_to(png@, t) && draws(
                    art,
                    t,
                    target_rows as int,
                    max_cols as int,
                ),
            None => nothing_to_show(png@),
        },
{
    match decode_and_trim(png) {
        Some(raster) => Some(halfblock_from_raster(&raster, target_rows, max_cols)),
        None => None,
    }
}

/// A formula on lines of its own as half blocks: as many lines as it takes by
/// itself, at most `max_rows`.
pub fn render_block_math(png: &Vec<u8>, max_cols: usize, max_rows: usize, cell_height: u16) -> (r:
    Option<MathArt>)
    requires
        max_rows < usize::MAX / 2,
    ensures
        match r {
            Some(art) => exists|t: Raster|
                #[trigger] trims_to(png@, t) && draws(
                    art,
                    t,
                    block_rows(t.height as nat, cell_height as nat, max_rows as nat),
                    max_cols as int,
                ),
            None => nothing_to_show(png@),
        },
{
    match decode_and_trim(png) {
        Some(raster) => {
            let rows: usize = natural_block_rows(raster.height, cell_height, max_rows);
            let ghost t = raster;
            let art: MathArt = halfblock_from_raster(&raster, rows, max_cols);
            assert(trims_to(png@, t));
            Some(art)
        }
        None => None,
    }
}

proof fn lemma_art_size(width: int, height: int, target_rows: int, max_cols: int)
    requires
        width > 0,
        height > 0,
    ensures
        ({
            let size = art_size(width, height, target_rows, max_cols);
            &&& 1 <= size.0 <= (if max_cols < 1 { 1 } else { max_cols })
            &&& 1 <= size.1 / 2 <= (if target_rows < 1 { 1 } else { target_rows })
            &&& size.1 % 2 == 0
        }),
{
    let rows = if target_rows < 1 { 1 } else { target_rows };
    let most = if max_cols < 1 { 1 } else { max_cols };
    let wide = div_up(width * (rows * 2), height);
    let natural = if wide < 1 { 1 } else { wide };
    if natural > most {
        lemma_shrinks(width, height, rows * 2, most);
    }
}

/// Half blocks never take more lines than they were asked to, nor more columns than
/// there are, but that a picture has one line and one column in any case.
pub proof fn law_art_is_bounded(art: MathArt, raster: Raster, target_rows: int, max_cols: int)
    requires
        raster.wf(),
        draws(art, raster, target_rows, max_cols),
    ensures
        1 <= art.cols <= (if max_cols < 1 { 1 } else { max_cols }),
        1 <= art.lines.len() <= (if target_rows < 1 { 1 } else { target_rows }),
{
    lemma_art_size(raster.width as int, raster.height as int, target_rows, max_cols);
}

// ---------------------------------------------------------------------------
// Nothing but colours

/// A character between the opening and the end of a colour.
pub open spec fn is_parameter(c: char) -> bool {
    crate::text::is_digit(c) || c == ';'
}

pub open spec fn parameter_class() -> spec_fn(char) -> bool {
    |c: char| is_parameter(c)
}

/// Whether a text holds no escapes but colours: each is followed by an opening
/// bracket, numbers and an `m`.
pub open spec fn only_colours(s: Seq<char>) -> bool
    decreases s.len(),
{
    if s.len() == 0 {
        true
    } else if s[0] != '\x1b' {
        only_colours(s.drop_first())
    } else {
        let body = s.skip(2);
        let n = crate::text::span(body, parameter_class()) as int;
        s.len() >= 2 && s[1] == '[' && 0 <= n < body.len() && body[n] == 'm' && only_colours(
            body.skip(n + 1),
        )
    }
}

proof fn lemma_colours_join(a: Seq<char>, b: Seq<char>)
    requires
        only_colours(a),
        only_colours(b),
    ensures
        only_colours(a + b),
    decreases a.len(),
{
    if a.len() == 0 {
        assert(a + b =~= b);
    } else if a[0] != '\x1b' {
        lemma_colours_join(a.drop_first(), b);
        assert((a + b).drop_first() =~= a.drop_first() + b);
    } else {
        let body = a.skip(2);
        crate::text::lemma_span_bounds(body, parameter_class());
        let n = crate::text::span(body, parameter_class()) as int;
        let whole = (a + b).skip(2);
        assert(whole =~= body + b);
        assert forall|j: int| 0 <= j < n implies parameter_class()(#[trigger] whole[j]) by {
            assert(whole[j] == body[j]);
        }
        assert(!parameter_class()(whole[n]));
        crate::text::lemma_span(whole, parameter_class(), n);
        lemma_colours_join(body.skip(n + 1), b);
        assert(whole.skip(n + 1) =~= body.skip(n + 1) + b);
    }
}

proof fn lemma_plain(c: char)
    requires
        c != '\x1b',
    ensures
        only_colours(seq![c]),
{
    assert(seq![c].drop_first() =~= seq![]);
    assert(only_colours(seq![]));
}

proof fn lemma_colour_code(p: Seq<char>)
    requires
        forall|i: int| 0 <= i < p.len() ==> is_parameter(#[trigger] p[i]),
    ensures
        only_colours(seq!['\x1b', '['] + p + seq!['m']),
{
    let s = seq!['\x1b', '['] + p + seq!['m'];
    let body = s.skip(2);
    assert(body =~= p + seq!['m']);
    assert forall|j: int| 0 <= j < p.len() implies parameter_class()(#[trigger] body[j]) by {
        assert(body[j] == p[j]);
    }
    assert(!parameter_class()('m'));
    crate::text::lemma_span(body, parameter_class(), p.len() as int);
    assert(body.skip((p.len() + 1) as int) =~= seq![]);
    assert(only_colours(seq![]));
}

proof fn lemma_colour_numbers(p: Pixel)
    ensures
        forall|i: int| 0 <= i < colour(p).len() ==> is_parameter(#[trigger] colour(p)[i]),
{
    reveal_strlit(";");
    crate::numbers::law_decimal_reads_back(p.r as nat);
    crate::numbers::law_decimal_reads_back(p.g as nat);
    crate::numbers::law_decimal_reads_back(p.b as nat);
    let a = decimal(p.r as nat);
    let b = decimal(p.g as nat);
    let c = decimal(p.b as nat);
    let s = colour(p);
    assert forall|i: int| 0 <= i < s.len() implies is_parameter(#[trigger] s[i]) by {
        if i < a.len() {
            assert(s[i] == a[i]);
        } else if i == a.len() {
            assert(s[i] == ';');
        } else if i < a.len() + 1 + b.len() {
            assert(s[i] == b[i - a.len() - 1]);
        } else if i == a.len() + 1 + b.len() {
            assert(s[i] == ';');
        } else {
            assert(s[i] == c[i - a.len() - b.len() - 2]);
        }
    }
}

proof fn lemma_colour_of(p: Pixel, layer: char)
    requires
        layer == '3' || layer == '4',
    ensures
        only_colours(seq!['\x1b', '[', layer, '8', ';', '2', ';'] + colour(p) + seq!['m']),
{
    lemma_colour_numbers(p);
    let params = seq![layer, '8', ';', '2', ';'] + colour(p);
    assert forall|i: int| 0 <= i < params.len() implies is_parameter(#[trigger] params[i]) by {
        if i >= 5 {
            assert(params[i] == colour(p)[i - 5]);
        }
    }
    lemma_colour_code(params);
    assert(seq!['\x1b', '['] + params + seq!['m'] =~= seq!['\x1b', '[', layer, '8', ';', '2', ';']
        + colour(p) + seq!['m']);
}

proof fn lemma_cell_colours(top: Pixel, bottom: Pixel)
    ensures
        only_colours(cell_text(top, bottom)),
{
    reveal_strlit("\x1b[38;2;");
    reveal_strlit("m\x1b[48;2;");
    reveal_strlit("m▀");
    reveal_strlit("m▄");
    reveal_strlit("\x1b[49m\x1b[38;2;");
    reveal_strlit("\x1b[49m ");
    let clear = seq!['\x1b', '['] + seq!['4', '9'] + seq!['m'];
    lemma_colour_code(seq!['4', '9']);
    lemma_plain('▀');
    lemma_plain('▄');
    lemma_plain(' ');
    let up = seq!['\x1b', '[', '3', '8', ';', '2', ';'] + colour(top) + seq!['m'];
    let down = seq!['\x1b', '[', '3', '8', ';', '2', ';'] + colour(bottom) + seq!['m'];
    let back = seq!['\x1b', '[', '4', '8', ';', '2', ';'] + colour(bottom) + seq!['m'];
    lemma_colour_of(top, '3');
    lemma_colour_of(bottom, '3');
    lemma_colour_of(bottom, '4');
    if is_shown(top) && is_shown(bottom) {
        lemma_colours_join(up, back);
        lemma_colours_join(up + back, seq!['▀']);
        assert(cell_text(top, bottom) =~= up + back + seq!['▀']);
    } else if is_shown(top) {
        lemma_colours_join(clear, up);
        lemma_colours_join(clear + up, seq!['▀']);
        assert(cell_text(top, bottom) =~= clear + up + seq!['▀']);
    } else if is_shown(bottom) {
        lemma_colours_join(clear, down);
        lemma_colours_join(clear + down, seq!['▄']);
        assert(cell_text(top, bottom) =~= clear + down + seq!['▄']);
    } else {
        lemma_colours_join(clear, seq![' ']);
        assert(cell_text(top, bottom) =~= clear + seq![' ']);
    }
}

proof fn lemma_line_colours(r: Raster, row: int, n: nat, tw: int, th: int)
    ensures
        only_colours(line_cells(r, row, n, tw, th)),
    decreases n,
{
    if n > 0 {
        lemma_line_colours(r, row, (n - 1) as nat, tw, th);
        let top = sampled(r, n - 1, row * 2, tw, th);
        let bottom = sampled(r, n - 1, row * 2 + 1, tw, th);
        lemma_cell_colours(top, bottom);
        lemma_colours_join(line_cells(r, row, (n - 1) as nat, tw, th), cell_text(top, bottom));
    }
}

/// How many characters of a text stand outside its colours.
pub open spec fn glyphs(s: Seq<char>) -> nat
    decreases s.len(),
{
    if s.len() == 0 {
        0
    } else if s[0] != '\x1b' {
        1 + glyphs(s.drop_first())
    } else {
        let body = s.skip(2);
        let n = crate::text::span(body, parameter_class()) as int;
        if s.len() >= 2 && 0 <= n < body.len() {
            glyphs(body.skip(n + 1))
        } else {
            0
        }
    }
}

proof fn lemma_glyphs_join(a: Seq<char>, b: Seq<char>)
    requires
        only_colours(a),
    ensures
        glyphs(a + b) == glyphs(a) + glyphs(b),
    decreases a.len(),
{
    if a.len() == 0 {
        assert(a + b =~= b);
    } else if a[0] != '\x1b' {
        lemma_glyphs_join(a.drop_first(), b);
        assert((a + b).drop_first() =~= a.drop_first() + b);
    } else {
        let body = a.skip(2);
        crate::text::lemma_span_bounds(body, parameter_class());
        let n = crate::text::span(body, parameter_class()) as int;
        let whole = (a + b).skip(2);
        assert(whole =~= body + b);
        assert forall|j: int| 0 <= j < n implies parameter_class()(#[trigger] whole[j]) by {
            assert(whole[j] == body[j]);
        }
        assert(!parameter_class()(whole[n]));
        crate::text::lemma_span(whole, parameter_class(), n);
        lemma_glyphs_join(body.skip(n + 1), b);
        assert(whole.skip(n + 1) =~= body.skip(n + 1) + b);
    }
}

proof fn lemma_glyph(c: char)
    requires
        c != '\x1b',
    ensures
        glyphs(seq![c]) == 1,
{
    assert(seq![c].drop_first() =~= seq![]);
    assert(glyphs(Seq::<char>::empty()) == 0);
}

proof fn lemma_no_glyph(p: Seq<char>)
    requires
        forall|i: int| 0 <= i < p.len() ==> is_parameter(#[trigger] p[i]),
    ensures
        glyphs(seq!['\x1b', '['] + p + seq!['m']) == 0,
{
    let s = seq!['\x1b', '['] + p + seq!['m'];
    let body = s.skip(2);
    assert(body =~= p + seq!['m']);
    assert forall|j: int| 0 <= j < p.len() implies parameter_class()(#[trigger] body[j]) by {
        assert(body[j] == p[j]);
    }
    assert(!parameter_class()('m'));
    crate::text::lemma_span(body, parameter_class(), p.len() as int);
    assert(body.skip((p.len() + 1) as int) =~= seq![]);
    assert(glyphs(Seq::<char>::empty()) == 0);
}

proof fn lemma_no_glyph_in_colour(p: Pixel, layer: char)
    requires
        layer == '3' || layer == '4',
    ensures
        glyphs(seq!['\x1b', '[', layer, '8', ';', '2', ';'] + colour(p) + seq!['m']) == 0,
{
    lemma_colour_numbers(p);
    let params = seq![layer, '8', ';', '2', ';'] + colour(p);
    assert forall|i: int| 0 <= i < params.len() implies is_parameter(#[trigger] params[i]) by {
        if i >= 5 {
            assert(params[i] == colour(p)[i - 5]);
        }
    }
    lemma_no_glyph(params);
    assert(seq!['\x1b', '['] + params + seq!['m'] =~= seq!['\x1b', '[', layer, '8', ';', '2', ';']
        + colour(p) + seq!['m']);
}

proof fn lemma_cell_glyph(top: Pixel, bottom: Pixel)
    ensures
        glyphs(cell_text(top, bottom)) == 1,
{
    reveal_strlit("\x1b[38;2;");
    reveal_strlit("m\x1b[48;2;");
    reveal_strlit("m▀");
    reveal_strlit("m▄");
    reveal_strlit("\x1b[49m\x1b[38;2;");
    reveal_strlit("\x1b[49m ");
    let clear = seq!['\x1b', '['] + seq!['4', '9'] + seq!['m'];
    lemma_colour_code(seq!['4', '9']);
    lemma_no_glyph(seq!['4', '9']);
    lemma_glyph('▀');
    lemma_glyph('▄');
    lemma_glyph(' ');
    let up = seq!['\x1b', '[', '3', '8', ';', '2', ';'] + colour(top) + seq!['m'];
    let down = seq!['\x1b', '[', '3', '8', ';', '2', ';'] + colour(bottom) + seq!['m'];
    let back = seq!['\x1b', '[', '4', '8', ';', '2', ';'] + colour(bottom) + seq!['m'];
    lemma_colour_of(top, '3');
    lemma_colour_of(bottom, '3');
    lemma_colour_of(bottom, '4');
    lemma_no_glyph_in_colour(top, '3');
    lemma_no_glyph_in_colour(bottom, '3');
    lemma_no_glyph_in_colour(bottom, '4');
    if is_shown(top) && is_shown(bottom) {
        lemma_glyphs_join(back, seq!['▀']);
        lemma_glyphs_join(up, back + seq!['▀']);
        assert(cell_text(top, bottom) =~= up + (back + seq!['▀']));
    } else if is_shown(top) {
        lemma_glyphs_join(up, seq!['▀']);
        lemma_glyphs_join(clear, up + seq!['▀']);
        assert(cell_text(top, bottom) =~= clear + (up + seq!['▀']));
    } else if is_shown(bottom) {
        lemma_glyphs_join(down, seq!['▄']);
        lemma_glyphs_join(clear, down + seq!['▄']);
        assert(cell_text(top, bottom) =~= clear + (down + seq!['▄']));
    } else {
        lemma_glyphs_join(clear, seq![' ']);
        assert(cell_text(top, bottom) =~= clear + seq![' ']);
    }
}

proof fn lemma_line_glyphs(r: Raster, row: int, n: nat, tw: int, th: int)
    ensures
        glyphs(line_cells(r, row, n, tw, th)) == n,
    decreases n,
{
    if n > 0 {
        lemma_line_glyphs(r, row, (n - 1) as nat, tw, th);
        lemma_line_colours(r, row, (n - 1) as nat, tw, th);
        let top = sampled(r, n - 1, row * 2, tw, th);
        let bottom = sampled(r, n - 1, row * 2 + 1, tw, th);
        lemma_cell_glyph(top, bottom);
        lemma_glyphs_join(line_cells(r, row, (n - 1) as nat, tw, th), cell_text(top, bottom));
    }
}

/// Every line of half blocks holds one character for each column, besides its colours.
pub proof fn law_lines_are_as_wide_as_the_picture(
    art: MathArt,
    raster: Raster,
    target_rows: int,
    max_cols: int,
    i: int,
)
    requires
        raster.wf(),
        draws(art, raster, target_rows, max_cols),
        0 <= i < art.lines.len(),
    ensures
        glyphs(art.lines@[i]@) == art.cols,
{
    lemma_art_size(raster.width as int, raster.height as int, target_rows, max_cols);
    let size = art_size(raster.width as int, raster.height as int, target_rows, max_cols);
    let cells = line_cells(raster, i, size.0 as nat, size.0, size.1);
    assert(art.lines@[i]@ == art_line(raster, i, size.0, size.1));
    lemma_line_glyphs(raster, i, size.0 as nat, size.0, size.1);
    lemma_line_colours(raster, i, size.0 as nat, size.0, size.1);
    reveal_strlit("\x1b[0m");
    lemma_no_glyph(seq!['0']);
    assert("\x1b[0m"@ =~= seq!['\x1b', '['] + seq!['0'] + seq!['m']);
    lemma_glyphs_join(cells, "\x1b[0m"@);
}

/// Half blocks hold no escapes but colours.
pub proof fn law_half_blocks_hold_only_colours(r: Raster, row: int, tw: int, th: int)
    ensures
        only_colours(art_line(r, row, tw, th)),
{
    lemma_line_colours(r, row, tw as nat, tw, th);
    reveal_strlit("\x1b[0m");
    lemma_colour_code(seq!['0']);
    assert("\x1b[0m"@ =~= seq!['\x1b', '['] + seq!['0'] + seq!['m']);
    lemma_colours_join(line_cells(r, row, tw as nat, tw, th), "\x1b[0m"@);
}

// ---------------------------------------------------------------------------
// What a picture looks like

/// A picture that is drawn at its own size is drawn as it is.
pub proof fn law_a_picture_at_its_own_size(r: Raster, x: int, y: int)
    requires
        r.wf(),
        0 <= x < r.width,
        0 <= y < r.height,
    ensures
        sampled(r, x, y, r.width as int, r.height as int) == r.at(x, y),
{
    let (w, h) = (r.width as int, r.height as int);
    assert(x * w / w == x) by (nonlinear_arith)
        requires
            w > 0,
    ;
    assert(y * h / h == y) by (nonlinear_arith)
        requires
            h > 0,
    ;
}

/// A picture of one colour keeps that colour at every size.
pub proof fn law_one_colour_stays(r: Raster, p: Pixel, x: int, y: int, tw: int, th: int)
    requires
        r.wf(),
        0 <= x < tw,
        0 <= y < th,
        forall|i: int| 0 <= i < r.pixels.len() ==> #[trigger] r.pixels@[i] == p,
    ensures
        sampled(r, x, y, tw, th) == p,
{
    let (w, h) = (r.width as int, r.height as int);
    let (x0, y0) = (first_place(x, w, tw), first_place(y, h, th));
    let (x1, y1) = (last_place(x, w, tw), last_place(y, h, th));
    assert(x * w / tw >= 0) by (nonlinear_arith)
        requires
            x >= 0,
            w > 0,
            tw > 0,
    ;
    assert(y * h / th >= 0) by (nonlinear_arith)
        requires
            y >= 0,
            h > 0,
            th > 0,
    ;
    assert(0 <= x0 < x1 <= w);
    assert(0 <= y0 < y1 <= h);
    lemma_inside(r, x0, y0);
    assert(r.at(x0, y0) == p);
    let n = (x1 - x0) * (y1 - y0);
    assert(n > 0) by (nonlinear_arith)
        requires
            n == (x1 - x0) * (y1 - y0),
            x1 > x0,
            y1 > y0,
    ;
    lemma_box_of_one(r, p, 0, x0, x1, y0, y1);
    lemma_box_of_one(r, p, 1, x0, x1, y0, y1);
    lemma_box_of_one(r, p, 2, x0, x1, y0, y1);
    lemma_box_of_one(r, p, 3, x0, x1, y0, y1);
    lemma_divided(channel(p, 0), n);
    lemma_divided(channel(p, 1), n);
    lemma_divided(channel(p, 2), n);
    lemma_divided(channel(p, 3), n);
}

proof fn lemma_divided(c: int, n: int)
    requires
        n > 0,
    ensures
        c * n / n == c,
{
    assert(c * n / n == c) by (nonlinear_arith)
        requires
            n > 0,
    ;
}

proof fn lemma_inside(r: Raster, x: int, y: int)
    requires
        r.wf(),
        0 <= x < r.width,
        0 <= y < r.height,
    ensures
        0 <= y * r.width + x < r.pixels.len(),
{
    let (w, h) = (r.width as int, r.height as int);
    assert(0 <= y * w + x < w * h) by (nonlinear_arith)
        requires
            0 <= x < w,
            0 <= y < h,
    ;
}

proof fn lemma_row_of_one(r: Raster, p: Pixel, c: int, x0: int, x1: int, y: int)
    requires
        r.wf(),
        0 <= x0 <= x1 <= r.width,
        0 <= y < r.height,
        forall|i: int| 0 <= i < r.pixels.len() ==> #[trigger] r.pixels@[i] == p,
    ensures
        row_sum(r, c, x0, x1, y) == channel(p, c) * (x1 - x0),
    decreases x1 - x0,
{
    if x1 > x0 {
        lemma_row_of_one(r, p, c, x0, x1 - 1, y);
        lemma_inside(r, x1 - 1, y);
        assert(r.at(x1 - 1, y) == p);
        let k = channel(p, c);
        assert(k * (x1 - 1 - x0) + k == k * (x1 - x0)) by (nonlinear_arith);
    } else {
        assert(channel(p, c) * 0 == 0);
    }
}

proof fn lemma_box_of_one(r: Raster, p: Pixel, c: int, x0: int, x1: int, y0: int, y1: int)
    requires
        r.wf(),
        0 <= x0 <= x1 <= r.width,
        0 <= y0 <= y1 <= r.height,
        forall|i: int| 0 <= i < r.pixels.len() ==> #[trigger] r.pixels@[i] == p,
    ensures
        box_sum(r, c, x0, x1, y0, y1) == channel(p, c) * ((x1 - x0) * (y1 - y0)),
    decreases y1 - y0,
{
    let k = channel(p, c);
    let m = x1 - x0;
    if y1 > y0 {
        lemma_box_of_one(r, p, c, x0, x1, y0, y1 - 1);
        lemma_row_of_one(r, p, c, x0, x1, y1 - 1);
        let d = y1 - y0;
        assert(k * (m * (d - 1)) + k * m == k * (m * d)) by (nonlinear_arith);
    } else {
        assert(k * (m * 0) == 0) by (nonlinear_arith);
    }
}

/// A cell shows both of its pixels: the upper one above, the lower one below, and nothing of
/// one that is clear.
pub proof fn law_a_cell_shows_its_pixels(top: Pixel, bottom: Pixel)
    ensures
        top.a >= 24 && bottom.a >= 24 ==> cell_text(top, bottom) == "\x1b[38;2;"@ + colour(top)
            + "m\x1b[48;2;"@ + colour(bottom) + "m▀"@,
        top.a >= 24 && bottom.a < 24 ==> cell_text(top, bottom) == "\x1b[49m\x1b[38;2;"@ + colour(
            top,
        ) + "m▀"@,
        top.a < 24 && bottom.a >= 24 ==> cell_text(top, bottom) == "\x1b[49m\x1b[38;2;"@ + colour(
            bottom,
        ) + "m▄"@,
        top.a < 24 && bottom.a < 24 ==> cell_text(top, bottom) == "\x1b[49m "@,
        colour(top) == decimal(top.r as nat) + ";"@ + decimal(top.g as nat) + ";"@ + decimal(
            top.b as nat,
        ),
{
}

/// The bytes of a picture are read pixel by pixel: red, green, blue, and how opaque it is.
pub proof fn law_bytes_of_pixels(raw: Seq<u8>, i: int)
    requires
        0 <= 4 * i,
        4 * i + 4 <= raw.len(),
    ensures
        pixels_of(raw).len() == raw.len() / 4,
        pixels_of(raw)[i].r == raw[4 * i],
        pixels_of(raw)[i].g == raw[4 * i + 1],
        pixels_of(raw)[i].b == raw[4 * i + 2],
        pixels_of(raw)[i].a == raw[4 * i + 3],
{
}

/// A formula takes as many rows as half its height needs, and no more than it may.
pub proof fn law_rows_of_a_formula(height: nat, cell: nat, most: nat)
    requires
        cell > 0,
        most > 0,
        height > 0,
    ensures
        block_rows(height, cell, most) <= most,
        height <= 2 * (most * cell) ==> 2 * (block_rows(height, cell, most) * cell) >= height,
        block_rows(height, cell, most) > 1 ==> 2 * ((block_rows(height, cell, most) - 1) * cell)
            < height,
{
    let h = div_up(height as int, 2);
    let c = cell as int;
    let m = most as int;
    let n = div_up(h, c);
    assert(2 * h >= height && 2 * (h - 1) < height);
    assert(n * c >= h && (n - 1) * c < h && n >= 1) by (nonlinear_arith)
        requires
            n == (h + c - 1) / c,
            c > 0,
            h > 0,
    ;
    if n > m {
        assert((m - 1) * c < h) by (nonlinear_arith)
            requires
                (n - 1) * c < h,
                n > m,
                c > 0,
        ;
        assert(m * c < h) by (nonlinear_arith)
            requires
                (n - 1) * c < h,
                n > m,
                c > 0,
        ;
        assert(2 * (m * c) < 2 * h);
        if height <= 2 * (m * c) {
            assert(h <= m * c);
        }
    }
}

} // verus!
