//! Framing the window icon: trimming transparent borders and centring the
//! artwork on a square canvas.
use vstd::prelude::*;

verus! {

/// An RGBA image: `width * height` pixels of four bytes each, row by row.
pub struct IconImage {
    pub width: u32,
    pub height: u32,
    pub rgba: Vec<u8>,
}

impl IconImage {
    /// The buffer holds exactly the image's pixels.
    pub open spec fn wf(&self) -> bool {
        self.rgba@.len() == 4 * self.width * self.height
    }

    /// The alpha byte of pixel `(x, y)`.
    pub open spec fn alpha(&self, x: int, y: int) -> u8 {
        self.rgba@[4 * (y * self.width + x) + 3]
    }

    /// Pixel `(x, y)` exists and is not fully transparent.
    pub open spec fn opaque(&self, x: int, y: int) -> bool {
        0 <= x < self.width && 0 <= y < self.height && self.alpha(x, y) > 0
    }

    /// Byte `k` of pixel `(x, y)`.
    pub open spec fn byte(&self, x: int, y: int, k: int) -> u8 {
        self.rgba@[4 * (y * self.width + x) + k]
    }
}

/// `(x0, y0, x1, y1)` is the smallest box (inclusive corners) holding every
/// non-transparent pixel of `img`.
pub open spec fn is_content_box(img: IconImage, b: (u32, u32, u32, u32)) -> bool {
    let (x0, y0, x1, y1) = b;
    &&& x0 <= x1 < img.width
    &&& y0 <= y1 < img.height
    &&& forall|x: int, y: int| #[trigger] img.opaque(x, y) ==> x0 <= x <= x1 && y0 <= y <= y1
    &&& exists|y: int| #[trigger] img.opaque(x0 as int, y)
    &&& exists|y: int| #[trigger] img.opaque(x1 as int, y)
    &&& exists|x: int| #[trigger] img.opaque(x, y0 as int)
    &&& exists|x: int| #[trigger] img.opaque(x, y1 as int)
}

proof fn lemma_pixel_index(w: int, h: int, x: int, y: int)
    requires
        0 <= x < w,
        0 <= y < h,
    ensures
        0 <= y * w + x,
        y * w + x + 1 <= w * h,
        y * w + w <= w * h,
        4 * w * h == 4 * (w * h),
{
    assert(4 * w * h == 4 * (w * h)) by (nonlinear_arith);
    assert(y * w + x + 1 <= w * h) by (nonlinear_arith)
        requires
            0 <= x < w,
            0 <= y < h,
    ;
    assert(y * w + w <= w * h) by (nonlinear_arith)
        requires
            0 <= x < w,
            0 <= y < h,
    ;
    assert(0 <= y * w) by (nonlinear_arith)
        requires
            0 <= y,
            0 <= w,
    ;
}

proof fn lemma_row_step(w: int, h: int, y: int)
    requires
        0 <= w,
        0 <= y < h,
    ensures
        y * w + w <= w * h,
        4 * w * h == 4 * (w * h),
        y * w + w == (y + 1) * w,
{
    assert(y * w + w <= w * h) by (nonlinear_arith)
        requires
            0 <= w,
            0 <= y < h,
    ;
    assert(4 * w * h == 4 * (w * h)) by (nonlinear_arith);
    assert(y * w + w == (y + 1) * w) by (nonlinear_arith);
}

/// The box around the non-transparent pixels, or `None` where there are
/// none.
#[verifier::spinoff_prover]
pub fn opaque_bounds(img: &IconImage) -> (r: Option<(u32, u32, u32, u32)>)
    requires
        img.wf(),
    ensures
        r is None <==> forall|x: int, y: int| !#[trigger] img.opaque(x, y),
        r matches Some(b) ==> is_content_box(*img, b),
{
    let w = img.width;
    let h = img.height;
    let mut found = false;
    let mut min_x: u32 = w;
    let mut min_y: u32 = h;
    let mut max_x: u32 = 0;
    let mut max_y: u32 = 0;
    let ghost mut wy_min_x: int = 0;
    let ghost mut wy_max_x: int = 0;
    let ghost mut wx_min_y: int = 0;
    let ghost mut wx_max_y: int = 0;
    let len = img.rgba.len();
    let mut row: usize = 0;
    let mut y: u32 = 0;
    while y < h
        invariant
            img.wf(),
            len == img.rgba@.len(),
            w == img.width,
            h == img.height,
            y <= h,
            row == y * w,
            found <==> exists|x: int, yy: int| yy < y && #[trigger] img.opaque(x, yy),
            forall|x: int, yy: int| yy < y && #[trigger] img.opaque(x, yy) ==> min_x <= x
                <= max_x && min_y <= yy <= max_y,
            found ==> {
                &&& max_x < w && max_y < h
                &&& img.opaque(min_x as int, wy_min_x)
                &&& img.opaque(max_x as int, wy_max_x)
                &&& img.opaque(wx_min_y, min_y as int)
                &&& img.opaque(wx_max_y, max_y as int)
            },
        decreases h - y,
    {
        let mut x: u32 = 0;
        while x < w
            invariant
                img.wf(),
                len == img.rgba@.len(),
                w == img.width,
                h == img.height,
                y < h,
                x <= w,
                row == y * w,
                found <==> exists|xx: int, yy: int|
                    (yy < y || (yy == y && xx < x)) && #[trigger] img.opaque(xx, yy),
                forall|xx: int, yy: int|
                    (yy < y || (yy == y && xx < x)) && #[trigger] img.opaque(xx, yy) ==> min_x
                        <= xx <= max_x && min_y <= yy <= max_y,
                found ==> {
                    &&& max_x < w && max_y < h
                    &&& img.opaque(min_x as int, wy_min_x)
                    &&& img.opaque(max_x as int, wy_max_x)
                    &&& img.opaque(wx_min_y, min_y as int)
                    &&& img.opaque(wx_max_y, max_y as int)
                },
            decreases w - x,
        {
            proof {
                lemma_pixel_index(w as int, h as int, x as int, y as int);
            }
            let a = img.rgba[4 * (row + x as usize) + 3];
            if a > 0 {
                if !found || x < min_x {
                    min_x = x;
                    proof {
                        wy_min_x = y as int;
                    }
                }
                if !found || y < min_y {
                    min_y = y;
                    proof {
                        wx_min_y = x as int;
                    }
                }
                if !found || x > max_x {
                    max_x = x;
                    proof {
                        wy_max_x = y as int;
                    }
                }
                if !found || y > max_y {
                    max_y = y;
                    proof {
                        wx_max_y = x as int;
                    }
                }
                found = true;
                assert(img.opaque(x as int, y as int));
            }
            x = x + 1;
        }
        proof {
            lemma_row_step(w as int, h as int, y as int);
        }
        row = row + w as usize;
        y = y + 1;
    }
    if found {
        proof {
            assert(img.opaque(min_x as int, wy_min_x));
            assert(img.opaque(max_x as int, wy_max_x));
            assert(img.opaque(wx_min_y, min_y as int));
            assert(img.opaque(wx_max_y, max_y as int));
        }
        Some((min_x, min_y, max_x, max_y))
    } else {
        None
    }
}

} // verus!

verus! {

/// `r` is the `w` by `h` region of `img` whose top-left pixel is `(x, y)`.
pub open spec fn is_region(img: IconImage, r: IconImage, x: int, y: int, w: int, h: int) -> bool {
    &&& r.width == w
    &&& r.height == h
    &&& r.wf()
    &&& forall|i: int, j: int, k: int|
        0 <= i < w && 0 <= j < h && 0 <= k < 4 ==> #[trigger] r.byte(i, j, k) == img.byte(
            x + i,
            y + j,
            k,
        )
}

/// Calls `image::imageops::crop_imm` and copies the region out with
/// `SubImage::to_image`. Claimed, for a region inside the image: the result
/// is that region, pixel for pixel.
#[verifier::external_body]
pub(crate) fn crop(img: &IconImage, x: u32, y: u32, w: u32, h: u32) -> (r: IconImage)
    requires
        img.wf(),
        x + w <= img.width,
        y + h <= img.height,
    ensures
        is_region(*img, r, x as int, y as int, w as int, h as int),
{
    let buf = image::RgbaImage::from_raw(img.width, img.height, img.rgba.clone()).unwrap();
    let out = image::imageops::crop_imm(&buf, x, y, w, h).to_image();
    IconImage { width: out.width(), height: out.height(), rgba: out.into_raw() }
}

/// What `image::imageops::overlay` leaves in a `bottom_w` by `bottom_h`
/// image `bottom` after blending the image `top` over it with its top-left
/// corner at `(x, y)`.
pub uninterp spec fn overlaid(
    bottom_w: u32,
    bottom_h: u32,
    bottom: Seq<u8>,
    top_w: u32,
    top_h: u32,
    top: Seq<u8>,
    x: u32,
    y: u32,
) -> Seq<u8>;

/// `r` is `bottom` with `top` placed at `(x, y)`: pixels outside the placed
/// region are as in `bottom`; inside it, a fully opaque pixel of `top` is
/// copied and a fully transparent one leaves `bottom`'s pixel as it was.
pub open spec fn placed_over(r: IconImage, bottom: IconImage, top: IconImage, x: int, y: int) -> bool {
    forall|i: int, j: int, k: int|
        0 <= i < bottom.width && 0 <= j < bottom.height && 0 <= k < 4 ==> {
            let inside = x <= i < x + top.width && y <= j < y + top.height;
            &&& !inside ==> #[trigger] r.byte(i, j, k) == bottom.byte(i, j, k)
            &&& inside && top.alpha(i - x, j - y) == 255 ==> r.byte(i, j, k) == top.byte(
                i - x,
                j - y,
                k,
            )
            &&& inside && top.alpha(i - x, j - y) == 0 ==> r.byte(i, j, k) == bottom.byte(
                i,
                j,
                k,
            )
        }
}

/// Calls `image::imageops::overlay` to blend `top` over `bottom` at
/// `(x, y)`. Claimed: the dimensions stay those of `bottom`; the pixels are a
/// function of the two images and the position; pixels outside the placed
/// region are untouched, and inside it `Rgba::blend` copies a fully opaque
/// pixel of `top` and leaves the pixel under a fully transparent one.
#[verifier::external_body]
pub(crate) fn overlay_onto(bottom: IconImage, top: &IconImage, x: u32, y: u32) -> (r: IconImage)
    requires
        bottom.wf(),
        top.wf(),
    ensures
        r.width == bottom.width,
        r.height == bottom.height,
        r.wf(),
        r.rgba@ == overlaid(
            bottom.width,
            bottom.height,
            bottom.rgba@,
            top.width,
            top.height,
            top.rgba@,
            x,
            y,
        ),
        placed_over(r, bottom, *top, x as int, y as int),
{
    let mut b = image::RgbaImage::from_raw(bottom.width, bottom.height, bottom.rgba).unwrap();
    let t = image::RgbaImage::from_raw(top.width, top.height, top.rgba.clone()).unwrap();
    image::imageops::overlay(&mut b, &t, x as i64, y as i64);
    IconImage { width: bottom.width, height: bottom.height, rgba: b.into_raw() }
}

/// The image cut down to the box around its non-transparent pixels, or
/// `None` where every pixel is transparent.
pub fn trim_to_content(img: &IconImage) -> (r: Option<IconImage>)
    requires
        img.wf(),
    ensures
        r is None <==> forall|x: int, y: int| !#[trigger] img.opaque(x, y),
        r matches Some(t) ==> exists|b: (u32, u32, u32, u32)|
            #[trigger] is_content_box(*img, b) && is_region(
                *img,
                t,
                b.0 as int,
                b.1 as int,
                b.2 - b.0 + 1,
                b.3 - b.1 + 1,
            ),
{
    match opaque_bounds(img) {
        Some(b) => {
            let (x0, y0, x1, y1) = b;
            let t = crop(img, x0, y0, x1 - x0 + 1, y1 - y0 + 1);
            assert(is_content_box(*img, b));
            Some(t)
        },
        None => None,
    }
}

/// The `new_w` by `new_h` region in the middle of the image (rounding the
/// margins down on the left and top).
pub fn center_crop(img: &IconImage, new_w: u32, new_h: u32) -> (r: IconImage)
    requires
        img.wf(),
        new_w <= img.width,
        new_h <= img.height,
    ensures
        is_region(
            *img,
            r,
            (img.width - new_w) / 2,
            (img.height - new_h) / 2,
            new_w as int,
            new_h as int,
        ),
{
    let x = (img.width - new_w) / 2;
    let y = (img.height - new_h) / 2;
    crop(img, x, y, new_w, new_h)
}

/// The side of the square canvas for content of `w` by `h`: the larger
/// side plus a margin of a thirty-second of it on each side.
pub open spec fn canvas_side(w: u32, h: u32) -> int {
    let c = if w >= h {
        w as int
    } else {
        h as int
    };
    c + 2 * (c / 32)
}

/// The canvas side, and where content of `w` by `h` goes to be centred on
/// it (rounding down).
pub fn square_layout(w: u32, h: u32) -> (r: (u32, u32, u32))
    requires
        canvas_side(w, h) <= u32::MAX,
    ensures
        r.0 == canvas_side(w, h),
        r.1 == (canvas_side(w, h) - w) / 2,
        r.2 == (canvas_side(w, h) - h) / 2,
{
    let content = if w >= h {
        w
    } else {
        h
    };
    let margin = content / 32;
    let side = content + margin * 2;
    (side, (side - w) / 2, (side - h) / 2)
}

/// The image centred on a transparent square canvas with a small margin.
pub fn pad_to_square(img: &IconImage) -> (r: IconImage)
    requires
        img.wf(),
        canvas_side(img.width, img.height) <= u32::MAX,
        4 * canvas_side(img.width, img.height) * canvas_side(img.width, img.height)
            <= usize::MAX,
    ensures
        r.width == canvas_side(img.width, img.height),
        r.height == canvas_side(img.width, img.height),
        r.wf(),
        r.rgba@ == overlaid(
            r.width,
            r.height,
            Seq::new((4 * r.width * r.height) as nat, |i: int| 0u8),
            img.width,
            img.height,
            img.rgba@,
            ((r.width - img.width) / 2) as u32,
            ((r.height - img.height) / 2) as u32,
        ),
        forall|i: int, j: int, k: int|
            0 <= i < r.width && 0 <= j < r.height && 0 <= k < 4 ==> {
                let px = (r.width - img.width) / 2;
                let py = (r.height - img.height) / 2;
                let inside = px <= i < px + img.width && py <= j < py + img.height;
                &&& !inside ==> #[trigger] r.byte(i, j, k) == 0
                &&& inside && img.alpha(i - px, j - py) == 255 ==> r.byte(i, j, k) == img.byte(
                    i - px,
                    j - py,
                    k,
                )
                &&& inside && img.alpha(i - px, j - py) == 0 ==> r.byte(i, j, k) == 0
            },
{
    let (side, x, y) = square_layout(img.width, img.height);
    proof {
        let sd = side as int;
        assert(4 * sd <= 4 * sd * sd || sd == 0) by (nonlinear_arith)
            requires
                sd >= 0,
        ;
    }
    let n = 4 * (side as usize) * (side as usize);
    let canvas = IconImage { width: side, height: side, rgba: vec![0u8; n] };
    assert(canvas.rgba@ =~= Seq::new((4 * side * side) as nat, |i: int| 0u8));
    assert forall|i: int, j: int, k: int|
        0 <= i < side && 0 <= j < side && 0 <= k < 4 implies #[trigger] canvas.byte(i, j, k)
        == 0 by {
        lemma_pixel_index(side as int, side as int, i, j);
    }
    let ghost c = canvas;
    let r = overlay_onto(canvas, img, x, y);
    assert forall|i: int, j: int, k: int|
        0 <= i < r.width && 0 <= j < r.height && 0 <= k < 4 implies c.byte(i, j, k) == 0 by {
        assert(c.byte(i, j, k) == 0);
    }
    r
}

/// What decoding `bytes` as an image and converting it to 8-bit RGBA gives:
/// width, height and pixels, or `None` where the bytes are not an image.
pub uninterp spec fn decoded_rgba(bytes: Seq<u8>) -> Option<(u32, u32, Seq<u8>)>;

/// Calls `image::load_from_memory` and `DynamicImage::into_rgba8`. Claimed:
/// the result is a function of the bytes, and a decoded image's buffer holds
/// exactly its pixels (the decoder allocates width times height pixels, and
/// the conversion to RGBA does the same).
#[verifier::external_body]
fn decode_rgba(bytes: &[u8]) -> (r: Option<IconImage>)
    ensures
        r is None <==> decoded_rgba(bytes@) is None,
        r matches Some(i) ==> i.wf() && decoded_rgba(bytes@) == Some((i.width, i.height, i.rgba@)),
{
    match image::load_from_memory(bytes) {
        Ok(d) => {
            let i = d.into_rgba8();
            Some(IconImage { width: i.width(), height: i.height(), rgba: i.into_raw() })
        },
        Err(_) => None,
    }
}

/// The icon image that the bytes of an image file decode to, or `None`
/// where they are not an image.
pub fn decode_icon(bytes: &[u8]) -> (r: Option<IconImage>)
    ensures
        r is None <==> decoded_rgba(bytes@) is None,
        r matches Some(i) ==> i.wf() && decoded_rgba(bytes@) == Some((i.width, i.height, i.rgba@)),
{
    decode_rgba(bytes)
}

} // verus!
