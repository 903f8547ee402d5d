//! Decoding, resizing and re-encoding of raster images.
//!
//! A decoded image is held as a plain `Bitmap` (dimensions plus tightly
//! packed RGBA bytes), so everything between the outside calls — above all
//! the choice of the derivative's dimensions — is ordinary verified code.
//! The bounding-box arithmetic (`fit_dimensions`) is proved to keep both
//! sides within the target and to preserve the aspect ratio up to rounding.

use vstd::arithmetic::div_mod::lemma_fundamental_div_mod;
use vstd::prelude::*;

use image::codecs::png::PngEncoder;
use image::codecs::webp::WebPEncoder;
use image::imageops::FilterType;
use image::ExtendedColorType;
use image::ImageEncoder;
use image::RgbaImage;

verus! {

/// A decoded raster image: `rgba` holds `4 * width * height` bytes, row by
/// row, four bytes per pixel.
pub struct Bitmap {
    /// Width in pixels.
    pub width: u32,
    /// Height in pixels.
    pub height: u32,
    /// Tightly packed RGBA samples.
    pub rgba: Vec<u8>,
}

impl Bitmap {
    /// The pixel buffer has exactly the size the dimensions call for.
    pub open spec fn wf(self) -> bool {
        self.rgba@.len() == 4 * self.width * self.height
    }
}

/// What `image::load_from_memory` followed by conversion to RGBA yields for
/// the given input bytes: `None` when the bytes are not a decodable image,
/// otherwise width, height and the packed RGBA samples. Decoding is a pure
/// function of the bytes.
pub uninterp spec fn decoded_image(raw: Seq<u8>) -> Option<(u32, u32, Seq<u8>)>;

/// The RGBA samples `image::imageops::resize` produces for the given source
/// image and target dimensions, with the Lanczos filter used here.
pub uninterp spec fn resized_rgba(w: u32, h: u32, rgba: Seq<u8>, nw: u32, nh: u32) -> Seq<u8>;

/// The bytes of the lossless WebP encoding of the given RGBA image.
pub uninterp spec fn webp_bytes(w: u32, h: u32, rgba: Seq<u8>) -> Seq<u8>;

/// The derivative the store produces from `raw` at target dimension
/// `max_dim`: the decoded image, resized to fit a `max_dim` square, losslessly
/// re-encoded as WebP.
pub open spec fn derived_webp(raw: Seq<u8>, max_dim: u32) -> Seq<u8> {
    let t = decoded_image(raw)->0;
    let fw = fit_width(t.0 as int, t.1 as int, max_dim as int) as u32;
    let fh = fit_height(t.0 as int, t.1 as int, max_dim as int) as u32;
    webp_bytes(fw, fh, resized_rgba(t.0, t.1, t.2, fw, fh))
}

/// Whether the bytes decode to an image this store can derive from: a
/// recognizable encoding with at least one pixel on each side.
pub open spec fn derivable(raw: Seq<u8>) -> bool {
    decoded_image(raw) matches Some(t) && t.0 >= 1 && t.1 >= 1
}

/// Relies on image::load_from_memory and DynamicImage::to_rgba8: guesses the
/// format, decodes, and converts to tightly packed RGBA (four bytes per
/// pixel, so the buffer length is exactly 4 * width * height).
#[verifier::external_body]
pub fn decode_image(raw: &[u8]) -> (r: Option<Bitmap>)
    ensures
        r is Some <==> decoded_image(raw@) is Some,
        r matches Some(bm) ==> decoded_image(raw@) == Some((bm.width, bm.height, bm.rgba@))
            && bm.rgba@.len() == 4 * bm.width * bm.height,
{
    match image::load_from_memory(raw) {
        Ok(img) => {
            let width = img.width();
            let height = img.height();
            let rgba = img.to_rgba8().into_raw();
            Some(Bitmap { width, height, rgba })
        },
        Err(_) => None,
    }
}

/// Relies on image::imageops::resize with the Lanczos3 filter: the result
/// has exactly the requested dimensions, and its samples are a function of
/// the source image and those dimensions alone.
#[verifier::external_body]
pub fn resize_image(bm: &Bitmap, nw: u32, nh: u32) -> (r: Bitmap)
    requires
        bm.wf(),
        1 <= bm.width,
        1 <= bm.height,
        1 <= nw,
        1 <= nh,
        4 * nw * nh <= usize::MAX,
    ensures
        r.width == nw,
        r.height == nh,
        r.wf(),
        r.rgba@ == resized_rgba(bm.width, bm.height, bm.rgba@, nw, nh),
{
    let src = RgbaImage::from_raw(bm.width, bm.height, bm.rgba.clone()).unwrap();
    let out = image::imageops::resize(&src, nw, nh, FilterType::Lanczos3);
    Bitmap { width: nw, height: nh, rgba: out.into_raw() }
}

/// Relies on image's lossless WebP encoder (image_webp::WebPEncoder): for a
/// correctly sized RGBA buffer with both dimensions in 1..=16384 the encode
/// cannot fail (its only error cases are zero or oversized dimensions and
/// writer errors, and writing to a Vec cannot fail), and the output bytes
/// are a function of the image alone.
#[verifier::external_body]
pub fn encode_webp(bm: &Bitmap) -> (r: Vec<u8>)
    requires
        bm.wf(),
        1 <= bm.width <= 16384,
        1 <= bm.height <= 16384,
    ensures
        r@ == webp_bytes(bm.width, bm.height, bm.rgba@),
{
    let mut out: Vec<u8> = Vec::new();
    let encoder = WebPEncoder::new_lossless(&mut out);
    encoder.encode(&bm.rgba, bm.width, bm.height, ExtendedColorType::Rgba8).unwrap();
    out
}

/// The bytes of the PNG encoding of the given RGBA image.
pub uninterp spec fn png_encoding(w: u32, h: u32, rgba: Seq<u8>) -> Seq<u8>;

/// Relies on image's PNG encoder: the output bytes are a function of the
/// image alone. Encoding a correctly sized buffer can still be refused (the
/// underlying format rejects some dimensions), so the result stays an Option
/// with nothing promised of the failure case.
#[verifier::external_body]
fn encode_png(bm: &Bitmap) -> (r: Option<Vec<u8>>)
    requires
        bm.wf(),
        1 <= bm.width,
        1 <= bm.height,
    ensures
        r matches Some(b) ==> b@ == png_encoding(bm.width, bm.height, bm.rgba@),
{
    let mut out: Vec<u8> = Vec::new();
    let encoder = PngEncoder::new(&mut out);
    match encoder.write_image(&bm.rgba, bm.width, bm.height, ExtendedColorType::Rgba8) {
        Ok(()) => Some(out),
        Err(_) => None,
    }
}

/// Decode arbitrary image bytes and re-encode them as PNG, the normal form
/// every ingested page is stored in. Undecodable bytes (or an image with an
/// empty side) yield nothing.
pub fn convert_image_to_png(raw: &[u8]) -> (r: Option<Vec<u8>>)
    ensures
        decoded_image(raw@) is None ==> r is None,
        r matches Some(b) ==> (decoded_image(raw@) matches Some(t) && b@ == png_encoding(
            t.0,
            t.1,
            t.2,
        )),
{
    match decode_image(raw) {
        Option::Some(bm) => {
            if bm.width == 0 || bm.height == 0 {
                None
            } else {
                encode_png(&bm)
            }
        },
        Option::None => None,
    }
}

/// Integer division of `a` by `b`, rounded to the nearest integer (half up).
pub open spec fn rounded_div(a: int, b: int) -> int {
    (2 * a + b) / (2 * b)
}

/// Width of the largest image with the aspect ratio of a `w` by `h` image
/// that fits in a `d` by `d` box.
pub open spec fn fit_width(w: int, h: int, d: int) -> int {
    if w >= h {
        d
    } else {
        let q = rounded_div(w * d, h);
        if q >= 1 {
            q
        } else {
            1
        }
    }
}

/// Height of the largest image with the aspect ratio of a `w` by `h` image
/// that fits in a `d` by `d` box.
pub open spec fn fit_height(w: int, h: int, d: int) -> int {
    if w >= h {
        let q = rounded_div(h * d, w);
        if q >= 1 {
            q
        } else {
            1
        }
    } else {
        d
    }
}

proof fn lemma_rounded_div_bounds(a: int, b: int)
    requires
        a >= 0,
        b >= 1,
    ensures
        rounded_div(a, b) >= 0,
        2 * (rounded_div(a, b) * b - a) <= b,
        2 * (a - rounded_div(a, b) * b) < b,
{
    let q = (2 * a + b) / (2 * b);
    lemma_fundamental_div_mod(2 * a + b, 2 * b);
    let r = (2 * a + b) % (2 * b);
    assert(2 * a + b == 2 * b * q + r);
    assert(0 <= r < 2 * b) by {
        vstd::arithmetic::div_mod::lemma_mod_bound(2 * a + b, 2 * b);
    }
    assert(q >= 0) by (nonlinear_arith)
        requires
            2 * a + b == 2 * b * q + r,
            a >= 0,
            b >= 1,
            r < 2 * b,
    ;
    assert(2 * (q * b - a) <= b && 2 * (a - q * b) < b) by (nonlinear_arith)
        requires
            2 * a + b == 2 * b * q + r,
            0 <= r < 2 * b,
    ;
}

/// The bounding-box dimensions stay within the box, never collapse to zero,
/// and preserve the source aspect ratio to within the rounding of one pixel:
/// scaled across the longer source side, the error is below one.
pub proof fn lemma_fit_dimensions(w: int, h: int, d: int)
    requires
        1 <= w,
        1 <= h,
        1 <= d,
    ensures
        1 <= fit_width(w, h, d) <= d,
        1 <= fit_height(w, h, d) <= d,
        fit_width(w, h, d) == d || fit_height(w, h, d) == d,
        w >= h ==> fit_height(w, h, d) * w - h * d <= w && h * d - fit_height(w, h, d) * w <= w,
        w < h ==> fit_width(w, h, d) * h - w * d <= h && w * d - fit_width(w, h, d) * h <= h,
{
    if w >= h {
        let a = h * d;
        let q = rounded_div(a, w);
        assert(a >= 1) by (nonlinear_arith)
            requires
                a == h * d,
                h >= 1,
                d >= 1,
        ;
        lemma_rounded_div_bounds(a, w);
        assert(q <= d) by (nonlinear_arith)
            requires
                2 * (q * w - a) <= w,
                a == h * d,
                h <= w,
                1 <= w,
                1 <= d,
                1 <= h,
        ;
        if q >= 1 {
            assert(fit_height(w, h, d) == q);
            assert(q * w - h * d <= w && h * d - q * w <= w) by (nonlinear_arith)
                requires
                    2 * (q * w - a) <= w,
                    2 * (a - q * w) < w,
                    a == h * d,
                    w >= 1,
            ;
        } else {
            assert(fit_height(w, h, d) == 1);
            assert(2 * (a - q * w) < w);
            assert(1 * w - h * d <= w && h * d - 1 * w <= w) by (nonlinear_arith)
                requires
                    2 * (a - q * w) < w,
                    q == 0,
                    a == h * d,
                    a >= 1,
                    w >= 1,
            ;
        }
    } else {
        let a = w * d;
        let q = rounded_div(a, h);
        assert(a >= 1) by (nonlinear_arith)
            requires
                a == w * d,
                w >= 1,
                d >= 1,
        ;
        lemma_rounded_div_bounds(a, h);
        assert(q <= d) by (nonlinear_arith)
            requires
                2 * (q * h - a) <= h,
                a == w * d,
                w < h,
                1 <= h,
                1 <= d,
                1 <= w,
        ;
        if q >= 1 {
            assert(fit_width(w, h, d) == q);
            assert(q * h - w * d <= h && w * d - q * h <= h) by (nonlinear_arith)
                requires
                    2 * (q * h - a) <= h,
                    2 * (a - q * h) < h,
                    a == w * d,
                    h >= 1,
            ;
        } else {
            assert(fit_width(w, h, d) == 1);
            assert(1 * h - w * d <= h && w * d - 1 * h <= h) by (nonlinear_arith)
                requires
                    2 * (a - q * h) < h,
                    q == 0,
                    a == w * d,
                    a >= 1,
                    h >= 1,
            ;
        }
    }
}

/// The dimension invariant of every derivative: for any derivable input and
/// target `d`, the derivative is the WebP encoding of an image whose sides
/// both stay within `d`, the longer side reaches `d` exactly, and whose
/// aspect ratio matches the source's to within the rounding of one pixel
/// (the cross products differ by at most the longer source side).
pub proof fn lemma_derivative_dimensions(raw: Seq<u8>, max_dim: u32)
    requires
        derivable(raw),
        1 <= max_dim,
    ensures
        ({
            let t = decoded_image(raw)->0;
            let fw = fit_width(t.0 as int, t.1 as int, max_dim as int);
            let fh = fit_height(t.0 as int, t.1 as int, max_dim as int);
            &&& derived_webp(raw, max_dim) == webp_bytes(
                fw as u32,
                fh as u32,
                resized_rgba(t.0, t.1, t.2, fw as u32, fh as u32),
            )
            &&& 1 <= fw <= max_dim
            &&& 1 <= fh <= max_dim
            &&& fw == max_dim || fh == max_dim
            &&& t.0 >= t.1 ==> fh * t.0 <= t.1 * fw + t.0 && t.1 * fw <= fh * t.0 + t.0
            &&& t.0 < t.1 ==> fw * t.1 <= t.0 * fh + t.1 && t.0 * fh <= fw * t.1 + t.1
        }),
{
    let t = decoded_image(raw)->0;
    lemma_fit_dimensions(t.0 as int, t.1 as int, max_dim as int);
}

/// Compute the dimensions a `w` by `h` image is resized to so that it fits
/// maximally within a `d` by `d` box, keeping its aspect ratio.
pub fn fit_dimensions(w: u32, h: u32, d: u32) -> (r: (u32, u32))
    requires
        1 <= w,
        1 <= h,
        1 <= d <= 16384,
    ensures
        r.0 == fit_width(w as int, h as int, d as int),
        r.1 == fit_height(w as int, h as int, d as int),
        1 <= r.0 <= d,
        1 <= r.1 <= d,
{
    proof {
        lemma_fit_dimensions(w as int, h as int, d as int);
    }
    if w >= h {
        proof {
            assert((h as int) * (d as int) <= 0x10_0000_0000_0000) by (nonlinear_arith)
                requires
                    h <= u32::MAX,
                    d <= 16384,
            ;
        }
        let q = rounded_div_exec(h as u64 * d as u64, w as u64);
        let nh = if q >= 1 {
            q
        } else {
            1
        };
        proof {
            lemma_fit_dimensions(w as int, h as int, d as int);
        }
        (d, nh as u32)
    } else {
        proof {
            assert((w as int) * (d as int) <= 0x10_0000_0000_0000) by (nonlinear_arith)
                requires
                    w <= u32::MAX,
                    d <= 16384,
            ;
        }
        let q = rounded_div_exec(w as u64 * d as u64, h as u64);
        let nw = if q >= 1 {
            q
        } else {
            1
        };
        (nw as u32, d)
    }
}

/// Integer division rounded half up, for operands small enough that the
/// intermediate `2 * a + b` fits in a `u64`.
fn rounded_div_exec(a: u64, b: u64) -> (r: u64)
    requires
        1 <= b,
        2 * a + b <= u64::MAX,
        2 * b <= u64::MAX,
    ensures
        r == rounded_div(a as int, b as int),
{
    (2 * a + b) / (2 * b)
}

} // verus!
