//! Pixel buffers and the conversions the detector and watcher run on them.
//!
//! Images are plain byte buffers in row-major order: `RgbaImage` holds four
//! bytes per pixel, `GrayImage` one. Cropping is implemented and verified
//! here; the grayscale and contrast conversions call into the image libraries
//! through trusted wrappers whose contracts state the libraries' exact
//! integer formulas.

use vstd::prelude::*;

verus! {

/// A width x height RGBA buffer, four bytes per pixel, rows first.
#[derive(Debug)]
pub struct RgbaImage {
    pub width: usize,
    pub height: usize,
    pub data: Vec<u8>,
}

impl RgbaImage {
    /// The buffer holds exactly one four-byte sample per pixel.
    pub open spec fn wf(&self) -> bool {
        self.data@.len() == 4 * self.width * self.height
    }

    /// Wraps a byte buffer whose length matches the dimensions.
    pub fn new(width: usize, height: usize, data: Vec<u8>) -> (r: RgbaImage)
        requires
            data@.len() == 4 * width * height,
        ensures
            r.wf(),
            r.width == width,
            r.height == height,
            r.data@ == data@,
    {
        RgbaImage { width, height, data }
    }
}

/// A width x height grayscale buffer, one byte per pixel, rows first.
#[derive(Debug)]
pub struct GrayImage {
    pub width: usize,
    pub height: usize,
    pub data: Vec<u8>,
}

impl GrayImage {
    /// The buffer holds exactly one byte per pixel.
    pub open spec fn wf(&self) -> bool {
        self.data@.len() == self.width * self.height
    }

    /// Wraps a byte buffer whose length matches the dimensions.
    pub fn new(width: usize, height: usize, data: Vec<u8>) -> (r: GrayImage)
        requires
            data@.len() == width * height,
        ensures
            r.wf(),
            r.width == width,
            r.height == height,
            r.data@ == data@,
    {
        GrayImage { width, height, data }
    }

    /// An element-wise copy of the image.
    pub fn duplicate(&self) -> (r: GrayImage)
        ensures
            r.width == self.width,
            r.height == self.height,
            r.data@ == self.data@,
    {
        let mut data: Vec<u8> = Vec::new();
        let mut i: usize = 0;
        while i < self.data.len()
            invariant
                i <= self.data.len(),
                data@ =~= self.data@.take(i as int),
            decreases self.data.len() - i,
        {
            data.push(self.data[i]);
            i = i + 1;
        }
        proof {
            assert(data@ =~= self.data@);
        }
        GrayImage { width: self.width, height: self.height, data }
    }
}

/// One row of an RGBA crop: the `4 * w` contiguous bytes starting at pixel
/// (x, y) of a buffer with `stride` pixels per row.
pub open spec fn crop_row(data: Seq<u8>, stride: int, x: int, y: int, w: int) -> Seq<u8> {
    Seq::new((4 * w) as nat, |k: int| data[4 * (y * stride + x) + k])
}

/// The bytes of the w x h RGBA sub-rectangle at (x, y), rows first.
pub open spec fn crop_rgba(data: Seq<u8>, stride: int, x: int, y: int, w: int, h: int) -> Seq<u8>
    decreases h,
{
    if h <= 0 {
        Seq::empty()
    } else {
        crop_rgba(data, stride, x, y, w, h - 1) + crop_row(data, stride, x, y + h - 1, w)
    }
}

/// A crop holds four bytes for each of its `w * h` pixels.
proof fn lemma_crop_rgba_len(data: Seq<u8>, stride: int, x: int, y: int, w: int, h: int)
    requires
        w >= 0,
        h >= 0,
    ensures
        crop_rgba(data, stride, x, y, w, h).len() == 4 * w * h,
    decreases h,
{
    if h > 0 {
        lemma_crop_rgba_len(data, stride, x, y, w, h - 1);
        assert(4 * w * (h - 1) + 4 * w == 4 * w * h) by (nonlinear_arith);
    } else {
        assert(4 * w * 0 == 0) by (nonlinear_arith);
    }
}

/// Copies the w x h sub-rectangle at (x, y) out of the image.
#[verifier::loop_isolation(false)]
pub fn crop(img: &RgbaImage, x: usize, y: usize, w: usize, h: usize) -> (r: RgbaImage)
    requires
        img.wf(),
        x + w <= img.width,
        y + h <= img.height,
    ensures
        r.wf(),
        r.width == w,
        r.height == h,
        r.data@ == crop_rgba(img.data@, img.width as int, x as int, y as int, w as int, h as int),
{
    let stride = img.width;
    let len = img.data.len();
    let mut data: Vec<u8> = Vec::new();
    let mut row: usize = 0;
    while row < h
        invariant
            row <= h,
            data@ =~= crop_rgba(
                img.data@,
                stride as int,
                x as int,
                y as int,
                w as int,
                row as int,
            ),
        decreases h - row,
    {
        proof {
            assert((y + row) * stride + (x + w) <= stride * img.height) by (nonlinear_arith)
                requires
                    y + row < img.height,
                    x + w <= stride,
            ;
            assert(4 * ((y + row) * stride + (x + w)) <= 4 * (stride * img.height));
            assert(img.data@.len() == 4 * stride * img.height);
            assert(4 * (stride * img.height) == 4 * stride * img.height) by (nonlinear_arith);
        }
        let base = 4 * ((y + row) * stride + x);
        let mut k: usize = 0;
        while k < 4 * w
            invariant
                k <= 4 * w,
                base == 4 * ((y + row) * stride + x),
                base + 4 * w <= len,
                data@ =~= crop_rgba(
                    img.data@,
                    stride as int,
                    x as int,
                    y as int,
                    w as int,
                    row as int,
                ) + crop_row(img.data@, stride as int, x as int, (y + row) as int, w as int).take(
                    k as int,
                ),
            decreases 4 * w - k,
        {
            data.push(img.data[base + k]);
            proof {
                let full = crop_row(
                    img.data@,
                    stride as int,
                    x as int,
                    (y + row) as int,
                    w as int,
                );
                assert(full.take(k + 1) =~= full.take(k as int).push(full[k as int]));
            }
            k = k + 1;
        }
        proof {
            let full = crop_row(img.data@, stride as int, x as int, (y + row) as int, w as int);
            assert(full.take(4 * w as int) =~= full);
        }
        row = row + 1;
    }
    proof {
        lemma_crop_rgba_len(img.data@, stride as int, x as int, y as int, w as int, h as int);
    }
    RgbaImage { width: w, height: h, data }
}

/// The grayscale byte the image library derives from one RGBA pixel: the
/// CIE luminance of the RGB channels in integer arithmetic, alpha ignored.
pub open spec fn luma_of_pixel(r: u8, g: u8, b: u8) -> u8 {
    ((2126 * (r as int) + 7152 * (g as int) + 722 * (b as int)) / 10000) as u8
}

/// The grayscale buffer derived from an RGBA buffer, pixel by pixel.
pub open spec fn luma_seq(rgba: Seq<u8>) -> Seq<u8> {
    Seq::new((rgba.len() / 4) as nat, |p: int| luma_of_pixel(
        rgba[4 * p],
        rgba[4 * p + 1],
        rgba[4 * p + 2],
    ))
}

/// Relies on `image::imageops::colorops::grayscale`: each RGBA pixel becomes
/// one byte through `Pixel::to_luma`, which is `rgb_to_luma` in the image
/// crate — the truncating integer sRGB luminance formula
/// `(2126 r + 7152 g + 722 b) / 10000` with the alpha channel ignored — and
/// the dimensions are kept.
#[verifier::external_body]
pub(crate) fn to_gray(img: &RgbaImage) -> (r: GrayImage)
    requires
        img.wf(),
        img.width <= 0xFFFF_FFFF,
        img.height <= 0xFFFF_FFFF,
    ensures
        r.wf(),
        r.width == img.width,
        r.height == img.height,
        r.data@ == luma_seq(img.data@),
{
    let buf = image::RgbaImage::from_raw(img.width as u32, img.height as u32, img.data.clone())
        .unwrap();
    let gray = image::imageops::colorops::grayscale(&buf);
    GrayImage { width: img.width, height: img.height, data: gray.into_raw() }
}

/// One byte of linear contrast stretching between the given input bounds,
/// exactly as the imageproc library computes it in 16-bit integer arithmetic.
pub open spec fn stretch_byte(c: u8, in_lo: u8, in_hi: u8, out_lo: u8, out_hi: u8) -> u8 {
    if c <= in_lo {
        out_lo
    } else if c >= in_hi {
        out_hi
    } else {
        ((((c - in_lo) as int) * ((out_hi - out_lo) as int) / ((in_hi - in_lo) as int)) + out_lo) as u8
    }
}

/// A grayscale buffer stretched byte by byte.
pub open spec fn stretch_seq(g: Seq<u8>, in_lo: u8, in_hi: u8, out_lo: u8, out_hi: u8) -> Seq<u8> {
    g.map_values(|c: u8| stretch_byte(c, in_lo, in_hi, out_lo, out_hi))
}

/// Relies on `imageproc::contrast::stretch_contrast`: each byte at or below
/// `in_lo` maps to `out_lo`, each byte at or above `in_hi` to `out_hi`, and
/// the band between is scaled linearly in integer arithmetic
/// (`(c - in_lo) * (out_hi - out_lo) / (in_hi - in_lo) + out_lo`).
#[verifier::external_body]
pub(crate) fn stretch_contrast_gray(
    img: &GrayImage,
    in_lo: u8,
    in_hi: u8,
    out_lo: u8,
    out_hi: u8,
) -> (r: GrayImage)
    requires
        img.wf(),
        img.width <= 0xFFFF_FFFF,
        img.height <= 0xFFFF_FFFF,
        in_lo < in_hi,
        out_lo <= out_hi,
    ensures
        r.wf(),
        r.width == img.width,
        r.height == img.height,
        r.data@ == stretch_seq(img.data@, in_lo, in_hi, out_lo, out_hi),
{
    let buf = image::GrayImage::from_raw(img.width as u32, img.height as u32, img.data.clone())
        .unwrap();
    let out = imageproc::contrast::stretch_contrast(&buf, in_lo, in_hi, out_lo, out_hi);
    GrayImage { width: img.width, height: img.height, data: out.into_raw() }
}

} // verus!
