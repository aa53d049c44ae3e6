//! From a window capture to candidate regions and the chosen reference.
//!
//! A fresh capture is converted to grayscale, contrast-stretched so the frame
//! stands out, traced into contours, and handed to the square detector. When
//! the operator picks one of the detected squares, the reference template is
//! cut out of the unprocessed capture: the square inset by `REGION_INSET`, then
//! the upper right quarter band of that region, in grayscale, together with
//! the match floor below which later searches stop.

use vstd::prelude::*;
use crate::contour::{
    contour_views, detect_squares, spec_candidates, square_views, Contour, Point, Square,
};
use crate::img::{crop, crop_rgba, luma_seq, stretch_contrast_gray, stretch_seq, to_gray, GrayImage,
    RgbaImage};

verus! {

/// Pixels the reference region is inset from the detected square's edges.
pub const REGION_INSET: usize = 5;

/// Pixels added below the square's bottom edge to fix the match floor.
pub const MATCH_FLOOR_MARGIN: usize = 20;

/// What the contour tracer returns for a grayscale buffer: the traced borders
/// of all foreground (non-zero) regions, each an ordered run of pixel
/// coordinates, a function of the buffer and its dimensions alone.
pub uninterp spec fn contours_of(gray: Seq<u8>, width: int, height: int) -> Seq<Seq<(usize, usize)>>;

/// Relies on `imageproc::contours::find_contours` (Suzuki–Abe border
/// following): deterministic in the buffer, and every traced point is the
/// coordinate of a pixel inside the image.
#[verifier::external_body]
fn trace_contours(img: &GrayImage) -> (r: Vec<Contour>)
    requires
        img.wf(),
        img.width <= 0x7FFF_FFFF,
        img.height <= 0x7FFF_FFFF,
    ensures
        r@.len() == contours_of(img.data@, img.width as int, img.height as int).len(),
        forall|i: int|
            0 <= i < r@.len() ==> (#[trigger] r@[i])@.map_values(|p: Point| (p.x, p.y))
                == contours_of(img.data@, img.width as int, img.height as int)[i],
        forall|i: int, j: int|
            0 <= i < r@.len() && 0 <= j < r@[i]@.len() ==> (#[trigger] r@[i]@[j]).x < img.width
                && r@[i]@[j].y < img.height,
{
    let buf = image::GrayImage::from_raw(img.width as u32, img.height as u32, img.data.clone())
        .unwrap();
    let found = imageproc::contours::find_contours::<i32>(&buf);
    let mut out: Vec<Contour> = Vec::new();
    for c in found {
        let mut points: Vec<Point> = Vec::new();
        for p in c.points {
            points.push(Point { x: p.x as usize, y: p.y as usize });
        }
        out.push(Contour { points });
    }
    out
}

/// The traced contours as point sequences.
pub open spec fn traced_point_seqs(gray: Seq<u8>, width: int, height: int) -> Seq<Seq<Point>> {
    contours_of(gray, width, height).map_values(
        |c: Seq<(usize, usize)>| c.map_values(|t: (usize, usize)| Point { x: t.0, y: t.1 }),
    )
}

/// The preprocessed capture the detector sees: grayscale, then contrast
/// stretched over the byte band from 75 to 90.
pub open spec fn processed_gray(rgba: Seq<u8>) -> Seq<u8> {
    stretch_seq(luma_seq(rgba), 75, 90, 0, 255)
}

/// Finds the candidate square regions of one window capture.
///
/// The capture is grayscaled, contrast-stretched over the 75..90 band, traced
/// into contours, and run through `detect_squares`; the result is exactly the
/// detector's output on those contours, sorted ascending by top edge.
pub fn analyze_capture(img: &RgbaImage) -> (r: Vec<Square>)
    requires
        img.wf(),
        img.width <= 0x7FFF_FFFF,
        img.height <= 0x7FFF_FFFF,
    ensures
        square_views(r@).to_multiset() == spec_candidates(
            img.width as int,
            img.height as int,
            traced_point_seqs(processed_gray(img.data@), img.width as int, img.height as int),
        ).to_multiset(),
        forall|a: int, b: int|
            0 <= a <= b < r@.len() ==> (#[trigger] r@[a]).y_top <= (#[trigger] r@[b]).y_top,
{
    let gray = to_gray(img);
    let processed = stretch_contrast_gray(&gray, 75, 90, 0, 255);
    let contours = trace_contours(&processed);
    proof {
        let tps = traced_point_seqs(
            processed_gray(img.data@),
            img.width as int,
            img.height as int,
        );
        let traced = contours_of(processed.data@, img.width as int, img.height as int);
        assert(processed.data@ == processed_gray(img.data@));
        assert forall|i: int| 0 <= i < contours@.len() implies contour_views(contours@)[i]
            == tps[i] by {
            let ps = contours@[i]@;
            let pairs = traced[i];
            assert(ps.map_values(|p: Point| (p.x, p.y)) == pairs);
            assert forall|j: int|
                0 <= j < pairs.len() implies pairs.map_values(
                |t: (usize, usize)| Point { x: t.0, y: t.1 },
            )[j] == ps[j] by {
                assert(pairs[j] == (ps[j].x, ps[j].y));
            }
            assert(pairs.map_values(|t: (usize, usize)| Point { x: t.0, y: t.1 }) =~= ps);
        }
        assert(contour_views(contours@) =~= tps);
    }
    detect_squares(img.width, img.height, &contours)
}

/// The reference bytes that choosing a square with the given edges yields:
/// the square inset by `REGION_INSET` on each side, then the right half of
/// that region starting ten rows down and half its height, in grayscale.
pub open spec fn reference_gray(data: Seq<u8>, width: int, xl: int, xr: int, yt: int, yb: int) -> Seq<
    u8,
> {
    let rw = xr - xl - 2 * REGION_INSET;
    let rh = yb - yt - 2 * REGION_INSET;
    let region = crop_rgba(data, width, xl + REGION_INSET, yt + REGION_INSET, rw, rh);
    luma_seq(crop_rgba(region, rw, rw / 2, 10, rw / 2, rh / 2))
}

/// Cuts the operator-chosen reference image out of a capture and fixes its
/// match floor: the square's bottom edge plus `MATCH_FLOOR_MARGIN`.
///
/// `None` when the square is too small for the inset and the band, or does
/// not lie inside the image, or its floor would not fit in the coordinate
/// range.
pub fn choose_reference(img: &RgbaImage, sq: &Square) -> (r: Option<(GrayImage, usize)>)
    requires
        img.wf(),
        img.width <= 0xFFFF_FFFF,
        img.height <= 0xFFFF_FFFF,
    ensures
        ({
            let ok = sq.x_left + 10 <= sq.x_right <= img.width && sq.y_top + 30 <= sq.y_bottom
                <= img.height && sq.y_bottom + MATCH_FLOOR_MARGIN <= usize::MAX;
            match r {
                Some(p) => ok && p.0.wf() && p.0.width == (sq.x_right - sq.x_left - 10) / 2
                    && p.0.height == (sq.y_bottom - sq.y_top - 10) / 2 && p.0.data@
                    == reference_gray(
                    img.data@,
                    img.width as int,
                    sq.x_left as int,
                    sq.x_right as int,
                    sq.y_top as int,
                    sq.y_bottom as int,
                ) && p.1 == sq.y_bottom + MATCH_FLOOR_MARGIN,
                None => !ok,
            }
        }),
{
    if !(sq.x_left <= sq.x_right && sq.x_right - sq.x_left >= 10) {
        return None;
    }
    if !(sq.y_top <= sq.y_bottom && sq.y_bottom - sq.y_top >= 30) {
        return None;
    }
    if !(sq.x_right <= img.width && sq.y_bottom <= img.height) {
        return None;
    }
    if sq.y_bottom > usize::MAX - MATCH_FLOOR_MARGIN {
        return None;
    }
    let rw = sq.x_right - sq.x_left - 10;
    let rh = sq.y_bottom - sq.y_top - 10;
    let region = crop(img, sq.x_left + REGION_INSET, sq.y_top + REGION_INSET, rw, rh);
    let band = crop(&region, rw / 2, 10, rw / 2, rh / 2);
    let gray = to_gray(&band);
    Some((gray, sq.y_bottom + MATCH_FLOOR_MARGIN))
}

} // verus!
