use vill_enforcer::contour::Square;
use vill_enforcer::img::RgbaImage;
use vill_enforcer::region::{analyze_capture, choose_reference};

/// A black image with one solid bright square drawn on it.
fn image_with_square(side: usize, x0: usize, y0: usize, x1: usize, y1: usize, level: u8) -> RgbaImage {
    let mut data = vec![0u8; 4 * side * side];
    for y in y0..=y1 {
        for x in x0..=x1 {
            let base = 4 * (y * side + x);
            data[base] = level;
            data[base + 1] = level;
            data[base + 2] = level;
            data[base + 3] = 255;
        }
    }
    RgbaImage::new(side, side, data)
}

#[test]
fn capture_with_one_square_yields_one_region() {
    let img = image_with_square(300, 50, 50, 250, 250, 255);
    let squares = analyze_capture(&img);
    assert_eq!(squares.len(), 1);
    assert_eq!(squares[0].x_left, 50);
    assert_eq!(squares[0].x_right, 250);
    assert_eq!(squares[0].y_top, 50);
    assert_eq!(squares[0].y_bottom, 250);
}

#[test]
fn contrast_stretch_separates_frame_from_backdrop() {
    // The backdrop sits at the stretch floor and the frame just above the
    // ceiling: only the stretched image keeps the frame as foreground, and
    // the detected corners show the square, not the image border.
    let mut img = image_with_square(300, 50, 50, 250, 250, 95);
    for p in 0..(300 * 300) {
        if img.data[4 * p] == 0 {
            img.data[4 * p] = 75;
            img.data[4 * p + 1] = 75;
            img.data[4 * p + 2] = 75;
            img.data[4 * p + 3] = 255;
        }
    }
    let squares = analyze_capture(&img);
    assert_eq!(squares.len(), 1);
    assert_eq!(squares[0].x_left, 50);
    assert_eq!(squares[0].x_right, 250);
    assert_eq!(squares[0].y_top, 50);
    assert_eq!(squares[0].y_bottom, 250);
}

#[test]
fn blank_capture_yields_no_regions() {
    let img = RgbaImage::new(300, 300, vec![0u8; 4 * 300 * 300]);
    let squares = analyze_capture(&img);
    assert_eq!(squares.len(), 0);
}

#[test]
fn chosen_reference_is_the_inner_band_in_grayscale() {
    // A solid red square: its luminance is 2126 * 255 / 10000 = 54, so every
    // reference byte must be 54 — anything else means a conversion was
    // skipped.
    let side = 300;
    let mut data = vec![0u8; 4 * side * side];
    for y in 50..=250 {
        for x in 50..=250 {
            let base = 4 * (y * side + x);
            data[base] = 255;
            data[base + 3] = 255;
        }
    }
    let img = RgbaImage::new(side, side, data);
    let sq = Square {
        x_left: 50,
        x_right: 250,
        y_top: 50,
        y_bottom: 250,
        contour: vill_enforcer::contour::Contour { points: Vec::new() },
    };
    let (gray, y_max) = choose_reference(&img, &sq).expect("reference cut");
    assert_eq!(y_max, 270);
    assert_eq!((gray.width, gray.height), (95, 95));
    assert_eq!(gray.data.len(), 95 * 95);
    assert!(gray.data.iter().all(|&b| b == 54));
}

#[test]
fn grayscale_truncates_the_integer_luminance() {
    // (128, 128, 0) has luminance (2126 + 7152) * 128 / 10000 = 118.75...:
    // the integer formula truncates to 118, where a rounding conversion
    // would give 119.
    let side = 300;
    let mut data = vec![0u8; 4 * side * side];
    for p in 0..side * side {
        data[4 * p] = 128;
        data[4 * p + 1] = 128;
        data[4 * p + 3] = 255;
    }
    let img = RgbaImage::new(side, side, data);
    let sq = Square {
        x_left: 50,
        x_right: 250,
        y_top: 50,
        y_bottom: 250,
        contour: vill_enforcer::contour::Contour { points: Vec::new() },
    };
    let (gray, _) = choose_reference(&img, &sq).expect("reference cut");
    assert!(gray.data.iter().all(|&b| b == 118));
}

#[test]
fn undersized_square_gives_no_reference() {
    let img = RgbaImage::new(300, 300, vec![0u8; 4 * 300 * 300]);
    let sq = Square {
        x_left: 100,
        x_right: 108,
        y_top: 100,
        y_bottom: 108,
        contour: vill_enforcer::contour::Contour { points: Vec::new() },
    };
    assert!(choose_reference(&img, &sq).is_none());
}
