use vill_enforcer::img::{crop, GrayImage, RgbaImage};
use vill_enforcer::locate::{locate, min_candidate, MatchVerdict};

#[test]
fn zero_buffers_match_with_distance_zero() {
    // An all-zero needle sits perfectly inside an all-zero haystack: the
    // oracle reports distance 0 and locate returns it.
    let haystack = GrayImage::new(100, 50, vec![0u8; 100 * 50]);
    let needle = GrayImage::new(10, 10, vec![0u8; 100]);
    match locate(&haystack, &needle) {
        MatchVerdict::Found { distance_bits, .. } => {
            assert_eq!(f32::from_bits(distance_bits), 0.0);
        }
        MatchVerdict::NotFound => panic!("expected a match"),
    }
}

#[test]
fn dissimilar_needle_is_not_found() {
    // A bright needle in a black haystack: every offset's distance is 1.0,
    // above the oracle's threshold, so the candidate set is empty.
    let haystack = GrayImage::new(100, 50, vec![0u8; 100 * 50]);
    let needle = GrayImage::new(10, 10, vec![255u8; 100]);
    assert_eq!(locate(&haystack, &needle), MatchVerdict::NotFound);
}

#[test]
fn oversized_needle_is_not_found() {
    let haystack = GrayImage::new(10, 10, vec![0u8; 100]);
    let needle = GrayImage::new(20, 20, vec![0u8; 400]);
    assert_eq!(locate(&haystack, &needle), MatchVerdict::NotFound);
}

#[test]
fn needle_found_at_its_offset() {
    // A white dot at (30, 20) of the haystack and at (0, 0) of the needle:
    // the best offset is (30, 20).
    let mut hay = vec![0u8; 100 * 50];
    hay[20 * 100 + 30] = 250;
    let haystack = GrayImage::new(100, 50, hay);
    let mut ned = vec![0u8; 100];
    ned[0] = 250;
    let needle = GrayImage::new(10, 10, ned);
    match locate(&haystack, &needle) {
        MatchVerdict::Found { x, y, distance_bits } => {
            assert_eq!((x, y), (30, 20));
            assert_eq!(f32::from_bits(distance_bits), 0.0);
        }
        MatchVerdict::NotFound => panic!("expected a match"),
    }
}

#[test]
fn min_candidate_takes_first_minimum() {
    let positions: Vec<(usize, usize, u32)> = vec![(5, 5, 10), (2, 2, 3), (7, 7, 3)];
    assert_eq!(min_candidate(&positions), Some((2, 2, 3)));
}

#[test]
fn min_candidate_of_empty_set_is_none() {
    let positions: Vec<(usize, usize, u32)> = Vec::new();
    assert_eq!(min_candidate(&positions), None);
}

#[test]
fn crop_copies_the_sub_rectangle() {
    // A 2x2 RGBA image with one distinct byte run per pixel.
    let data: Vec<u8> = (0u8..16).collect();
    let img = RgbaImage::new(2, 2, data);
    let cut = crop(&img, 1, 0, 1, 2);
    assert_eq!(cut.width, 1);
    assert_eq!(cut.height, 2);
    assert_eq!(cut.data, vec![4, 5, 6, 7, 12, 13, 14, 15]);
}
