use vill_enforcer::contour::{detect_squares, Contour, Point};

/// Points along the perimeter of an axis-aligned rectangle, stepped so that
/// each side contributes a clean histogram spike.
fn rect_contour(x0: usize, y0: usize, x1: usize, y1: usize, step: usize) -> Contour {
    let mut points = Vec::new();
    let mut x = x0;
    while x < x1 {
        points.push(Point { x, y: y0 });
        x += step;
    }
    let mut y = y0;
    while y < y1 {
        points.push(Point { x: x1, y });
        y += step;
    }
    let mut x = x1;
    while x > x0 {
        points.push(Point { x, y: y1 });
        x -= step;
    }
    let mut y = y1;
    while y > y0 {
        points.push(Point { x: x0, y });
        y -= step;
    }
    Contour { points }
}

#[test]
fn perfect_square_detected_with_exact_corners() {
    // A clean 200x200 square traced with 160 points.
    let contour = rect_contour(50, 50, 250, 250, 5);
    assert_eq!(contour.points.len(), 160);
    let squares = detect_squares(300, 300, &vec![contour]);
    assert_eq!(squares.len(), 1);
    assert_eq!(squares[0].x_left, 50);
    assert_eq!(squares[0].x_right, 250);
    assert_eq!(squares[0].y_top, 50);
    assert_eq!(squares[0].y_bottom, 250);
    assert_eq!(squares[0].contour.points.len(), 160);
}

#[test]
fn small_contour_yields_no_candidate() {
    // 149 points, one short of the minimum.
    let mut contour = rect_contour(50, 50, 250, 250, 5);
    contour.points.truncate(149);
    let squares = detect_squares(300, 300, &vec![contour]);
    assert_eq!(squares.len(), 0);
}

#[test]
fn non_square_rectangle_rejected() {
    // 200x100: the side ratio 0.5 is far below 0.98.
    let contour = rect_contour(50, 50, 250, 150, 2);
    assert!(contour.points.len() >= 150);
    let squares = detect_squares(300, 300, &vec![contour]);
    assert_eq!(squares.len(), 0);
}

#[test]
fn deviating_point_rejects_contour() {
    // A clean square plus one stray point 100 pixels from every side.
    let mut contour = rect_contour(50, 50, 250, 250, 5);
    contour.points.push(Point { x: 150, y: 150 });
    let squares = detect_squares(300, 300, &vec![contour]);
    assert_eq!(squares.len(), 0);
}

#[test]
fn point_within_tolerance_is_accepted() {
    // A stray point 8 pixels off the top edge stays within the tolerance.
    let mut contour = rect_contour(50, 50, 250, 250, 5);
    contour.points.push(Point { x: 150, y: 58 });
    let squares = detect_squares(300, 300, &vec![contour]);
    assert_eq!(squares.len(), 1);
}

#[test]
fn output_sorted_by_top_edge() {
    // Input order puts the lower square first; output reads top to bottom.
    let lower = rect_contour(50, 200, 250, 400, 5);
    let upper = rect_contour(50, 10, 250, 210, 5);
    let squares = detect_squares(300, 450, &vec![lower, upper]);
    assert_eq!(squares.len(), 2);
    assert_eq!(squares[0].y_top, 10);
    assert_eq!(squares[1].y_top, 200);
}

#[test]
fn ambiguous_histogram_rejected() {
    // A third x-spike carrying more than 35% of the second spike's points:
    // a vertical run inside the square makes the edges ambiguous.
    let mut contour = rect_contour(50, 50, 250, 250, 5);
    for y in 0..39 {
        contour.points.push(Point { x: 150, y: 55 + y * 5 });
    }
    // x=150 now holds 41 points, as many as each true edge.
    let squares = detect_squares(300, 300, &vec![contour]);
    assert_eq!(squares.len(), 0);
}

#[test]
fn equal_top_edges_keep_input_order() {
    // Two squares on the same row: the sort is stable, so they come out in
    // input order either way round.
    let left = rect_contour(50, 50, 250, 250, 5);
    let right = rect_contour(300, 50, 500, 250, 5);
    let squares = detect_squares(600, 300, &vec![right, left]);
    assert_eq!(squares.len(), 2);
    assert_eq!(squares[0].x_left, 300);
    assert_eq!(squares[1].x_left, 50);
    let left = rect_contour(50, 50, 250, 250, 5);
    let right = rect_contour(300, 50, 500, 250, 5);
    let squares = detect_squares(600, 300, &vec![left, right]);
    assert_eq!(squares[0].x_left, 50);
    assert_eq!(squares[1].x_left, 300);
}

#[test]
fn gate_boundary_third_spike_at_35_percent_passes() {
    // Edge spikes carry 41 points each; a third spike of 14 holds just under
    // 35% of the second (20 * 14 <= 7 * 41) and is tolerated.
    let mut contour = rect_contour(50, 50, 250, 250, 5);
    for _ in 0..12 {
        contour.points.push(Point { x: 150, y: 50 });
    }
    let squares = detect_squares(300, 300, &vec![contour]);
    assert_eq!(squares.len(), 1);
}

#[test]
fn gate_boundary_third_spike_over_35_percent_rejects() {
    // One more point on the third spike (15 of 41: 20 * 15 > 7 * 41) makes
    // the edges ambiguous.
    let mut contour = rect_contour(50, 50, 250, 250, 5);
    for _ in 0..13 {
        contour.points.push(Point { x: 150, y: 50 });
    }
    let squares = detect_squares(300, 300, &vec![contour]);
    assert_eq!(squares.len(), 0);
}

#[test]
fn side_ratio_boundary_98_percent_passes() {
    // 200 x 196: the ratio is exactly 0.98 and the rectangle counts as
    // square.
    let contour = rect_contour(50, 50, 250, 246, 2);
    let squares = detect_squares(300, 300, &vec![contour]);
    assert_eq!(squares.len(), 1);
    assert_eq!(squares[0].y_bottom, 246);
}

#[test]
fn side_ratio_boundary_below_98_percent_rejects() {
    // 200 x 195: the ratio falls below 0.98.
    let contour = rect_contour(50, 50, 250, 245, 5);
    assert!(contour.points.len() >= 150);
    let squares = detect_squares(300, 300, &vec![contour]);
    assert_eq!(squares.len(), 0);
}

#[test]
fn tolerance_boundary_ten_pixels_passes() {
    let mut contour = rect_contour(50, 50, 250, 250, 5);
    contour.points.push(Point { x: 150, y: 60 });
    let squares = detect_squares(300, 300, &vec![contour]);
    assert_eq!(squares.len(), 1);
}

#[test]
fn tolerance_boundary_eleven_pixels_rejects() {
    let mut contour = rect_contour(50, 50, 250, 250, 5);
    contour.points.push(Point { x: 150, y: 61 });
    let squares = detect_squares(300, 300, &vec![contour]);
    assert_eq!(squares.len(), 0);
}

#[test]
fn empty_contour_set_yields_nothing() {
    let squares = detect_squares(300, 300, &Vec::new());
    assert_eq!(squares.len(), 0);
}
