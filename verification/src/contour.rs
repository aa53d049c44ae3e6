//! Square-region detection over traced contours.
//!
//! A clean axis-aligned square traced as a contour puts a spike of points on
//! each of its four sides: two x-coordinates and two y-coordinates carry far
//! more points than any other bucket. `detect_squares` builds the two
//! histograms for each contour, takes the two tallest buckets per axis as the
//! candidate edges, and keeps the contour only when the third bucket is small
//! against the second (the spikes are unambiguous), every contour point lies
//! within `TOLERANCE` pixels of the candidate outline, and the four sides are
//! equal in length within `SIDE_RATIO_NUM / SIDE_RATIO_DEN`.

use vstd::prelude::*;

verus! {

/// Fewest points a contour may have and still describe a usable frame.
pub const MIN_CONTOUR_POINTS: usize = 150;

/// Maximum Euclidean distance, squared, from a contour point to the candidate
/// outline (10 pixels).
pub const TOLERANCE_SQUARED: usize = 100;

/// One pixel coordinate of a traced boundary.
#[derive(Clone, Copy, PartialEq, Eq, Structural, Debug)]
pub struct Point {
    pub x: usize,
    pub y: usize,
}

/// An ordered trace of boundary pixels, as produced by contour extraction.
#[derive(Debug)]
pub struct Contour {
    pub points: Vec<Point>,
}

impl View for Contour {
    type V = Seq<Point>;

    open spec fn view(&self) -> Seq<Point> {
        self.points@
    }
}

impl Contour {
    /// An element-wise copy of the contour.
    pub fn duplicate(&self) -> (c: Contour)
        ensures
            c@ == self@,
    {
        let mut points: Vec<Point> = Vec::new();
        let mut i: usize = 0;
        while i < self.points.len()
            invariant
                i <= self.points.len(),
                points@ =~= self.points@.take(i as int),
            decreases self.points.len() - i,
        {
            points.push(self.points[i]);
            i = i + 1;
        }
        proof {
            assert(points@ =~= self@);
        }
        Contour { points }
    }
}

/// The mathematical value of a detected square: the four edge coordinates and
/// the points of the contour it came from.
pub struct SquareView {
    pub x_left: int,
    pub x_right: int,
    pub y_top: int,
    pub y_bottom: int,
    pub points: Seq<Point>,
}

/// A candidate square region: the two vertical edge coordinates, the two
/// horizontal edge coordinates, and the originating contour. The corners are
/// (x_left, y_top), (x_right, y_top), (x_right, y_bottom), (x_left, y_bottom).
#[derive(Debug)]
pub struct Square {
    pub x_left: usize,
    pub x_right: usize,
    pub y_top: usize,
    pub y_bottom: usize,
    pub contour: Contour,
}

impl View for Square {
    type V = SquareView;

    open spec fn view(&self) -> SquareView {
        SquareView {
            x_left: self.x_left as int,
            x_right: self.x_right as int,
            y_top: self.y_top as int,
            y_bottom: self.y_bottom as int,
            points: self.contour@,
        }
    }
}

pub open spec fn imin(a: int, b: int) -> int {
    if a <= b {
        a
    } else {
        b
    }
}

pub open spec fn imax(a: int, b: int) -> int {
    if a <= b {
        b
    } else {
        a
    }
}

/// How many of the points have x-coordinate `x`.
pub open spec fn count_with_x(ps: Seq<Point>, x: int) -> nat
    decreases ps.len(),
{
    if ps.len() == 0 {
        0
    } else {
        count_with_x(ps.drop_last(), x) + (if ps.last().x == x {
            1nat
        } else {
            0nat
        })
    }
}

/// How many of the points have y-coordinate `y`.
pub open spec fn count_with_y(ps: Seq<Point>, y: int) -> nat
    decreases ps.len(),
{
    if ps.len() == 0 {
        0
    } else {
        count_with_y(ps.drop_last(), y) + (if ps.last().y == y {
            1nat
        } else {
            0nat
        })
    }
}

/// Points per x-coordinate, over the full image width.
pub open spec fn x_histogram(ps: Seq<Point>, width: int) -> Seq<int> {
    Seq::new(width as nat, |x: int| count_with_x(ps, x) as int)
}

/// Points per y-coordinate, over the full image height.
pub open spec fn y_histogram(ps: Seq<Point>, height: int) -> Seq<int> {
    Seq::new(height as nat, |y: int| count_with_y(ps, y) as int)
}

/// The index of the tallest bucket of `h` among indices `0..n` other than
/// `skip0` and `skip1`; ties go to the lowest index; `-1` when no index is
/// left.
pub open spec fn arg_best(h: Seq<int>, n: int, skip0: int, skip1: int) -> int
    decreases n,
{
    if n <= 0 {
        -1
    } else {
        let rest = arg_best(h, n - 1, skip0, skip1);
        let i = n - 1;
        if i == skip0 || i == skip1 {
            rest
        } else if rest == -1 {
            i
        } else if h[i] > h[rest] {
            i
        } else {
            rest
        }
    }
}

/// The confidence gate on one axis: the third-tallest bucket must hold at most
/// 35% (7/20) of the second-tallest bucket's points, so that the two edge
/// spikes stand clear of the noise.
pub open spec fn x_gate_ok(ps: Seq<Point>, width: int) -> bool {
    let h = x_histogram(ps, width);
    let b0 = arg_best(h, width, -1, -1);
    let b1 = arg_best(h, width, b0, -1);
    let b2 = arg_best(h, width, b0, b1);
    20 * h[b2] <= 7 * h[b1]
}

/// The confidence gate for the y-axis; see `x_gate_ok`.
pub open spec fn y_gate_ok(ps: Seq<Point>, height: int) -> bool {
    let h = y_histogram(ps, height);
    let b0 = arg_best(h, height, -1, -1);
    let b1 = arg_best(h, height, b0, -1);
    let b2 = arg_best(h, height, b0, b1);
    20 * h[b2] <= 7 * h[b1]
}

/// The left and right edge coordinates: the two tallest x-buckets, in order.
pub open spec fn x_edges(ps: Seq<Point>, width: int) -> (int, int) {
    let h = x_histogram(ps, width);
    let b0 = arg_best(h, width, -1, -1);
    let b1 = arg_best(h, width, b0, -1);
    (imin(b0, b1), imax(b0, b1))
}

/// The top and bottom edge coordinates: the two tallest y-buckets, in order.
pub open spec fn y_edges(ps: Seq<Point>, height: int) -> (int, int) {
    let h = y_histogram(ps, height);
    let b0 = arg_best(h, height, -1, -1);
    let b1 = arg_best(h, height, b0, -1);
    (imin(b0, b1), imax(b0, b1))
}

/// Squared Euclidean distance from (px, py) to the horizontal segment from
/// (x0, y) to (x1, y), for x0 <= x1.
pub open spec fn dist2_to_h_segment(px: int, py: int, x0: int, x1: int, y: int) -> int {
    let dx = if px < x0 {
        x0 - px
    } else if px > x1 {
        px - x1
    } else {
        0
    };
    let dy = if py < y {
        y - py
    } else {
        py - y
    };
    dx * dx + dy * dy
}

/// Squared Euclidean distance from (px, py) to the vertical segment from
/// (x, y0) to (x, y1), for y0 <= y1.
pub open spec fn dist2_to_v_segment(px: int, py: int, x: int, y0: int, y1: int) -> int {
    let dy = if py < y0 {
        y0 - py
    } else if py > y1 {
        py - y1
    } else {
        0
    };
    let dx = if px < x {
        x - px
    } else {
        px - x
    };
    dx * dx + dy * dy
}

/// Whether the point lies within the tolerance distance of at least one of
/// the four sides of the rectangle with the given edge coordinates.
pub open spec fn near_outline(p: Point, xl: int, xr: int, yt: int, yb: int) -> bool {
    ||| dist2_to_h_segment(p.x as int, p.y as int, xl, xr, yt) <= TOLERANCE_SQUARED
    ||| dist2_to_h_segment(p.x as int, p.y as int, xl, xr, yb) <= TOLERANCE_SQUARED
    ||| dist2_to_v_segment(p.x as int, p.y as int, xl, yt, yb) <= TOLERANCE_SQUARED
    ||| dist2_to_v_segment(p.x as int, p.y as int, xr, yt, yb) <= TOLERANCE_SQUARED
}

/// Whether every point of the contour lies near the rectangle outline.
pub open spec fn all_near_outline(ps: Seq<Point>, xl: int, xr: int, yt: int, yb: int) -> bool {
    forall|i: int| 0 <= i < ps.len() ==> near_outline(#[trigger] ps[i], xl, xr, yt, yb)
}

/// Whether sides of lengths `w` and `h` are equal within 2%: the shorter must
/// be at least 98% (49/50) of the longer.
pub open spec fn sides_square(w: int, h: int) -> bool {
    50 * imin(w, h) >= 49 * imax(w, h)
}

/// What `detect_squares` yields for one contour: the candidate square, or
/// `None` when any gate rejects the contour.
pub open spec fn spec_candidate(width: int, height: int, ps: Seq<Point>) -> Option<SquareView> {
    if ps.len() < MIN_CONTOUR_POINTS || width < 3 || height < 3 {
        None
    } else if !(x_gate_ok(ps, width) && y_gate_ok(ps, height)) {
        None
    } else {
        let (xl, xr) = x_edges(ps, width);
        let (yt, yb) = y_edges(ps, height);
        if !all_near_outline(ps, xl, xr, yt, yb) {
            None
        } else if !sides_square(xr - xl, yb - yt) {
            None
        } else {
            Some(SquareView { x_left: xl, x_right: xr, y_top: yt, y_bottom: yb, points: ps })
        }
    }
}

/// The candidates of all contours, in input order.
pub open spec fn spec_candidates(width: int, height: int, cs: Seq<Seq<Point>>) -> Seq<SquareView>
    decreases cs.len(),
{
    if cs.len() == 0 {
        Seq::empty()
    } else {
        spec_candidates(width, height, cs.drop_last()) + match spec_candidate(
            width,
            height,
            cs.last(),
        ) {
            Some(sv) => seq![sv],
            None => Seq::empty(),
        }
    }
}

/// A contour with fewer than `MIN_CONTOUR_POINTS` points never yields a
/// candidate, whatever the image size.
pub proof fn lemma_small_contour_rejected(width: int, height: int, ps: Seq<Point>)
    requires
        ps.len() < MIN_CONTOUR_POINTS,
    ensures
        spec_candidate(width, height, ps) is None,
{
}

proof fn lemma_count_with_x_le_len(ps: Seq<Point>, x: int)
    ensures
        count_with_x(ps, x) <= ps.len(),
    decreases ps.len(),
{
    if ps.len() > 0 {
        lemma_count_with_x_le_len(ps.drop_last(), x);
    }
}

proof fn lemma_count_with_y_le_len(ps: Seq<Point>, y: int)
    ensures
        count_with_y(ps, y) <= ps.len(),
    decreases ps.len(),
{
    if ps.len() > 0 {
        lemma_count_with_y_le_len(ps.drop_last(), y);
    }
}

/// `arg_best` stays in range and avoids the skipped indices.
proof fn lemma_arg_best_range(h: Seq<int>, n: int, skip0: int, skip1: int)
    ensures
        arg_best(h, n, skip0, skip1) == -1 || 0 <= arg_best(h, n, skip0, skip1) < n,
        arg_best(h, n, skip0, skip1) != skip0 || arg_best(h, n, skip0, skip1) == -1,
        arg_best(h, n, skip0, skip1) != skip1 || arg_best(h, n, skip0, skip1) == -1,
    decreases n,
{
    if n > 0 {
        lemma_arg_best_range(h, n - 1, skip0, skip1);
    }
}

/// `arg_best` returns a real index whenever one (here `w`) is left to choose
/// from.
proof fn lemma_arg_best_found(h: Seq<int>, n: int, skip0: int, skip1: int, w: int)
    requires
        0 <= w < n,
        w != skip0,
        w != skip1,
    ensures
        0 <= arg_best(h, n, skip0, skip1) < n,
        arg_best(h, n, skip0, skip1) != skip0,
        arg_best(h, n, skip0, skip1) != skip1,
    decreases n,
{
    lemma_arg_best_range(h, n, skip0, skip1);
    if w < n - 1 {
        lemma_arg_best_found(h, n - 1, skip0, skip1, w);
    }
}

/// Histogram of contour points per x-coordinate.
fn build_x_histogram(points: &Vec<Point>, width: usize) -> (hist: Vec<usize>)
    requires
        forall|i: int| 0 <= i < points@.len() ==> (#[trigger] points@[i]).x < width,
    ensures
        hist@.len() == width,
        forall|x: int| 0 <= x < width ==> hist@[x] == count_with_x(points@, x),
{
    let mut hist: Vec<usize> = vec![0usize; width];
    let mut j: usize = 0;
    while j < points.len()
        invariant
            j <= points.len(),
            hist@.len() == width,
            forall|i: int| 0 <= i < points@.len() ==> (#[trigger] points@[i]).x < width,
            forall|x: int| 0 <= x < width ==> hist@[x] == count_with_x(points@.take(j as int), x),
        decreases points.len() - j,
    {
        let x = points[j].x;
        proof {
            assert(points@.take(j + 1).drop_last() =~= points@.take(j as int));
            assert(points@.take(j + 1).last() == points@[j as int]);
            lemma_count_with_x_le_len(points@.take(j as int), x as int);
        }
        let c = hist[x];
        hist.set(x, c + 1);
        proof {
            assert forall|x2: int| 0 <= x2 < width implies hist@[x2] == count_with_x(
                points@.take(j + 1),
                x2,
            ) by {
                assert(points@.take(j + 1).drop_last() =~= points@.take(j as int));
            }
        }
        j = j + 1;
    }
    proof {
        assert(points@.take(points@.len() as int) =~= points@);
    }
    hist
}

/// Histogram of contour points per y-coordinate.
fn build_y_histogram(points: &Vec<Point>, height: usize) -> (hist: Vec<usize>)
    requires
        forall|i: int| 0 <= i < points@.len() ==> (#[trigger] points@[i]).y < height,
    ensures
        hist@.len() == height,
        forall|y: int| 0 <= y < height ==> hist@[y] == count_with_y(points@, y),
{
    let mut hist: Vec<usize> = vec![0usize; height];
    let mut j: usize = 0;
    while j < points.len()
        invariant
            j <= points.len(),
            hist@.len() == height,
            forall|i: int| 0 <= i < points@.len() ==> (#[trigger] points@[i]).y < height,
            forall|y: int| 0 <= y < height ==> hist@[y] == count_with_y(points@.take(j as int), y),
        decreases points.len() - j,
    {
        let y = points[j].y;
        proof {
            assert(points@.take(j + 1).drop_last() =~= points@.take(j as int));
            assert(points@.take(j + 1).last() == points@[j as int]);
            lemma_count_with_y_le_len(points@.take(j as int), y as int);
        }
        let c = hist[y];
        hist.set(y, c + 1);
        proof {
            assert forall|y2: int| 0 <= y2 < height implies hist@[y2] == count_with_y(
                points@.take(j + 1),
                y2,
            ) by {
                assert(points@.take(j + 1).drop_last() =~= points@.take(j as int));
            }
        }
        j = j + 1;
    }
    proof {
        assert(points@.take(points@.len() as int) =~= points@);
    }
    hist
}

/// The skip argument of `best_bucket` as `arg_best` sees it.
pub open spec fn skip_index(s: Option<usize>) -> int {
    match s {
        Some(v) => v as int,
        None => -1,
    }
}

/// The tallest bucket of `hist`, skipping up to two indices; ties go to the
/// lowest index.
fn best_bucket(hist: &Vec<usize>, hv: Ghost<Seq<int>>, skip0: Option<usize>, skip1: Option<usize>) -> (r:
    Option<usize>)
    requires
        hv@.len() == hist@.len(),
        forall|i: int| 0 <= i < hist@.len() ==> hv@[i] == hist@[i],
    ensures
        skip_index(r) == arg_best(hv@, hist@.len() as int, skip_index(skip0), skip_index(skip1)),
{
    let ghost s0 = skip_index(skip0);
    let ghost s1 = skip_index(skip1);
    let mut best: Option<usize> = None;
    let mut i: usize = 0;
    while i < hist.len()
        invariant
            i <= hist.len(),
            hv@.len() == hist@.len(),
            forall|k: int| 0 <= k < hist@.len() ==> hv@[k] == hist@[k],
            s0 == skip_index(skip0),
            s1 == skip_index(skip1),
            skip_index(best) == arg_best(hv@, i as int, s0, s1),
            skip_index(best) < hist@.len(),
        decreases hist.len() - i,
    {
        let skipped = (match skip0 {
            Some(v) => v == i,
            None => false,
        }) || (match skip1 {
            Some(v) => v == i,
            None => false,
        });
        if !skipped {
            match best {
                None => {
                    best = Some(i);
                },
                Some(b) => {
                    if hist[i] > hist[b] {
                        best = Some(i);
                    }
                },
            }
        }
        i = i + 1;
    }
    best
}

/// Whether (px, py) lies within the tolerance of the horizontal segment from
/// (x0, y) to (x1, y).
fn near_h_segment(px: usize, py: usize, x0: usize, x1: usize, y: usize) -> (r: bool)
    requires
        x0 <= x1,
    ensures
        r == (dist2_to_h_segment(px as int, py as int, x0 as int, x1 as int, y as int)
            <= TOLERANCE_SQUARED),
{
    let dx: usize = if px < x0 {
        x0 - px
    } else if px > x1 {
        px - x1
    } else {
        0
    };
    let dy: usize = if py < y {
        y - py
    } else {
        py - y
    };
    if dx > 10 || dy > 10 {
        proof {
            if dx > 10 {
                assert(dx * dx > 100) by (nonlinear_arith)
                    requires
                        dx > 10,
                ;
            } else {
                assert(dy * dy > 100) by (nonlinear_arith)
                    requires
                        dy > 10,
                ;
            }
        }
        false
    } else {
        proof {
            assert(dx * dx <= 100 && dy * dy <= 100) by (nonlinear_arith)
                requires
                    dx <= 10 && dy <= 10,
            ;
        }
        dx * dx + dy * dy <= 100
    }
}

/// Whether (px, py) lies within the tolerance of the vertical segment from
/// (x, y0) to (x, y1).
fn near_v_segment(px: usize, py: usize, x: usize, y0: usize, y1: usize) -> (r: bool)
    requires
        y0 <= y1,
    ensures
        r == (dist2_to_v_segment(px as int, py as int, x as int, y0 as int, y1 as int)
            <= TOLERANCE_SQUARED),
{
    let dy: usize = if py < y0 {
        y0 - py
    } else if py > y1 {
        py - y1
    } else {
        0
    };
    let dx: usize = if px < x {
        x - px
    } else {
        px - x
    };
    if dx > 10 || dy > 10 {
        proof {
            if dx > 10 {
                assert(dx * dx > 100) by (nonlinear_arith)
                    requires
                        dx > 10,
                ;
            } else {
                assert(dy * dy > 100) by (nonlinear_arith)
                    requires
                        dy > 10,
                ;
            }
        }
        false
    } else {
        proof {
            assert(dx * dx <= 100 && dy * dy <= 100) by (nonlinear_arith)
                requires
                    dx <= 10 && dy <= 10,
            ;
        }
        dx * dx + dy * dy <= 100
    }
}

/// Whether the point lies within the tolerance of the rectangle outline.
fn point_near_outline(p: Point, xl: usize, xr: usize, yt: usize, yb: usize) -> (r: bool)
    requires
        xl <= xr,
        yt <= yb,
    ensures
        r == near_outline(p, xl as int, xr as int, yt as int, yb as int),
{
    near_h_segment(p.x, p.y, xl, xr, yt) || near_h_segment(p.x, p.y, xl, xr, yb) || near_v_segment(
        p.x,
        p.y,
        xl,
        yt,
        yb,
    ) || near_v_segment(p.x, p.y, xr, yt, yb)
}

/// Runs all the gates of `spec_candidate` on one contour.
#[verifier::loop_isolation(false)]
fn try_contour(width: usize, height: usize, contour: &Contour) -> (r: Option<Square>)
    requires
        forall|j: int|
            0 <= j < contour@.len() ==> (#[trigger] contour@[j]).x < width && contour@[j].y
                < height,
    ensures
        match r {
            Some(s) => spec_candidate(width as int, height as int, contour@) == Some(s@)
                && s.contour@ == contour@,
            None => spec_candidate(width as int, height as int, contour@) is None,
        },
{
    if contour.points.len() < MIN_CONTOUR_POINTS {
        return None;
    }
    if width < 3 || height < 3 {
        return None;
    }
    let ghost ps = contour@;
    let ghost hx = x_histogram(ps, width as int);
    let ghost hy = y_histogram(ps, height as int);

    let hist_x = build_x_histogram(&contour.points, width);
    let hist_y = build_y_histogram(&contour.points, height);
    proof {
        assert(forall|i: int| 0 <= i < width ==> hx[i] == #[trigger] hist_x@[i]);
        assert(forall|i: int| 0 <= i < height ==> hy[i] == #[trigger] hist_y@[i]);
    }

    let bx0_opt = best_bucket(&hist_x, Ghost(hx), None, None);
    proof {
        lemma_arg_best_found(hx, width as int, -1, -1, 0);
    }
    let bx0 = bx0_opt.unwrap();
    let bx1_opt = best_bucket(&hist_x, Ghost(hx), Some(bx0), None);
    proof {
        let w1: int = if bx0 == 0 {
            1
        } else {
            0
        };
        lemma_arg_best_found(hx, width as int, bx0 as int, -1, w1);
    }
    let bx1 = bx1_opt.unwrap();
    let bx2_opt = best_bucket(&hist_x, Ghost(hx), Some(bx0), Some(bx1));
    proof {
        let w2: int = if bx0 != 0 && bx1 != 0 {
            0
        } else if bx0 != 1 && bx1 != 1 {
            1
        } else {
            2
        };
        lemma_arg_best_found(hx, width as int, bx0 as int, bx1 as int, w2);
    }
    let bx2 = bx2_opt.unwrap();

    let by0_opt = best_bucket(&hist_y, Ghost(hy), None, None);
    proof {
        lemma_arg_best_found(hy, height as int, -1, -1, 0);
    }
    let by0 = by0_opt.unwrap();
    let by1_opt = best_bucket(&hist_y, Ghost(hy), Some(by0), None);
    proof {
        let w1: int = if by0 == 0 {
            1
        } else {
            0
        };
        lemma_arg_best_found(hy, height as int, by0 as int, -1, w1);
    }
    let by1 = by1_opt.unwrap();
    let by2_opt = best_bucket(&hist_y, Ghost(hy), Some(by0), Some(by1));
    proof {
        let w2: int = if by0 != 0 && by1 != 0 {
            0
        } else if by0 != 1 && by1 != 1 {
            1
        } else {
            2
        };
        lemma_arg_best_found(hy, height as int, by0 as int, by1 as int, w2);
    }
    let by2 = by2_opt.unwrap();

    if 20u128 * (hist_x[bx2] as u128) > 7u128 * (hist_x[bx1] as u128) {
        proof {
            assert(!x_gate_ok(ps, width as int));
        }
        return None;
    }
    if 20u128 * (hist_y[by2] as u128) > 7u128 * (hist_y[by1] as u128) {
        proof {
            assert(!y_gate_ok(ps, height as int));
        }
        return None;
    }
    proof {
        assert(x_gate_ok(ps, width as int));
        assert(y_gate_ok(ps, height as int));
    }

    let xl = if bx0 <= bx1 {
        bx0
    } else {
        bx1
    };
    let xr = if bx0 <= bx1 {
        bx1
    } else {
        bx0
    };
    let yt = if by0 <= by1 {
        by0
    } else {
        by1
    };
    let yb = if by0 <= by1 {
        by1
    } else {
        by0
    };
    proof {
        assert(x_edges(ps, width as int) == (xl as int, xr as int));
        assert(y_edges(ps, height as int) == (yt as int, yb as int));
    }

    let mut k: usize = 0;
    while k < contour.points.len()
        invariant
            k <= contour.points.len(),
            ps == contour@,
            xl <= xr,
            yt <= yb,
            forall|i: int|
                0 <= i < k ==> near_outline(
                    #[trigger] ps[i],
                    xl as int,
                    xr as int,
                    yt as int,
                    yb as int,
                ),
        decreases contour.points.len() - k,
    {
        if !point_near_outline(contour.points[k], xl, xr, yt, yb) {
            proof {
                assert(!all_near_outline(ps, xl as int, xr as int, yt as int, yb as int));
            }
            return None;
        }
        k = k + 1;
    }
    proof {
        assert(all_near_outline(ps, xl as int, xr as int, yt as int, yb as int));
    }

    let side_w = xr - xl;
    let side_h = yb - yt;
    let shorter = if side_w <= side_h {
        side_w
    } else {
        side_h
    };
    let longer = if side_w <= side_h {
        side_h
    } else {
        side_w
    };
    if 50u128 * (shorter as u128) < 49u128 * (longer as u128) {
        proof {
            assert(!sides_square(xr as int - xl as int, yb as int - yt as int));
        }
        return None;
    }
    proof {
        assert(sides_square(xr as int - xl as int, yb as int - yt as int));
    }

    Some(Square { x_left: xl, x_right: xr, y_top: yt, y_bottom: yb, contour: contour.duplicate() })
}

/// The views of a sequence of squares.
pub open spec fn square_views(s: Seq<Square>) -> Seq<SquareView> {
    s.map_values(|q: Square| q@)
}

/// The point sequences of a sequence of contours.
pub open spec fn contour_views(cs: Seq<Contour>) -> Seq<Seq<Point>> {
    cs.map_values(|c: Contour| c@)
}

/// The position a stable insertion gives a square with top edge `y`: before
/// the first entry whose top edge is strictly larger, so after every entry
/// with the same top edge.
pub open spec fn stable_pos(s: Seq<SquareView>, y: int) -> int
    decreases s.len(),
{
    if s.len() == 0 {
        0
    } else if s.first().y_top > y {
        0
    } else {
        1 + stable_pos(s.drop_first(), y)
    }
}

/// One stable insertion step.
pub open spec fn stable_insert(s: Seq<SquareView>, x: SquareView) -> Seq<SquareView> {
    s.insert(stable_pos(s, x.y_top), x)
}

/// The candidates sorted ascending by top edge, stably: taken in input
/// order, each placed after every earlier candidate with the same top edge.
pub open spec fn stable_by_top(cands: Seq<SquareView>) -> Seq<SquareView>
    decreases cands.len(),
{
    if cands.len() == 0 {
        Seq::empty()
    } else {
        stable_insert(stable_by_top(cands.drop_last()), cands.last())
    }
}

/// `stable_pos` is in range, everything before it has a top edge at most
/// `y`, and the entry at it (if any) a strictly larger one.
proof fn lemma_stable_pos_char(s: Seq<SquareView>, y: int)
    ensures
        0 <= stable_pos(s, y) <= s.len(),
        forall|j: int| 0 <= j < stable_pos(s, y) ==> s[j].y_top <= y,
        stable_pos(s, y) < s.len() ==> s[stable_pos(s, y)].y_top > y,
    decreases s.len(),
{
    if s.len() > 0 && !(s.first().y_top > y) {
        lemma_stable_pos_char(s.drop_first(), y);
        let q = stable_pos(s.drop_first(), y);
        assert forall|j: int| 0 <= j < stable_pos(s, y) implies s[j].y_top <= y by {
            if j >= 1 {
                assert(s.drop_first()[j - 1] == s[j]);
            }
        }
        if stable_pos(s, y) < s.len() {
            assert(s.drop_first()[q] == s[q + 1]);
        }
    }
}

/// No other position satisfies the characterization of `stable_pos`.
proof fn lemma_stable_pos_unique(s: Seq<SquareView>, y: int, p: int)
    requires
        0 <= p <= s.len(),
        forall|j: int| 0 <= j < p ==> s[j].y_top <= y,
        p < s.len() ==> s[p].y_top > y,
    ensures
        p == stable_pos(s, y),
{
    lemma_stable_pos_char(s, y);
    let q = stable_pos(s, y);
    if p < q {
        assert(s[p].y_top > y);
        assert(s[p].y_top <= y);
    } else if q < p {
        assert(s[q].y_top > y);
        assert(s[q].y_top <= y);
    }
}

/// Inserting an element anywhere adds exactly it to the multiset of the
/// sequence.
proof fn lemma_insert_to_multiset<A>(s: Seq<A>, i: int, x: A)
    requires
        0 <= i <= s.len(),
    ensures
        s.insert(i, x).to_multiset() == s.to_multiset().insert(x),
{
    broadcast use vstd::seq_lib::group_to_multiset_ensures;
    broadcast use vstd::multiset::group_multiset_axioms;

    let t = s.insert(i, x);
    assert(t.remove(i) =~= s);
    assert(t[i] == x);
    assert(t.remove(i).to_multiset() == t.to_multiset().remove(x));
    assert(t.contains(x)) by {
        assert(t[i] == x);
    }
    assert(t.to_multiset().count(x) > 0);
    assert forall|y: A| t.to_multiset().count(y) == #[trigger] s.to_multiset().insert(x).count(y) by {
        assert(s.to_multiset().count(y) == t.to_multiset().remove(x).count(y));
    }
    assert(t.to_multiset() =~= s.to_multiset().insert(x));
}

/// Puts `sq` in front of the first entry with a larger top edge, keeping the
/// vector sorted.
fn insert_sorted(sorted: &mut Vec<Square>, sq: Square)
    requires
        forall|a: int, b: int|
            0 <= a <= b < old(sorted)@.len() ==> (#[trigger] old(sorted)@[a]).y_top
                <= (#[trigger] old(sorted)@[b]).y_top,
    ensures
        forall|a: int, b: int|
            0 <= a <= b < final(sorted)@.len() ==> (#[trigger] final(sorted)@[a]).y_top
                <= (#[trigger] final(sorted)@[b]).y_top,
        square_views(final(sorted)@).to_multiset() == square_views(old(sorted)@).to_multiset().insert(
            sq@,
        ),
        square_views(final(sorted)@) == stable_insert(square_views(old(sorted)@), sq@),
{
    let mut pos: usize = sorted.len();
    let mut k: usize = 0;
    while k < sorted.len()
        invariant
            k <= sorted.len(),
            pos <= sorted.len(),
            pos == sorted.len() ==> forall|j: int|
                0 <= j < k ==> (#[trigger] sorted@[j]).y_top <= sq.y_top,
            pos < sorted.len() ==> pos < k && sorted@[pos as int].y_top > sq.y_top && forall|j: int|
                0 <= j < pos ==> (#[trigger] sorted@[j]).y_top <= sq.y_top,
        decreases sorted.len() - k,
    {
        if pos == sorted.len() && sorted[k].y_top > sq.y_top {
            pos = k;
        }
        k = k + 1;
    }
    let ghost before = sorted@;
    let ghost sqv = sq@;
    sorted.insert(pos, sq);
    proof {
        before.insert_ensures(pos as int, sq);
        assert(square_views(sorted@) =~= square_views(before).insert(pos as int, sqv));
        lemma_insert_to_multiset(square_views(before), pos as int, sqv);
        assert(square_views(before).len() == before.len());
        assert forall|j: int| 0 <= j < pos implies square_views(before)[j].y_top <= sqv.y_top by {
            assert(square_views(before)[j] == before[j]@);
        }
        if (pos as int) < before.len() {
            assert(square_views(before)[pos as int] == before[pos as int]@);
        }
        lemma_stable_pos_unique(square_views(before), sqv.y_top, pos as int);
    }
}

/// Every candidate in `spec_candidates` is the candidate of its own points.
proof fn lemma_candidates_sound(width: int, height: int, cs: Seq<Seq<Point>>)
    ensures
        forall|k: int|
            0 <= k < spec_candidates(width, height, cs).len() ==> spec_candidate(
                width,
                height,
                (#[trigger] spec_candidates(width, height, cs)[k]).points,
            ) == Some(spec_candidates(width, height, cs)[k]),
    decreases cs.len(),
{
    if cs.len() > 0 {
        lemma_candidates_sound(width, height, cs.drop_last());
    }
}

/// Detects candidate square regions in a set of traced contours.
///
/// Per contour: at least `MIN_CONTOUR_POINTS` points; the two tallest buckets
/// of each coordinate histogram give the edges; the third bucket must hold at
/// most 35% of the second (the spikes are unambiguous); every point must lie
/// within `TOLERANCE_SQUARED` of the chosen outline; the sides must be equal
/// within 2%. A contour that fails any gate is silently skipped. The result
/// holds exactly the accepted contours' squares, sorted ascending by the
/// y-coordinate of their top edge.
pub fn detect_squares(width: usize, height: usize, contours: &Vec<Contour>) -> (r: Vec<Square>)
    requires
        forall|i: int, j: int|
            0 <= i < contours@.len() && 0 <= j < contours@[i]@.len() ==> (#[trigger] contours@[i]@[j]).x
                < width && contours@[i]@[j].y < height,
    ensures
        square_views(r@) == stable_by_top(
            spec_candidates(width as int, height as int, contour_views(contours@)),
        ),
        square_views(r@).to_multiset() == spec_candidates(
            width as int,
            height as int,
            contour_views(contours@),
        ).to_multiset(),
        forall|a: int, b: int|
            0 <= a <= b < r@.len() ==> (#[trigger] r@[a]).y_top <= (#[trigger] r@[b]).y_top,
        forall|k: int|
            0 <= k < r@.len() ==> spec_candidate(width as int, height as int, (#[trigger] r@[k]).contour@)
                == Some(r@[k]@),
{
    broadcast use vstd::seq_lib::group_to_multiset_ensures;

    let ghost cs = contour_views(contours@);
    let mut results: Vec<Square> = Vec::new();
    let mut i: usize = 0;
    while i < contours.len()
        invariant
            i <= contours.len(),
            cs == contour_views(contours@),
            cs.len() == contours@.len(),
            forall|a: int, b: int|
                0 <= a <= b < results@.len() ==> (#[trigger] results@[a]).y_top
                    <= (#[trigger] results@[b]).y_top,
            square_views(results@) == stable_by_top(
                spec_candidates(width as int, height as int, cs.take(i as int)),
            ),
            square_views(results@).to_multiset() == spec_candidates(
                width as int,
                height as int,
                cs.take(i as int),
            ).to_multiset(),
            forall|ii: int, j: int|
                0 <= ii < contours@.len() && 0 <= j < contours@[ii]@.len() ==> (#[trigger] contours@[ii]@[j]).x
                    < width && contours@[ii]@[j].y < height,
        decreases contours.len() - i,
    {
        let ghost prefix = cs.take(i as int);
        let ghost step = spec_candidate(width as int, height as int, cs[i as int]);
        proof {
            assert(cs.take(i + 1).drop_last() =~= prefix);
            assert(cs.take(i + 1).last() == cs[i as int]);
            assert(cs[i as int] == contours@[i as int]@);
        }
        match try_contour(width, height, &contours[i]) {
            Some(sq) => {
                proof {
                    assert(step == Some(sq@));
                    assert(spec_candidates(width as int, height as int, cs.take(i + 1))
                        =~= spec_candidates(width as int, height as int, prefix).push(sq@));
                }
                insert_sorted(&mut results, sq);
                proof {
                    let pc = spec_candidates(width as int, height as int, prefix);
                    vstd::seq_lib::to_multiset_build(pc, sq@);
                    assert(pc.push(sq@).to_multiset() == pc.to_multiset().insert(sq@));
                    assert(spec_candidates(width as int, height as int, cs.take(i + 1)).to_multiset()
                        == pc.to_multiset().insert(sq@));
                    assert(pc.push(sq@).drop_last() =~= pc);
                    assert(stable_by_top(pc.push(sq@)) == stable_insert(stable_by_top(pc), sq@));
                    assert(square_views(results@) == stable_by_top(
                        spec_candidates(width as int, height as int, cs.take(i + 1)),
                    ));
                }
            },
            None => {
                proof {
                    assert(step is None);
                    assert(spec_candidates(width as int, height as int, cs.take(i + 1))
                        =~= spec_candidates(width as int, height as int, prefix));
                }
            },
        }
        i = i + 1;
    }
    proof {
        assert(cs.take(cs.len() as int) =~= cs);
        lemma_candidates_sound(width as int, height as int, cs);
        let cands = spec_candidates(width as int, height as int, cs);
        assert forall|k: int|
            0 <= k < results@.len() implies spec_candidate(
            width as int,
            height as int,
            (#[trigger] results@[k]).contour@,
        ) == Some(results@[k]@) by {
            assert(square_views(results@)[k] == results@[k]@);
            assert(square_views(results@).contains(results@[k]@));
            assert(square_views(results@).to_multiset().count(results@[k]@) > 0);
            assert(cands.to_multiset().count(results@[k]@) > 0);
            assert(cands.contains(results@[k]@));
            let j = choose|j: int| 0 <= j < cands.len() && cands[j] == results@[k]@;
            assert(spec_candidate(width as int, height as int, cands[j].points) == Some(cands[j]));
            assert(results@[k]@.points == results@[k].contour@);
        }
    }
    results
}

/// Whether the point lies exactly on the outline of the rectangle with the
/// given edge coordinates.
pub open spec fn on_outline(p: Point, xl: int, xr: int, yt: int, yb: int) -> bool {
    ||| ((p.x == xl || p.x == xr) && yt <= p.y <= yb)
    ||| ((p.y == yt || p.y == yb) && xl <= p.x <= xr)
}

proof fn lemma_count_x_none(ps: Seq<Point>, x: int)
    requires
        forall|i: int| 0 <= i < ps.len() ==> (#[trigger] ps[i]).x != x,
    ensures
        count_with_x(ps, x) == 0,
    decreases ps.len(),
{
    if ps.len() > 0 {
        assert forall|i: int| 0 <= i < ps.drop_last().len() implies (#[trigger] ps.drop_last()[i]).x
            != x by {
            assert(ps.drop_last()[i] == ps[i]);
        }
        lemma_count_x_none(ps.drop_last(), x);
    }
}

/// With no duplicate points, at most one point can sit in bucket `x` when
/// all of them share the y-coordinate `ya`.
proof fn lemma_count_x_single(ps: Seq<Point>, x: int, ya: int)
    requires
        forall|i: int, j: int| 0 <= i < j < ps.len() ==> ps[i] != ps[j],
        forall|i: int| 0 <= i < ps.len() && (#[trigger] ps[i]).x == x ==> ps[i].y == ya,
    ensures
        count_with_x(ps, x) <= 1,
    decreases ps.len(),
{
    if ps.len() > 0 {
        let head = ps.drop_last();
        let last = ps.last();
        assert(forall|i: int| 0 <= i < head.len() ==> #[trigger] head[i] == ps[i]);
        if last.x == x {
            assert forall|i: int| 0 <= i < head.len() implies (#[trigger] head[i]).x != x by {
                if head[i].x == x {
                    assert(ps[i].y == ya && last.y == ya);
                    assert(ps[i] == last);
                    assert(ps[i] != ps[ps.len() - 1]);
                }
            }
            lemma_count_x_none(head, x);
        } else {
            lemma_count_x_single(head, x, ya);
        }
    }
}

/// With no duplicate points, at most two points can sit in bucket `x` when
/// all of them carry one of the two y-coordinates `ya` and `yb2`.
proof fn lemma_count_x_pair(ps: Seq<Point>, x: int, ya: int, yb2: int)
    requires
        forall|i: int, j: int| 0 <= i < j < ps.len() ==> ps[i] != ps[j],
        forall|i: int|
            0 <= i < ps.len() && (#[trigger] ps[i]).x == x ==> ps[i].y == ya || ps[i].y == yb2,
    ensures
        count_with_x(ps, x) <= 2,
    decreases ps.len(),
{
    if ps.len() > 0 {
        let head = ps.drop_last();
        let last = ps.last();
        assert(forall|i: int| 0 <= i < head.len() ==> #[trigger] head[i] == ps[i]);
        if last.x == x {
            let other: int = if last.y == ya {
                yb2
            } else {
                ya
            };
            assert forall|i: int|
                0 <= i < head.len() && (#[trigger] head[i]).x == x implies head[i].y == other by {
                if head[i].y == last.y {
                    assert(ps[i] == last);
                    assert(ps[i] != ps[ps.len() - 1]);
                }
            }
            lemma_count_x_single(head, x, other);
        } else {
            lemma_count_x_pair(head, x, ya, yb2);
        }
    }
}

proof fn lemma_count_y_none(ps: Seq<Point>, y: int)
    requires
        forall|i: int| 0 <= i < ps.len() ==> (#[trigger] ps[i]).y != y,
    ensures
        count_with_y(ps, y) == 0,
    decreases ps.len(),
{
    if ps.len() > 0 {
        assert forall|i: int| 0 <= i < ps.drop_last().len() implies (#[trigger] ps.drop_last()[i]).y
            != y by {
            assert(ps.drop_last()[i] == ps[i]);
        }
        lemma_count_y_none(ps.drop_last(), y);
    }
}

/// The mirror of `lemma_count_x_single` for a y-bucket.
proof fn lemma_count_y_single(ps: Seq<Point>, y: int, xa: int)
    requires
        forall|i: int, j: int| 0 <= i < j < ps.len() ==> ps[i] != ps[j],
        forall|i: int| 0 <= i < ps.len() && (#[trigger] ps[i]).y == y ==> ps[i].x == xa,
    ensures
        count_with_y(ps, y) <= 1,
    decreases ps.len(),
{
    if ps.len() > 0 {
        let head = ps.drop_last();
        let last = ps.last();
        assert(forall|i: int| 0 <= i < head.len() ==> #[trigger] head[i] == ps[i]);
        if last.y == y {
            assert forall|i: int| 0 <= i < head.len() implies (#[trigger] head[i]).y != y by {
                if head[i].y == y {
                    assert(ps[i].x == xa && last.x == xa);
                    assert(ps[i] == last);
                    assert(ps[i] != ps[ps.len() - 1]);
                }
            }
            lemma_count_y_none(head, y);
        } else {
            lemma_count_y_single(head, y, xa);
        }
    }
}

/// The mirror of `lemma_count_x_pair` for a y-bucket.
proof fn lemma_count_y_pair(ps: Seq<Point>, y: int, xa: int, xb2: int)
    requires
        forall|i: int, j: int| 0 <= i < j < ps.len() ==> ps[i] != ps[j],
        forall|i: int|
            0 <= i < ps.len() && (#[trigger] ps[i]).y == y ==> ps[i].x == xa || ps[i].x == xb2,
    ensures
        count_with_y(ps, y) <= 2,
    decreases ps.len(),
{
    if ps.len() > 0 {
        let head = ps.drop_last();
        let last = ps.last();
        assert(forall|i: int| 0 <= i < head.len() ==> #[trigger] head[i] == ps[i]);
        if last.y == y {
            let other: int = if last.x == xa {
                xb2
            } else {
                xa
            };
            assert forall|i: int|
                0 <= i < head.len() && (#[trigger] head[i]).y == y implies head[i].x == other by {
                if head[i].x == last.x {
                    assert(ps[i] == last);
                    assert(ps[i] != ps[ps.len() - 1]);
                }
            }
            lemma_count_y_single(head, y, other);
        } else {
            lemma_count_y_pair(head, y, xa, xb2);
        }
    }
}

/// `arg_best` dominates every bucket it was allowed to choose from.
proof fn lemma_arg_best_max(h: Seq<int>, n: int, skip0: int, skip1: int)
    ensures
        forall|i: int|
            0 <= i < n && i != skip0 && i != skip1 ==> h[arg_best(h, n, skip0, skip1)]
                >= #[trigger] h[i],
    decreases n,
{
    if n > 0 {
        lemma_arg_best_max(h, n - 1, skip0, skip1);
        lemma_arg_best_range(h, n - 1, skip0, skip1);
        assert forall|i: int|
            0 <= i < n && i != skip0 && i != skip1 implies h[arg_best(h, n, skip0, skip1)]
            >= #[trigger] h[i] by {
            if i < n - 1 {
                lemma_arg_best_found(h, n - 1, skip0, skip1, i);
            }
        }
    }
}

/// The positive direction of detection: a contour with enough points whose
/// histogram spikes pass the confidence gate, whose points all lie near the
/// chosen outline, and whose sides are equal within the tolerance, yields
/// exactly the square with the chosen edge coordinates.
pub proof fn lemma_accepted_contour(width: int, height: int, ps: Seq<Point>)
    requires
        ps.len() >= MIN_CONTOUR_POINTS,
        width >= 3,
        height >= 3,
        x_gate_ok(ps, width),
        y_gate_ok(ps, height),
        ({
            let (xl, xr) = x_edges(ps, width);
            let (yt, yb) = y_edges(ps, height);
            all_near_outline(ps, xl, xr, yt, yb) && sides_square(xr - xl, yb - yt)
        }),
    ensures
        ({
            let (xl, xr) = x_edges(ps, width);
            let (yt, yb) = y_edges(ps, height);
            spec_candidate(width, height, ps) == Some(
                SquareView { x_left: xl, x_right: xr, y_top: yt, y_bottom: yb, points: ps },
            )
        }),
{
}

/// A cleanly traced perfect square is detected with its own corners. The
/// contour holds at least `MIN_CONTOUR_POINTS` distinct points, all on the
/// outline of an axis-aligned square inside the image, and each of the four
/// sides carries at least six of them. Every other histogram bucket then
/// holds at most two points (one from the top run, one from the bottom, or
/// the two side runs), so the four side spikes out-rank the rest, the
/// confidence gates pass, and the candidate — the sole candidate of such a
/// contour set — is exactly the traced square.
pub proof fn lemma_perfect_square_detected(
    width: int,
    height: int,
    ps: Seq<Point>,
    xl: int,
    xr: int,
    yt: int,
    yb: int,
)
    requires
        ps.len() >= MIN_CONTOUR_POINTS,
        width >= 3,
        height >= 3,
        0 <= xl < xr < width,
        0 <= yt < yb < height,
        xr - xl == yb - yt,
        forall|i: int| 0 <= i < ps.len() ==> on_outline(#[trigger] ps[i], xl, xr, yt, yb),
        forall|i: int, j: int| 0 <= i < j < ps.len() ==> ps[i] != ps[j],
        count_with_x(ps, xl) >= 6,
        count_with_x(ps, xr) >= 6,
        count_with_y(ps, yt) >= 6,
        count_with_y(ps, yb) >= 6,
    ensures
        spec_candidate(width, height, ps) == Some(
            SquareView { x_left: xl, x_right: xr, y_top: yt, y_bottom: yb, points: ps },
        ),
        spec_candidates(width, height, seq![ps]) == seq![
            SquareView { x_left: xl, x_right: xr, y_top: yt, y_bottom: yb, points: ps },
        ],
{
    let hx = x_histogram(ps, width);
    let hy = y_histogram(ps, height);

    assert forall|x: int| 0 <= x < width && x != xl && x != xr implies #[trigger] hx[x] <= 2 by {
        assert forall|i: int|
            0 <= i < ps.len() && (#[trigger] ps[i]).x == x implies ps[i].y == yt || ps[i].y
            == yb by {
            assert(on_outline(ps[i], xl, xr, yt, yb));
        }
        lemma_count_x_pair(ps, x, yt, yb);
    }
    assert forall|y: int| 0 <= y < height && y != yt && y != yb implies #[trigger] hy[y] <= 2 by {
        assert forall|i: int|
            0 <= i < ps.len() && (#[trigger] ps[i]).y == y implies ps[i].x == xl || ps[i].x
            == xr by {
            assert(on_outline(ps[i], xl, xr, yt, yb));
        }
        lemma_count_y_pair(ps, y, xl, xr);
    }
    assert(hx[xl] >= 6 && hx[xr] >= 6 && hy[yt] >= 6 && hy[yb] >= 6);

    let bx0 = arg_best(hx, width, -1, -1);
    lemma_arg_best_found(hx, width, -1, -1, xl);
    lemma_arg_best_max(hx, width, -1, -1);
    assert(hx[bx0] >= hx[xl]);
    assert(bx0 == xl || bx0 == xr);
    let ox: int = if bx0 == xl {
        xr
    } else {
        xl
    };
    let bx1 = arg_best(hx, width, bx0, -1);
    lemma_arg_best_found(hx, width, bx0, -1, ox);
    lemma_arg_best_max(hx, width, bx0, -1);
    assert(hx[bx1] >= hx[ox]);
    assert(bx1 == ox);
    let wx: int = if bx0 != 0 && bx1 != 0 {
        0
    } else if bx0 != 1 && bx1 != 1 {
        1
    } else {
        2
    };
    let bx2 = arg_best(hx, width, bx0, bx1);
    lemma_arg_best_found(hx, width, bx0, bx1, wx);
    assert(hx[bx2] <= 2);
    assert(20 * hx[bx2] <= 7 * hx[bx1]);
    assert(x_gate_ok(ps, width));
    assert(x_edges(ps, width) == (xl, xr));

    let by0 = arg_best(hy, height, -1, -1);
    lemma_arg_best_found(hy, height, -1, -1, yt);
    lemma_arg_best_max(hy, height, -1, -1);
    assert(hy[by0] >= hy[yt]);
    assert(by0 == yt || by0 == yb);
    let oy: int = if by0 == yt {
        yb
    } else {
        yt
    };
    let by1 = arg_best(hy, height, by0, -1);
    lemma_arg_best_found(hy, height, by0, -1, oy);
    lemma_arg_best_max(hy, height, by0, -1);
    assert(hy[by1] >= hy[oy]);
    assert(by1 == oy);
    let wy: int = if by0 != 0 && by1 != 0 {
        0
    } else if by0 != 1 && by1 != 1 {
        1
    } else {
        2
    };
    let by2 = arg_best(hy, height, by0, by1);
    lemma_arg_best_found(hy, height, by0, by1, wy);
    assert(hy[by2] <= 2);
    assert(20 * hy[by2] <= 7 * hy[by1]);
    assert(y_gate_ok(ps, height));
    assert(y_edges(ps, height) == (yt, yb));

    assert forall|i: int| 0 <= i < ps.len() implies near_outline(#[trigger] ps[i], xl, xr, yt, yb) by {
        assert(on_outline(ps[i], xl, xr, yt, yb));
        let px = ps[i].x as int;
        let py = ps[i].y as int;
        if (px == xl || px == xr) && yt <= py <= yb {
            assert(dist2_to_v_segment(px, py, if px == xl {
                xl
            } else {
                xr
            }, yt, yb) == 0);
        } else {
            assert(dist2_to_h_segment(px, py, xl, xr, if py == yt {
                yt
            } else {
                yb
            }) == 0);
        }
    }
    assert(all_near_outline(ps, xl, xr, yt, yb));
    assert(sides_square(xr - xl, yb - yt));
    lemma_accepted_contour(width, height, ps);
    let sv = SquareView { x_left: xl, x_right: xr, y_top: yt, y_bottom: yb, points: ps };
    assert(seq![ps].last() == ps);
    assert(seq![ps].drop_last() =~= Seq::<Seq<Point>>::empty());
    assert(spec_candidates(width, height, Seq::<Seq<Point>>::empty()) == Seq::<SquareView>::empty());
    assert(spec_candidates(width, height, seq![ps]) == Seq::<SquareView>::empty() + seq![sv]);
    assert(Seq::<SquareView>::empty() + seq![sv] =~= seq![sv]);
}

/// A contour whose chosen edges form a clearly non-square rectangle (side
/// ratio under 98%) is rejected.
pub proof fn lemma_nonsquare_rejected(width: int, height: int, ps: Seq<Point>)
    requires
        ({
            let (xl, xr) = x_edges(ps, width);
            let (yt, yb) = y_edges(ps, height);
            !sides_square(xr - xl, yb - yt)
        }),
    ensures
        spec_candidate(width, height, ps) is None,
{
}

/// A contour with any point farther than the tolerance from the chosen
/// outline is rejected.
pub proof fn lemma_deviating_point_rejected(width: int, height: int, ps: Seq<Point>, k: int)
    requires
        0 <= k < ps.len(),
        ({
            let (xl, xr) = x_edges(ps, width);
            let (yt, yb) = y_edges(ps, height);
            !near_outline(ps[k], xl, xr, yt, yb)
        }),
    ensures
        spec_candidate(width, height, ps) is None,
{
    let (xl, xr) = x_edges(ps, width);
    let (yt, yb) = y_edges(ps, height);
    assert(!all_near_outline(ps, xl, xr, yt, yb));
}

} // verus!
