//! Ready-made polygons, and the edges of a polygon as segments.
use vstd::prelude::*;
use crate::foundation::{
    close, lemma_close_reflexive, product_close_to_zero, Line, Point, Scalar, DEFAULT_REL_TOL, SCALE,
};
use crate::linear_algebra::{
    contribution_sum, edge_adjustment, lemma_next_index, on_boundary, winding_number,
    Adjustment,
};

verus! {

/// Half of `v`, dropping the fraction toward zero.
pub open spec fn half(v: int) -> int {
    if v >= 0 {
        v / 2
    } else {
        -((-v) / 2)
    }
}

/// The corners of the rectangle of the given width and height centred on the
/// origin, counterclockwise from the lower left.
pub fn make_rectangle(width: Scalar, height: Scalar) -> (r: [Point; 4])
    ensures
        r[0].x == -half(width as int) && r[0].y == -half(height as int),
        r[1].x == half(width as int) && r[1].y == -half(height as int),
        r[2].x == half(width as int) && r[2].y == half(height as int),
        r[3].x == -half(width as int) && r[3].y == half(height as int),
{
    let half_width: i64 = width / 2;
    let half_height: i64 = height / 2;
    [
        Point { x: -half_width, y: -half_height },
        Point { x: half_width, y: -half_height },
        Point { x: half_width, y: half_height },
        Point { x: -half_width, y: half_height },
    ]
}

/// The closed loop of segments joining each point to the next and the last
/// back to the first; none for fewer than two points.
pub fn expand_lines(points: &Vec<Point>) -> (r: Vec<Line>)
    ensures
        r@.len() == (if points@.len() <= 1 { 0 } else { points@.len() }),
        forall|i: int|
            0 <= i < r@.len() ==> (#[trigger] r@[i]) == (Line {
                start: points@[i],
                end: points@[(i + 1) % points@.len() as int],
            }),
{
    let mut lines: Vec<Line> = Vec::new();
    let n: usize = points.len();
    if n <= 1 {
        return lines;
    }
    let mut i: usize = 0;
    while i < n
        invariant
            0 <= i <= n,
            n == points@.len(),
            n >= 2,
            lines@.len() == i,
            forall|k: int|
                0 <= k < i ==> (#[trigger] lines@[k]) == (Line {
                    start: points@[k],
                    end: points@[(k + 1) % n as int],
                }),
        decreases n - i,
    {
        let next: usize = if i + 1 == n { 0 } else { i + 1 };
        proof {
            lemma_next_index(i as int, n as int);
        }
        lines.push(Line { start: points[i], end: points[next] });
        i = i + 1;
    }
    lines
}

/// A value of at least two units is not close to zero, on either side.
proof fn lemma_clear_of_zero(d: int)
    requires
        d >= 2,
    ensures
        !close(d, 0),
        !close(-d, 0),
{
    assert(d * 1_000_000_000_000 > DEFAULT_REL_TOL * d) by (nonlinear_arith)
        requires d >= 2, DEFAULT_REL_TOL == 1000;
}

/// A product above the absolute tolerance is not close to zero, on either side.
proof fn lemma_product_clear_of_zero(d: int)
    requires
        d > SCALE,
    ensures
        !product_close_to_zero(d),
        !product_close_to_zero(-d),
{
    assert(d * 1_000_000_000_000 > DEFAULT_REL_TOL * d) by (nonlinear_arith)
        requires d >= 2, DEFAULT_REL_TOL == 1000;
}

/// Of a rectangle made by `make_rectangle` whose sides are clear of the
/// tolerance, the centre is inside, with winding number -1 since the corners
/// run counterclockwise; a point level with the top side is outside; the
/// midpoints of the vertical sides are on the boundary.
pub proof fn lemma_rectangle_winding(width: Scalar, height: Scalar, corners: Seq<Point>, x: Scalar)
    requires
        corners.len() == 4,
        corners[0].x == -half(width as int) && corners[0].y == -half(height as int),
        corners[1].x == half(width as int) && corners[1].y == -half(height as int),
        corners[2].x == half(width as int) && corners[2].y == half(height as int),
        corners[3].x == -half(width as int) && corners[3].y == half(height as int),
        width >= 0,
        height >= 4,
        2 * half(width as int) * half(height as int) > SCALE,
    ensures
        winding_number(Point { x: 0, y: 0 }, corners) == -1,
        winding_number(Point { x: x, y: corners[2].y }, corners) == 0,
        winding_number(Point { x: corners[1].x, y: 0 }, corners) == 0,
        winding_number(Point { x: corners[0].x, y: 0 }, corners) == 0,
{
    let hw = half(width as int);
    let hh = half(height as int);
    lemma_next_index(0, 4);
    lemma_next_index(1, 4);
    lemma_next_index(2, 4);
    lemma_next_index(3, 4);
    lemma_clear_of_zero(hh);
    let area = 2 * hh * hw;
    assert(area == 2 * hw * hh) by (nonlinear_arith) requires area == 2 * hh * hw;
    lemma_product_clear_of_zero(area);
    assert(-(2 * hh) * -hw + 0 * hh == area) by (nonlinear_arith) requires area == 2 * hh * hw;
    assert(-(-2 * hh) * hw + 0 * -hh == area) by (nonlinear_arith) requires area == 2 * hh * hw;

    let centre = Point { x: 0, y: 0 };
    assert(edge_adjustment(centre, corners, 0) == Adjustment::Skip);
    assert(edge_adjustment(centre, corners, 1) == Adjustment::Skip);
    assert(edge_adjustment(centre, corners, 2) == Adjustment::Skip);
    assert(edge_adjustment(centre, corners, 3) == Adjustment::Decrement);
    assert(!on_boundary(centre, corners));
    assert(contribution_sum(centre, corners, 4) == -1) by {
        reveal_with_fuel(contribution_sum, 5);
    }

    let level = Point { x: x, y: corners[2].y };
    lemma_close_reflexive(hh, DEFAULT_REL_TOL as int, 1);
    assert(edge_adjustment(level, corners, 0) == Adjustment::Skip);
    assert(edge_adjustment(level, corners, 1) == Adjustment::Skip);
    assert(edge_adjustment(level, corners, 2) == Adjustment::Skip);
    assert(edge_adjustment(level, corners, 3) == Adjustment::Skip);
    assert(!on_boundary(level, corners));
    assert(contribution_sum(level, corners, 4) == 0) by {
        reveal_with_fuel(contribution_sum, 5);
    }

    lemma_close_reflexive(0, DEFAULT_REL_TOL as int, 1);
    assert(-(2 * hh) * 0 + 0 * hh == 0) by (nonlinear_arith);
    assert(edge_adjustment(Point { x: corners[1].x, y: 0 }, corners, 1) == Adjustment::OnBoundary);
    assert(-(-2 * hh) * 0 + 0 * -hh == 0) by (nonlinear_arith);
    assert(edge_adjustment(Point { x: corners[0].x, y: 0 }, corners, 3) == Adjustment::OnBoundary);
}

} // verus!
