//! Vector primitives, the side-of-line classifier and the winding-number engine.
use vstd::prelude::*;
use crate::foundation::{
    float_gt, float_le, gt_tol, is_product_close_to_zero, le_tol, product_close_to_zero, Point,
    Scalar, SCALE,
};

verus! {

/// Where a candidate vector lies relative to the line along a reference vector.
#[derive(Debug, Clone, Copy, PartialEq, Eq, Structural)]
pub enum BoundarySituation {
    Inside,
    Outside,
    On,
}

/// What one polygon edge does to the running winding number.
#[derive(Debug, Clone, Copy, PartialEq, Eq, Structural)]
pub enum Adjustment {
    Increment,
    Decrement,
    Skip,
    OnBoundary,
}

/// Takes a product of two scalars back to scalar units, dropping the fraction
/// toward zero.
pub open spec fn scale_down(v: int) -> int {
    if v >= 0 {
        v / (SCALE as int)
    } else {
        -((-v) / (SCALE as int))
    }
}

/// The exact dot product of `(ax, ay)` and `(bx, by)`, in units of 10^-12.
pub open spec fn product_value(ax: int, ay: int, bx: int, by: int) -> int {
    ax * bx + ay * by
}

/// The dot product of `(ax, ay)` and `(bx, by)`, in scalar units.
pub open spec fn dot_value(ax: int, ay: int, bx: int, by: int) -> int {
    scale_down(product_value(ax, ay, bx, by))
}

/// The situation that an exact signed side value, in units of 10^-12, stands for.
pub open spec fn classify(d: int) -> BoundarySituation {
    if product_close_to_zero(d) {
        BoundarySituation::On
    } else if d < 0 {
        BoundarySituation::Inside
    } else {
        BoundarySituation::Outside
    }
}

/// Where `(cx, cy)` lies relative to the line along `(rx, ry)`: the sign of its
/// exact dot product with the normal `(-ry, rx)`.
pub open spec fn side(rx: int, ry: int, cx: int, cy: int) -> BoundarySituation {
    classify(product_value(-ry, rx, cx, cy))
}

/// The situation of `point` relative to the edge from `start` to `end`, both
/// taken relative to `start`.
pub open spec fn edge_side(start: Point, end: Point, point: Point) -> BoundarySituation {
    side(end.x - start.x, end.y - start.y, point.x - start.x, point.y - start.y)
}

/// The effect of the edge from `start` to `end` on the winding number around
/// `point`: an upward crossing counts on the inside, a downward one on the
/// outside, and a point on the crossing edge ends the count.
pub open spec fn adjustment_of(start: Point, end: Point, point: Point) -> Adjustment {
    if le_tol(start.y as int, point.y as int) {
        if gt_tol(end.y as int, point.y as int) {
            match edge_side(start, end, point) {
                BoundarySituation::On => Adjustment::OnBoundary,
                BoundarySituation::Inside => Adjustment::Increment,
                BoundarySituation::Outside => Adjustment::Skip,
            }
        } else {
            Adjustment::Skip
        }
    } else if le_tol(end.y as int, point.y as int) {
        match edge_side(start, end, point) {
            BoundarySituation::On => Adjustment::OnBoundary,
            BoundarySituation::Inside => Adjustment::Skip,
            BoundarySituation::Outside => Adjustment::Decrement,
        }
    } else {
        Adjustment::Skip
    }
}

/// The effect of edge `i` of `polygon`, the last edge closing back to the first vertex.
pub open spec fn edge_adjustment(point: Point, polygon: Seq<Point>, i: int) -> Adjustment {
    adjustment_of(polygon[i], polygon[(i + 1) % polygon.len() as int], point)
}

pub open spec fn contribution(a: Adjustment) -> int {
    match a {
        Adjustment::Increment => 1,
        Adjustment::Decrement => -1,
        _ => 0,
    }
}

/// The summed contributions of the first `k` edges.
pub open spec fn contribution_sum(point: Point, polygon: Seq<Point>, k: nat) -> int
    decreases k,
{
    if k == 0 {
        0
    } else {
        contribution_sum(point, polygon, (k - 1) as nat) + contribution(
            edge_adjustment(point, polygon, k - 1),
        )
    }
}

/// Some edge of `polygon` crosses the level of `point` through `point` itself.
pub open spec fn on_boundary(point: Point, polygon: Seq<Point>) -> bool {
    exists|i: int| 0 <= i < polygon.len() && edge_adjustment(point, polygon, i) == Adjustment::OnBoundary
}

/// The winding number of `polygon` around `point`; zero where `point` is on the boundary.
pub open spec fn winding_number(point: Point, polygon: Seq<Point>) -> int {
    if on_boundary(point, polygon) {
        0
    } else {
        contribution_sum(point, polygon, polygon.len())
    }
}

impl Point {
    /// The vector from `other` to `self`.
    pub fn subtract(&self, other: &Point) -> (r: Point)
        requires
            i64::MIN <= self.x - other.x <= i64::MAX,
            i64::MIN <= self.y - other.y <= i64::MAX,
        ensures
            r.x == self.x - other.x,
            r.y == self.y - other.y,
    {
        Point { x: self.x - other.x, y: self.y - other.y }
    }

    /// The vector turned a quarter counterclockwise.
    pub fn normal(&self) -> (r: Point)
        requires
            self.y != i64::MIN,
        ensures
            r.x == -self.y,
            r.y == self.x,
    {
        Point { x: -self.y, y: self.x }
    }

    /// The exact dot product, in units of 10^-12.
    pub fn dot_wide(&self, other: &Point) -> (r: i128)
        requires
            i128::MIN <= product_value(self.x as int, self.y as int, other.x as int, other.y as int)
                <= i128::MAX,
        ensures
            r == product_value(self.x as int, self.y as int, other.x as int, other.y as int),
    {
        let (ax, ay, bx, by) = (self.x as i128, self.y as i128, other.x as i128, other.y as i128);
        proof {
            lemma_product_bound(ax as int, bx as int, 0x8000_0000_0000_0000, 0x8000_0000_0000_0000);
            lemma_product_bound(ay as int, by as int, 0x8000_0000_0000_0000, 0x8000_0000_0000_0000);
        }
        ax * bx + ay * by
    }

    /// The dot product, in scalar units.
    pub fn dot(&self, other: &Point) -> (r: Scalar)
        requires
            i128::MIN <= product_value(self.x as int, self.y as int, other.x as int, other.y as int)
                <= i128::MAX,
            i64::MIN <= dot_value(self.x as int, self.y as int, other.x as int, other.y as int)
                <= i64::MAX,
        ensures
            r == dot_value(self.x as int, self.y as int, other.x as int, other.y as int),
    {
        let sum: i128 = self.dot_wide(other);
        let scale: i128 = SCALE as i128;
        if sum >= 0 {
            (sum / scale) as i64
        } else {
            -((-sum) / scale) as i64
        }
    }

    /// Where `other` lies relative to the line along `self`, judged on the
    /// exact dot product with the normal.
    pub fn situate(&self, other: &Point) -> (r: BoundarySituation)
        requires
            self.y != i64::MIN,
        ensures
            r == side(self.x as int, self.y as int, other.x as int, other.y as int),
    {
        let normal = self.normal();
        proof {
            lemma_product_bound(normal.x as int, other.x as int, 0x7fff_ffff_ffff_ffff, 0x8000_0000_0000_0000);
            lemma_product_bound(normal.y as int, other.y as int, 0x8000_0000_0000_0000, 0x8000_0000_0000_0000);
        }
        let boundary_direction_dot = normal.dot_wide(other);
        if is_product_close_to_zero(boundary_direction_dot) {
            BoundarySituation::On
        } else if boundary_direction_dot < 0 {
            BoundarySituation::Inside
        } else {
            BoundarySituation::Outside
        }
    }
}

/// The effect of the edge from `start` to `end` on the winding number around `point`.
pub fn determine_winding_number_adjustment(start: &Point, end: &Point, point: &Point) -> (r: Adjustment)
    requires
        start.is_location(),
        end.is_location(),
        point.is_location(),
    ensures
        r == adjustment_of(*start, *end, *point),
{
    if float_le(start.y, point.y) {
        if float_gt(end.y, point.y) {
            let boundary_situation = end.subtract(start).situate(&point.subtract(start));
            match boundary_situation {
                BoundarySituation::On => Adjustment::OnBoundary,
                BoundarySituation::Inside => Adjustment::Increment,
                BoundarySituation::Outside => Adjustment::Skip,
            }
        } else {
            Adjustment::Skip
        }
    } else if float_le(end.y, point.y) {
        let boundary_situation = end.subtract(start).situate(&point.subtract(start));
        match boundary_situation {
            BoundarySituation::On => Adjustment::OnBoundary,
            BoundarySituation::Inside => Adjustment::Skip,
            BoundarySituation::Outside => Adjustment::Decrement,
        }
    } else {
        Adjustment::Skip
    }
}

/// The winding number of `polygon` around `point`, over every edge including
/// the one that closes the polygon; zero where `point` lies on an edge.
pub fn calc_winding_number(point: &Point, polygon: &Vec<Point>) -> (r: i32)
    requires
        point.is_location(),
        forall|j: int| 0 <= j < polygon@.len() ==> (#[trigger] polygon@[j]).is_location(),
        polygon@.len() <= i32::MAX,
    ensures
        r == winding_number(*point, polygon@),
{
    let n: usize = polygon.len();
    let mut winding: i32 = 0;
    let mut i: usize = 0;
    while i < n
        invariant
            0 <= i <= n,
            n == polygon@.len(),
            n <= i32::MAX,
            point.is_location(),
            forall|j: int| 0 <= j < polygon@.len() ==> (#[trigger] polygon@[j]).is_location(),
            winding == contribution_sum(*point, polygon@, i as nat),
            -(i as int) <= winding <= i,
            forall|j: int|
                0 <= j < i ==> edge_adjustment(*point, polygon@, j) != Adjustment::OnBoundary,
        decreases n - i,
    {
        let next: usize = if i + 1 == n { 0 } else { i + 1 };
        proof {
            lemma_next_index(i as int, n as int);
        }
        let adjustment = determine_winding_number_adjustment(&polygon[i], &polygon[next], point);
        assert(adjustment == edge_adjustment(*point, polygon@, i as int));
        match adjustment {
            Adjustment::Increment => winding = winding + 1,
            Adjustment::Decrement => winding = winding - 1,
            Adjustment::Skip => {},
            Adjustment::OnBoundary => {
                return 0;
            },
        }
        i = i + 1;
    }
    assert(!on_boundary(*point, polygon@));
    winding
}

/// A polygon without vertices, or with a single one, winds around no point.
pub proof fn lemma_degenerate_polygon(point: Point, vertex: Point)
    ensures
        winding_number(point, Seq::empty()) == 0,
        winding_number(point, seq![vertex]) == 0,
{
    let single = seq![vertex];
    assert(edge_adjustment(point, single, 0) == Adjustment::Skip);
    assert(!on_boundary(point, single));
    assert(contribution_sum(point, single, 1) == contribution_sum(point, single, 0) + contribution(
        edge_adjustment(point, single, 0),
    ));
}

/// A vector is orthogonal to its own normal; measured against the normal of a
/// vector whose squared length is above the tolerance, the vector itself is
/// never on the line.
pub proof fn lemma_normal_orthogonal(x: int, y: int)
    ensures
        dot_value(x, y, -y, x) == 0,
        x * x + y * y > SCALE ==> side(x, y, -y, x) != BoundarySituation::On,
{
    assert(x * -y + y * x == 0) by (nonlinear_arith);
    assert(-y * -y + x * x == x * x + y * y) by (nonlinear_arith);
}

/// Walking an edge backwards negates its side value, so its contribution
/// changes sign and a point on it stays on it.
proof fn lemma_reversed_edge(start: Point, end: Point, point: Point)
    ensures
        contribution(adjustment_of(end, start, point)) == -contribution(adjustment_of(start, end, point)),
        (adjustment_of(end, start, point) == Adjustment::OnBoundary) == (adjustment_of(start, end, point) == Adjustment::OnBoundary),
{
    let (sx, sy, ex, ey, px, py) = (start.x as int, start.y as int, end.x as int, end.y as int, point.x as int, point.y as int);
    let forward = -(ey - sy) * (px - sx) + (ex - sx) * (py - sy);
    let backward = -(sy - ey) * (px - ex) + (sx - ex) * (py - ey);
    assert(backward == -forward) by (nonlinear_arith)
        requires
            forward == -(ey - sy) * (px - sx) + (ex - sx) * (py - sy),
            backward == -(sy - ey) * (px - ex) + (sx - ex) * (py - ey),
    ;
}

/// The sum over the first `k` edges of the reversed polygon is the negated sum
/// over the matching edges of the original, which end before its closing edge.
proof fn lemma_reversed_prefix(point: Point, polygon: Seq<Point>, k: nat)
    requires
        polygon.len() >= 1,
        k <= polygon.len() - 1,
    ensures
        contribution_sum(point, polygon.reverse(), k) == contribution_sum(
            point,
            polygon,
            (polygon.len() - 1 - k) as nat,
        ) - contribution_sum(point, polygon, (polygon.len() - 1) as nat),
    decreases k,
{
    let n = polygon.len() as int;
    let rev = polygon.reverse();
    if k > 0 {
        lemma_reversed_prefix(point, polygon, (k - 1) as nat);
        let j = k - 1;
        let i = n - 2 - j;
        assert(rev[j] == polygon[i + 1]);
        lemma_next_index(j, n);
        lemma_next_index(i, n);
        assert(rev[(j + 1) % n] == polygon[i]);
        lemma_reversed_edge(polygon[i], polygon[i + 1], point);
    }
}

/// Edge `j` of the reversed polygon is edge `n - 2 - j` of the original
/// walked backwards, but for the closing edges, which match each other.
proof fn lemma_reversed_edge_index(point: Point, polygon: Seq<Point>, j: int)
    requires
        0 <= j < polygon.len(),
    ensures
        (edge_adjustment(point, polygon.reverse(), j) == Adjustment::OnBoundary) == (edge_adjustment(
            point,
            polygon,
            if j == polygon.len() - 1 { polygon.len() - 1 } else { polygon.len() - 2 - j },
        ) == Adjustment::OnBoundary),
{
    let n = polygon.len() as int;
    let rev = polygon.reverse();
    let i = if j == n - 1 { n - 1 } else { n - 2 - j };
    lemma_next_index(j, n);
    lemma_next_index(i, n);
    assert(rev[j] == polygon[(i + 1) % n]);
    assert(rev[(j + 1) % n] == polygon[i]);
    lemma_reversed_edge(polygon[i], polygon[(i + 1) % n], point);
}

/// Reversing the order of the vertices negates the winding number: a point
/// inside stays inside, a point outside or on the boundary stays there.
pub proof fn lemma_reverse_negates(point: Point, polygon: Seq<Point>)
    ensures
        winding_number(point, polygon.reverse()) == -winding_number(point, polygon),
{
    let n = polygon.len() as int;
    let rev = polygon.reverse();
    if n == 0 {
        assert(rev.len() == 0);
    } else {
        assert(rev.len() == n);
        assert forall|j: int| 0 <= j < n implies
            (#[trigger] edge_adjustment(point, rev, j) == Adjustment::OnBoundary) == (edge_adjustment(point, polygon, if j == n - 1 { n - 1 } else { n - 2 - j }) == Adjustment::OnBoundary)
        by {
            lemma_reversed_edge_index(point, polygon, j);
        }
        if on_boundary(point, polygon) {
            let i = choose|i: int| 0 <= i < n && edge_adjustment(point, polygon, i) == Adjustment::OnBoundary;
            let j = if i == n - 1 { n - 1 } else { n - 2 - i };
            assert(edge_adjustment(point, rev, j) == Adjustment::OnBoundary);
            assert(on_boundary(point, rev));
        } else if on_boundary(point, rev) {
            let j = choose|j: int| 0 <= j < n && edge_adjustment(point, rev, j) == Adjustment::OnBoundary;
            assert(edge_adjustment(point, rev, j) == Adjustment::OnBoundary);
        } else {
            lemma_reversed_prefix(point, polygon, (n - 1) as nat);
            lemma_next_index(n - 1, n);
            assert(rev[n - 1] == polygon[0]);
            assert(rev[(n - 1 + 1) % n] == polygon[n - 1]);
            lemma_reversed_edge(polygon[n - 1], polygon[0], point);
        }
    }
}

/// The vertex after vertex `i` of a polygon with `n` vertices.
pub proof fn lemma_next_index(i: int, n: int)
    requires
        0 <= i < n,
    ensures
        (i + 1) % n == (if i + 1 == n { 0 } else { i + 1 }),
{
    assert((i + 1) % n == (if i + 1 == n { 0 } else { i + 1 })) by (nonlinear_arith)
        requires 0 <= i < n;
}

proof fn lemma_product_bound(a: int, b: int, ma: int, mb: int)
    requires
        -ma <= a <= ma,
        -mb <= b <= mb,
    ensures
        -(ma * mb) <= a * b <= ma * mb,
{
    assert(-(ma * mb) <= a * b <= ma * mb) by (nonlinear_arith)
        requires
            -ma <= a <= ma,
            -mb <= b <= mb,
    ;
}

} // verus!
