//! The geometry kernel: orientation of three points, the bounding-box test on
//! collinear points, intersection of two segments, and ray-cast containment
//! of a point in a polygon.
//!
//! All of it is exact integer arithmetic. Specifications are written over
//! `int`; the executable functions take `i64` coordinates of bounded size and
//! compute the cross products in `i128`.

use vstd::prelude::*;

verus! {

/// A pixel coordinate.
#[derive(Clone, Copy, Debug, PartialEq, Eq, Structural)]
pub struct Point {
    pub x: i32,
    pub y: i32,
}

impl Point {
    pub fn new(x: i32, y: i32) -> (p: Point)
        ensures
            p.x == x,
            p.y == y,
    {
        Point { x, y }
    }
}

/// The turn that the path `p -> q -> r` makes.
#[derive(Clone, Copy, Debug, PartialEq, Eq, Structural)]
pub enum PointsOrientation {
    Collinear,
    Clockwise,
    CounterClockwise,
}

/// The largest magnitude of a coordinate that the executable kernel accepts:
/// every `i32`, and one step beyond it for the far end of a ray.
pub const COORD_LIMIT: i64 = 0x1_0000_0000;

pub open spec fn coord_ok(v: i64) -> bool {
    -COORD_LIMIT <= v <= COORD_LIMIT
}

/// The cross product whose sign gives the orientation of `p -> q -> r`.
pub open spec fn cross(px: int, py: int, qx: int, qy: int, rx: int, ry: int) -> int {
    (qy - py) * (rx - qx) - (qx - px) * (ry - qy)
}

pub open spec fn orientation(px: int, py: int, qx: int, qy: int, rx: int, ry: int)
    -> PointsOrientation {
    let val = cross(px, py, qx, qy, rx, ry);
    if val == 0 {
        PointsOrientation::Collinear
    } else if val > 0 {
        PointsOrientation::Clockwise
    } else {
        PointsOrientation::CounterClockwise
    }
}

pub open spec fn min_int(a: int, b: int) -> int {
    if a <= b { a } else { b }
}

pub open spec fn max_int(a: int, b: int) -> int {
    if a >= b { a } else { b }
}

/// `q` lies within the axis-aligned bounding box of `p` and `r`. For three
/// collinear points this says that `q` lies on the segment `pr`.
pub open spec fn on_segment(px: int, py: int, qx: int, qy: int, rx: int, ry: int) -> bool {
    &&& min_int(px, rx) <= qx <= max_int(px, rx)
    &&& min_int(py, ry) <= qy <= max_int(py, ry)
}

/// The segment from `(first_px, first_py)` to `(first_qx, first_qy)` and the
/// segment from `(second_px, second_py)` to `(second_qx, second_qy)` meet: the
/// two ends of each lie on different sides of the other, or an end of one is
/// collinear with the other and inside its bounding box.
pub open spec fn segments_intersect(
    first_px: int, first_py: int, first_qx: int, first_qy: int,
    second_px: int, second_py: int, second_qx: int, second_qy: int,
) -> bool {
    let o1 = orientation(first_px, first_py, first_qx, first_qy, second_px, second_py);
    let o2 = orientation(first_px, first_py, first_qx, first_qy, second_qx, second_qy);
    let o3 = orientation(second_px, second_py, second_qx, second_qy, first_px, first_py);
    let o4 = orientation(second_px, second_py, second_qx, second_qy, first_qx, first_qy);
    ||| o1 != o2 && o3 != o4
    ||| o1 == PointsOrientation::Collinear && on_segment(
        first_px, first_py, second_px, second_py, first_qx, first_qy)
    ||| o2 == PointsOrientation::Collinear && on_segment(
        first_px, first_py, second_qx, second_qy, first_qx, first_qy)
    ||| o3 == PointsOrientation::Collinear && on_segment(
        second_px, second_py, first_px, first_py, second_qx, second_qy)
    ||| o4 == PointsOrientation::Collinear && on_segment(
        second_px, second_py, first_qx, first_qy, second_qx, second_qy)
}

proof fn lemma_product_bound(a: int, b: int, m: int)
    requires
        -m <= a <= m,
        -m <= b <= m,
    ensures
        -(m * m) <= a * b <= m * m,
{
    assert(-(m * m) <= a * b <= m * m) by (nonlinear_arith)
        requires
            -m <= a <= m,
            -m <= b <= m,
    ;
}

/// Orientation of the points `p`, `q`, `r`, taken in this order.
pub fn get_orientation(px: i64, py: i64, qx: i64, qy: i64, rx: i64, ry: i64) -> (o:
    PointsOrientation)
    requires
        coord_ok(px),
        coord_ok(py),
        coord_ok(qx),
        coord_ok(qy),
        coord_ok(rx),
        coord_ok(ry),
    ensures
        o == orientation(px as int, py as int, qx as int, qy as int, rx as int, ry as int),
{
    let dy1: i128 = (qy - py) as i128;
    let dx2: i128 = (rx - qx) as i128;
    let dx1: i128 = (qx - px) as i128;
    let dy2: i128 = (ry - qy) as i128;
    proof {
        lemma_product_bound(dy1 as int, dx2 as int, 0x2_0000_0000);
        lemma_product_bound(dx1 as int, dy2 as int, 0x2_0000_0000);
    }
    let val: i128 = dy1 * dx2 - dx1 * dy2;
    if val == 0 {
        PointsOrientation::Collinear
    } else if val > 0 {
        PointsOrientation::Clockwise
    } else {
        PointsOrientation::CounterClockwise
    }
}

/// Whether `q` lies in the bounding box of `p` and `r`.
pub fn is_on_segment(px: i64, py: i64, qx: i64, qy: i64, rx: i64, ry: i64) -> (b: bool)
    ensures
        b == on_segment(px as int, py as int, qx as int, qy as int, rx as int, ry as int),
{
    let max_x: i64 = if px >= rx { px } else { rx };
    let min_x: i64 = if px <= rx { px } else { rx };
    let max_y: i64 = if py >= ry { py } else { ry };
    let min_y: i64 = if py <= ry { py } else { ry };
    qx <= max_x && qx >= min_x && qy <= max_y && qy >= min_y
}

/// Whether the segment from `(first_px, first_py)` to `(first_qx, first_qy)`
/// meets the segment from `(second_px, second_py)` to `(second_qx, second_qy)`.
pub fn is_intersects(
    first_px: i64, first_py: i64, first_qx: i64, first_qy: i64,
    second_px: i64, second_py: i64, second_qx: i64, second_qy: i64,
) -> (b: bool)
    requires
        coord_ok(first_px),
        coord_ok(first_py),
        coord_ok(first_qx),
        coord_ok(first_qy),
        coord_ok(second_px),
        coord_ok(second_py),
        coord_ok(second_qx),
        coord_ok(second_qy),
    ensures
        b == segments_intersect(
            first_px as int, first_py as int, first_qx as int, first_qy as int,
            second_px as int, second_py as int, second_qx as int, second_qy as int,
        ),
{
    let o1 = get_orientation(first_px, first_py, first_qx, first_qy, second_px, second_py);
    let o2 = get_orientation(first_px, first_py, first_qx, first_qy, second_qx, second_qy);
    let o3 = get_orientation(second_px, second_py, second_qx, second_qy, first_px, first_py);
    let o4 = get_orientation(second_px, second_py, second_qx, second_qy, first_qx, first_qy);
    if o1 != o2 && o3 != o4 {
        return true;
    }
    if o1 == PointsOrientation::Collinear && is_on_segment(
        first_px, first_py, second_px, second_py, first_qx, first_qy) {
        return true;
    }
    if o2 == PointsOrientation::Collinear && is_on_segment(
        first_px, first_py, second_qx, second_qy, first_qx, first_qy) {
        return true;
    }
    if o3 == PointsOrientation::Collinear && is_on_segment(
        second_px, second_py, first_px, first_py, second_qx, second_qy) {
        return true;
    }
    if o4 == PointsOrientation::Collinear && is_on_segment(
        second_px, second_py, first_qx, first_qy, second_qx, second_qy) {
        return true;
    }
    false
}

/// Whether three of the vertices are pairwise different.
pub open spec fn has_three_distinct(poly: Seq<Point>) -> bool {
    exists|i: int, j: int, k: int|
        #![trigger poly[i], poly[j], poly[k]]
        0 <= i < poly.len() && 0 <= j < poly.len() && 0 <= k < poly.len() && poly[i] != poly[j]
            && poly[j] != poly[k] && poly[i] != poly[k]
}

/// The largest `x` among the first `k` vertices, and the smallest `i32` when
/// there is none.
pub open spec fn max_x_upto(poly: Seq<Point>, k: int) -> int
    decreases k,
{
    if k <= 0 {
        i32::MIN as int
    } else {
        max_int(max_x_upto(poly, k - 1), poly[k - 1].x as int)
    }
}

/// Where the ray cast from `(x, _)` ends: one step to the right of the point
/// and of every vertex.
pub open spec fn far_x(poly: Seq<Point>, x: int) -> int {
    max_int(max_x_upto(poly, poly.len() as int), x) + 1
}

/// The edge that starts at vertex `i` meets the horizontal segment from
/// `(x, y)` to the far end of the ray.
pub open spec fn edge_meets_ray(poly: Seq<Point>, i: int, x: int, y: int) -> bool {
    let a = poly[i];
    let b = poly[(i + 1) % (poly.len() as int)];
    segments_intersect(
        a.x as int, a.y as int, b.x as int, b.y as int,
        x, y, far_x(poly, x), y,
    )
}

/// `(x, y)` lies on the edge that starts at vertex `i`.
pub open spec fn on_edge(poly: Seq<Point>, i: int, x: int, y: int) -> bool {
    let a = poly[i];
    let b = poly[(i + 1) % (poly.len() as int)];
    &&& orientation(a.x as int, a.y as int, x, y, b.x as int, b.y as int)
        == PointsOrientation::Collinear
    &&& on_segment(a.x as int, a.y as int, x, y, b.x as int, b.y as int)
}

/// `(x, y)` lies on some edge of the polygon.
pub open spec fn on_boundary(poly: Seq<Point>, x: int, y: int) -> bool {
    exists|i: int| 0 <= i < poly.len() && on_edge(poly, i, x, y)
}

/// How many of the first `k` edges meet the ray cast from `(x, y)`.
pub open spec fn crossings(poly: Seq<Point>, x: int, y: int, k: int) -> nat
    decreases k,
{
    if k <= 0 {
        0
    } else {
        crossings(poly, x, y, k - 1) + if edge_meets_ray(poly, k - 1, x, y) {
            1nat
        } else {
            0nat
        }
    }
}

/// Ray-cast containment. A polygon with fewer than three different vertices
/// contains nothing. Otherwise a point on an edge is inside, and any other
/// point is inside when the ray cast from it to the right meets an odd number
/// of edges.
pub open spec fn contains(poly: Seq<Point>, x: int, y: int) -> bool {
    has_three_distinct(poly) && (on_boundary(poly, x, y) || crossings(
        poly,
        x,
        y,
        poly.len() as int,
    ) % 2 == 1)
}

/// Swapping the last two points of an orientation test negates the cross
/// product.
pub proof fn lemma_cross_swap(px: int, py: int, qx: int, qy: int, rx: int, ry: int)
    ensures
        cross(px, py, rx, ry, qx, qy) == -cross(px, py, qx, qy, rx, ry),
{
    assert(cross(px, py, rx, ry, qx, qy) == -cross(px, py, qx, qy, rx, ry)) by (nonlinear_arith);
}

/// A point on a segment is met by every segment that starts at that point.
pub proof fn lemma_point_on_segment_is_met(
    ax: int, ay: int, bx: int, by: int,
    x: int, y: int, ex: int, ey: int,
)
    requires
        orientation(ax, ay, x, y, bx, by) == PointsOrientation::Collinear,
        on_segment(ax, ay, x, y, bx, by),
    ensures
        segments_intersect(ax, ay, bx, by, x, y, ex, ey),
{
    lemma_cross_swap(ax, ay, x, y, bx, by);
    assert(orientation(ax, ay, bx, by, x, y) == PointsOrientation::Collinear);
}

/// The largest `x` of a prefix is an `i32`, bounds every vertex of the prefix
/// and, when the prefix is not empty, is the `x` of one of them.
pub proof fn lemma_max_x_upto(poly: Seq<Point>, k: int)
    requires
        0 <= k <= poly.len(),
    ensures
        i32::MIN <= max_x_upto(poly, k) <= i32::MAX,
        forall|i: int| 0 <= i < k ==> #[trigger] poly[i].x <= max_x_upto(poly, k),
        k > 0 ==> exists|i: int| 0 <= i < k && #[trigger] poly[i].x == max_x_upto(poly, k),
    decreases k,
{
    if k > 0 {
        lemma_max_x_upto(poly, k - 1);
        if k - 1 > 0 {
            let w = choose|i: int| 0 <= i < k - 1 && #[trigger] poly[i].x == max_x_upto(poly, k - 1);
            if max_x_upto(poly, k) == max_x_upto(poly, k - 1) {
                assert(poly[w].x == max_x_upto(poly, k));
            } else {
                assert(poly[k - 1].x == max_x_upto(poly, k));
            }
        } else {
            assert(poly[k - 1].x == max_x_upto(poly, k));
        }
    }
}

/// Whether the polygon has three pairwise different vertices.
pub fn three_distinct_vertices(poly: &Vec<Point>) -> (b: bool)
    ensures
        b == has_three_distinct(poly@),
{
    let n = poly.len();
    if n < 3 {
        return false;
    }
    let a = poly[0];
    let mut j: usize = 1;
    while j < n && poly[j].x == a.x && poly[j].y == a.y
        invariant
            1 <= j <= n,
            n == poly.len(),
            a == poly[0],
            forall|i: int| 0 <= i < j ==> poly[i] == a,
        decreases n - j,
    {
        j += 1;
    }
    if j == n {
        return false;
    }
    let b = poly[j];
    let mut k: usize = j + 1;
    while k < n
        invariant
            j < k <= n,
            n == poly.len(),
            a == poly[0],
            b == poly[j as int],
            a != b,
            forall|i: int| 0 <= i < k ==> poly[i] == a || poly[i] == b,
        decreases n - k,
    {
        let c = poly[k];
        if (c.x != a.x || c.y != a.y) && (c.x != b.x || c.y != b.y) {
            assert(poly[0] != poly[j as int] && poly[j as int] != poly[k as int] && poly[0]
                != poly[k as int]);
            return true;
        }
        k += 1;
    }
    false
}

/// The `x` at which the ray cast from `(x, _)` ends.
pub fn ray_end_x(poly: &Vec<Point>, x: i32) -> (far: i64)
    ensures
        far == far_x(poly@, x as int),
        x < far <= COORD_LIMIT,
        forall|i: int| 0 <= i < poly.len() ==> #[trigger] poly[i].x < far,
{
    let n = poly.len();
    let mut best: i32 = i32::MIN;
    let mut i: usize = 0;
    while i < n
        invariant
            0 <= i <= n,
            n == poly.len(),
            best == max_x_upto(poly@, i as int),
        decreases n - i,
    {
        if poly[i].x > best {
            best = poly[i].x;
        }
        i += 1;
    }
    proof {
        lemma_max_x_upto(poly@, n as int);
    }
    if best >= x {
        best as i64 + 1
    } else {
        x as i64 + 1
    }
}

/// Whether the polygon contains the point `(x, y)`, a point on its boundary
/// counting as inside.
pub fn polygon_contains(poly: &Vec<Point>, x: i32, y: i32) -> (inside: bool)
    ensures
        inside == contains(poly@, x as int, y as int),
{
    if !three_distinct_vertices(poly) {
        return false;
    }
    let n = poly.len();
    let far = ray_end_x(poly, x);
    let x_wide: i64 = x as i64;
    let y_wide: i64 = y as i64;
    let mut intersections_cnt: usize = 0;
    let mut previous: usize = 0;
    while previous < n
        invariant
            0 <= previous <= n,
            n == poly.len(),
            n >= 1,
            has_three_distinct(poly@),
            x_wide == x,
            y_wide == y,
            far == far_x(poly@, x as int),
            coord_ok(far),
            intersections_cnt == crossings(poly@, x as int, y as int, previous as int),
            intersections_cnt <= previous,
            forall|i: int| 0 <= i < previous ==> !on_edge(poly@, i, x as int, y as int),
        decreases n - previous,
    {
        let current = (previous + 1) % n;
        let a = poly[previous];
        let b = poly[current];
        if is_intersects(
            a.x as i64, a.y as i64, b.x as i64, b.y as i64,
            x_wide, y_wide, far, y_wide,
        ) {
            let turn = get_orientation(
                a.x as i64, a.y as i64, x_wide, y_wide, b.x as i64, b.y as i64);
            if turn == PointsOrientation::Collinear && is_on_segment(
                a.x as i64, a.y as i64, x_wide, y_wide, b.x as i64, b.y as i64) {
                assert(on_edge(poly@, previous as int, x as int, y as int));
                return true;
            }
            intersections_cnt += 1;
        } else {
            proof {
                if on_edge(poly@, previous as int, x as int, y as int) {
                    lemma_point_on_segment_is_met(
                        a.x as int, a.y as int, b.x as int, b.y as int,
                        x as int, y as int, far as int, y as int,
                    );
                }
            }
        }
        previous += 1;
    }
    intersections_cnt % 2 == 1
}

} // verus!
