//! How far the ray is cast does not matter, as long as it ends to the right
//! of the point and of the polygon.

use vstd::prelude::*;
use vstd::arithmetic::div_mod::lemma_mod_bound;
use crate::geometry::{
    contains, cross, crossings, far_x, has_three_distinct, lemma_max_x_upto, on_boundary,
    on_segment, orientation, segments_intersect, Point,
};

verus! {

/// The edge that starts at vertex `i` meets the horizontal segment from
/// `(x, y)` to `(end, y)`.
pub open spec fn edge_meets_ray_to(poly: Seq<Point>, i: int, x: int, y: int, end: int) -> bool {
    let a = poly[i];
    let b = poly[(i + 1) % (poly.len() as int)];
    segments_intersect(a.x as int, a.y as int, b.x as int, b.y as int, x, y, end, y)
}

/// How many of the first `k` edges meet the horizontal segment from `(x, y)`
/// to `(end, y)`.
pub open spec fn crossings_to(poly: Seq<Point>, x: int, y: int, end: int, k: int) -> nat
    decreases k,
{
    if k <= 0 {
        0
    } else {
        crossings_to(poly, x, y, end, k - 1) + if edge_meets_ray_to(poly, k - 1, x, y, end) {
            1nat
        } else {
            0nat
        }
    }
}

/// Ray-cast containment with a ray that ends at `end`.
pub open spec fn contains_to(poly: Seq<Point>, x: int, y: int, end: int) -> bool {
    has_three_distinct(poly) && (on_boundary(poly, x, y) || crossings_to(
        poly,
        x,
        y,
        end,
        poly.len() as int,
    ) % 2 == 1)
}

/// The ray ends to the right of the point and of every vertex.
pub open spec fn ends_beyond(poly: Seq<Point>, x: int, end: int) -> bool {
    &&& x < end
    &&& forall|i: int| 0 <= i < poly.len() ==> (#[trigger] poly[i]).x < end
}

/// The product of two positive numbers grows with each of them.
proof fn lemma_larger_product(a: int, b: int, c: int, d: int)
    requires
        0 < a <= c,
        0 < b < d,
    ensures
        a * b < c * d,
{
    assert(a * b < c * d) by (nonlinear_arith)
        requires
            0 < a <= c,
            0 < b < d,
    ;
}

/// Where the level `y` lies strictly between the ends of an edge, the far end
/// of the ray lies on the same side of the edge wherever it is, as long as it
/// is to the right of both ends of the edge.
proof fn lemma_far_side(ax: int, ay: int, bx: int, by: int, y: int, end: int)
    requires
        ax < end,
        bx < end,
        (ay < y < by) || (by < y < ay),
    ensures
        ay < by ==> cross(ax, ay, bx, by, end, y) > 0,
        by < ay ==> cross(ax, ay, bx, by, end, y) < 0,
{
    // cross = (by - ay) * (end - bx) - (bx - ax) * (y - by)
    let rise = by - ay;
    let reach = end - bx;
    let run = bx - ax;
    let drop = y - by;
    if ay < by {
        // rise > 0, reach > 0, drop < 0
        assert(rise * reach > 0) by (nonlinear_arith)
            requires
                rise > 0,
                reach > 0,
        ;
        if run >= 0 {
            assert(run * drop <= 0) by (nonlinear_arith)
                requires
                    run >= 0,
                    drop < 0,
            ;
        } else {
            // run * drop = (-run) * (-drop), with 0 < -drop < rise and 0 < -run < reach
            lemma_larger_product(-drop, -run, rise, reach);
            assert(run * drop == (-drop) * (-run)) by (nonlinear_arith);
        }
    } else {
        // rise < 0, reach > 0, drop > 0
        assert(rise * reach < 0) by (nonlinear_arith)
            requires
                rise < 0,
                reach > 0,
        ;
        if run >= 0 {
            assert(run * drop >= 0) by (nonlinear_arith)
                requires
                    run >= 0,
                    drop > 0,
            ;
        } else {
            // run * drop = -((-run) * drop), with 0 < drop < -rise and 0 < -run < reach
            lemma_larger_product(drop, -run, -rise, reach);
            assert(run * drop == -(drop * (-run))) by (nonlinear_arith);
            assert(rise * reach == -((-rise) * reach)) by (nonlinear_arith);
        }
    }
}

/// An end of an edge lies on the side of the ray that its height says: the
/// ray runs to the right, so a point above its level is on one side and a
/// point below on the other.
proof fn lemma_side_of_ray(x: int, y: int, end: int, ax: int, ay: int)
    requires
        x < end,
    ensures
        ay == y <==> cross(x, y, end, y, ax, ay) == 0,
        ay < y <==> cross(x, y, end, y, ax, ay) > 0,
        ay > y <==> cross(x, y, end, y, ax, ay) < 0,
{
    // cross = (y - y) * (ax - end) - (end - x) * (ay - y)
    let reach = end - x;
    let lift = ay - y;
    assert((y - y) * (ax - end) == 0) by (nonlinear_arith);
    assert(lift == 0 ==> reach * lift == 0) by (nonlinear_arith);
    assert(lift > 0 ==> reach * lift > 0) by (nonlinear_arith)
        requires
            reach > 0,
    ;
    assert(lift < 0 ==> reach * lift < 0) by (nonlinear_arith)
        requires
            reach > 0,
    ;
}

/// Where one end of an edge is at the level of the ray and left of its
/// start, both the start and the far end of the ray lie on the same side of
/// the edge.
proof fn lemma_level_end(ax: int, ay: int, bx: int, by: int, x: int, end: int)
    requires
        ax < x < end,
        ay != by,
    ensures
        (cross(ax, ay, bx, by, x, ay) > 0) == (cross(ax, ay, bx, by, end, ay) > 0),
        (cross(ax, ay, bx, by, x, ay) < 0) == (cross(ax, ay, bx, by, end, ay) < 0),
        cross(ax, ay, bx, by, x, ay) != 0,
        (cross(bx, by, ax, ay, x, ay) > 0) == (cross(bx, by, ax, ay, end, ay) > 0),
        (cross(bx, by, ax, ay, x, ay) < 0) == (cross(bx, by, ax, ay, end, ay) < 0),
        cross(bx, by, ax, ay, x, ay) != 0,
{
    let rise = by - ay;
    // cross(a, b, (t, ay)) = rise * (t - bx) - (bx - ax) * (ay - by) = rise * (t - ax)
    assert(cross(ax, ay, bx, by, x, ay) == rise * (x - ax)) by (nonlinear_arith)
        requires
            rise == by - ay,
    ;
    assert(cross(ax, ay, bx, by, end, ay) == rise * (end - ax)) by (nonlinear_arith)
        requires
            rise == by - ay,
    ;
    // cross(b, a, (t, ay)) = (ay - by) * (t - ax) - (ax - bx) * (ay - ay) = -rise * (t - ax)
    assert(cross(bx, by, ax, ay, x, ay) == -(rise * (x - ax))) by (nonlinear_arith)
        requires
            rise == by - ay,
    ;
    assert(cross(bx, by, ax, ay, end, ay) == -(rise * (end - ax))) by (nonlinear_arith)
        requires
            rise == by - ay,
    ;
    assert(rise > 0 ==> rise * (x - ax) > 0 && rise * (end - ax) > 0) by (nonlinear_arith)
        requires
            ax < x < end,
    ;
    assert(rise < 0 ==> rise * (x - ax) < 0 && rise * (end - ax) < 0) by (nonlinear_arith)
        requires
            ax < x < end,
    ;
}

/// Whether a segment is met by the ray cast from `(x, y)` to the right does
/// not depend on where the ray ends, as long as that is to the right of the
/// segment and of the point.
pub proof fn lemma_ray_end_is_free(
    ax: int, ay: int, bx: int, by: int,
    x: int, y: int, near: int, far: int,
)
    requires
        ax < near,
        bx < near,
        x < near,
        ax < far,
        bx < far,
        x < far,
    ensures
        segments_intersect(ax, ay, bx, by, x, y, near, y) == segments_intersect(
            ax, ay, bx, by, x, y, far, y),
{
    lemma_side_of_ray(x, y, near, ax, ay);
    lemma_side_of_ray(x, y, near, bx, by);
    lemma_side_of_ray(x, y, far, ax, ay);
    lemma_side_of_ray(x, y, far, bx, by);
    let o3 = orientation(x, y, near, y, ax, ay);
    let o4 = orientation(x, y, near, y, bx, by);
    assert(o3 == orientation(x, y, far, y, ax, ay));
    assert(o4 == orientation(x, y, far, y, bx, by));
    // the far end of the ray is never inside the bounding box of the segment
    assert(!on_segment(ax, ay, near, y, bx, by));
    assert(!on_segment(ax, ay, far, y, bx, by));
    // an end of the segment is inside the bounding box of the ray when it is
    // at its level and not left of its start
    assert(on_segment(x, y, ax, ay, near, y) == on_segment(x, y, ax, ay, far, y));
    assert(on_segment(x, y, bx, by, near, y) == on_segment(x, y, bx, by, far, y));
    if o3 != o4 {
        if (ay < y < by) || (by < y < ay) {
            lemma_far_side(ax, ay, bx, by, y, near);
            lemma_far_side(ax, ay, bx, by, y, far);
        } else if ay == y {
            if ax < x {
                lemma_level_end(ax, ay, bx, by, x, near);
                lemma_level_end(ax, ay, bx, by, x, far);
            }
        } else {
            assert(by == y);
            if bx < x {
                lemma_level_end(bx, by, ax, ay, x, near);
                lemma_level_end(bx, by, ax, ay, x, far);
            }
        }
    }
}

proof fn lemma_crossings_to(poly: Seq<Point>, x: int, y: int, end: int, k: int)
    requires
        0 <= k <= poly.len(),
        ends_beyond(poly, x, end),
    ensures
        crossings_to(poly, x, y, end, k) == crossings(poly, x, y, k),
    decreases k,
{
    if k > 0 {
        lemma_crossings_to(poly, x, y, end, k - 1);
        let n = poly.len() as int;
        let a = poly[k - 1];
        let next = (k - 1 + 1) % n;
        assert(0 <= next < n) by {
            lemma_mod_bound(k, n);
        }
        let b = poly[next];
        lemma_max_x_upto(poly, n);
        assert(a.x < far_x(poly, x));
        assert(b.x < far_x(poly, x));
        lemma_ray_end_is_free(
            a.x as int, a.y as int, b.x as int, b.y as int,
            x, y, end, far_x(poly, x),
        );
    }
}

/// Containment does not depend on how far the ray is cast: with any ray
/// that ends to the right of the point and of every vertex, the same points
/// are inside.
pub proof fn lemma_contains_with_any_ray(poly: Seq<Point>, x: int, y: int, end: int)
    requires
        ends_beyond(poly, x, end),
    ensures
        contains_to(poly, x, y, end) == contains(poly, x, y),
{
    lemma_crossings_to(poly, x, y, end, poly.len() as int);
}

} // verus!
