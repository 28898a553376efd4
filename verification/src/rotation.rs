//! Containment does not depend on which vertex a polygon's list starts with.

use vstd::prelude::*;
use vstd::arithmetic::div_mod::{
    lemma_add_mod_noop_right, lemma_mod_bound, lemma_mod_sub_multiples_vanish, lemma_small_mod,
};
use crate::geometry::{
    contains, crossings, edge_meets_ray, far_x, has_three_distinct, lemma_max_x_upto, max_x_upto,
    on_boundary, on_edge, Point,
};

verus! {

/// The vertex list started `k` places further on, and continued from its
/// beginning after its end.
pub open spec fn rotated(poly: Seq<Point>, k: int) -> Seq<Point> {
    Seq::new(poly.len(), |i: int| poly[(i + k) % (poly.len() as int)])
}

/// For a shift within the list, the place that index `i` moves to.
proof fn lemma_shifted_index(n: int, k: int, i: int)
    requires
        0 <= k < n,
        0 <= i < n,
    ensures
        (i + k) % n == if i + k < n {
            i + k
        } else {
            i + k - n
        },
{
    if i + k < n {
        lemma_small_mod((i + k) as nat, n as nat);
    } else {
        lemma_mod_sub_multiples_vanish(i + k, n);
        lemma_small_mod((i + k - n) as nat, n as nat);
    }
}

/// A shift by `k` and a shift by the remainder of `k` give the same list.
proof fn lemma_rotated_reduces(poly: Seq<Point>, k: int)
    requires
        poly.len() > 0,
    ensures
        rotated(poly, k) == rotated(poly, k % (poly.len() as int)),
{
    let n = poly.len() as int;
    let full = rotated(poly, k);
    let reduced = rotated(poly, k % n);
    assert forall|i: int| 0 <= i < n implies #[trigger] full[i] == reduced[i] by {
        lemma_add_mod_noop_right(i, k, n);
    }
    assert(full =~= reduced);
}

/// Where vertex `j` of the list stands after a shift by `k`.
pub open spec fn place_after_shift(n: int, k: int, j: int) -> int {
    if j >= k {
        j - k
    } else {
        j - k + n
    }
}

/// Vertex `i` of the shifted list, and the vertex after it, are vertex
/// `(i + k) % n` of the list and the vertex after that one.
proof fn lemma_rotated_at(poly: Seq<Point>, k: int, i: int)
    requires
        0 <= k < poly.len(),
        0 <= i < poly.len(),
    ensures
        0 <= (i + k) % (poly.len() as int) < poly.len(),
        rotated(poly, k)[i] == poly[(i + k) % (poly.len() as int)],
        rotated(poly, k)[(i + 1) % (poly.len() as int)] == poly[((i + k) % (poly.len() as int) + 1)
            % (poly.len() as int)],
{
    let n = poly.len() as int;
    let s = (i + k) % n;
    lemma_shifted_index(n, k, i);
    lemma_mod_bound(i + 1, n);
    lemma_mod_bound(s + 1, n);
    if n > 1 {
        lemma_shifted_index(n, 1, i);
        lemma_shifted_index(n, k, (i + 1) % n);
        lemma_shifted_index(n, 1, s);
    }
}

/// Vertex `j` of the list is found in the shifted list at its place after
/// the shift.
proof fn lemma_rotated_from(poly: Seq<Point>, k: int, j: int)
    requires
        0 <= k < poly.len(),
        0 <= j < poly.len(),
    ensures
        0 <= place_after_shift(poly.len() as int, k, j) < poly.len(),
        (place_after_shift(poly.len() as int, k, j) + k) % (poly.len() as int) == j,
        rotated(poly, k)[place_after_shift(poly.len() as int, k, j)] == poly[j],
{
    let n = poly.len() as int;
    lemma_shifted_index(n, k, place_after_shift(n, k, j));
}

proof fn lemma_rotated_far_x(poly: Seq<Point>, k: int, x: int)
    requires
        0 <= k < poly.len(),
    ensures
        far_x(rotated(poly, k), x) == far_x(poly, x),
{
    let n = poly.len() as int;
    let r = rotated(poly, k);
    lemma_max_x_upto(poly, n);
    lemma_max_x_upto(r, n);
    let wp = choose|i: int| 0 <= i < n && #[trigger] poly[i].x == max_x_upto(poly, n);
    let wr = choose|i: int| 0 <= i < n && #[trigger] r[i].x == max_x_upto(r, n);
    lemma_rotated_from(poly, k, wp);
    lemma_rotated_at(poly, k, wr);
    assert(r[place_after_shift(n, k, wp)].x <= max_x_upto(r, n));
    assert(poly[(wr + k) % n].x <= max_x_upto(poly, n));
}

/// Edge `i` of the shifted list is edge `(i + k) % n` of the list.
proof fn lemma_rotated_edge_at(poly: Seq<Point>, k: int, x: int, y: int, i: int)
    requires
        0 <= k < poly.len(),
        0 <= i < poly.len(),
    ensures
        edge_meets_ray(rotated(poly, k), i, x, y) == edge_meets_ray(
            poly,
            (i + k) % (poly.len() as int),
            x,
            y,
        ),
        on_edge(rotated(poly, k), i, x, y) == on_edge(poly, (i + k) % (poly.len() as int), x, y),
{
    lemma_rotated_at(poly, k, i);
    lemma_rotated_far_x(poly, k, x);
}

/// The first `m` edges of the shifted list are the edges `k` to `k + m` of
/// the list, as long as these do not pass its end.
proof fn lemma_crossings_before_wrap(poly: Seq<Point>, k: int, x: int, y: int, m: int)
    requires
        0 <= k < poly.len(),
        0 <= m <= poly.len() - k,
    ensures
        crossings(rotated(poly, k), x, y, m) + crossings(poly, x, y, k) == crossings(
            poly,
            x,
            y,
            k + m,
        ),
    decreases m,
{
    if m > 0 {
        lemma_crossings_before_wrap(poly, k, x, y, m - 1);
        lemma_rotated_edge_at(poly, k, x, y, m - 1);
        lemma_shifted_index(poly.len() as int, k, m - 1);
        assert(edge_meets_ray(rotated(poly, k), m - 1, x, y) == edge_meets_ray(
            poly,
            k + m - 1,
            x,
            y,
        ));
    }
}

/// Past that point the edges of the shifted list are the first edges of the
/// list.
proof fn lemma_crossings_after_wrap(poly: Seq<Point>, k: int, x: int, y: int, m: int)
    requires
        0 <= k < poly.len(),
        poly.len() - k <= m <= poly.len(),
    ensures
        crossings(rotated(poly, k), x, y, m) + crossings(poly, x, y, k) == crossings(
            poly,
            x,
            y,
            poly.len() as int,
        ) + crossings(poly, x, y, m - (poly.len() - k)),
    decreases m,
{
    let n = poly.len() as int;
    if m == n - k {
        lemma_crossings_before_wrap(poly, k, x, y, m);
    } else {
        lemma_crossings_after_wrap(poly, k, x, y, m - 1);
        lemma_rotated_edge_at(poly, k, x, y, m - 1);
        lemma_shifted_index(n, k, m - 1);
        assert(edge_meets_ray(rotated(poly, k), m - 1, x, y) == edge_meets_ray(
            poly,
            m - 1 + k - n,
            x,
            y,
        ));
    }
}

proof fn lemma_rotated_three_distinct(poly: Seq<Point>, k: int)
    requires
        0 <= k < poly.len(),
    ensures
        has_three_distinct(rotated(poly, k)) == has_three_distinct(poly),
{
    let n = poly.len() as int;
    let r = rotated(poly, k);
    if has_three_distinct(poly) {
        let (a, b, c) = choose|a: int, b: int, c: int|
            #![trigger poly[a], poly[b], poly[c]]
            0 <= a < n && 0 <= b < n && 0 <= c < n && poly[a] != poly[b] && poly[b] != poly[c]
                && poly[a] != poly[c];
        let ra = place_after_shift(n, k, a);
        let rb = place_after_shift(n, k, b);
        let rc = place_after_shift(n, k, c);
        lemma_rotated_from(poly, k, a);
        lemma_rotated_from(poly, k, b);
        lemma_rotated_from(poly, k, c);
        assert(r[ra] != r[rb] && r[rb] != r[rc] && r[ra] != r[rc]);
    }
    if has_three_distinct(r) {
        let (a, b, c) = choose|a: int, b: int, c: int|
            #![trigger r[a], r[b], r[c]]
            0 <= a < n && 0 <= b < n && 0 <= c < n && r[a] != r[b] && r[b] != r[c] && r[a]
                != r[c];
        let pa = (a + k) % n;
        let pb = (b + k) % n;
        let pc = (c + k) % n;
        lemma_rotated_at(poly, k, a);
        lemma_rotated_at(poly, k, b);
        lemma_rotated_at(poly, k, c);
        assert(poly[pa] != poly[pb] && poly[pb] != poly[pc] && poly[pa] != poly[pc]);
    }
}

proof fn lemma_rotated_boundary(poly: Seq<Point>, k: int, x: int, y: int)
    requires
        0 <= k < poly.len(),
    ensures
        on_boundary(rotated(poly, k), x, y) == on_boundary(poly, x, y),
{
    let n = poly.len() as int;
    let r = rotated(poly, k);
    if on_boundary(poly, x, y) {
        let j = choose|j: int| 0 <= j < n && on_edge(poly, j, x, y);
        let i = place_after_shift(n, k, j);
        lemma_rotated_from(poly, k, j);
        lemma_rotated_edge_at(poly, k, x, y, i);
        assert(on_edge(r, i, x, y));
    }
    if on_boundary(r, x, y) {
        let i = choose|i: int| 0 <= i < n && on_edge(r, i, x, y);
        lemma_rotated_at(poly, k, i);
        lemma_rotated_edge_at(poly, k, x, y, i);
        assert(on_edge(poly, (i + k) % n, x, y));
    }
}

/// Containment is stable under cyclic rotation of the vertex list: the
/// polygon whose list starts `k` places further on contains the same points.
pub proof fn lemma_contains_rotation_invariant(poly: Seq<Point>, k: int, x: int, y: int)
    ensures
        contains(rotated(poly, k), x, y) == contains(poly, x, y),
{
    let n = poly.len() as int;
    if n == 0 {
        assert(rotated(poly, k) =~= poly);
    } else {
        lemma_rotated_reduces(poly, k);
        let s = k % n;
        lemma_mod_bound(k, n);
        lemma_rotated_three_distinct(poly, s);
        lemma_rotated_boundary(poly, s, x, y);
        lemma_crossings_after_wrap(poly, s, x, y, n);
    }
}

} // verus!
