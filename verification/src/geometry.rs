//! Polygon area by the shoelace (Green's theorem) line integral, exact over
//! integer coordinates. `twice_area` returns twice the enclosed area, so the
//! result stays an integer; callers halve it for the geometric area.

use vstd::prelude::*;
use crate::contour::Contour;
use crate::seq_sum::{
    sum, lemma_sum_take_step, lemma_sum_take_all, lemma_sum_rotate_one, lemma_sum_reverse,
    lemma_sum_negate,
};

verus! {

/// The cross product term of one polygon edge from `a` to `b`.
pub open spec fn cross(a: (int, int), b: (int, int)) -> int {
    a.0 * b.1 - b.0 * a.1
}

/// The successor of index `i` in a cyclic sequence of length `n`.
pub open spec fn next_index(i: int, n: int) -> int {
    if i + 1 == n {
        0
    } else {
        i + 1
    }
}

/// The cross product terms of all edges of the closed polygon `ps`, the last
/// point wrapping back to the first.
pub open spec fn edge_terms(ps: Seq<(int, int)>) -> Seq<int> {
    Seq::new(ps.len(), |i: int| cross(ps[i], ps[next_index(i, ps.len() as int)]))
}

/// The signed doubled area of the closed polygon `ps`.
pub open spec fn shoelace(ps: Seq<(int, int)>) -> int {
    sum(edge_terms(ps))
}

/// Twice the enclosed area of the closed polygon `ps`: the absolute value of
/// the signed shoelace sum.
pub open spec fn polygon_area_doubled(ps: Seq<(int, int)>) -> int {
    if shoelace(ps) < 0 {
        -shoelace(ps)
    } else {
        shoelace(ps)
    }
}

/// Twice the enclosed area of `c`, exact for simple polygons: the shoelace sum
/// of the ordered points, with the last point wrapping back to the first.
pub fn twice_area(c: &Contour) -> (r: u128)
    requires
        c.points@.len() < 0x1_0000_0000,
        c.coords_bounded(),
    ensures
        r == polygon_area_doubled(c@.points),
{
    let ghost ps = c@.points;
    let n: usize = c.points.len();
    let mut acc: i128 = 0;
    let mut i: usize = 0;
    while i < n
        invariant
            n == ps.len(),
            0 <= i <= n,
            n < 0x1_0000_0000,
            c.coords_bounded(),
            ps == c@.points,
            acc == sum(edge_terms(ps).take(i as int)),
            -(i as int) * 0x1_0000_0000_0000_0000 <= acc <= (i as int) * 0x1_0000_0000_0000_0000,
        decreases n - i,
    {
        let p0 = c.points[i];
        let p1 = c.points[if i + 1 == n {
            0
        } else {
            i + 1
        }];
        proof {
            assert((p0.x as int) * (p1.y as int) < 0x1_0000_0000_0000_0000 && (p0.x as int) * (
            p1.y as int) >= 0) by (nonlinear_arith)
                requires
                    p0.x < 0x1_0000_0000 && p1.y < 0x1_0000_0000,
            ;
            assert((p1.x as int) * (p0.y as int) < 0x1_0000_0000_0000_0000 && (p1.x as int) * (
            p0.y as int) >= 0) by (nonlinear_arith)
                requires
                    p1.x < 0x1_0000_0000 && p0.y < 0x1_0000_0000,
            ;
        }
        let term: i128 = (p0.x as i128) * (p1.y as i128) - (p1.x as i128) * (p0.y as i128);
        proof {
            assert(ps[i as int] == (p0.x as int, p0.y as int));
            assert(ps[next_index(i as int, n as int)] == (p1.x as int, p1.y as int));
            assert(edge_terms(ps)[i as int] == term);
            lemma_sum_take_step(edge_terms(ps), i as int);
        }
        acc = acc + term;
        i = i + 1;
    }
    proof {
        lemma_sum_take_all(edge_terms(ps));
    }
    if acc < 0 {
        (-acc) as u128
    } else {
        acc as u128
    }
}

/// Rotating a closed polygon by one position permutes its edge terms cyclically.
proof fn lemma_terms_rotate_one(ps: Seq<(int, int)>)
    requires
        ps.len() >= 1,
    ensures
        edge_terms(ps.skip(1) + ps.take(1)) =~= edge_terms(ps).skip(1) + edge_terms(ps).take(1),
{
    let n: int = ps.len() as int;
    let r = ps.skip(1) + ps.take(1);
    let t = edge_terms(r);
    let u = edge_terms(ps);
    let rhs = u.skip(1) + u.take(1);
    assert forall|i: int| 0 <= i < n implies t[i] == rhs[i] by {
        if n == 1 {
            assert(r[0] == ps[0]);
        } else if i < n - 2 {
            assert(r[i] == ps[i + 1] && r[i + 1] == ps[i + 2]);
        } else if i == n - 2 {
            assert(r[n - 2] == ps[n - 1] && r[n - 1] == ps[0]);
        } else {
            assert(r[n - 1] == ps[0] && r[0] == ps[1]);
        }
    }
}

/// Rotating a closed polygon by one position leaves its signed area unchanged.
proof fn lemma_shoelace_rotate_one(ps: Seq<(int, int)>)
    requires
        ps.len() >= 1,
    ensures
        shoelace(ps.skip(1) + ps.take(1)) == shoelace(ps),
{
    lemma_terms_rotate_one(ps);
    assert(edge_terms(ps.skip(1) + ps.take(1)) == edge_terms(ps).skip(1) + edge_terms(ps).take(1));
    lemma_sum_rotate_one(edge_terms(ps));
}

/// Law: the enclosed area of a closed polygon does not depend on which vertex
/// the traversal starts from. Rotating the vertex sequence cyclically by any
/// amount leaves both the signed shoelace sum and the doubled area unchanged.
pub proof fn lemma_area_rotation(ps: Seq<(int, int)>, k: int)
    requires
        0 <= k <= ps.len(),
    ensures
        shoelace(ps.skip(k) + ps.take(k)) == shoelace(ps),
        polygon_area_doubled(ps.skip(k) + ps.take(k)) == polygon_area_doubled(ps),
    decreases k,
{
    let n: int = ps.len() as int;
    if k == 0 {
        assert(ps.skip(0) + ps.take(0) =~= ps);
    } else {
        lemma_area_rotation(ps, k - 1);
        let q = ps.skip(k - 1) + ps.take(k - 1);
        assert forall|i: int| 0 <= i < n implies (ps.skip(k) + ps.take(k))[i] == (q.skip(1)
            + q.take(1))[i] by {
            if i < n - 1 {
                assert((q.skip(1) + q.take(1))[i] == q[i + 1]);
            } else {
                assert((q.skip(1) + q.take(1))[i] == q[0]);
            }
        }
        assert(ps.skip(k) + ps.take(k) =~= q.skip(1) + q.take(1));
        lemma_shoelace_rotate_one(q);
    }
}

/// Law: the shoelace sum computes the exact geometric area for axis-aligned
/// rectangles: the four-corner polygon spanning `x0 <= x <= x1` and
/// `y0 <= y <= y1` has doubled area exactly `2 * (x1 - x0) * (y1 - y0)`.
pub proof fn lemma_rectangle_area(x0: int, y0: int, x1: int, y1: int)
    requires
        x0 <= x1,
        y0 <= y1,
    ensures
        shoelace(seq![(x0, y0), (x1, y0), (x1, y1), (x0, y1)]) == 2 * (x1 - x0) * (y1 - y0),
        polygon_area_doubled(seq![(x0, y0), (x1, y0), (x1, y1), (x0, y1)]) == 2 * (x1 - x0) * (y1
            - y0),
{
    let ps = seq![(x0, y0), (x1, y0), (x1, y1), (x0, y1)];
    let t = edge_terms(ps);
    assert(t[0] == x0 * y0 - x1 * y0);
    assert(t[1] == x1 * y1 - x1 * y0);
    assert(t[2] == x1 * y1 - x0 * y1);
    assert(t[3] == x0 * y0 - x0 * y1);
    assert(t.drop_last() =~= seq![t[0], t[1], t[2]]);
    assert(seq![t[0], t[1], t[2]].drop_last() =~= seq![t[0], t[1]]);
    assert(seq![t[0], t[1]].drop_last() =~= seq![t[0]]);
    assert(seq![t[0]].drop_last() =~= Seq::<int>::empty());
    assert(sum(Seq::<int>::empty()) == 0);
    assert(sum(seq![t[0]]) == t[0]);
    assert(sum(seq![t[0], t[1]]) == t[0] + t[1]);
    assert(sum(seq![t[0], t[1], t[2]]) == t[0] + t[1] + t[2]);
    assert(sum(t) == t[0] + t[1] + t[2] + t[3]);
    assert((x0 * y0 - x1 * y0) + (x1 * y1 - x1 * y0) + (x1 * y1 - x0 * y1) + (x0 * y0 - x0 * y1)
        == 2 * (x1 - x0) * (y1 - y0)) by (nonlinear_arith);
    assert(2 * (x1 - x0) * (y1 - y0) >= 0) by (nonlinear_arith)
        requires
            x0 <= x1 && y0 <= y1,
    ;
}

/// Reversing a closed polygon negates and cyclically permutes its edge terms.
proof fn lemma_terms_reverse(ps: Seq<(int, int)>)
    requires
        ps.len() >= 1,
    ensures
        edge_terms(ps.reverse()) =~= (edge_terms(ps).reverse().skip(1) + edge_terms(
            ps,
        ).reverse().take(1)).map_values(|x: int| -x),
{
    let n: int = ps.len() as int;
    let u = edge_terms(ps);
    let v = u.reverse();
    let t = edge_terms(ps.reverse());
    let w = (v.skip(1) + v.take(1)).map_values(|x: int| -x);
    assert forall|i: int| 0 <= i < n implies t[i] == w[i] by {
        if n == 1 {
            assert(t[0] == cross(ps[0], ps[0]));
            assert(u[0] == cross(ps[0], ps[0]));
            assert(w[0] == -v[0]);
        } else if i < n - 1 {
            assert(ps.reverse()[i] == ps[n - 1 - i] && ps.reverse()[i + 1] == ps[n - 2 - i]);
            assert(t[i] == cross(ps[n - 1 - i], ps[n - 2 - i]));
            assert(u[n - 2 - i] == cross(ps[n - 2 - i], ps[n - 1 - i]));
            assert(w[i] == -v[i + 1]);
            assert(v[i + 1] == u[n - 2 - i]);
        } else {
            assert(ps.reverse()[n - 1] == ps[0] && ps.reverse()[0] == ps[n - 1]);
            assert(t[n - 1] == cross(ps[0], ps[n - 1]));
            assert(u[n - 1] == cross(ps[n - 1], ps[0]));
            assert(w[n - 1] == -v[0]);
        }
    }
}

/// Law: reversing the traversal direction of a closed polygon negates the
/// signed shoelace sum, so the enclosed (absolute) area is unchanged.
pub proof fn lemma_area_reverse(ps: Seq<(int, int)>)
    ensures
        shoelace(ps.reverse()) == -shoelace(ps),
        polygon_area_doubled(ps.reverse()) == polygon_area_doubled(ps),
{
    if ps.len() == 0 {
        assert(ps.reverse() =~= ps);
    } else {
        lemma_terms_reverse(ps);
        let u = edge_terms(ps);
        let w = u.reverse().skip(1) + u.reverse().take(1);
        assert(edge_terms(ps.reverse()) == w.map_values(|x: int| -x));
        lemma_sum_negate(w);
        lemma_sum_rotate_one(u.reverse());
        lemma_sum_reverse(u);
    }
}

} // verus!
