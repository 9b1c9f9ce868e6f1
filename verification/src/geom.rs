//! Geometry engine: points, clipping against the unit square, polygon area.
//!
//! `Geom::clip` runs four Sutherland-Hodgman half-plane passes (bottom, left,
//! top, right) over a ring of points; a crossing counts only when its
//! parameter lies strictly between 0 and 1, so a vertex exactly on a clip
//! boundary is not a crossing. `Geom::polygon_area` sums the absolute areas
//! of the triangles fanned from the ring's first vertex.

use vstd::prelude::*;
use crate::rat::{Rat, Ratv, rv_wf, rv_valid, rv_invalid, rv_int, rv_add, rv_sub, rv_mul, rv_div,
    rv_neg, rv_abs, rv_lt, rv_le, rv_eqv, rv_norm, gcd_nat, abs_int, lemma_gcd_pos};

verus! {

/// Ghost model of a point: a pair of rational models.
pub struct Pointv {
    pub x: Ratv,
    pub y: Ratv,
}

#[derive(Clone, Copy, Debug)]
pub struct Point {
    pub x: Rat,
    pub y: Rat,
}

impl View for Point {
    type V = Pointv;

    open spec fn view(&self) -> Pointv {
        Pointv { x: self.x@, y: self.y@ }
    }
}

pub open spec fn pv_wf(p: Pointv) -> bool {
    rv_wf(p.x) && rv_wf(p.y)
}

/// The model of a ring of points.
pub open spec fn ring_view(s: Seq<Point>) -> Seq<Pointv> {
    s.map_values(|p: Point| p@)
}

pub open spec fn ring_wf(s: Seq<Pointv>) -> bool {
    forall|i: int| 0 <= i < s.len() ==> pv_wf(#[trigger] s[i])
}

impl Point {
    pub fn new(x: Rat, y: Rat) -> (r: Point)
        ensures
            r@ == (Pointv { x: x@, y: y@ }),
    {
        Point { x, y }
    }

    pub fn zero() -> (r: Point)
        ensures
            r@ == (Pointv { x: rv_int(0), y: rv_int(0) }),
            pv_wf(r@),
    {
        Point { x: Rat::zero(), y: Rat::zero() }
    }

    pub fn translate(&self, x: Rat, y: Rat) -> (r: Point)
        requires
            pv_wf(self@),
            x.wf(),
            y.wf(),
        ensures
            pv_wf(r@),
            r@ == (Pointv { x: rv_add(self@.x, x@), y: rv_add(self@.y, y@) }),
    {
        Point { x: self.x.add(x), y: self.y.add(y) }
    }
}

/// Is `p` strictly on the kept side of clip boundary `k`
/// (0: `y > 0`, 1: `x > 0`, 2: `y < 1`, 3: `x < 1`)?
pub open spec fn sv_inside(k: int, p: Pointv) -> bool {
    if k == 0 {
        rv_lt(rv_int(0), p.y)
    } else if k == 1 {
        rv_lt(rv_int(0), p.x)
    } else if k == 2 {
        rv_lt(p.y, rv_int(1))
    } else if k == 3 {
        rv_lt(p.x, rv_int(1))
    } else {
        false
    }
}

/// The crossing of edge `(p0, p1)` with clip boundary `k`, if its parameter
/// lies strictly between 0 and 1.
pub open spec fn sv_intersection(k: int, p0: Pointv, p1: Pointv) -> Option<Pointv> {
    if k == 0 {
        let t = rv_div(rv_sub(rv_int(0), p0.y), rv_sub(p1.y, p0.y));
        if rv_lt(rv_int(0), t) && rv_lt(t, rv_int(1)) {
            Some(Pointv { x: rv_add(p0.x, rv_mul(rv_sub(p1.x, p0.x), t)), y: rv_int(0) })
        } else {
            None
        }
    } else if k == 1 {
        let t = rv_div(rv_sub(rv_int(0), p0.x), rv_sub(p1.x, p0.x));
        if rv_lt(rv_int(0), t) && rv_lt(t, rv_int(1)) {
            Some(Pointv { x: rv_int(0), y: rv_add(p0.y, rv_mul(rv_sub(p1.y, p0.y), t)) })
        } else {
            None
        }
    } else if k == 2 {
        let t = rv_div(rv_sub(rv_int(1), p0.y), rv_sub(p1.y, p0.y));
        if rv_lt(rv_int(0), t) && rv_lt(t, rv_int(1)) {
            Some(Pointv { x: rv_add(p0.x, rv_mul(rv_sub(p1.x, p0.x), t)), y: rv_int(1) })
        } else {
            None
        }
    } else if k == 3 {
        let t = rv_div(rv_sub(rv_int(1), p0.x), rv_sub(p1.x, p0.x));
        if rv_lt(rv_int(0), t) && rv_lt(t, rv_int(1)) {
            Some(Pointv { x: rv_int(1), y: rv_add(p0.y, rv_mul(rv_sub(p1.y, p0.y), t)) })
        } else {
            None
        }
    } else {
        None
    }
}

/// What one edge contributes to a clip pass: `p0` when it is strictly
/// inside, then the crossing point when there is one.
pub open spec fn sv_emit(k: int, p0: Pointv, p1: Pointv) -> Seq<Pointv> {
    let kept = if sv_inside(k, p0) {
        seq![p0]
    } else {
        Seq::<Pointv>::empty()
    };
    match sv_intersection(k, p0, p1) {
        Some(q) => kept + seq![q],
        None => kept,
    }
}

/// The vertex before `ring[j]` on the ring (wrapping to the last vertex).
pub open spec fn sv_prev(ring: Seq<Pointv>, j: int) -> Pointv {
    if j == 0 {
        ring[ring.len() - 1]
    } else {
        ring[j - 1]
    }
}

/// One clip pass over the first `i` edges of the ring.
pub open spec fn sv_pass_upto(k: int, ring: Seq<Pointv>, i: int) -> Seq<Pointv>
    decreases i,
{
    if i <= 0 {
        Seq::empty()
    } else {
        sv_pass_upto(k, ring, i - 1) + sv_emit(k, sv_prev(ring, i - 1), ring[i - 1])
    }
}

/// One whole Sutherland-Hodgman pass against clip boundary `k`.
pub open spec fn sv_pass(k: int, ring: Seq<Pointv>) -> Seq<Pointv> {
    sv_pass_upto(k, ring, ring.len() as int)
}

/// The ring after the first `k` clip passes.
pub open spec fn sv_passes(ring: Seq<Pointv>, k: int) -> Seq<Pointv>
    decreases k,
{
    if k <= 0 {
        ring
    } else {
        sv_pass(k - 1, sv_passes(ring, k - 1))
    }
}

/// The ring clipped against the unit square: all four passes.
pub open spec fn sv_clip(ring: Seq<Pointv>) -> Seq<Pointv> {
    sv_passes(ring, 4)
}

/// The absolute area of the triangle `(p0, p1, p2)`: half the absolute
/// cross product of its two edge vectors.
pub open spec fn sv_tri_area(p0: Pointv, p1: Pointv, p2: Pointv) -> Ratv {
    rv_div(
        rv_abs(
            rv_sub(
                rv_mul(rv_sub(p1.x, p0.x), rv_sub(p2.y, p0.y)),
                rv_mul(rv_sub(p2.x, p0.x), rv_sub(p1.y, p0.y)),
            ),
        ),
        rv_int(2),
    )
}

/// The sum of the first `i` fan-triangle areas.
pub open spec fn sv_area_upto(ring: Seq<Pointv>, i: int) -> Ratv
    decreases i,
{
    if i <= 0 {
        rv_int(0)
    } else {
        rv_add(sv_area_upto(ring, i - 1), sv_tri_area(ring[0], ring[i], ring[i + 1]))
    }
}

/// The fan area of the ring; zero when it has fewer than 3 points.
pub open spec fn sv_area(ring: Seq<Pointv>) -> Ratv {
    if ring.len() < 3 {
        rv_int(0)
    } else {
        sv_area_upto(ring, ring.len() - 2)
    }
}

pub struct Geom {}

impl Geom {
    /// The strict-interior crossing of edge `(p0, p1)` with clip boundary `k`.
    pub fn intersection_with_clipping(clip_index: usize, p0: &Point, p1: &Point) -> (r: Option<
        Point,
    >)
        requires
            pv_wf(p0@),
            pv_wf(p1@),
        ensures
            (r is Some) == (sv_intersection(clip_index as int, p0@, p1@) is Some),
            r matches Some(q) ==> Some(q@) == sv_intersection(clip_index as int, p0@, p1@)
                && pv_wf(q@),
    {
        let zero = Rat::zero();
        let one = Rat::one();
        if clip_index == 0 {
            let t = zero.sub(p0.y).div(p1.y.sub(p0.y));
            if zero.lt(t) && t.lt(one) {
                let x = p0.x.add(p1.x.sub(p0.x).mul(t));
                Some(Point { x, y: Rat::zero() })
            } else {
                None
            }
        } else if clip_index == 1 {
            let t = zero.sub(p0.x).div(p1.x.sub(p0.x));
            if zero.lt(t) && t.lt(one) {
                let y = p0.y.add(p1.y.sub(p0.y).mul(t));
                Some(Point { x: Rat::zero(), y })
            } else {
                None
            }
        } else if clip_index == 2 {
            let t = one.sub(p0.y).div(p1.y.sub(p0.y));
            if zero.lt(t) && t.lt(one) {
                let x = p0.x.add(p1.x.sub(p0.x).mul(t));
                Some(Point { x, y: Rat::one() })
            } else {
                None
            }
        } else if clip_index == 3 {
            let t = one.sub(p0.x).div(p1.x.sub(p0.x));
            if zero.lt(t) && t.lt(one) {
                let y = p0.y.add(p1.y.sub(p0.y).mul(t));
                Some(Point { x: Rat::one(), y })
            } else {
                None
            }
        } else {
            None
        }
    }

    /// Is `p` strictly inside the half-plane kept by clip boundary `k`?
    pub fn is_right_side(clip_index: usize, p: &Point) -> (r: bool)
        ensures
            r == sv_inside(clip_index as int, p@),
    {
        if clip_index == 0 {
            Rat::zero().lt(p.y)
        } else if clip_index == 1 {
            Rat::zero().lt(p.x)
        } else if clip_index == 2 {
            p.y.lt(Rat::one())
        } else if clip_index == 3 {
            p.x.lt(Rat::one())
        } else {
            false
        }
    }

    /// One clip pass of the ring against boundary `k`.
    fn clip_pass(clip_index: usize, input: &Vec<Point>) -> (r: Vec<Point>)
        requires
            input.len() >= 1,
            ring_wf(ring_view(input@)),
        ensures
            ring_view(r@) == sv_pass(clip_index as int, ring_view(input@)),
            ring_wf(ring_view(r@)),
    {
        let ghost ringv = ring_view(input@);
        let mut result_ring: Vec<Point> = Vec::new();
        let mut p0: Point = input[input.len() - 1];
        let n = input.len();
        for i in 0..n
            invariant
                n == input.len(),
                n >= 1,
                ringv == ring_view(input@),
                ring_wf(ringv),
                p0@ == sv_prev(ringv, i as int),
                ring_view(result_ring@) == sv_pass_upto(clip_index as int, ringv, i as int),
                ring_wf(ring_view(result_ring@)),
        {
            let p1 = input[i];
            proof {
                assert(ringv[i as int] == input@[i as int]@);
                if i > 0 {
                    assert(ringv[i as int - 1] == input@[i as int - 1]@);
                } else {
                    assert(ringv[n as int - 1] == input@[n as int - 1]@);
                }
                assert(pv_wf(ringv[i as int]));
                assert(pv_wf(sv_prev(ringv, i as int)));
            }
            let ghost before = ring_view(result_ring@);
            let intersection = Geom::intersection_with_clipping(clip_index, &p0, &p1);
            if Geom::is_right_side(clip_index, &p0) {
                result_ring.push(p0);
            }
            match intersection {
                Some(q) => {
                    result_ring.push(q);
                },
                None => {},
            }
            proof {
                assert(ring_view(result_ring@) =~= before + sv_emit(
                    clip_index as int,
                    sv_prev(ringv, i as int),
                    ringv[i as int],
                ));
            }
            p0 = p1;
        }
        result_ring
    }

    /// Clips the ring against the unit square by four half-plane passes,
    /// stopping early once a pass leaves the ring empty.
    pub fn clip(subject_polygon: &Vec<Point>) -> (r: Vec<Point>)
        requires
            ring_wf(ring_view(subject_polygon@)),
        ensures
            ring_view(r@) == sv_clip(ring_view(subject_polygon@)),
            ring_wf(ring_view(r@)),
            subject_polygon@.len() == 0 ==> r@.len() == 0,
    {
        let ghost origv = ring_view(subject_polygon@);
        let mut result_ring: Vec<Point> = Vec::new();
        for i in 0..subject_polygon.len()
            invariant
                result_ring@.len() == i,
                forall|j: int| 0 <= j < i ==> result_ring@[j] == subject_polygon@[j],
        {
            result_ring.push(subject_polygon[i]);
        }
        proof {
            assert(ring_view(result_ring@) =~= origv);
            if result_ring@.len() == 0 {
                lemma_passes_stay_empty(origv, 0);
            }
        }
        let mut clip_index: usize = 0;
        while clip_index < 4 && result_ring.len() > 0
            invariant
                clip_index <= 4,
                ring_wf(origv),
                ring_wf(ring_view(result_ring@)),
                ring_view(result_ring@) == sv_passes(origv, clip_index as int),
                result_ring.len() == 0 ==> sv_clip(origv) == ring_view(result_ring@),
            decreases 4 - clip_index,
        {
            let next = Geom::clip_pass(clip_index, &result_ring);
            result_ring = next;
            proof {
                if result_ring.len() == 0 {
                    lemma_passes_stay_empty(origv, clip_index as int + 1);
                }
            }
            clip_index = clip_index + 1;
        }
        result_ring
    }

    /// The fan area of the ring: nonnegative whenever it is a meaningful
    /// value, and exactly zero for rings of fewer than 3 points.
    pub fn polygon_area(polygon: &Vec<Point>) -> (r: Rat)
        requires
            ring_wf(ring_view(polygon@)),
        ensures
            r.wf(),
            r@ == sv_area(ring_view(polygon@)),
            rv_valid(r@) ==> r@.n >= 0,
            polygon.len() < 3 ==> r@ == rv_int(0),
    {
        let ghost ringv = ring_view(polygon@);
        let mut area = Rat::zero();
        if polygon.len() < 3 {
            return area;
        }
        let terms = polygon.len() - 2;
        for i in 0..terms
            invariant
                terms == polygon.len() - 2,
                polygon.len() >= 3,
                ringv == ring_view(polygon@),
                ring_wf(ringv),
                area.wf(),
                area@ == sv_area_upto(ringv, i as int),
        {
            let p0 = polygon[0];
            let p1 = polygon[i + 1];
            let p2 = polygon[i + 2];
            proof {
                assert(ringv[0] == polygon@[0]@);
                assert(ringv[i as int + 1] == polygon@[i as int + 1]@);
                assert(ringv[i as int + 2] == polygon@[i as int + 2]@);
                assert(pv_wf(ringv[0]) && pv_wf(ringv[i as int + 1]) && pv_wf(ringv[i as int + 2]));
            }
            let cross = p1.x.sub(p0.x).mul(p2.y.sub(p0.y)).sub(p2.x.sub(p0.x).mul(p1.y.sub(p0.y)));
            let term = cross.abs().div(Rat::from_i64(2));
            area = area.add(term);
        }
        proof {
            lemma_area_upto_nonneg(ringv, terms as int);
        }
        area
    }
}

/// Once a clip pass leaves the ring empty, the remaining passes keep it so.
proof fn lemma_passes_stay_empty(orig: Seq<Pointv>, k: int)
    requires
        0 <= k <= 4,
        sv_passes(orig, k).len() == 0,
    ensures
        sv_clip(orig) == sv_passes(orig, k),
    decreases 4 - k,
{
    if k < 4 {
        assert(sv_passes(orig, k + 1) =~= sv_passes(orig, k));
        lemma_passes_stay_empty(orig, k + 1);
    }
}

/// A meaningful fan-area prefix sum is nonnegative.
proof fn lemma_area_upto_nonneg(ring: Seq<Pointv>, i: int)
    ensures
        rv_valid(sv_area_upto(ring, i)) ==> sv_area_upto(ring, i).n >= 0,
    decreases i,
{
    if i > 0 {
        lemma_area_upto_nonneg(ring, i - 1);
        let prefix = sv_area_upto(ring, i - 1);
        let term = sv_tri_area(ring[0], ring[i], ring[i + 1]);
        if rv_valid(sv_area_upto(ring, i)) {
            lemma_add_valid_parts(prefix, term);
            lemma_tri_area_nonneg(ring[0], ring[i], ring[i + 1]);
            lemma_add_nonneg(prefix, term);
        }
    }
}

/// A meaningful sum has meaningful parts.
proof fn lemma_add_valid_parts(a: Ratv, b: Ratv)
    requires
        rv_valid(rv_add(a, b)),
    ensures
        rv_valid(a),
        rv_valid(b),
{
}

/// A meaningful triangle area is nonnegative.
proof fn lemma_tri_area_nonneg(p0: Pointv, p1: Pointv, p2: Pointv)
    ensures
        rv_valid(sv_tri_area(p0, p1, p2)) ==> sv_tri_area(p0, p1, p2).n >= 0,
{
    let c = rv_sub(
        rv_mul(rv_sub(p1.x, p0.x), rv_sub(p2.y, p0.y)),
        rv_mul(rv_sub(p2.x, p0.x), rv_sub(p1.y, p0.y)),
    );
    let a = rv_abs(c);
    if rv_valid(sv_tri_area(p0, p1, p2)) {
        assert(rv_valid(a));
        assert(a.n >= 0);
        lemma_norm_keeps_sign(a.n * 1, a.d * 2);
    }
}

/// Adding two nonnegative meaningful values cannot go negative.
proof fn lemma_add_nonneg(a: Ratv, b: Ratv)
    requires
        rv_valid(a),
        rv_valid(b),
        a.n >= 0,
        b.n >= 0,
    ensures
        rv_add(a, b).n >= 0,
{
    assert(a.n * b.d + b.n * a.d >= 0 && a.d * b.d >= 1) by (nonlinear_arith)
        requires
            a.n >= 0,
            b.n >= 0,
            a.d >= 1,
            b.d >= 1,
    ;
    lemma_norm_keeps_sign(a.n * b.d + b.n * a.d, a.d * b.d);
}

/// Reduction keeps the sign of the numerator.
pub proof fn lemma_norm_keeps_sign(n: int, d: int)
    requires
        n >= 0,
        d >= 1,
    ensures
        rv_norm(n, d).n >= 0,
{
    lemma_gcd_pos(abs_int(n), d as nat);
    let g = gcd_nat(abs_int(n), d as nat) as int;
    vstd::arithmetic::div_mod::lemma_div_pos_is_pos(abs_int(n) as int, g);
}

} // verus!
