//! 2D affine transforms as 3x3 homogeneous matrices.
//!
//! `multiply` composes in "apply-then" order: `a.multiply(&b)` is the
//! transform that applies `a` first and `b` second, so a chain
//! `t.multiply(&s).multiply(&r)` reads left to right. `rotation` builds its
//! cosine and sine by a truncated series around zero over a quantized angle,
//! which serves the small pan angles this library generates.

use vstd::prelude::*;
use crate::rat::{Rat, Ratv, rv_wf, rv_valid, rv_int, rv_add, rv_sub, rv_mul, rv_div, rv_approx};
use crate::geom::{Point, Pointv, pv_wf};

verus! {

/// Ghost model of a matrix: nine rational models, row by row.
pub struct Matv {
    pub m00: Ratv,
    pub m01: Ratv,
    pub m02: Ratv,
    pub m10: Ratv,
    pub m11: Ratv,
    pub m12: Ratv,
    pub m20: Ratv,
    pub m21: Ratv,
    pub m22: Ratv,
}

#[derive(Clone, Copy, Debug)]
pub struct Matrix2d {
    pub m00: Rat,
    pub m01: Rat,
    pub m02: Rat,
    pub m10: Rat,
    pub m11: Rat,
    pub m12: Rat,
    pub m20: Rat,
    pub m21: Rat,
    pub m22: Rat,
}

impl View for Matrix2d {
    type V = Matv;

    open spec fn view(&self) -> Matv {
        Matv {
            m00: self.m00@,
            m01: self.m01@,
            m02: self.m02@,
            m10: self.m10@,
            m11: self.m11@,
            m12: self.m12@,
            m20: self.m20@,
            m21: self.m21@,
            m22: self.m22@,
        }
    }
}

pub open spec fn mat_wf(m: Matv) -> bool {
    rv_wf(m.m00) && rv_wf(m.m01) && rv_wf(m.m02) && rv_wf(m.m10) && rv_wf(m.m11) && rv_wf(m.m12)
        && rv_wf(m.m20) && rv_wf(m.m21) && rv_wf(m.m22)
}

/// The affine invariant: the bottom row is `[0, 0, 1]`.
pub open spec fn mat_affine(m: Matv) -> bool {
    m.m20 == rv_int(0) && m.m21 == rv_int(0) && m.m22 == rv_int(1)
}

/// The model of the translation matrix by `(tx, ty)`.
pub open spec fn matv_translate(tx: Ratv, ty: Ratv) -> Matv {
    Matv {
        m00: rv_int(1),
        m01: rv_int(0),
        m02: tx,
        m10: rv_int(0),
        m11: rv_int(1),
        m12: ty,
        m20: rv_int(0),
        m21: rv_int(0),
        m22: rv_int(1),
    }
}

/// The model of the uniform scaling matrix by `s`.
pub open spec fn matv_scale(s: Ratv) -> Matv {
    Matv {
        m00: s,
        m01: rv_int(0),
        m02: rv_int(0),
        m10: rv_int(0),
        m11: s,
        m12: rv_int(0),
        m20: rv_int(0),
        m21: rv_int(0),
        m22: rv_int(1),
    }
}

/// The model of the rotation matrix by `a` radians.
pub open spec fn matv_rotation(a: Ratv) -> Matv {
    Matv {
        m00: sv_cos(a),
        m01: rv_sub(rv_int(0), sv_sin(a)),
        m02: rv_int(0),
        m10: sv_sin(a),
        m11: sv_cos(a),
        m12: rv_int(0),
        m20: rv_int(0),
        m21: rv_int(0),
        m22: rv_int(1),
    }
}

/// A three-term dot product, accumulated left to right from zero.
pub open spec fn sv_dot3(a0: Ratv, a1: Ratv, a2: Ratv, b0: Ratv, b1: Ratv, b2: Ratv) -> Ratv {
    rv_add(rv_add(rv_add(rv_int(0), rv_mul(a0, b0)), rv_mul(a1, b1)), rv_mul(a2, b2))
}

/// Applying a matrix to a point (the homogeneous row is ignored).
pub open spec fn sv_apply(m: Matv, p: Pointv) -> Pointv {
    Pointv {
        x: rv_add(rv_add(rv_mul(p.x, m.m00), rv_mul(p.y, m.m01)), m.m02),
        y: rv_add(rv_add(rv_mul(p.x, m.m10), rv_mul(p.y, m.m11)), m.m12),
    }
}

/// The matrix product `second x first`: the transform that applies `first`
/// and then `second`.
pub open spec fn sv_multiply(first: Matv, second: Matv) -> Matv {
    Matv {
        m00: sv_dot3(second.m00, second.m01, second.m02, first.m00, first.m10, first.m20),
        m01: sv_dot3(second.m00, second.m01, second.m02, first.m01, first.m11, first.m21),
        m02: sv_dot3(second.m00, second.m01, second.m02, first.m02, first.m12, first.m22),
        m10: sv_dot3(second.m10, second.m11, second.m12, first.m00, first.m10, first.m20),
        m11: sv_dot3(second.m10, second.m11, second.m12, first.m01, first.m11, first.m21),
        m12: sv_dot3(second.m10, second.m11, second.m12, first.m02, first.m12, first.m22),
        m20: sv_dot3(second.m20, second.m21, second.m22, first.m00, first.m10, first.m20),
        m21: sv_dot3(second.m20, second.m21, second.m22, first.m01, first.m11, first.m21),
        m22: sv_dot3(second.m20, second.m21, second.m22, first.m02, first.m12, first.m22),
    }
}

/// The truncated cosine series `1 - q^2/2 + q^4/24` over the quantized angle.
pub open spec fn sv_cos(a: Ratv) -> Ratv {
    let q = rv_approx(a);
    let q2 = rv_mul(q, q);
    rv_add(rv_sub(rv_int(1), rv_div(q2, rv_int(2))), rv_div(rv_mul(q2, q2), rv_int(24)))
}

/// The truncated sine series `q - q^3/6` over the quantized angle.
pub open spec fn sv_sin(a: Ratv) -> Ratv {
    let q = rv_approx(a);
    let q2 = rv_mul(q, q);
    rv_sub(q, rv_div(rv_mul(q2, q), rv_int(6)))
}

fn dot3(a0: Rat, a1: Rat, a2: Rat, b0: Rat, b1: Rat, b2: Rat) -> (r: Rat)
    requires
        a0.wf(),
        a1.wf(),
        a2.wf(),
        b0.wf(),
        b1.wf(),
        b2.wf(),
    ensures
        r.wf(),
        r@ == sv_dot3(a0@, a1@, a2@, b0@, b1@, b2@),
{
    Rat::zero().add(a0.mul(b0)).add(a1.mul(b1)).add(a2.mul(b2))
}

impl Matrix2d {
    pub open spec fn wf(self) -> bool {
        mat_wf(self@)
    }

    /// The translation by `(tx, ty)`.
    pub fn translate(tx: Rat, ty: Rat) -> (r: Matrix2d)
        requires
            tx.wf(),
            ty.wf(),
        ensures
            r.wf(),
            mat_affine(r@),
            r@.m00 == rv_int(1) && r@.m01 == rv_int(0) && r@.m02 == tx@,
            r@.m10 == rv_int(0) && r@.m11 == rv_int(1) && r@.m12 == ty@,
            r@ == matv_translate(tx@, ty@),
    {
        Matrix2d {
            m00: Rat::one(),
            m01: Rat::zero(),
            m02: tx,
            m10: Rat::zero(),
            m11: Rat::one(),
            m12: ty,
            m20: Rat::zero(),
            m21: Rat::zero(),
            m22: Rat::one(),
        }
    }

    /// The uniform scaling by `s`.
    pub fn scale(s: Rat) -> (r: Matrix2d)
        requires
            s.wf(),
        ensures
            r.wf(),
            mat_affine(r@),
            r@.m00 == s@ && r@.m01 == rv_int(0) && r@.m02 == rv_int(0),
            r@.m10 == rv_int(0) && r@.m11 == s@ && r@.m12 == rv_int(0),
            r@ == matv_scale(s@),
    {
        Matrix2d {
            m00: s,
            m01: Rat::zero(),
            m02: Rat::zero(),
            m10: Rat::zero(),
            m11: s,
            m12: Rat::zero(),
            m20: Rat::zero(),
            m21: Rat::zero(),
            m22: Rat::one(),
        }
    }

    /// The counter-clockwise rotation by `angle` radians, with cosine and
    /// sine taken from `sv_cos` / `sv_sin`.
    pub fn rotation(angle: Rat) -> (r: Matrix2d)
        requires
            angle.wf(),
        ensures
            r.wf(),
            mat_affine(r@),
            r@.m00 == sv_cos(angle@) && r@.m01 == rv_sub(rv_int(0), sv_sin(angle@)) && r@.m02
                == rv_int(0),
            r@.m10 == sv_sin(angle@) && r@.m11 == sv_cos(angle@) && r@.m12 == rv_int(0),
            r@ == matv_rotation(angle@),
    {
        let q = angle.approx();
        let q2 = q.mul(q);
        let c = Rat::one().sub(q2.div(Rat::from_i64(2))).add(q2.mul(q2).div(Rat::from_i64(24)));
        let s = q.sub(q2.mul(q).div(Rat::from_i64(6)));
        Matrix2d {
            m00: c,
            m01: Rat::zero().sub(s),
            m02: Rat::zero(),
            m10: s,
            m11: c,
            m12: Rat::zero(),
            m20: Rat::zero(),
            m21: Rat::zero(),
            m22: Rat::one(),
        }
    }

    /// Maps a point through the matrix.
    pub fn apply(&self, p: &Point) -> (r: Point)
        requires
            self.wf(),
            pv_wf(p@),
        ensures
            pv_wf(r@),
            r@ == sv_apply(self@, p@),
    {
        Point {
            x: p.x.mul(self.m00).add(p.y.mul(self.m01)).add(self.m02),
            y: p.x.mul(self.m10).add(p.y.mul(self.m11)).add(self.m12),
        }
    }

    /// The composition that applies `self` first, then `m`.
    pub fn multiply(&self, m: &Matrix2d) -> (r: Matrix2d)
        requires
            self.wf(),
            m.wf(),
        ensures
            r.wf(),
            r@ == sv_multiply(self@, m@),
    {
        Matrix2d {
            m00: dot3(m.m00, m.m01, m.m02, self.m00, self.m10, self.m20),
            m01: dot3(m.m00, m.m01, m.m02, self.m01, self.m11, self.m21),
            m02: dot3(m.m00, m.m01, m.m02, self.m02, self.m12, self.m22),
            m10: dot3(m.m10, m.m11, m.m12, self.m00, self.m10, self.m20),
            m11: dot3(m.m10, m.m11, m.m12, self.m01, self.m11, self.m21),
            m12: dot3(m.m10, m.m11, m.m12, self.m02, self.m12, self.m22),
            m20: dot3(m.m20, m.m21, m.m22, self.m00, self.m10, self.m20),
            m21: dot3(m.m20, m.m21, m.m22, self.m01, self.m11, self.m21),
            m22: dot3(m.m20, m.m21, m.m22, self.m02, self.m12, self.m22),
        }
    }
}

} // verus!
