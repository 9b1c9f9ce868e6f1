//! Exact rational arithmetic for the rendering engine.
//!
//! Every coordinate, area, matrix entry and pose channel in this library is a
//! `Rat`: a fraction of two `i64` values, kept reduced by a gcd step after
//! every operation. A denominator of zero marks "no value": the result of a
//! division by zero, or of an operation whose reduced result does not fit the
//! 63-bit magnitude range. Operations propagate "no value" and never panic;
//! comparisons on such values are false, so downstream decisions treat them
//! as outside every range, much as an unordered comparison would.

use vstd::prelude::*;

verus! {

/// Ghost model of a `Rat`: an unbounded numerator/denominator pair.
/// `d == 0` marks "no value"; a meaningful rational has `d >= 1`.
pub struct Ratv {
    pub n: int,
    pub d: int,
}

/// A rational number with 63-bit magnitude bounds on both parts.
#[derive(Clone, Copy, Debug)]
pub struct Rat {
    pub num: i64,
    pub den: i64,
}

impl View for Rat {
    type V = Ratv;

    open spec fn view(&self) -> Ratv {
        Ratv { n: self.num as int, d: self.den as int }
    }
}

/// A well-formed rational: the denominator is never negative, and the
/// "no value" form is exactly `0/0`.
pub open spec fn rv_wf(a: Ratv) -> bool {
    0 <= a.d && (a.d == 0 ==> a.n == 0) && -0x7fff_ffff_ffff_ffff <= a.n <= 0x7fff_ffff_ffff_ffff
}

/// `a` holds a meaningful rational value.
pub open spec fn rv_valid(a: Ratv) -> bool {
    a.d >= 1
}

pub open spec fn rv_invalid() -> Ratv {
    Ratv { n: 0, d: 0 }
}

/// The greatest common divisor, by Euclid's rule.
pub open spec fn gcd_nat(a: nat, b: nat) -> nat
    decreases b,
{
    if b == 0 {
        a
    } else {
        gcd_nat(b, a % b)
    }
}

pub open spec fn abs_int(n: int) -> nat {
    if n >= 0 {
        n as nat
    } else {
        (-n) as nat
    }
}

/// Reduce the exact pair `n / d` (with `d >= 1`) by its gcd; if the reduced
/// parts exceed the 63-bit magnitude range, the result is "no value".
pub open spec fn rv_norm(n: int, d: int) -> Ratv {
    let g = gcd_nat(abs_int(n), d as nat) as int;
    let nm = abs_int(n) as int / g;
    let dm = d / g;
    if nm <= 0x7fff_ffff_ffff_ffff && dm <= 0x7fff_ffff_ffff_ffff {
        Ratv { n: if n >= 0 { nm } else { -nm }, d: dm }
    } else {
        rv_invalid()
    }
}

pub open spec fn rv_add(a: Ratv, b: Ratv) -> Ratv {
    if rv_valid(a) && rv_valid(b) {
        rv_norm(a.n * b.d + b.n * a.d, a.d * b.d)
    } else {
        rv_invalid()
    }
}

pub open spec fn rv_sub(a: Ratv, b: Ratv) -> Ratv {
    if rv_valid(a) && rv_valid(b) {
        rv_norm(a.n * b.d - b.n * a.d, a.d * b.d)
    } else {
        rv_invalid()
    }
}

pub open spec fn rv_mul(a: Ratv, b: Ratv) -> Ratv {
    if rv_valid(a) && rv_valid(b) {
        rv_norm(a.n * b.n, a.d * b.d)
    } else {
        rv_invalid()
    }
}

pub open spec fn rv_div(a: Ratv, b: Ratv) -> Ratv {
    if rv_valid(a) && rv_valid(b) && b.n != 0 {
        if b.n >= 1 {
            rv_norm(a.n * b.d, a.d * b.n)
        } else {
            rv_norm(-(a.n * b.d), a.d * -b.n)
        }
    } else {
        rv_invalid()
    }
}

pub open spec fn rv_neg(a: Ratv) -> Ratv {
    if rv_valid(a) {
        Ratv { n: -a.n, d: a.d }
    } else {
        rv_invalid()
    }
}

pub open spec fn rv_abs(a: Ratv) -> Ratv {
    if rv_valid(a) {
        Ratv { n: abs_int(a.n) as int, d: a.d }
    } else {
        rv_invalid()
    }
}

/// Strict order on meaningful values; false whenever either side is "no value".
pub open spec fn rv_lt(a: Ratv, b: Ratv) -> bool {
    rv_valid(a) && rv_valid(b) && a.n * b.d < b.n * a.d
}

pub open spec fn rv_le(a: Ratv, b: Ratv) -> bool {
    rv_valid(a) && rv_valid(b) && a.n * b.d <= b.n * a.d
}

/// Equality of the rational values; false whenever either side is "no value".
pub open spec fn rv_eqv(a: Ratv, b: Ratv) -> bool {
    rv_valid(a) && rv_valid(b) && a.n * b.d == b.n * a.d
}

pub open spec fn rv_int(n: int) -> Ratv {
    Ratv { n: n, d: 1 }
}

/// The floor of a meaningful value, as an unbounded integer.
pub open spec fn rv_floor(a: Ratv) -> int {
    a.n / a.d
}

/// The nearest multiple of `1/4096` (half away from zero), or "no value".
pub open spec fn rv_approx(a: Ratv) -> Ratv {
    if !rv_valid(a) {
        rv_invalid()
    } else {
        let m = (abs_int(a.n) * 4096 + (a.d as nat) / 2) as int / a.d;
        if m <= 0x7fff_ffff_ffff_ffff {
            Ratv { n: if a.n >= 0 { m } else { -m }, d: 4096 }
        } else {
            rv_invalid()
        }
    }
}

impl Rat {
    pub open spec fn wf(self) -> bool {
        rv_wf(self@)
    }

    pub fn invalid() -> (r: Rat)
        ensures
            r.wf(),
            r@ == rv_invalid(),
    {
        Rat { num: 0, den: 0 }
    }

    pub fn zero() -> (r: Rat)
        ensures
            r.wf(),
            r@ == rv_int(0),
    {
        Rat { num: 0, den: 1 }
    }

    pub fn one() -> (r: Rat)
        ensures
            r.wf(),
            r@ == rv_int(1),
    {
        Rat { num: 1, den: 1 }
    }

    pub fn from_i64(n: i64) -> (r: Rat)
        requires
            -0x7fff_ffff_ffff_ffff <= n,
        ensures
            r.wf(),
            r@ == rv_int(n as int),
    {
        Rat { num: n, den: 1 }
    }

    pub fn is_valid(self) -> (r: bool)
        ensures
            r == rv_valid(self@),
    {
        self.den >= 1
    }

    /// Builds the reduced rational `n / d`; `d == 0` gives "no value",
    /// a negative `d` moves the sign to the numerator.
    pub fn new(n: i64, d: i64) -> (r: Rat)
        ensures
            r.wf(),
            d == 0 ==> r@ == rv_invalid(),
            d >= 1 ==> r@ == rv_norm(n as int, d as int),
            d <= -1 ==> r@ == rv_norm(-(n as int), -(d as int)),
    {
        if d == 0 {
            Rat { num: 0, den: 0 }
        } else if d >= 1 {
            norm128(n as i128, d as i128)
        } else {
            norm128(-(n as i128), -(d as i128))
        }
    }

    pub fn add(self, other: Rat) -> (r: Rat)
        requires
            self.wf(),
            other.wf(),
        ensures
            r.wf(),
            r@ == rv_add(self@, other@),
    {
        if self.den == 0 || other.den == 0 {
            Rat { num: 0, den: 0 }
        } else {
            proof {
                lemma_prod_fits(self.num as int, other.den as int, 0x7fff_ffff_ffff_ffff);
                lemma_prod_fits(other.num as int, self.den as int, 0x7fff_ffff_ffff_ffff);
                lemma_prod_fits(self.num as int, other.num as int, 0x7fff_ffff_ffff_ffff);
                lemma_prod_fits(self.den as int, other.den as int, 0x7fff_ffff_ffff_ffff);
                lemma_prod_fits(self.den as int, other.num as int, 0x7fff_ffff_ffff_ffff);
                lemma_prod_sign(self.den as int, other.den as int);
                lemma_prod_sign(self.den as int, other.num as int);
            }
            let n: i128 = (self.num as i128) * (other.den as i128) + (other.num as i128) * (self.den as i128);
            let d: i128 = (self.den as i128) * (other.den as i128);
            norm128(n, d)
        }
    }

    pub fn sub(self, other: Rat) -> (r: Rat)
        requires
            self.wf(),
            other.wf(),
        ensures
            r.wf(),
            r@ == rv_sub(self@, other@),
    {
        if self.den == 0 || other.den == 0 {
            Rat { num: 0, den: 0 }
        } else {
            proof {
                lemma_prod_fits(self.num as int, other.den as int, 0x7fff_ffff_ffff_ffff);
                lemma_prod_fits(other.num as int, self.den as int, 0x7fff_ffff_ffff_ffff);
                lemma_prod_fits(self.num as int, other.num as int, 0x7fff_ffff_ffff_ffff);
                lemma_prod_fits(self.den as int, other.den as int, 0x7fff_ffff_ffff_ffff);
                lemma_prod_fits(self.den as int, other.num as int, 0x7fff_ffff_ffff_ffff);
                lemma_prod_sign(self.den as int, other.den as int);
                lemma_prod_sign(self.den as int, other.num as int);
            }
            let n: i128 = (self.num as i128) * (other.den as i128) - (other.num as i128) * (self.den as i128);
            let d: i128 = (self.den as i128) * (other.den as i128);
            norm128(n, d)
        }
    }

    pub fn mul(self, other: Rat) -> (r: Rat)
        requires
            self.wf(),
            other.wf(),
        ensures
            r.wf(),
            r@ == rv_mul(self@, other@),
    {
        if self.den == 0 || other.den == 0 {
            Rat { num: 0, den: 0 }
        } else {
            proof {
                lemma_prod_fits(self.num as int, other.den as int, 0x7fff_ffff_ffff_ffff);
                lemma_prod_fits(other.num as int, self.den as int, 0x7fff_ffff_ffff_ffff);
                lemma_prod_fits(self.num as int, other.num as int, 0x7fff_ffff_ffff_ffff);
                lemma_prod_fits(self.den as int, other.den as int, 0x7fff_ffff_ffff_ffff);
                lemma_prod_fits(self.den as int, other.num as int, 0x7fff_ffff_ffff_ffff);
                lemma_prod_sign(self.den as int, other.den as int);
                lemma_prod_sign(self.den as int, other.num as int);
            }
            let n: i128 = (self.num as i128) * (other.num as i128);
            let d: i128 = (self.den as i128) * (other.den as i128);
            norm128(n, d)
        }
    }

    pub fn div(self, other: Rat) -> (r: Rat)
        requires
            self.wf(),
            other.wf(),
        ensures
            r.wf(),
            r@ == rv_div(self@, other@),
    {
        if self.den == 0 || other.den == 0 || other.num == 0 {
            Rat { num: 0, den: 0 }
        } else {
            proof {
                lemma_prod_fits(self.num as int, other.den as int, 0x7fff_ffff_ffff_ffff);
                lemma_prod_fits(other.num as int, self.den as int, 0x7fff_ffff_ffff_ffff);
                lemma_prod_fits(self.num as int, other.num as int, 0x7fff_ffff_ffff_ffff);
                lemma_prod_fits(self.den as int, other.den as int, 0x7fff_ffff_ffff_ffff);
                lemma_prod_fits(self.den as int, other.num as int, 0x7fff_ffff_ffff_ffff);
                lemma_prod_sign(self.den as int, other.den as int);
                lemma_prod_sign(self.den as int, other.num as int);
            }
            let n: i128 = (self.num as i128) * (other.den as i128);
            let d: i128 = (self.den as i128) * (other.num as i128);
            if other.num >= 1 {
                norm128(n, d)
            } else {
                proof {
                    assert((self.den as int) * -(other.num as int)
                        == -((self.den as int) * (other.num as int))) by (nonlinear_arith);
                }
                norm128(-n, -d)
            }
        }
    }

    pub fn neg(self) -> (r: Rat)
        requires
            self.wf(),
        ensures
            r.wf(),
            r@ == rv_neg(self@),
    {
        if self.den == 0 {
            Rat { num: 0, den: 0 }
        } else {
            Rat { num: -self.num, den: self.den }
        }
    }

    pub fn abs(self) -> (r: Rat)
        requires
            self.wf(),
        ensures
            r.wf(),
            r@ == rv_abs(self@),
    {
        if self.den == 0 {
            Rat { num: 0, den: 0 }
        } else if self.num < 0 {
            Rat { num: -self.num, den: self.den }
        } else {
            self
        }
    }

    pub fn lt(self, other: Rat) -> (r: bool)
        ensures
            r == rv_lt(self@, other@),
    {
        proof {
            lemma_prod_fits(self.num as int, other.den as int, 0x8000_0000_0000_0000);
            lemma_prod_fits(other.num as int, self.den as int, 0x8000_0000_0000_0000);
        }
        self.den >= 1 && other.den >= 1
            && (self.num as i128) * (other.den as i128) < (other.num as i128) * (self.den as i128)
    }

    pub fn le(self, other: Rat) -> (r: bool)
        ensures
            r == rv_le(self@, other@),
    {
        proof {
            lemma_prod_fits(self.num as int, other.den as int, 0x8000_0000_0000_0000);
            lemma_prod_fits(other.num as int, self.den as int, 0x8000_0000_0000_0000);
        }
        self.den >= 1 && other.den >= 1
            && (self.num as i128) * (other.den as i128) <= (other.num as i128) * (self.den as i128)
    }

    pub fn eq_val(self, other: Rat) -> (r: bool)
        ensures
            r == rv_eqv(self@, other@),
    {
        proof {
            lemma_prod_fits(self.num as int, other.den as int, 0x8000_0000_0000_0000);
            lemma_prod_fits(other.num as int, self.den as int, 0x8000_0000_0000_0000);
        }
        self.den >= 1 && other.den >= 1
            && (self.num as i128) * (other.den as i128) == (other.num as i128) * (self.den as i128)
    }

    /// Rounds to the nearest multiple of `1/4096` (half away from zero),
    /// bounding the denominator before a chain of further operations.
    pub fn approx(self) -> (r: Rat)
        requires
            self.wf(),
        ensures
            r.wf(),
            r@ == rv_approx(self@),
    {
        if self.den == 0 {
            Rat { num: 0, den: 0 }
        } else {
            let na: u128 = mag_i128(self.num as i128);
            let da: u128 = self.den as u128;
            let m: u128 = (na * 4096 + da / 2) / da;
            if m <= 0x7fff_ffff_ffff_ffff {
                if self.num >= 0 {
                    Rat { num: m as i64, den: 4096 }
                } else {
                    Rat { num: -(m as i64), den: 4096 }
                }
            } else {
                Rat { num: 0, den: 0 }
            }
        }
    }

    /// The floor of a meaningful value; `None` for "no value".
    pub fn floor(self) -> (r: Option<i64>)
        requires
            self.wf(),
        ensures
            rv_valid(self@) ==> -0x8000_0000_0000_0000 <= rv_floor(self@) <= 0x7fff_ffff_ffff_ffff
                && r == Some(rv_floor(self@) as i64),
            !rv_valid(self@) ==> r is None,
    {
        if self.den == 0 {
            None
        } else {
            let na: u128 = mag_i128(self.num as i128);
            let da: u128 = self.den as u128;
            let q: u128 = na / da;
            let rm: u128 = na % da;
            proof {
                vstd::arithmetic::div_mod::lemma_div_nonincreasing(na as int, da as int);
                vstd::arithmetic::div_mod::lemma_div_pos_is_pos(na as int, da as int);
                vstd::arithmetic::div_mod::lemma_fundamental_div_mod(na as int, da as int);
            }
            if self.num >= 0 {
                Some(q as i64)
            } else {
                if rm == 0 {
                    proof {
                        assert(self.num as int == (-(q as int)) * (da as int) + 0) by (nonlinear_arith)
                            requires
                                na == q * da + 0,
                                self.num as int == -(na as int),
                        ;
                        vstd::arithmetic::div_mod::lemma_fundamental_div_mod_converse(
                            self.num as int, da as int, -(q as int), 0);
                    }
                    Some(-(q as i64))
                } else {
                    proof {
                        assert(self.num as int == (-(q as int) - 1) * (da as int) + ((da - rm) as int)) by (nonlinear_arith)
                            requires
                                na == q * da + rm,
                                self.num as int == -(na as int),
                        ;
                        vstd::arithmetic::div_mod::lemma_fundamental_div_mod_converse(
                            self.num as int, da as int, -(q as int) - 1, (da - rm) as int);
                    }
                    Some(-(q as i64) - 1)
                }
            }
        }
    }
}

/// The magnitude of a signed value, total on the whole range.
fn mag_i128(n: i128) -> (r: u128)
    ensures
        r as nat == abs_int(n as int),
{
    if n >= 0 {
        n as u128
    } else {
        ((-(n + 1)) as u128) + 1
    }
}


/// Bounds on a product follow from bounds on its factors.
proof fn lemma_prod_fits(a: int, b: int, m: int)
    by (nonlinear_arith)
    requires
        0 <= m,
        -m <= a <= m,
        -m <= b <= m,
    ensures
        -(m * m) <= a * b <= m * m,
{
}

/// The sign of a product with a positive left factor.
proof fn lemma_prod_sign(a: int, b: int)
    by (nonlinear_arith)
    requires
        a >= 1,
    ensures
        b >= 1 ==> a * b >= 1,
        b <= -1 ==> a * b <= -1,
{
}

/// Euclid's algorithm; agrees with `gcd_nat`.
fn gcd_u128(a: u128, b: u128) -> (g: u128)
    ensures
        g as nat == gcd_nat(a as nat, b as nat),
{
    let mut x: u128 = a;
    let mut y: u128 = b;
    while y != 0
        invariant
            gcd_nat(x as nat, y as nat) == gcd_nat(a as nat, b as nat),
        decreases y,
    {
        let r: u128 = x % y;
        x = y;
        y = r;
    }
    x
}

/// `gcd_nat(a, b)` is at least 1 whenever `b` is.
pub proof fn lemma_gcd_pos(a: nat, b: nat)
    requires
        b >= 1,
    ensures
        gcd_nat(a, b) >= 1,
    decreases b,
{
    if a % b == 0 {
        assert(gcd_nat(b, 0) == b);
    } else {
        lemma_gcd_pos(b, a % b);
    }
}

/// `gcd_nat(a, b)` divides both of its arguments whenever `b >= 1`.
pub proof fn lemma_gcd_divides(a: nat, b: nat)
    requires
        b >= 1,
    ensures
        a % gcd_nat(a, b) == 0,
        b % gcd_nat(a, b) == 0,
    decreases b,
{
    lemma_gcd_pos(a, b);
    let g = gcd_nat(a, b);
    if a % b == 0 {
        assert(gcd_nat(b, 0) == b);
        assert(g == b);
        vstd::arithmetic::div_mod::lemma_mod_self_0(b as int);
    } else {
        lemma_gcd_divides(b, a % b);
        assert(g == gcd_nat(b, (a % b) as nat));
        vstd::arithmetic::div_mod::lemma_fundamental_div_mod(a as int, b as int);
        assert(a == b * (a as int / b as int) + a % b);
        lemma_mod_sum_zero(b as int, (a % b) as int, a as int / b as int, g as int);
    }
}

/// If `g` divides `b` and `r`, it divides `b * q + r`.
proof fn lemma_mod_sum_zero(b: int, r: int, q: int, g: int)
    requires
        g >= 1,
        b >= 0,
        r >= 0,
        b % g == 0,
        r % g == 0,
    ensures
        (b * q + r) % g == 0,
{
    vstd::arithmetic::div_mod::lemma_fundamental_div_mod(b, g);
    vstd::arithmetic::div_mod::lemma_fundamental_div_mod(r, g);
    let qb = b / g;
    let qr = r / g;
    assert(b * q + r == g * (qb * q + qr)) by (nonlinear_arith)
        requires
            b == g * qb + 0,
            r == g * qr + 0,
    ;
    vstd::arithmetic::div_mod::lemma_mod_multiples_basic(qb * q + qr, g);
}

/// Reduction preserves the rational value: a meaningful `rv_norm(n, d)`
/// equals `n / d` by cross-multiplication.
pub proof fn lemma_norm_exact(n: int, d: int)
    requires
        d >= 1,
    ensures
        rv_valid(rv_norm(n, d)) ==> rv_norm(n, d).n * d == n * rv_norm(n, d).d,
{
    lemma_gcd_pos(abs_int(n), d as nat);
    lemma_gcd_divides(abs_int(n), d as nat);
    let g = gcd_nat(abs_int(n), d as nat) as int;
    let m = abs_int(n) as int;
    vstd::arithmetic::div_mod::lemma_fundamental_div_mod(m, g);
    vstd::arithmetic::div_mod::lemma_fundamental_div_mod(d, g);
    let p = m / g;
    let q = d / g;
    if rv_valid(rv_norm(n, d)) {
        if n >= 0 {
            assert(p * d == n * q) by (nonlinear_arith)
                requires
                    n == g * p,
                    d == g * q,
            ;
        } else {
            assert((-p) * d == n * q) by (nonlinear_arith)
                requires
                    -n == g * p,
                    d == g * q,
            ;
        }
    }
}

/// A meaningful sum equals the exact cross-multiplied sum of its parts.
pub proof fn lemma_add_exact(a: Ratv, b: Ratv)
    requires
        rv_valid(a),
        rv_valid(b),
    ensures
        rv_valid(rv_add(a, b)) ==> rv_add(a, b).n * (a.d * b.d) == (a.n * b.d + b.n * a.d)
            * rv_add(a, b).d,
{
    lemma_prod_sign(a.d, b.d);
    lemma_norm_exact(a.n * b.d + b.n * a.d, a.d * b.d);
}

/// A meaningful difference equals the exact cross-multiplied difference.
pub proof fn lemma_sub_exact(a: Ratv, b: Ratv)
    requires
        rv_valid(a),
        rv_valid(b),
    ensures
        rv_valid(rv_sub(a, b)) ==> rv_sub(a, b).n * (a.d * b.d) == (a.n * b.d - b.n * a.d)
            * rv_sub(a, b).d,
{
    lemma_prod_sign(a.d, b.d);
    lemma_norm_exact(a.n * b.d - b.n * a.d, a.d * b.d);
}

/// A meaningful product equals the exact product of its parts.
pub proof fn lemma_mul_exact(a: Ratv, b: Ratv)
    requires
        rv_valid(a),
        rv_valid(b),
    ensures
        rv_valid(rv_mul(a, b)) ==> rv_mul(a, b).n * (a.d * b.d) == (a.n * b.n) * rv_mul(a, b).d,
{
    lemma_prod_sign(a.d, b.d);
    lemma_norm_exact(a.n * b.n, a.d * b.d);
}

/// A meaningful quotient `a / b` satisfies `r * (a.d * b.n) == (a.n * b.d) * r.d`.
pub proof fn lemma_div_exact(a: Ratv, b: Ratv)
    requires
        rv_valid(a),
        rv_valid(b),
        b.n != 0,
    ensures
        rv_valid(rv_div(a, b)) ==> rv_div(a, b).n * (a.d * b.n) == (a.n * b.d) * rv_div(a, b).d,
{
    if b.n >= 1 {
        lemma_prod_sign(a.d, b.n);
        lemma_norm_exact(a.n * b.d, a.d * b.n);
    } else {
        lemma_prod_sign(a.d, -b.n);
        lemma_norm_exact(-(a.n * b.d), a.d * -b.n);
        let r = rv_div(a, b);
        if rv_valid(r) {
            assert(r.n * (a.d * b.n) == (a.n * b.d) * r.d) by (nonlinear_arith)
                requires
                    r.n * (a.d * -b.n) == (-(a.n * b.d)) * r.d,
            ;
        }
    }
}

/// Equality of meaningful values is transitive.
pub proof fn lemma_eqv_trans(a: Ratv, b: Ratv, c: Ratv)
    requires
        rv_eqv(a, b),
        rv_eqv(b, c),
    ensures
        rv_eqv(a, c),
{
    assert(a.n * c.d == c.n * a.d) by (nonlinear_arith)
        requires
            a.n * b.d == b.n * a.d,
            b.n * c.d == c.n * b.d,
            a.d >= 1,
            b.d >= 1,
            c.d >= 1,
    ;
}

/// Reduces the exact value `n / d` to a `Rat`; the spec mirror is `rv_norm`.
fn norm128(n: i128, d: i128) -> (r: Rat)
    requires
        1 <= d,
    ensures
        r.wf(),
        r@ == rv_norm(n as int, d as int),
{
    let na: u128 = mag_i128(n);
    let da: u128 = d as u128;
    let g: u128 = gcd_u128(na, da);
    proof {
        lemma_gcd_pos(na as nat, da as nat);
        lemma_gcd_divides(na as nat, da as nat);
    }
    let nm: u128 = na / g;
    let dm: u128 = da / g;
    if nm <= 0x7fff_ffff_ffff_ffff && dm <= 0x7fff_ffff_ffff_ffff {
        proof {
            vstd::arithmetic::div_mod::lemma_fundamental_div_mod(da as int, g as int);
            assert(dm >= 1) by (nonlinear_arith)
                requires
                    da as int == (g as int) * (dm as int) + 0,
                    g >= 1,
                    da >= 1,
            ;
        }
        if n >= 0 {
            Rat { num: nm as i64, den: dm as i64 }
        } else {
            Rat { num: -(nm as i64), den: dm as i64 }
        }
    } else {
        Rat { num: 0, den: 0 }
    }
}

} // verus!
