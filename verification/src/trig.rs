//! Fixed-point circular functions for the coordinate transform.
//!
//! `sin_cos` reduces its argument into one quadrant and evaluates short
//! Taylor polynomials; `atan2` folds into one octant and evaluates a cubic
//! approximation.  Each function's exact result is pinned by a spec-level
//! twin built from the scalar operations, so callers can state the mapping
//! formulas literally; the twins are the definitions of the library's
//! approximations, accurate to a few units in the last decimal places over
//! one turn.

use vstd::prelude::*;

use crate::fixed::Fx;
use crate::fixed::SCALE;
use crate::fixed::s_abs;
use crate::fixed::s_add;
use crate::fixed::s_div;
use crate::fixed::s_mul;
use crate::fixed::s_neg;
use crate::fixed::s_sub;
use crate::fixed::s_trunc;

verus! {

/// One half turn, in millionths.
pub const PI_UNITS: u64 = 3141593;

/// One full turn, in millionths.
pub const TWO_PI_UNITS: u64 = 6283185;

/// One quarter turn, in millionths.
pub const HALF_PI_UNITS: u64 = 1570796;

/// A whole number as a fixed-point value.
pub open spec fn s_int(n: u32) -> Fx {
    Fx::of((n as int) * (SCALE as int))
}

/// A whole number as a fixed-point value.
fn int_fx(n: u32) -> (r: Fx)
    ensures
        r == s_int(n),
{
    Fx::from_int(false, n)
}

/// The argument brought within one turn of zero: subtract the truncated
/// multiple of a full turn, then fold once into `[-pi, pi]`.
pub open spec fn s_reduce(th: Fx) -> Fx {
    let m = s_trunc(s_div(th, Fx::of(TWO_PI_UNITS as int)));
    let r0 = s_sub(th, s_mul(m, Fx::of(TWO_PI_UNITS as int)));
    let r1 = if r0.v() > PI_UNITS as int {
        s_sub(r0, Fx::of(TWO_PI_UNITS as int))
    } else {
        r0
    };
    if r1.v() < -(PI_UNITS as int) {
        s_add(r1, Fx::of(TWO_PI_UNITS as int))
    } else {
        r1
    }
}

fn reduce(th: Fx) -> (r: Fx)
    ensures
        r == s_reduce(th),
{
    let two_pi = Fx::from_units(false, TWO_PI_UNITS);
    let pi = Fx::from_units(false, PI_UNITS);
    let m = th.div(two_pi).trunc();
    let r0 = th.sub(m.mul(two_pi));
    let r1 = if pi.lt(r0) {
        r0.sub(two_pi)
    } else {
        r0
    };
    if r1.lt(pi.negate()) {
        r1.add(two_pi)
    } else {
        r1
    }
}

/// The sine and cosine of the reduced argument: quadrant folding, then
/// Taylor polynomials of degree nine and eight.
pub open spec fn s_sin_cos(th: Fx) -> (Fx, Fx) {
    let r = s_reduce(th);
    let a = s_abs(r);
    let folded = a.v() > HALF_PI_UNITS as int;
    let x = if folded {
        s_sub(Fx::of(PI_UNITS as int), a)
    } else {
        a
    };
    let x2 = s_mul(x, x);
    let x3 = s_mul(x2, x);
    let x5 = s_mul(x3, x2);
    let x7 = s_mul(x5, x2);
    let x9 = s_mul(x7, x2);
    let sin_base = s_add(
        s_sub(s_add(s_sub(x, s_div(x3, s_int(6))), s_div(x5, s_int(120))), s_div(x7, s_int(5040))),
        s_div(x9, s_int(362880)),
    );
    let x4 = s_mul(x2, x2);
    let x6 = s_mul(x4, x2);
    let x8 = s_mul(x6, x2);
    let cos_base = s_add(
        s_sub(
            s_add(s_sub(s_int(1), s_div(x2, s_int(2))), s_div(x4, s_int(24))),
            s_div(x6, s_int(720)),
        ),
        s_div(x8, s_int(40320)),
    );
    let sinv = if r.v() < 0 {
        s_neg(sin_base)
    } else {
        sin_base
    };
    let cosv = if folded {
        s_neg(cos_base)
    } else {
        cos_base
    };
    (sinv, cosv)
}

/// The sine and cosine of an angle, as `(sin, cos)`.
pub fn sin_cos(th: Fx) -> (r: (Fx, Fx))
    ensures
        r == s_sin_cos(th),
        th.fin ==> r.0.fin && r.1.fin,
{
    let r = reduce(th);
    let a = r.abs();
    let half_pi = Fx::from_units(false, HALF_PI_UNITS);
    let folded = half_pi.lt(a);
    let x = if folded {
        Fx::from_units(false, PI_UNITS).sub(a)
    } else {
        a
    };
    let x2 = x.mul(x);
    let x3 = x2.mul(x);
    let x5 = x3.mul(x2);
    let x7 = x5.mul(x2);
    let x9 = x7.mul(x2);
    let sin_base = x.sub(x3.div(int_fx(6))).add(x5.div(int_fx(120))).sub(
        x7.div(int_fx(5040)),
    ).add(x9.div(int_fx(362880)));
    let x4 = x2.mul(x2);
    let x6 = x4.mul(x2);
    let x8 = x6.mul(x2);
    let cos_base = int_fx(1).sub(x2.div(int_fx(2))).add(x4.div(int_fx(24))).sub(
        x6.div(int_fx(720)),
    ).add(x8.div(int_fx(40320)));
    let sinv = if r.lt(Fx::from_units(false, 0)) {
        sin_base.negate()
    } else {
        sin_base
    };
    let cosv = if folded {
        cos_base.negate()
    } else {
        cos_base
    };
    (sinv, cosv)
}

/// A cubic approximation of the arctangent on `[0, 1]`.
pub open spec fn s_atan_poly(z: Fx) -> Fx {
    s_add(
        s_mul(z, Fx::of(785398)),
        s_mul(s_mul(z, s_sub(s_int(1), z)), s_add(Fx::of(244700), s_mul(z, Fx::of(66300)))),
    )
}

fn atan_poly(z: Fx) -> (r: Fx)
    ensures
        r == s_atan_poly(z),
{
    z.mul(Fx::from_units(false, 785398)).add(
        z.mul(int_fx(1).sub(z)).mul(
            Fx::from_units(false, 244700).add(z.mul(Fx::from_units(false, 66300))),
        ),
    )
}

/// The angle of the point `(x, y)` in `(-pi, pi]`, by octant folding of the
/// arctangent approximation; the origin maps to zero.
pub open spec fn s_atan2(y: Fx, x: Fx) -> Fx {
    if x.v() == 0 && y.v() == 0 {
        Fx::of(0)
    } else {
        let ax = s_abs(x);
        let ay = s_abs(y);
        let ang = if ay.v() <= ax.v() {
            s_atan_poly(s_div(ay, ax))
        } else {
            s_sub(Fx::of(HALF_PI_UNITS as int), s_atan_poly(s_div(ax, ay)))
        };
        let ang2 = if x.v() < 0 {
            s_sub(Fx::of(PI_UNITS as int), ang)
        } else {
            ang
        };
        if y.v() < 0 {
            s_neg(ang2)
        } else {
            ang2
        }
    }
}

/// The angle of the point `(x, y)`.
pub fn atan2(y: Fx, x: Fx) -> (r: Fx)
    ensures
        r == s_atan2(y, x),
        x.fin && y.fin ==> r.fin,
{
    if x.is_zero() && y.is_zero() {
        return Fx::from_units(false, 0);
    }
    let ax = x.abs();
    let ay = y.abs();
    let ang = if ay.le(ax) {
        atan_poly(ay.div(ax))
    } else {
        Fx::from_units(false, HALF_PI_UNITS).sub(atan_poly(ax.div(ay)))
    };
    let ang2 = if x.lt(Fx::from_units(false, 0)) {
        Fx::from_units(false, PI_UNITS).sub(ang)
    } else {
        ang
    };
    if y.lt(Fx::from_units(false, 0)) {
        ang2.negate()
    } else {
        ang2
    }
}

} // verus!
