//! An exact fixed-point scalar.
//!
//! A value is a signed magnitude in units of one millionth, together with a
//! finiteness flag.  Arithmetic saturates at the largest representable
//! magnitude; division by zero and square roots of negative values yield the
//! single non-finite value, which propagates through every operation.  Each
//! operation has a spec-level twin (`s_add`, `s_mul`, ...) that pins down the
//! exact result, so formulas built from these operations can be stated
//! literally in contracts.

use vstd::prelude::*;

verus! {

/// Number of fixed-point units per whole unit.
pub const SCALE: u64 = 1000000;

/// A fixed-point scalar: `mag` millionths, negative when `neg` is set.
/// When `fin` is false the value is the single non-finite element and
/// `neg`/`mag` are zeroed.
#[derive(Clone, Copy, Debug, PartialEq, Eq, Structural)]
pub struct Fx {
    pub fin: bool,
    pub neg: bool,
    pub mag: u64,
}

/// Clamp an integer into the representable range of magnitudes.
pub open spec fn clamp_v(v: int) -> int {
    if v > u64::MAX as int {
        u64::MAX as int
    } else if v < -(u64::MAX as int) {
        -(u64::MAX as int)
    } else {
        v
    }
}

/// Magnitude of an integer.
pub open spec fn mag_v(v: int) -> int {
    if v < 0 {
        -v
    } else {
        v
    }
}

/// Product of two scaled values, truncated toward zero, before clamping.
pub open spec fn mul_raw(a: int, b: int) -> int {
    let m = (mag_v(a) * mag_v(b)) / (SCALE as int);
    if (a < 0) != (b < 0) {
        -m
    } else {
        m
    }
}

/// Quotient of two scaled values, truncated toward zero, before clamping.
/// Meaningful only for `b != 0`.
pub open spec fn div_raw(a: int, b: int) -> int {
    let m = (mag_v(a) * (SCALE as int)) / mag_v(b);
    if (a < 0) != (b < 0) {
        -m
    } else {
        m
    }
}

/// `r` is the integer square root of the scaled value `v`, i.e. the unique
/// nonnegative root of `r * r <= v * SCALE < (r + 1) * (r + 1)`.
pub open spec fn is_root(v: int, r: int) -> bool {
    0 <= r && r * r <= v * (SCALE as int) && v * (SCALE as int) < (r + 1) * (r + 1)
}

/// The fixed-point square root of a nonnegative scaled value.
pub open spec fn sqrt_v(v: int) -> int {
    choose|r: int| is_root(v, r)
}

impl Fx {
    /// The value as a scaled integer (units of one millionth).  Meaningful
    /// when the value is finite.
    pub open spec fn v(self) -> int {
        if self.neg {
            -(self.mag as int)
        } else {
            self.mag as int
        }
    }

    pub open spec fn is_fin(self) -> bool {
        self.fin
    }

    /// The single non-finite value.
    pub open spec fn spec_nf() -> Fx {
        Fx { fin: false, neg: false, mag: 0 }
    }

    /// The finite value with scaled integer value `v`, clamped into range,
    /// in canonical form (no negative zero).
    pub open spec fn of(v: int) -> Fx {
        let c = clamp_v(v);
        Fx { fin: true, neg: c < 0, mag: mag_v(c) as u64 }
    }

    /// The non-finite value.
    pub fn nf() -> (r: Fx)
        ensures
            r == Fx::spec_nf(),
    {
        Fx { fin: false, neg: false, mag: 0 }
    }

    /// A finite value given directly in millionths.
    pub fn from_units(neg: bool, mag: u64) -> (r: Fx)
        ensures
            r == Fx::of(if neg { -(mag as int) } else { mag as int }),
    {
        Fx { fin: true, neg: neg && mag > 0, mag }
    }

    /// A finite whole-valued scalar.
    pub fn from_int(neg: bool, units: u32) -> (r: Fx)
        ensures
            r == Fx::of(
                if neg {
                    -(units as int) * (SCALE as int)
                } else {
                    (units as int) * (SCALE as int)
                },
            ),
    {
        let mag: u64 = (units as u64) * SCALE;
        Fx { fin: true, neg: neg && mag > 0, mag }
    }

    pub fn is_finite(self) -> (r: bool)
        ensures
            r == self.fin,
    {
        self.fin
    }

    pub fn is_zero(self) -> (r: bool)
        ensures
            r == (self.v() == 0),
    {
        self.mag == 0
    }

    /// Saturating addition; non-finite inputs propagate.
    pub fn add(self, rhs: Fx) -> (r: Fx)
        ensures
            r == s_add(self, rhs),
    {
        if !self.fin || !rhs.fin {
            Fx::nf()
        } else if self.neg == rhs.neg {
            let m: u128 = (self.mag as u128) + (rhs.mag as u128);
            let mm: u64 = if m > u64::MAX as u128 {
                u64::MAX
            } else {
                m as u64
            };
            Fx { fin: true, neg: self.neg && mm > 0, mag: mm }
        } else {
            if self.mag >= rhs.mag {
                let d: u64 = self.mag - rhs.mag;
                Fx { fin: true, neg: self.neg && d > 0, mag: d }
            } else {
                let d: u64 = rhs.mag - self.mag;
                Fx { fin: true, neg: rhs.neg && d > 0, mag: d }
            }
        }
    }

    /// Negation; non-finite inputs propagate.
    pub fn negate(self) -> (r: Fx)
        ensures
            r == s_neg(self),
    {
        if !self.fin {
            Fx::nf()
        } else {
            Fx { fin: true, neg: !self.neg && self.mag > 0, mag: self.mag }
        }
    }

    /// Saturating subtraction; non-finite inputs propagate.
    pub fn sub(self, rhs: Fx) -> (r: Fx)
        ensures
            r == s_sub(self, rhs),
    {
        self.add(rhs.negate())
    }

    /// Saturating multiplication, truncated toward zero.
    pub fn mul(self, rhs: Fx) -> (r: Fx)
        ensures
            r == s_mul(self, rhs),
    {
        if !self.fin || !rhs.fin {
            Fx::nf()
        } else {
            proof {
                assert((self.mag as int) * (rhs.mag as int) <= (u64::MAX as int) * (
                u64::MAX as int)) by (nonlinear_arith)
                    requires
                        self.mag <= u64::MAX,
                        rhs.mag <= u64::MAX,
                ;
            }
            let p: u128 = (self.mag as u128) * (rhs.mag as u128);
            let q: u128 = p / (SCALE as u128);
            let mm: u64 = if q > u64::MAX as u128 {
                u64::MAX
            } else {
                q as u64
            };
            proof {
                if mm > 0 {
                    assert(p >= SCALE as u128);
                    assert(self.mag > 0 && rhs.mag > 0) by (nonlinear_arith)
                        requires
                            (self.mag as int) * (rhs.mag as int) >= SCALE as int,
                    ;
                }
            }
            Fx { fin: true, neg: (self.neg != rhs.neg) && mm > 0, mag: mm }
        }
    }

    /// Saturating division, truncated toward zero; a zero divisor or a
    /// non-finite input yields the non-finite value.
    pub fn div(self, rhs: Fx) -> (r: Fx)
        ensures
            r == s_div(self, rhs),
    {
        if !self.fin || !rhs.fin || rhs.mag == 0 {
            Fx::nf()
        } else {
            proof {
                assert((self.mag as int) * (SCALE as int) <= (u64::MAX as int) * (
                SCALE as int)) by (nonlinear_arith)
                    requires
                        self.mag <= u64::MAX,
                ;
            }
            let p: u128 = (self.mag as u128) * (SCALE as u128);
            let q: u128 = p / (rhs.mag as u128);
            let mm: u64 = if q > u64::MAX as u128 {
                u64::MAX
            } else {
                q as u64
            };
            Fx { fin: true, neg: (self.neg != rhs.neg) && mm > 0, mag: mm }
        }
    }

    /// Absolute value; non-finite inputs propagate.
    pub fn abs(self) -> (r: Fx)
        ensures
            r == s_abs(self),
    {
        if !self.fin {
            Fx::nf()
        } else {
            Fx { fin: true, neg: false, mag: self.mag }
        }
    }

    /// Strict comparison by value.  (The non-finite value compares like
    /// zero; callers that care test finiteness first.)
    pub fn lt(self, rhs: Fx) -> (r: bool)
        ensures
            r == (self.v() < rhs.v()),
    {
        if !self.neg && !rhs.neg {
            self.mag < rhs.mag
        } else if self.neg && rhs.neg {
            rhs.mag < self.mag
        } else if self.neg {
            self.mag > 0 || rhs.mag > 0
        } else {
            false
        }
    }

    /// Non-strict comparison by value.
    pub fn le(self, rhs: Fx) -> (r: bool)
        ensures
            r == (self.v() <= rhs.v()),
    {
        !rhs.lt(self)
    }

    /// Clamp into the closed interval `[lo, hi]`.
    pub fn clamp_to(self, lo: Fx, hi: Fx) -> (r: Fx)
        ensures
            r == s_clamp(self, lo, hi),
    {
        if self.lt(lo) {
            lo
        } else if hi.lt(self) {
            hi
        } else {
            self
        }
    }

    /// Truncate toward zero to a whole number of units.
    pub fn trunc(self) -> (r: Fx)
        ensures
            r == s_trunc(self),
    {
        if !self.fin {
            Fx::nf()
        } else {
            let m: u64 = self.mag - self.mag % SCALE;
            Fx { fin: true, neg: self.neg && m > 0, mag: m }
        }
    }

    /// Fixed-point square root.  A negative or non-finite input yields the
    /// non-finite value.
    pub fn sqrt(self) -> (r: Fx)
        ensures
            r == s_sqrt(self),
    {
        if !self.fin || (self.neg && self.mag > 0) {
            Fx::nf()
        } else {
            proof {
                assert((self.mag as int) * (SCALE as int) <= (u64::MAX as int) * (
                SCALE as int)) by (nonlinear_arith)
                    requires
                        self.mag <= u64::MAX,
                ;
            }
            let s: u128 = (self.mag as u128) * (SCALE as u128);
            let mut lo: u64 = 0;
            let mut hi: u64 = 0x800_0000_0000u64;
            proof {
                assert((hi as int) * (hi as int) > s as int) by (nonlinear_arith)
                    requires
                        hi == 0x800_0000_0000u64,
                        s as int <= (u64::MAX as int) * (SCALE as int),
                ;
            }
            while lo + 1 < hi
                invariant
                    lo < hi,
                    hi <= 0x800_0000_0000u64,
                    (lo as int) * (lo as int) <= s as int,
                    (s as int) < (hi as int) * (hi as int),
                decreases hi - lo,
            {
                let mid: u64 = lo + (hi - lo) / 2;
                proof {
                    assert((mid as int) * (mid as int) <= 0x800_0000_0000 * 0x800_0000_0000)
                        by (nonlinear_arith)
                        requires
                            mid <= 0x800_0000_0000u64,
                    ;
                }
                let sq: u128 = (mid as u128) * (mid as u128);
                if sq <= s {
                    lo = mid;
                } else {
                    hi = mid;
                }
            }
            proof {
                assert(hi == lo + 1);
                assert(is_root(self.v(), lo as int));
                lemma_root_unique(self.v(), lo as int, sqrt_v(self.v()));
            }
            Fx { fin: true, neg: false, mag: lo }
        }
    }
}

/// Spec twin of `Fx::add`.
pub open spec fn s_add(a: Fx, b: Fx) -> Fx {
    if a.fin && b.fin {
        Fx::of(a.v() + b.v())
    } else {
        Fx::spec_nf()
    }
}

/// Spec twin of `Fx::negate`.
pub open spec fn s_neg(a: Fx) -> Fx {
    if a.fin {
        Fx::of(-a.v())
    } else {
        Fx::spec_nf()
    }
}

/// Spec twin of `Fx::sub`.
pub open spec fn s_sub(a: Fx, b: Fx) -> Fx {
    s_add(a, s_neg(b))
}

/// Spec twin of `Fx::mul`.
pub open spec fn s_mul(a: Fx, b: Fx) -> Fx {
    if a.fin && b.fin {
        Fx::of(mul_raw(a.v(), b.v()))
    } else {
        Fx::spec_nf()
    }
}

/// Spec twin of `Fx::div`.
pub open spec fn s_div(a: Fx, b: Fx) -> Fx {
    if a.fin && b.fin && b.v() != 0 {
        Fx::of(div_raw(a.v(), b.v()))
    } else {
        Fx::spec_nf()
    }
}

/// Spec twin of `Fx::abs`.
pub open spec fn s_abs(a: Fx) -> Fx {
    if a.fin {
        Fx::of(mag_v(a.v()))
    } else {
        Fx::spec_nf()
    }
}

/// Spec twin of `Fx::clamp_to`.
pub open spec fn s_clamp(x: Fx, lo: Fx, hi: Fx) -> Fx {
    if x.v() < lo.v() {
        lo
    } else if hi.v() < x.v() {
        hi
    } else {
        x
    }
}

/// Spec twin of `Fx::trunc`.
pub open spec fn s_trunc(a: Fx) -> Fx {
    if a.fin {
        Fx::of(
            if a.v() < 0 {
                -((mag_v(a.v()) / (SCALE as int)) * (SCALE as int))
            } else {
                (mag_v(a.v()) / (SCALE as int)) * (SCALE as int)
            },
        )
    } else {
        Fx::spec_nf()
    }
}

/// Spec twin of `Fx::sqrt`.
pub open spec fn s_sqrt(a: Fx) -> Fx {
    if a.fin && a.v() >= 0 {
        Fx::of(sqrt_v(a.v()))
    } else {
        Fx::spec_nf()
    }
}

/// The integer square root of a scaled value is unique.
pub proof fn lemma_root_unique(v: int, r1: int, r2: int)
    requires
        is_root(v, r1),
        is_root(v, r2),
    ensures
        r1 == r2,
{
    if r1 < r2 {
        assert((r1 + 1) * (r1 + 1) <= r2 * r2) by (nonlinear_arith)
            requires
                0 <= r1,
                r1 + 1 <= r2,
        ;
    } else if r2 < r1 {
        assert((r2 + 1) * (r2 + 1) <= r1 * r1) by (nonlinear_arith)
            requires
                0 <= r2,
                r2 + 1 <= r1,
        ;
    }
}

} // verus!
