//! The embedded adaptive integrator (Runge-Kutta-Fehlberg 4/5).
//!
//! One step attempt has two phases: propose (compute a 4th- and a 5th-order
//! estimate from the current point and a tentative step size) and
//! accept/reject (compare the estimated local error against the tolerance).
//! An accepted step advances the state and proposes the next step size,
//! scaled by `safety * (tolerance / error) ^ (1/4)` and clamped into
//! `[min_step, max_step]`; a rejected step shrinks the size and retries
//! without advancing.  A non-finite derivative makes the error estimate
//! non-finite, which counts as a rejection with a halved step, so the step
//! size itself never becomes non-finite.  When no attempt is accepted
//! within the iteration budget the step reports `ReachedMaxStepIter`.

use vstd::prelude::*;

use crate::fixed::Fx;
use crate::fixed::SCALE;
use crate::fixed::s_abs;
use crate::fixed::s_add;
use crate::fixed::s_clamp;
use crate::fixed::s_div;
use crate::fixed::s_mul;
use crate::fixed::s_sqrt;
use crate::fixed::s_sub;
use crate::ode::evaluator::CompiledEvaluator;
use crate::ode::evaluator::LExpr;
use crate::ode::evaluator::rhs1;

verus! {

/// The tuning of one integration run; immutable for its lifetime.
#[derive(Debug, Clone, Copy, PartialEq, Eq, Structural)]
pub struct IntegratorConfig {
    pub relative_tolerance: Fx,
    pub safety_factor: Fx,
    pub min_step: Fx,
    pub max_step: Fx,
    pub max_iterations: u32,
}

impl IntegratorConfig {
    /// A usable configuration: finite nonnegative tolerance and safety
    /// factor, and a positive step window.
    pub open spec fn wf(self) -> bool {
        self.relative_tolerance.fin && self.relative_tolerance.v() >= 0
            && self.safety_factor.fin && self.safety_factor.v() >= 0 && self.min_step.fin
            && self.max_step.fin && 0 < self.min_step.v() && self.min_step.v()
            <= self.max_step.v()
    }

    /// The stock tuning: tolerance `1e-4`, safety factor `0.9`, step window
    /// `[1e-6, 1e-2]`, at most `1000` attempts per step.
    pub fn recommended() -> (r: IntegratorConfig)
        ensures
            r.relative_tolerance == Fx::of(100),
            r.safety_factor == Fx::of(900000),
            r.min_step == Fx::of(1),
            r.max_step == Fx::of(10000),
            r.max_iterations == 1000u32,
            r.wf(),
    {
        IntegratorConfig {
            relative_tolerance: Fx::from_units(false, 100),
            safety_factor: Fx::from_units(false, 900000),
            min_step: Fx::from_units(false, 1),
            max_step: Fx::from_units(false, 10000),
            max_iterations: 1000,
        }
    }
}

/// The outcome of one attempt: accept the proposed state with a next step
/// size, or reject and retry with a smaller one.
#[derive(Debug, Clone, Copy, PartialEq, Eq, Structural)]
pub enum Attempt {
    Accept { y_next: Fx, dt_next: Fx },
    Reject { dt_next: Fx },
}

/// The outcome of one adaptive step: the accepted state together with the
/// step size that produced it and the proposal for the next step, or the
/// exhaustion of the iteration budget.
#[derive(Debug, Clone, Copy, PartialEq, Eq, Structural)]
pub enum StepOutcome {
    Accepted { y_next: Fx, dt_used: Fx, dt_next: Fx },
    ReachedMaxStepIter,
}

/// The signed fraction `p / q` as a fixed-point value.
pub open spec fn s_frac(pn: bool, p: u32, q: u32) -> Fx {
    let a = if pn {
        Fx::of(-(p as int) * (SCALE as int))
    } else {
        Fx::of((p as int) * (SCALE as int))
    };
    s_div(a, Fx::of((q as int) * (SCALE as int)))
}

/// The signed fraction `p / q` as a fixed-point value.
fn frac(pn: bool, p: u32, q: u32) -> (r: Fx)
    ensures
        r == s_frac(pn, p, q),
{
    Fx::from_int(pn, p).div(Fx::from_int(false, q))
}

/// Fused accumulate: `acc + c * k`.
pub open spec fn s_axpy(acc: Fx, c: Fx, k: Fx) -> Fx {
    s_add(acc, s_mul(c, k))
}

/// Fused accumulate: `acc + c * k`.
fn axpy(acc: Fx, c: Fx, k: Fx) -> (r: Fx)
    ensures
        r == s_axpy(acc, c, k),
{
    acc.add(c.mul(k))
}

/// Fourth root: two square roots.
pub open spec fn s_frt(x: Fx) -> Fx {
    s_sqrt(s_sqrt(x))
}

/// Fourth root: two square roots.
fn frt(x: Fx) -> (r: Fx)
    ensures
        r == s_frt(x),
{
    x.sqrt().sqrt()
}

/// The controller's proposal for the next step size after a step with
/// error estimate `err`: `safety * dt * (tolerance / err) ^ (1/4)`, clamped
/// into the step window.  A zero error proposes the largest step.
pub open spec fn next_dt(cfg: IntegratorConfig, dt: Fx, err: Fx) -> Fx {
    if err.v() == 0 {
        cfg.max_step
    } else {
        s_clamp(
            s_mul(cfg.safety_factor, s_mul(dt, s_frt(s_div(cfg.relative_tolerance, err)))),
            cfg.min_step,
            cfg.max_step,
        )
    }
}

/// One propose/accept-or-reject attempt of the embedded scheme at `(t, y)`
/// with tentative step `dt`, for a one-dimensional system.
pub open spec fn attempt_spec(
    exprs: Seq<LExpr>,
    cfg: IntegratorConfig,
    t: Fx,
    y: Fx,
    dt: Fx,
) -> Attempt {
    let k1 = rhs1(exprs, t, y);
    let w2 = s_mul(s_frac(false, 1, 4), k1);
    let k2 = rhs1(exprs, s_add(t, s_mul(s_frac(false, 1, 4), dt)), s_add(y, s_mul(dt, w2)));
    let w3 = s_axpy(s_mul(s_frac(false, 3, 32), k1), s_frac(false, 9, 32), k2);
    let k3 = rhs1(exprs, s_add(t, s_mul(s_frac(false, 3, 8), dt)), s_add(y, s_mul(dt, w3)));
    let w4 = s_axpy(
        s_axpy(s_mul(s_frac(false, 1932, 2197), k1), s_frac(true, 7200, 2197), k2),
        s_frac(false, 7296, 2197),
        k3,
    );
    let k4 = rhs1(exprs, s_add(t, s_mul(s_frac(false, 12, 13), dt)), s_add(y, s_mul(dt, w4)));
    let w5 = s_axpy(
        s_axpy(
            s_axpy(s_mul(s_frac(false, 439, 216), k1), s_frac(true, 8, 1), k2),
            s_frac(false, 3680, 513),
            k3,
        ),
        s_frac(true, 845, 4104),
        k4,
    );
    let k5 = rhs1(exprs, s_add(t, dt), s_add(y, s_mul(dt, w5)));
    let w6 = s_axpy(
        s_axpy(
            s_axpy(
                s_axpy(s_mul(s_frac(true, 8, 27), k1), s_frac(false, 2, 1), k2),
                s_frac(true, 3544, 2565),
                k3,
            ),
            s_frac(false, 1859, 4104),
            k4,
        ),
        s_frac(true, 11, 40),
        k5,
    );
    let k6 = rhs1(exprs, s_add(t, s_mul(s_frac(false, 1, 2), dt)), s_add(y, s_mul(dt, w6)));
    let c4 = s_axpy(
        s_axpy(
            s_axpy(s_mul(s_frac(false, 25, 216), k1), s_frac(false, 1408, 2565), k3),
            s_frac(false, 2197, 4104),
            k4,
        ),
        s_frac(true, 1, 5),
        k5,
    );
    let y4 = s_add(y, s_mul(dt, c4));
    let c5 = s_axpy(
        s_axpy(
            s_axpy(
                s_axpy(s_mul(s_frac(false, 16, 135), k1), s_frac(false, 6656, 12825), k3),
                s_frac(false, 28561, 56430),
                k4,
            ),
            s_frac(true, 9, 50),
            k5,
        ),
        s_frac(false, 2, 55),
        k6,
    );
    let y5 = s_add(y, s_mul(dt, c5));
    let err = s_abs(s_sub(y5, y4));
    if err.fin && err.v() <= cfg.relative_tolerance.v() {
        Attempt::Accept { y_next: y4, dt_next: next_dt(cfg, dt, err) }
    } else if err.fin {
        Attempt::Reject { dt_next: next_dt(cfg, dt, err) }
    } else {
        Attempt::Reject {
            dt_next: s_clamp(s_div(dt, Fx::of(2 * SCALE)), cfg.min_step, cfg.max_step),
        }
    }
}

/// One attempt, executably.
fn attempt(ev: &CompiledEvaluator, cfg: &IntegratorConfig, t: Fx, y: Fx, dt: Fx) -> (r: Attempt)
    requires
        ev.exprs@.len() == 1,
    ensures
        r == attempt_spec(ev.exprs@, *cfg, t, y, dt),
        cfg.wf() ==> match r {
            Attempt::Accept { y_next, dt_next } => y_next.fin && dt_next.fin
                && cfg.min_step.v() <= dt_next.v() <= cfg.max_step.v(),
            Attempt::Reject { dt_next } => dt_next.fin && cfg.min_step.v() <= dt_next.v()
                <= cfg.max_step.v(),
        },
{
    let k1 = ev.eval_rhs1(t, y);
    let w2 = frac(false, 1, 4).mul(k1);
    let k2 = ev.eval_rhs1(t.add(frac(false, 1, 4).mul(dt)), y.add(dt.mul(w2)));
    let w3 = axpy(frac(false, 3, 32).mul(k1), frac(false, 9, 32), k2);
    let k3 = ev.eval_rhs1(t.add(frac(false, 3, 8).mul(dt)), y.add(dt.mul(w3)));
    let w4 = axpy(
        axpy(frac(false, 1932, 2197).mul(k1), frac(true, 7200, 2197), k2),
        frac(false, 7296, 2197),
        k3,
    );
    let k4 = ev.eval_rhs1(t.add(frac(false, 12, 13).mul(dt)), y.add(dt.mul(w4)));
    let w5 = axpy(
        axpy(
            axpy(frac(false, 439, 216).mul(k1), frac(true, 8, 1), k2),
            frac(false, 3680, 513),
            k3,
        ),
        frac(true, 845, 4104),
        k4,
    );
    let k5 = ev.eval_rhs1(t.add(dt), y.add(dt.mul(w5)));
    let w6 = axpy(
        axpy(
            axpy(
                axpy(frac(true, 8, 27).mul(k1), frac(false, 2, 1), k2),
                frac(true, 3544, 2565),
                k3,
            ),
            frac(false, 1859, 4104),
            k4,
        ),
        frac(true, 11, 40),
        k5,
    );
    let k6 = ev.eval_rhs1(t.add(frac(false, 1, 2).mul(dt)), y.add(dt.mul(w6)));
    let c4 = axpy(
        axpy(
            axpy(frac(false, 25, 216).mul(k1), frac(false, 1408, 2565), k3),
            frac(false, 2197, 4104),
            k4,
        ),
        frac(true, 1, 5),
        k5,
    );
    let y4 = y.add(dt.mul(c4));
    let c5 = axpy(
        axpy(
            axpy(
                axpy(frac(false, 16, 135).mul(k1), frac(false, 6656, 12825), k3),
                frac(false, 28561, 56430),
                k4,
            ),
            frac(true, 9, 50),
            k5,
        ),
        frac(false, 2, 55),
        k6,
    );
    let y5 = y.add(dt.mul(c5));
    let err = y5.sub(y4).abs();
    if err.is_finite() && err.le(cfg.relative_tolerance) {
        let dtn = if err.is_zero() {
            cfg.max_step
        } else {
            cfg.safety_factor.mul(dt.mul(frt(cfg.relative_tolerance.div(err)))).clamp_to(
                cfg.min_step,
                cfg.max_step,
            )
        };
        Attempt::Accept { y_next: y4, dt_next: dtn }
    } else if err.is_finite() {
        let dtn = if err.is_zero() {
            cfg.max_step
        } else {
            cfg.safety_factor.mul(dt.mul(frt(cfg.relative_tolerance.div(err)))).clamp_to(
                cfg.min_step,
                cfg.max_step,
            )
        };
        Attempt::Reject { dt_next: dtn }
    } else {
        let dtn = dt.div(Fx::from_int(false, 2)).clamp_to(cfg.min_step, cfg.max_step);
        Attempt::Reject { dt_next: dtn }
    }
}

/// The outcome of one adaptive step starting from tentative size `dt`, with
/// `iters` attempts allowed: the first accepted attempt wins; each
/// rejection retries with the shrunken size.
pub open spec fn step_spec(
    exprs: Seq<LExpr>,
    cfg: IntegratorConfig,
    t: Fx,
    y: Fx,
    dt: Fx,
    iters: nat,
) -> StepOutcome
    decreases iters,
{
    if iters == 0 {
        StepOutcome::ReachedMaxStepIter
    } else {
        match attempt_spec(exprs, cfg, t, y, dt) {
            Attempt::Accept { y_next, dt_next } => StepOutcome::Accepted {
                y_next,
                dt_used: dt,
                dt_next,
            },
            Attempt::Reject { dt_next } => step_spec(exprs, cfg, t, y, dt_next, (iters - 1) as nat),
        }
    }
}

/// Attempt one adaptive step at `(t, y)`, retrying with shrunken sizes up
/// to the configured iteration budget.
pub fn step(ev: &CompiledEvaluator, cfg: &IntegratorConfig, t: Fx, y: Fx, dt0: Fx) -> (r:
    StepOutcome)
    requires
        ev.exprs@.len() == 1,
        cfg.wf(),
        cfg.min_step.v() <= dt0.v() <= cfg.max_step.v(),
        dt0.fin,
    ensures
        r == step_spec(ev.exprs@, *cfg, t, y, dt0, cfg.max_iterations as nat),
        r matches StepOutcome::Accepted { y_next, dt_used, dt_next } ==> y_next.fin
            && dt_used.fin && dt_next.fin && cfg.min_step.v() <= dt_used.v()
            <= cfg.max_step.v() && cfg.min_step.v() <= dt_next.v() <= cfg.max_step.v(),
{
    let mut dt = dt0;
    let mut i: u32 = 0;
    while i < cfg.max_iterations
        invariant
            ev.exprs@.len() == 1,
            cfg.wf(),
            i <= cfg.max_iterations,
            dt.fin,
            cfg.min_step.v() <= dt.v() <= cfg.max_step.v(),
            step_spec(ev.exprs@, *cfg, t, y, dt0, cfg.max_iterations as nat) == step_spec(
                ev.exprs@,
                *cfg,
                t,
                y,
                dt,
                (cfg.max_iterations - i) as nat,
            ),
        decreases cfg.max_iterations - i,
    {
        let a = attempt(ev, cfg, t, y, dt);
        match a {
            Attempt::Accept { y_next, dt_next } => {
                return StepOutcome::Accepted { y_next, dt_used: dt, dt_next };
            },
            Attempt::Reject { dt_next } => {
                dt = dt_next;
                i = i + 1;
            },
        }
    }
    StepOutcome::ReachedMaxStepIter
}

} // verus!
