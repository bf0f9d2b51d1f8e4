//! The step-size-bounded driver: the single place where integration
//! progresses.
//!
//! Starting from the left end of the span, the driver repeatedly asks the
//! embedded integrator for one adaptive step and appends exactly one
//! `(t, y)` pair per accepted step.  Exhausting the per-step iteration
//! budget is not an error: the driver stops and returns what it
//! accumulated, marked truncated.  Only dimension mismatches and
//! evaluator-build failures surface as errors, and a failed solve yields no
//! trajectory at all.

use vstd::prelude::*;

use crate::fixed::Fx;
use crate::fixed::s_add;
use crate::fixed::s_clamp;
use crate::ode::evaluator::CompileError;
use crate::ode::evaluator::CompiledEvaluator;
use crate::ode::evaluator::LExpr;
use crate::ode::evaluator::all_lowerable;
use crate::ode::evaluator::lowered;
use crate::ode::evaluator::compile;
use crate::ode::integrator::IntegratorConfig;
use crate::ode::integrator::StepOutcome;
use crate::ode::integrator::step;
use crate::ode::integrator::step_spec;
use crate::ode::settings::OdeSettings;
use crate::ode::transform::solver_span;
use crate::ode::transform::solver_state0;
use crate::ode::transform::to_solver_frame;

verus! {

/// The error taxonomy of a whole solve attempt.  `ReachedMaxStepIter` is
/// deliberately absent: the driver converts it into a normal truncated
/// success.
#[derive(Debug)]
pub enum SolveError {
    ParseFailed(String),
    BuildFailed(String),
    DimensionError,
    UnimplementedSystem,
}

/// An ordered sequence of `(t, y)` samples produced by one solve, built
/// once and immutable thereafter.  `truncated` records that the iteration
/// budget stopped the run before the span's right end.
#[derive(Debug)]
pub struct Trajectory {
    pub ts: Vec<Fx>,
    pub ys: Vec<Fx>,
    pub truncated: bool,
}

/// The trajectory `(ts, ys)` is exactly a run of the integrator from its
/// first sample under step sizes `dts`: every consecutive pair is one
/// accepted step taken strictly before the right end `t1`, and the run
/// ends either truncated (the budget ran out at the last sample) or past
/// `t1`.
pub open spec fn step_chain(
    exprs: Seq<LExpr>,
    cfg: IntegratorConfig,
    t1: Fx,
    ts: Seq<Fx>,
    ys: Seq<Fx>,
    truncated: bool,
    dts: Seq<Fx>,
) -> bool {
    &&& ts.len() == ys.len()
    &&& dts.len() == ts.len()
    &&& ts.len() >= 1
    &&& forall|i: int|
        0 <= i < ts.len() - 1 ==> (ts[i].v() < t1.v() && (step_spec(
            exprs,
            cfg,
            ts[i],
            ys[i],
            dts[i],
            cfg.max_iterations as nat,
        ) matches StepOutcome::Accepted { y_next, dt_used, dt_next } && ys[i + 1] == y_next
            && ts[i + 1] == s_add(ts[i], dt_used) && dts[i + 1] == dt_next && dt_used.fin
            && cfg.min_step.v() <= dt_used.v() <= cfg.max_step.v()))
    &&& (truncated ==> ts.last().v() < t1.v() && step_spec(
        exprs,
        cfg,
        ts.last(),
        ys.last(),
        dts.last(),
        cfg.max_iterations as nat,
    ) is ReachedMaxStepIter)
    &&& (!truncated ==> ts.last().v() >= t1.v())
}

/// Drive the integrator from `t_span.0` to `t_span.1`.
///
/// The returned trajectory always holds at least the initial point; its
/// abscissas are strictly increasing; an empty or reversed span yields
/// exactly the initial point; a zero iteration budget over a forward span
/// yields exactly the initial point, truncated, with no error; and a
/// non-truncated run ends at or past `t_span.1`, within one largest step.
/// The whole run is pinned down by a `step_chain` witness whose first step
/// size is `initial_step` clamped into the configured window.
pub fn solve(
    ev: &CompiledEvaluator,
    cfg: &IntegratorConfig,
    t_span: (Fx, Fx),
    initial_step: Fx,
    initial_conditions: &Vec<Fx>,
) -> (r: Result<Trajectory, SolveError>)
    requires
        cfg.wf(),
        t_span.0.fin,
        t_span.1.fin,
        initial_step.fin,
        forall|i: int| 0 <= i < initial_conditions@.len() ==> initial_conditions@[i].fin,
    ensures
        (r is Ok) == (initial_conditions@.len() == 1 && ev.exprs@.len() == 1),
        r is Err ==> r->Err_0 is DimensionError,
        r matches Ok(traj) ==> {
            &&& traj.ts@.len() == traj.ys@.len()
            &&& traj.ts@.len() >= 1
            &&& traj.ts@[0] == t_span.0
            &&& traj.ys@[0] == initial_conditions@[0]
            &&& (forall|i: int| 0 <= i < traj.ts@.len() ==> traj.ts@[i].fin && traj.ys@[i].fin)
            &&& (forall|i: int|
                0 <= i < traj.ts@.len() - 1 ==> #[trigger] traj.ts@[i].v() < traj.ts@[i + 1].v())
            &&& (t_span.0.v() >= t_span.1.v() ==> traj.ts@.len() == 1 && !traj.truncated)
            &&& (cfg.max_iterations == 0 && t_span.0.v() < t_span.1.v() ==> traj.truncated
                && traj.ts@.len() == 1)
            &&& (!traj.truncated ==> traj.ts@.last().v() >= t_span.1.v())
            &&& (!traj.truncated && t_span.0.v() < t_span.1.v() ==> traj.ts@.last().v()
                < t_span.1.v() + cfg.max_step.v())
            &&& (exists|dts: Seq<Fx>|
                #[trigger] step_chain(ev.exprs@, *cfg, t_span.1, traj.ts@, traj.ys@, traj.truncated, dts)
                    && dts[0] == s_clamp(initial_step, cfg.min_step, cfg.max_step))
        },
{
    if initial_conditions.len() != 1 || ev.exprs.len() != 1 {
        return Err(SolveError::DimensionError);
    }
    let t1 = t_span.1;
    let mut t = t_span.0;
    let mut y = initial_conditions[0];
    let mut dt = initial_step.clamp_to(cfg.min_step, cfg.max_step);
    let mut ts: Vec<Fx> = Vec::new();
    let mut ys: Vec<Fx> = Vec::new();
    ts.push(t);
    ys.push(y);
    let ghost dts0 = s_clamp(initial_step, cfg.min_step, cfg.max_step);
    let ghost mut dts: Seq<Fx> = seq![dts0];
    let mut truncated = false;
    while t.lt(t1)
        invariant_except_break
            !truncated,
        invariant
            ev.exprs@.len() == 1,
            cfg.wf(),
            t1 == t_span.1,
            t1.fin,
            t.fin,
            y.fin,
            dt.fin,
            cfg.min_step.v() <= dt.v() <= cfg.max_step.v(),
            ts@.len() == ys@.len(),
            ts@.len() >= 1,
            dts.len() == ts@.len(),
            ts@[0] == t_span.0,
            ys@[0] == initial_conditions@[0],
            dts[0] == dts0,
            ts@.last() == t,
            ys@.last() == y,
            dts.last() == dt,
            forall|i: int| 0 <= i < ts@.len() ==> ts@[i].fin && ys@[i].fin,
            forall|i: int| 0 <= i < ts@.len() - 1 ==> #[trigger] ts@[i].v() < ts@[i + 1].v(),
            forall|i: int|
                0 <= i < ts@.len() - 1 ==> (ts@[i].v() < t1.v() && (step_spec(
                    ev.exprs@,
                    *cfg,
                    ts@[i],
                    ys@[i],
                    dts[i],
                    cfg.max_iterations as nat,
                ) matches StepOutcome::Accepted { y_next, dt_used, dt_next } && ys@[i + 1]
                    == y_next && ts@[i + 1] == s_add(ts@[i], dt_used) && dts[i + 1] == dt_next
                    && dt_used.fin && cfg.min_step.v() <= dt_used.v() <= cfg.max_step.v())),
            ts@.len() >= 2 ==> ts@.last().v() < t1.v() + cfg.max_step.v(),
        ensures
            truncated ==> ts@.last().v() < t1.v() && step_spec(
                ev.exprs@,
                *cfg,
                ts@.last(),
                ys@.last(),
                dts.last(),
                cfg.max_iterations as nat,
            ) is ReachedMaxStepIter,
            !truncated ==> ts@.last().v() >= t1.v(),
        decreases (if t1.v() >= t.v() {
            t1.v() - t.v()
        } else {
            0int
        }),
    {
        let out = step(ev, cfg, t, y, dt);
        match out {
            StepOutcome::Accepted { y_next, dt_used, dt_next } => {
                let t_next = t.add(dt_used);
                proof {
                    assert(dt_used.v() >= 1);
                    assert(t.v() < t1.v());
                    assert(t_next.v() > t.v());
                }
                ts.push(t_next);
                ys.push(y_next);
                proof {
                    dts = dts + seq![dt_next];
                }
                t = t_next;
                y = y_next;
                dt = dt_next;
            },
            StepOutcome::ReachedMaxStepIter => {
                truncated = true;
                break ;
            },
        }
    }
    let traj = Trajectory { ts, ys, truncated };
    proof {
        if cfg.max_iterations == 0 && t_span.0.v() < t_span.1.v() {
            if traj.ts@.len() >= 2 {
                assert(step_spec(
                    ev.exprs@,
                    *cfg,
                    traj.ts@[0],
                    traj.ys@[0],
                    dts[0],
                    cfg.max_iterations as nat,
                ) is Accepted);
                assert(false);
            }
        }
        if t_span.0.v() >= t_span.1.v() && traj.ts@.len() >= 2 {
            assert(traj.ts@[0].v() < t_span.1.v());
            assert(false);
        }
        assert(step_chain(ev.exprs@, *cfg, t_span.1, traj.ts@, traj.ys@, traj.truncated, dts)
            && dts[0] == s_clamp(initial_step, cfg.min_step, cfg.max_step));
    }
    Ok(traj)
}

/// Compile the settings' expressions under their frame and drive one solve
/// over the given span.  Compile failures propagate as typed errors; a
/// trajectory is produced only when compilation and the dimension checks
/// succeed.
pub fn solve_ode(
    settings: &OdeSettings,
    cfg: &IntegratorConfig,
    t_span: (Fx, Fx),
    dt: Fx,
    ics: &Vec<Fx>,
) -> (r: Result<Trajectory, SolveError>)
    requires
        cfg.wf(),
        t_span.0.fin,
        t_span.1.fin,
        dt.fin,
        forall|i: int| 0 <= i < ics@.len() ==> ics@[i].fin,
    ensures
        settings.inputs.parsed_expressions is Err ==> r is Err && r->Err_0 is ParseFailed,
        settings.inputs.parsed_expressions matches Ok(es) ==> ((r is Ok) == (all_lowerable(
            es@,
            settings.coordinate,
        ) && ics@.len() == 1 && es@.len() == 1)),
        settings.inputs.parsed_expressions matches Ok(es) ==> (!all_lowerable(
            es@,
            settings.coordinate,
        ) ==> r is Err && r->Err_0 is BuildFailed),
        settings.inputs.parsed_expressions matches Ok(es) ==> (all_lowerable(
            es@,
            settings.coordinate,
        ) && !(ics@.len() == 1 && es@.len() == 1) ==> r is Err && r->Err_0 is DimensionError),
        settings.inputs.parsed_expressions matches Ok(es) ==> (r matches Ok(traj) ==> (exists|
            lex: Seq<LExpr>,
            dts: Seq<Fx>,
        |
            #[trigger] step_chain(lex, *cfg, t_span.1, traj.ts@, traj.ys@, traj.truncated, dts)
                && lex.len() == es@.len() && (forall|k: int|
                0 <= k < es@.len() ==> lowered(es@[k], settings.coordinate, lex[k])) && dts[0]
                == s_clamp(dt, cfg.min_step, cfg.max_step))),
        r matches Ok(traj) ==> {
            &&& traj.ts@.len() == traj.ys@.len()
            &&& traj.ts@.len() >= 1
            &&& traj.ts@[0] == t_span.0
            &&& traj.ys@[0] == ics@[0]
            &&& (forall|i: int| 0 <= i < traj.ts@.len() ==> traj.ts@[i].fin && traj.ys@[i].fin)
            &&& (forall|i: int|
                0 <= i < traj.ts@.len() - 1 ==> #[trigger] traj.ts@[i].v() < traj.ts@[i + 1].v())
            &&& (t_span.0.v() >= t_span.1.v() ==> traj.ts@.len() == 1 && !traj.truncated)
            &&& (cfg.max_iterations == 0 && t_span.0.v() < t_span.1.v() ==> traj.truncated
                && traj.ts@.len() == 1)
            &&& (!traj.truncated ==> traj.ts@.last().v() >= t_span.1.v())
            &&& (!traj.truncated && t_span.0.v() < t_span.1.v() ==> traj.ts@.last().v()
                < t_span.1.v() + cfg.max_step.v())
        },
{
    let ev = match compile(&settings.inputs.parsed_expressions, settings.coordinate) {
        Ok(ev) => ev,
        Err(CompileError::ParseFailed(m)) => {
            return Err(SolveError::ParseFailed(m));
        },
        Err(CompileError::BuildFailed(m)) => {
            return Err(SolveError::BuildFailed(m));
        },
    };
    let r = solve(&ev, cfg, t_span, dt, ics);
    proof {
        if r is Ok {
            let traj = r->Ok_0;
            let dts_w = choose|d: Seq<Fx>|
                #[trigger] step_chain(ev.exprs@, *cfg, t_span.1, traj.ts@, traj.ys@,
                traj.truncated, d) && d[0] == s_clamp(dt, cfg.min_step, cfg.max_step);
            assert(step_chain(ev.exprs@, *cfg, t_span.1, traj.ts@, traj.ys@, traj.truncated,
                dts_w) && dts_w[0] == s_clamp(dt, cfg.min_step, cfg.max_step));
        }
    }
    r
}

/// One whole solve attempt from a settings snapshot: refuse systems of
/// more than one equation, map the initial point and the span into the
/// solver's frame, then compile and integrate.  The previous trajectory,
/// if the caller keeps one, is untouched by a failed attempt: an error
/// yields no trajectory at all.
pub fn solve_request(settings: &OdeSettings, cfg: &IntegratorConfig) -> (r: Result<
    Trajectory,
    SolveError,
>)
    requires
        cfg.wf(),
        settings.ics@.len() == 2,
        settings.ics@[0].fin,
        settings.ics@[1].fin,
        settings.integration_length.fin,
    ensures
        settings.dimensions != 1 ==> r is Err && r->Err_0 is UnimplementedSystem,
        settings.dimensions == 1 ==> (settings.inputs.parsed_expressions is Err ==> r is Err
            && r->Err_0 is ParseFailed),
        settings.dimensions == 1 ==> (settings.inputs.parsed_expressions matches Ok(es) ==> ((r
            is Ok) == (all_lowerable(es@, settings.coordinate) && es@.len() == 1))),
        settings.inputs.parsed_expressions matches Ok(es) ==> (r matches Ok(traj) ==> (exists|
            lex: Seq<LExpr>,
            dts: Seq<Fx>,
        |
            #[trigger] step_chain(
                lex,
                *cfg,
                solver_span(
                    settings.coordinate,
                    settings.ics@[0],
                    settings.ics@[1],
                    settings.integration_length,
                ).1,
                traj.ts@,
                traj.ys@,
                traj.truncated,
                dts,
            ) && lex.len() == es@.len() && (forall|k: int|
                0 <= k < es@.len() ==> lowered(es@[k], settings.coordinate, lex[k])) && dts[0]
                == s_clamp(Fx::of(1000), cfg.min_step, cfg.max_step))),
        r matches Ok(traj) ==> {
            let sp = solver_span(
                settings.coordinate,
                settings.ics@[0],
                settings.ics@[1],
                settings.integration_length,
            );
            &&& traj.ts@.len() == traj.ys@.len()
            &&& traj.ts@.len() >= 1
            &&& traj.ts@[0] == sp.0
            &&& traj.ys@[0] == solver_state0(
                settings.coordinate,
                settings.ics@[0],
                settings.ics@[1],
            )
            &&& (forall|i: int|
                0 <= i < traj.ts@.len() - 1 ==> #[trigger] traj.ts@[i].v() < traj.ts@[i
                    + 1].v())
            &&& (sp.0.v() >= sp.1.v() ==> traj.ts@.len() == 1 && !traj.truncated)
            &&& (!traj.truncated ==> traj.ts@.last().v() >= sp.1.v())
        },
{
    if settings.dimensions != 1 {
        return Err(SolveError::UnimplementedSystem);
    }
    let (span, state) = to_solver_frame(settings.coordinate, &settings.ics, settings.integration_length);
    let r = solve_ode(settings, cfg, span, Fx::from_units(false, 1000), &state);
    proof {
        if r is Ok && settings.inputs.parsed_expressions is Ok {
            let es = settings.inputs.parsed_expressions->Ok_0;
            let traj = r->Ok_0;
            let (lex_w, dts_w) = choose|lex: Seq<LExpr>, dts: Seq<Fx>|
                #[trigger] step_chain(lex, *cfg, span.1, traj.ts@, traj.ys@, traj.truncated, dts)
                    && lex.len() == es@.len() && (forall|k: int|
                    0 <= k < es@.len() ==> lowered(es@[k], settings.coordinate, lex[k]))
                    && dts[0] == s_clamp(Fx::of(1000), cfg.min_step, cfg.max_step);
            assert(step_chain(lex_w, *cfg, span.1, traj.ts@, traj.ys@, traj.truncated, dts_w)
                && lex_w.len() == es@.len() && (forall|k: int|
                0 <= k < es@.len() ==> lowered(es@[k], settings.coordinate, lex_w[k]))
                && dts_w[0] == s_clamp(Fx::of(1000), cfg.min_step, cfg.max_step));
        }
    }
    r
}

} // verus!
