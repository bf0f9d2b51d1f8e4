use odeplot::expr::parse;
use odeplot::fixed::Fx;
use odeplot::ode::evaluator::compile;
use odeplot::ode::integrator::IntegratorConfig;
use odeplot::ode::schemes::EmbeddedMethod;
use odeplot::ode::schemes::OdeSolver;
use odeplot::ode::settings::CoordinateFrame;
use odeplot::ode::settings::OdeInputs;
use odeplot::ode::settings::OdeSettings;
use odeplot::ode::settings::SymbolTable;
use odeplot::ode::solver::SolveError;
use odeplot::ode::solver::solve;
use odeplot::ode::solver::solve_ode;
use odeplot::ode::solver::solve_request;

fn settings_with(text: &[u8], frame: CoordinateFrame) -> OdeSettings {
    let mut inputs = OdeInputs {
        inputs: vec![text.to_vec()],
        parsed_expressions: Err("pending".to_string()),
    };
    inputs.parse_expressions();
    OdeSettings {
        integration_length: Fx::from_int(false, 10),
        ode_solver: OdeSolver::Embedded(EmbeddedMethod::RKF45),
        ics: vec![Fx::from_int(false, 1), Fx::from_int(false, 1)],
        coordinate: frame,
        dimensions: 1,
        inputs,
        symbols: SymbolTable::standard(),
    }
}

fn evaluator_for(text: &[u8], frame: CoordinateFrame) -> odeplot::ode::evaluator::CompiledEvaluator {
    let parsed = parse(&text.to_vec()).map(|e| vec![e]);
    compile(&parsed, frame).expect("compiles")
}

#[test]
fn empty_span_yields_single_initial_point() {
    // t_span = (0, 0): exactly one point, equal to the initial condition.
    let ev = evaluator_for(b"x^2 - 7*y - 10", CoordinateFrame::Cartesian);
    let cfg = IntegratorConfig::recommended();
    let zero = Fx::from_int(false, 0);
    let ics = vec![Fx::from_int(false, 1)];
    let traj = solve(&ev, &cfg, (zero, zero), Fx::from_units(false, 1000), &ics)
        .expect("solves");
    assert_eq!(traj.ts.len(), 1);
    assert_eq!(traj.ys.len(), 1);
    assert_eq!(traj.ts[0], zero);
    assert_eq!(traj.ys[0], Fx::from_int(false, 1));
    assert!(!traj.truncated);
}

#[test]
fn reversed_span_yields_single_initial_point() {
    let ev = evaluator_for(b"1", CoordinateFrame::Cartesian);
    let cfg = IntegratorConfig::recommended();
    let traj = solve(
        &ev,
        &cfg,
        (Fx::from_int(false, 5), Fx::from_int(false, 2)),
        Fx::from_units(false, 1000),
        &vec![Fx::from_int(false, 1)],
    )
    .expect("solves");
    assert_eq!(traj.ts.len(), 1);
    assert!(!traj.truncated);
}

#[test]
fn zero_iteration_budget_truncates_to_initial_point() {
    // max_iterations = 0 over a nonzero span: only the initial point, no
    // error, marked truncated.
    let ev = evaluator_for(b"1", CoordinateFrame::Cartesian);
    let cfg = IntegratorConfig { max_iterations: 0, ..IntegratorConfig::recommended() };
    let traj = solve(
        &ev,
        &cfg,
        (Fx::from_int(false, 0), Fx::from_int(false, 1)),
        Fx::from_units(false, 1000),
        &vec![Fx::from_int(false, 1)],
    )
    .expect("solves");
    assert_eq!(traj.ts.len(), 1);
    assert_eq!(traj.ys.len(), 1);
    assert_eq!(traj.ts[0], Fx::from_int(false, 0));
    assert!(traj.truncated);
}

#[test]
fn monotone_abscissas_and_span_reached() {
    // dy/dx = 1 over [0, 0.1]: strictly increasing t, ending at or past
    // the right end within one largest step.
    let ev = evaluator_for(b"1", CoordinateFrame::Cartesian);
    let cfg = IntegratorConfig::recommended();
    let t1 = Fx::from_units(false, 100_000);
    let traj = solve(
        &ev,
        &cfg,
        (Fx::from_int(false, 0), t1),
        Fx::from_units(false, 1000),
        &vec![Fx::from_int(false, 1)],
    )
    .expect("solves");
    assert!(traj.ts.len() >= 2);
    assert!(!traj.truncated);
    for i in 0..traj.ts.len() - 1 {
        assert!(traj.ts[i].lt(traj.ts[i + 1]));
    }
    let last = traj.ts[traj.ts.len() - 1];
    assert!(t1.le(last));
    assert!(last.mag <= 110_000);
    // y follows t + 1 closely.
    let ylast = traj.ys[traj.ys.len() - 1];
    assert!(ylast.fin && !ylast.neg);
    let expect = 1_000_000 + last.mag;
    assert!(ylast.mag.abs_diff(expect) < 200);
}

#[test]
fn scenario_cartesian_solve_succeeds() {
    // Expression "x^2 - 7*y - 10", Cartesian, ics [1.0, 1.0], length 10:
    // the first point is (1.0, [1.0]) and the run spans [1, 11] unless the
    // iteration cap truncates it.
    let settings = settings_with(b"x^2 - 7*y - 10", CoordinateFrame::Cartesian);
    let cfg = IntegratorConfig::recommended();
    let traj = solve_request(&settings, &cfg).expect("solves");
    assert_eq!(traj.ts[0], Fx::from_int(false, 1));
    assert_eq!(traj.ys[0], Fx::from_int(false, 1));
    for i in 0..traj.ts.len() - 1 {
        assert!(traj.ts[i].lt(traj.ts[i + 1]));
    }
    let last = traj.ts[traj.ts.len() - 1];
    assert!(traj.truncated || Fx::from_int(false, 11).le(last));
}

#[test]
fn scenario_unknown_symbol_fails_to_build() {
    // Expression "z + 1" in the Cartesian frame: a typed compile failure,
    // never a silently zero-filled evaluator.
    let settings = settings_with(b"z + 1", CoordinateFrame::Cartesian);
    let cfg = IntegratorConfig::recommended();
    let r = solve_request(&settings, &cfg);
    assert!(matches!(r, Err(SolveError::BuildFailed(_))));
}

#[test]
fn scenario_two_dimensions_unimplemented() {
    // dimensions = 2: the solve refuses before doing any work.
    let mut settings = settings_with(b"x^2 - 7*y - 10", CoordinateFrame::Cartesian);
    settings.dimensions = 2;
    let cfg = IntegratorConfig::recommended();
    let r = solve_request(&settings, &cfg);
    assert!(matches!(r, Err(SolveError::UnimplementedSystem)));
}

#[test]
fn parse_failure_propagates() {
    let settings = settings_with(b"x + ", CoordinateFrame::Cartesian);
    let cfg = IntegratorConfig::recommended();
    let r = solve_request(&settings, &cfg);
    assert!(matches!(r, Err(SolveError::ParseFailed(_))));
}

#[test]
fn dimension_mismatch_is_typed_error() {
    let settings = settings_with(b"x", CoordinateFrame::Cartesian);
    let cfg = IntegratorConfig::recommended();
    let two = vec![Fx::from_int(false, 1), Fx::from_int(false, 2)];
    let r = solve_ode(
        &settings,
        &cfg,
        (Fx::from_int(false, 0), Fx::from_int(false, 1)),
        Fx::from_units(false, 1000),
        &two,
    );
    assert!(matches!(r, Err(SolveError::DimensionError)));
}

#[test]
fn polar_request_transforms_initial_point() {
    // In the polar frame the abscissa is the radius and the state is the
    // angle: (1, 1) becomes (sqrt 2, pi/4), both exact in fixed point.
    let settings = settings_with(b"0", CoordinateFrame::Polar);
    let cfg = IntegratorConfig::recommended();
    let traj = solve_request(&settings, &cfg).expect("solves");
    assert_eq!(traj.ts[0].mag, 1_414_213);
    assert_eq!(traj.ys[0].mag, 785_398);
}

#[test]
fn non_finite_derivative_truncates_instead_of_poisoning() {
    // dy/dx = 1/x from x = 0: the derivative is non-finite at the start,
    // every attempt is rejected, and the run truncates to the initial
    // point with no error and no non-finite sample.
    let ev = evaluator_for(b"1/x", CoordinateFrame::Cartesian);
    let cfg = IntegratorConfig { max_iterations: 50, ..IntegratorConfig::recommended() };
    let traj = solve(
        &ev,
        &cfg,
        (Fx::from_int(false, 0), Fx::from_int(false, 1)),
        Fx::from_units(false, 1000),
        &vec![Fx::from_int(false, 1)],
    )
    .expect("solves");
    assert!(traj.truncated);
    assert_eq!(traj.ts.len(), 1);
    for t in &traj.ts {
        assert!(t.fin);
    }
    for y in &traj.ys {
        assert!(y.fin);
    }
}

#[test]
fn default_settings_solve() {
    let settings = OdeSettings::default();
    assert_eq!(settings.dimensions, 1);
    assert_eq!(settings.coordinate, CoordinateFrame::Cartesian);
    assert_eq!(settings.integration_length, Fx::from_int(false, 10));
    assert!(settings.inputs.parsed_expressions.is_ok());
    let cfg = IntegratorConfig::recommended();
    let traj = solve_request(&settings, &cfg).expect("solves");
    assert_eq!(traj.ts[0], Fx::from_int(false, 1));
    assert_eq!(traj.ys[0], Fx::from_int(false, 1));
}

#[test]
fn recommended_config_values() {
    let cfg = IntegratorConfig::recommended();
    assert_eq!(cfg.relative_tolerance.mag, 100);
    assert_eq!(cfg.safety_factor.mag, 900_000);
    assert_eq!(cfg.min_step.mag, 1);
    assert_eq!(cfg.max_step.mag, 10_000);
    assert_eq!(cfg.max_iterations, 1000);
}
