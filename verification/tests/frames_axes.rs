use odeplot::axes_2d::Axes;
use odeplot::axes_2d::AxesBuilder;
use odeplot::axes_2d::Axis;
use odeplot::axes_2d::ScreenRect;
use odeplot::axes_2d::point_to_screen;
use odeplot::axes_2d::screen_to_point;
use odeplot::axes_2d::AxisLimit;
use odeplot::axes_2d::AxisLocation;
use odeplot::axes_2d::XAxisLocation;
use odeplot::axes_2d::YAxisLocation;
use odeplot::fixed::Fx;
use odeplot::ode::parameters::MaxSteps;
use odeplot::ode::parameters::MaxStepSize;
use odeplot::ode::parameters::MinStepSize;
use odeplot::ode::parameters::SafetyFactor;
use odeplot::ode::parameters::Tolerance;
use odeplot::ode::settings::CoordinateFrame;
use odeplot::ode::settings::SymbolTable;
use odeplot::ode::solver::Trajectory;
use odeplot::ode::transform::from_solver_frame;
use odeplot::ode::transform::to_solver_frame;
use odeplot::trig::atan2;
use odeplot::trig::sin_cos;

fn close(a: u64, b: u64, tol: u64) -> bool {
    a.abs_diff(b) <= tol
}

#[test]
fn cartesian_transform_is_identity_with_shifted_span() {
    let ics = vec![Fx::from_int(false, 2), Fx::from_int(false, 3)];
    let ((a, b), state) = to_solver_frame(CoordinateFrame::Cartesian, &ics, Fx::from_int(false, 10));
    assert_eq!(a, Fx::from_int(false, 2));
    assert_eq!(b, Fx::from_int(false, 12));
    assert_eq!(state, vec![Fx::from_int(false, 3)]);
}

#[test]
fn polar_transform_exact_radii() {
    // (3, 4) with length 2: initial radius 5 exactly; the terminal radius
    // reuses the initial ordinate, sqrt(5^2 + 4^2) = sqrt 41.
    let ics = vec![Fx::from_int(false, 3), Fx::from_int(false, 4)];
    let ((r0, rn), state) = to_solver_frame(CoordinateFrame::Polar, &ics, Fx::from_int(false, 2));
    assert_eq!(r0.mag, 5_000_000);
    assert!(!r0.neg && r0.fin);
    assert_eq!(rn.mag, 6_403_124);
    assert_eq!(state.len(), 1);
    // atan2(4, 3) is about 0.927295.
    assert!(close(state[0].mag, 927_295, 1500));
}

#[test]
fn polar_round_trip_reproduces_point() {
    // to_solver_frame then from_solver_frame in the polar frame gives back
    // the initial point, up to the fixed-point approximation of the
    // circular functions; a zero length keeps the span radius-mapped and
    // unchanged.
    let ics = vec![Fx::from_int(false, 1), Fx::from_int(false, 1)];
    let ((r0, rn), state) = to_solver_frame(CoordinateFrame::Polar, &ics, Fx::from_int(false, 0));
    assert_eq!(r0, rn);
    let traj = Trajectory { ts: vec![r0], ys: vec![state[0]], truncated: false };
    let pts = from_solver_frame(CoordinateFrame::Polar, &traj);
    assert_eq!(pts.len(), 1);
    let (x, y) = pts[0];
    assert!(x.fin && y.fin && !x.neg && !y.neg);
    assert!(close(x.mag, 1_000_000, 200));
    assert!(close(y.mag, 1_000_000, 200));
}

#[test]
fn polar_round_trip_three_four() {
    let ics = vec![Fx::from_int(false, 3), Fx::from_int(true, 4)];
    let ((r0, _), state) = to_solver_frame(CoordinateFrame::Polar, &ics, Fx::from_int(false, 0));
    let traj = Trajectory { ts: vec![r0], ys: vec![state[0]], truncated: false };
    let pts = from_solver_frame(CoordinateFrame::Polar, &traj);
    let (x, y) = pts[0];
    assert!(!x.neg && y.neg);
    assert!(close(x.mag, 3_000_000, 6000));
    assert!(close(y.mag, 4_000_000, 6000));
}

#[test]
fn cartesian_display_is_identity() {
    let traj = Trajectory {
        ts: vec![Fx::from_int(false, 1), Fx::from_int(false, 2)],
        ys: vec![Fx::from_int(true, 3), Fx::from_int(false, 4)],
        truncated: false,
    };
    let pts = from_solver_frame(CoordinateFrame::Cartesian, &traj);
    assert_eq!(pts, vec![
        (Fx::from_int(false, 1), Fx::from_int(true, 3)),
        (Fx::from_int(false, 2), Fx::from_int(false, 4)),
    ]);
}

#[test]
fn sin_cos_at_zero_is_exact() {
    let (s, c) = sin_cos(Fx::from_int(false, 0));
    assert_eq!(s.mag, 0);
    assert_eq!(c.mag, 1_000_000);
    assert!(!c.neg);
}

#[test]
fn sin_cos_quarter_turn() {
    let (s, c) = sin_cos(Fx::from_units(false, 1_570_796));
    assert!(close(s.mag, 1_000_000, 10));
    assert!(c.mag <= 50);
}

#[test]
fn sin_cos_half_turn_and_sign() {
    let (s, c) = sin_cos(Fx::from_units(false, 3_141_593));
    assert!(s.mag <= 10);
    assert!(c.neg && close(c.mag, 1_000_000, 10));
    let (sn, cn) = sin_cos(Fx::from_units(true, 1_570_796));
    assert!(sn.neg && close(sn.mag, 1_000_000, 10));
    assert!(cn.mag <= 50);
}

#[test]
fn sin_cos_is_periodic() {
    let th = Fx::from_units(false, 700_000);
    let th2 = th.add(Fx::from_units(false, 6_283_185));
    let (s1, c1) = sin_cos(th);
    let (s2, c2) = sin_cos(th2);
    assert!(close(s1.mag, s2.mag, 5));
    assert!(close(c1.mag, c2.mag, 5));
}

#[test]
fn atan2_axes_are_exact() {
    let one = Fx::from_int(false, 1);
    let zero = Fx::from_int(false, 0);
    assert_eq!(atan2(zero, one).mag, 0);
    assert_eq!(atan2(one, zero).mag, 1_570_796);
    let pi = atan2(zero, one.negate());
    assert!(!pi.neg);
    assert_eq!(pi.mag, 3_141_593);
    let down = atan2(one.negate(), zero);
    assert!(down.neg);
    assert_eq!(down.mag, 1_570_796);
    assert_eq!(atan2(zero, zero).mag, 0);
}

#[test]
fn axes_default_and_builder() {
    let axes = AxesBuilder::new().build();
    assert_eq!(axes, Axes::default());
    assert_eq!(axes.min_x, Fx::from_int(true, 10));
    assert_eq!(axes.x_axis_location, XAxisLocation::Center);
}

#[test]
fn builder_sets_limits_and_locations() {
    let axes = AxesBuilder::new()
        .set_limits(Axis::X, AxisLimit::Min(Fx::from_int(true, 5)))
        .set_limits(Axis::Y, AxisLimit::Max(Fx::from_int(false, 20)))
        .set_axis_location(AxisLocation::X(XAxisLocation::Bottom))
        .set_axis_location(AxisLocation::Y(YAxisLocation::Left))
        .build();
    assert_eq!(axes.min_x, Fx::from_int(true, 5));
    assert_eq!(axes.max_x, Fx::from_int(false, 10));
    assert_eq!(axes.max_y, Fx::from_int(false, 20));
    assert_eq!(axes.min_y, Fx::from_int(true, 10));
    assert_eq!(axes.x_axis_location, XAxisLocation::Bottom);
    assert_eq!(axes.y_axis_location, YAxisLocation::Left);
}

#[test]
fn symbol_table_slots() {
    let t = SymbolTable::standard();
    assert_eq!(t.slot(&b"x".to_vec()), Some(0));
    assert_eq!(t.slot(&b"y".to_vec()), Some(1));
    assert_eq!(t.slot(&b"r".to_vec()), Some(2));
    assert_eq!(t.slot(&b"theta".to_vec()), Some(3));
    assert_eq!(t.slot(&b"z".to_vec()), None);
}

#[test]
fn parameter_newtypes_hold_values() {
    let tol = Tolerance(Fx::from_units(false, 100));
    let sf = SafetyFactor(Fx::from_units(false, 900_000));
    let mx = MaxStepSize(Fx::from_units(false, 10_000));
    let mn = MinStepSize(Fx::from_units(false, 1));
    let ms = MaxSteps(1000);
    assert_eq!(tol.0.mag, 100);
    assert_eq!(sf.0.mag, 900_000);
    assert_eq!(mx.0.mag, 10_000);
    assert_eq!(mn.0.mag, 1);
    assert_eq!(ms.0, 1000);
}

#[test]
fn point_to_screen_maps_affinely() {
    let axes = Axes::default();
    let win = ScreenRect {
        left: Fx::from_int(true, 400),
        right: Fx::from_int(false, 400),
        bottom: Fx::from_int(true, 300),
        top: Fx::from_int(false, 300),
    };
    let (sx, sy) = point_to_screen(&axes, &win, Fx::from_int(false, 5), Fx::from_int(false, 0));
    assert_eq!(sx, Fx::from_int(false, 200));
    assert_eq!(sy, Fx::from_int(false, 0));
    let (px, py) = screen_to_point(&axes, &win, sx, sy);
    assert_eq!(px, Fx::from_int(false, 5));
    assert_eq!(py, Fx::from_int(false, 0));
}

#[test]
fn degenerate_plot_region_is_non_finite() {
    let mut axes = Axes::default();
    axes.min_x = axes.max_x;
    let win = ScreenRect {
        left: Fx::from_int(true, 400),
        right: Fx::from_int(false, 400),
        bottom: Fx::from_int(true, 300),
        top: Fx::from_int(false, 300),
    };
    let (sx, _) = point_to_screen(&axes, &win, Fx::from_int(false, 5), Fx::from_int(false, 0));
    assert!(!sx.fin);
}
