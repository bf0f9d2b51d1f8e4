use odeplot::expr::parse;
use odeplot::fixed::Fx;
use odeplot::ode::evaluator::CompileError;
use odeplot::ode::evaluator::compile;
use odeplot::ode::settings::CoordinateFrame;

fn parsed_of(text: &[u8]) -> Result<Vec<odeplot::expr::PExpr>, String> {
    parse(&text.to_vec()).map(|e| vec![e])
}

fn eval1(ev: &odeplot::ode::evaluator::CompiledEvaluator, t: Fx, y: Fx) -> Fx {
    let mut out = vec![Fx::from_units(false, 0)];
    let ys = vec![y];
    ev.evaluate(t, &ys, &mut out).expect("dimensions match");
    out[0]
}

#[test]
fn scenario_expression_evaluates_exactly() {
    // f(x, y) = x^2 - 7*y - 10 at (1, 1) is -16, exactly.
    let parsed = parsed_of(b"x^2 - 7*y - 10");
    let ev = compile(&parsed, CoordinateFrame::Cartesian).expect("compiles");
    let r = eval1(&ev, Fx::from_int(false, 1), Fx::from_int(false, 1));
    assert!(r.fin && r.neg);
    assert_eq!(r.mag, 16_000_000);
}

#[test]
fn implicit_multiplication_matches_explicit() {
    let p1 = parsed_of(b"x^2 - 7y - 10");
    let p2 = parsed_of(b"x^2 - 7*y - 10");
    let e1 = compile(&p1, CoordinateFrame::Cartesian).expect("compiles");
    let e2 = compile(&p2, CoordinateFrame::Cartesian).expect("compiles");
    let t = Fx::from_units(false, 2_500_000);
    let y = Fx::from_units(true, 1_250_000);
    assert_eq!(eval1(&e1, t, y), eval1(&e2, t, y));
}

#[test]
fn compile_twice_is_bit_identical() {
    // Identical (expression text, frame) twice: identical derivative output
    // bits for identical inputs.
    let text = b"x^2 - 7*y - 10";
    let e1 = compile(&parsed_of(text), CoordinateFrame::Cartesian).expect("compiles");
    let e2 = compile(&parsed_of(text), CoordinateFrame::Cartesian).expect("compiles");
    for k in 0..20u64 {
        let t = Fx::from_units(k % 2 == 0, k * 123_457);
        let y = Fx::from_units(k % 3 == 0, k * 987_651);
        let a = eval1(&e1, t, y);
        let b = eval1(&e2, t, y);
        assert_eq!((a.fin, a.neg, a.mag), (b.fin, b.neg, b.mag));
    }
}

#[test]
fn unknown_symbol_is_build_error() {
    let parsed = parsed_of(b"z + 1");
    let r = compile(&parsed, CoordinateFrame::Cartesian);
    assert!(matches!(r, Err(CompileError::BuildFailed(_))));
}

#[test]
fn cartesian_symbols_refused_in_polar() {
    let parsed = parsed_of(b"x + y");
    let r = compile(&parsed, CoordinateFrame::Polar);
    assert!(matches!(r, Err(CompileError::BuildFailed(_))));
}

#[test]
fn polar_symbols_compile_in_polar() {
    let parsed = parsed_of(b"r + theta");
    let ev = compile(&parsed, CoordinateFrame::Polar).expect("compiles");
    let v = eval1(&ev, Fx::from_int(false, 2), Fx::from_int(false, 3));
    assert!(v.fin && !v.neg);
    assert_eq!(v.mag, 5_000_000);
}

#[test]
fn failed_parse_is_parse_error() {
    let parsed = parsed_of(b"x + ");
    assert!(parsed.is_err());
    let r = compile(&parsed, CoordinateFrame::Cartesian);
    assert!(matches!(r, Err(CompileError::ParseFailed(_))));
}

#[test]
fn garbage_character_fails_to_parse() {
    assert!(parse(&b"x ? y".to_vec()).is_err());
    assert!(parse(&b"".to_vec()).is_err());
    assert!(parse(&b"(x".to_vec()).is_err());
}

#[test]
fn symbolic_exponent_is_build_error() {
    let parsed = parsed_of(b"x^y");
    let r = compile(&parsed, CoordinateFrame::Cartesian);
    assert!(matches!(r, Err(CompileError::BuildFailed(_))));
}

#[test]
fn fractional_exponent_is_build_error() {
    let parsed = parsed_of(b"x^2.5");
    let r = compile(&parsed, CoordinateFrame::Cartesian);
    assert!(matches!(r, Err(CompileError::BuildFailed(_))));
}

#[test]
fn negative_exponent_reciprocates() {
    // 2^-2 = 0.25
    let parsed = parsed_of(b"x^-2");
    let ev = compile(&parsed, CoordinateFrame::Cartesian).expect("compiles");
    let v = eval1(&ev, Fx::from_int(false, 2), Fx::from_int(false, 0));
    assert!(v.fin && !v.neg);
    assert_eq!(v.mag, 250_000);
}

#[test]
fn division_by_zero_evaluates_non_finite() {
    let parsed = parsed_of(b"1/x");
    let ev = compile(&parsed, CoordinateFrame::Cartesian).expect("compiles");
    let v = eval1(&ev, Fx::from_int(false, 0), Fx::from_int(false, 0));
    assert!(!v.fin);
}

#[test]
fn decimal_literals() {
    // 0.5 * x at x = 3 is 1.5
    let parsed = parsed_of(b"0.5 * x");
    let ev = compile(&parsed, CoordinateFrame::Cartesian).expect("compiles");
    let v = eval1(&ev, Fx::from_int(false, 3), Fx::from_int(false, 0));
    assert!(v.fin && !v.neg);
    assert_eq!(v.mag, 1_500_000);
}

#[test]
fn parenthesised_expression() {
    // (x + 1)^2 at x = 2 is 9
    let parsed = parsed_of(b"(x + 1)^2");
    let ev = compile(&parsed, CoordinateFrame::Cartesian).expect("compiles");
    let v = eval1(&ev, Fx::from_int(false, 2), Fx::from_int(false, 0));
    assert!(v.fin && !v.neg);
    assert_eq!(v.mag, 9_000_000);
}

#[test]
fn evaluate_checks_dimensions() {
    let parsed = parsed_of(b"x");
    let ev = compile(&parsed, CoordinateFrame::Cartesian).expect("compiles");
    let mut out = vec![Fx::from_units(false, 0)];
    let wrong = vec![Fx::from_units(false, 0), Fx::from_units(false, 0)];
    assert!(ev.evaluate(Fx::from_int(false, 0), &wrong, &mut out).is_err());
    let mut out2: Vec<Fx> = vec![];
    let right = vec![Fx::from_units(false, 0)];
    assert!(ev.evaluate(Fx::from_int(false, 0), &right, &mut out2).is_err());
}
