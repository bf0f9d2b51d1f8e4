//! Compiling parsed expressions into numeric evaluators.
//!
//! A parsed expression is lowered against a coordinate frame: its variables
//! become slots into the evaluator's input vector (the independent variable
//! first, then the state), and its exponents are checked to be small whole
//! numbers.  Any unknown symbol or unsupported exponent is a build error,
//! never a silently zero-filled evaluator.  Evaluation is a pure function of
//! the compiled form and the inputs, pinned down exactly by `eval_spec`.

use vstd::prelude::*;

use crate::expr::PExpr;
use crate::expr::SExpr;
use crate::expr::expr_view;
use crate::fixed::Fx;
use crate::fixed::SCALE;
use crate::fixed::s_add;
use crate::fixed::s_div;
use crate::fixed::s_mul;
use crate::fixed::s_neg;
use crate::fixed::s_sub;
use crate::ode::settings::CoordinateFrame;
use crate::ode::settings::r_name;
use crate::ode::settings::theta_name;
use crate::ode::settings::x_name;
use crate::ode::settings::y_name;

verus! {

/// Largest accepted whole exponent.
pub const MAX_EXPONENT: u64 = 10000;

/// The executable form of one expression: constants, input slots, and
/// arithmetic on them.  `Pow` holds the whole exponent's magnitude and
/// whether the power is reciprocated (a negative exponent).
#[derive(Debug)]
pub enum LExpr {
    Con(Fx),
    Slot(usize),
    Add(Box<LExpr>, Box<LExpr>),
    Sub(Box<LExpr>, Box<LExpr>),
    Mul(Box<LExpr>, Box<LExpr>),
    Div(Box<LExpr>, Box<LExpr>),
    Pow(Box<LExpr>, u64, bool),
    Neg(Box<LExpr>),
}

/// The compile error taxonomy: the earlier parse step failed, or lowering
/// the symbolic form failed.
#[derive(Debug)]
pub enum CompileError {
    ParseFailed(String),
    BuildFailed(String),
}

/// The fixed-point value one.
pub open spec fn fx_one() -> Fx {
    Fx::of(SCALE as int)
}

/// Repeated fixed-point multiplication: `b` to the power `e`.
pub open spec fn pow_fx(b: Fx, e: nat) -> Fx
    decreases e,
{
    if e == 0 {
        fx_one()
    } else {
        s_mul(b, pow_fx(b, (e - 1) as nat))
    }
}

/// The evaluator input vector: the independent variable first, then the
/// state components.
pub open spec fn env_of(t: Fx, ys: Seq<Fx>) -> Seq<Fx> {
    seq![t] + ys
}

/// Exact value of a compiled expression on an input vector.  An
/// out-of-range slot reads as the non-finite value; so no evaluation ever
/// reads out of bounds.
pub open spec fn eval_spec(e: LExpr, env: Seq<Fx>) -> Fx
    decreases e,
{
    match e {
        LExpr::Con(c) => c,
        LExpr::Slot(s) => if (s as int) < env.len() {
            env[s as int]
        } else {
            Fx::spec_nf()
        },
        LExpr::Add(a, b) => s_add(eval_spec(*a, env), eval_spec(*b, env)),
        LExpr::Sub(a, b) => s_sub(eval_spec(*a, env), eval_spec(*b, env)),
        LExpr::Mul(a, b) => s_mul(eval_spec(*a, env), eval_spec(*b, env)),
        LExpr::Div(a, b) => s_div(eval_spec(*a, env), eval_spec(*b, env)),
        LExpr::Pow(a, x, rec) => {
            let p = pow_fx(eval_spec(*a, env), x as nat);
            if rec {
                s_div(fx_one(), p)
            } else {
                p
            }
        },
        LExpr::Neg(a) => s_neg(eval_spec(*a, env)),
    }
}

/// The derivative vector: one evaluated expression per state component.
pub open spec fn rhs_vals(exprs: Seq<LExpr>, t: Fx, ys: Seq<Fx>) -> Seq<Fx> {
    Seq::new(exprs.len(), |k: int| eval_spec(exprs[k], env_of(t, ys)))
}

/// The derivative of a one-dimensional system.
pub open spec fn rhs1(exprs: Seq<LExpr>, t: Fx, y: Fx) -> Fx {
    eval_spec(exprs[0], env_of(t, seq![y]))
}

/// The slot bound to a variable name under a coordinate frame: the frame's
/// first symbol reads the independent variable, its second reads the state.
pub open spec fn slot_spec(name: Seq<u8>, frame: CoordinateFrame) -> Option<usize> {
    match frame {
        CoordinateFrame::Cartesian => if name == x_name() {
            Some(0usize)
        } else if name == y_name() {
            Some(1usize)
        } else {
            None
        },
        CoordinateFrame::Polar => if name == r_name() {
            Some(0usize)
        } else if name == theta_name() {
            Some(1usize)
        } else {
            None
        },
    }
}

/// The whole exponent denoted by a parsed exponent expression: its
/// magnitude in units and whether it is negative.  `None` when the
/// exponent is not a small whole literal.
pub open spec fn exp_shape(e: PExpr) -> Option<(u64, bool)>
    decreases e,
{
    match e {
        PExpr::Num(c) => if c.fin && c.mag % SCALE == 0 && c.mag / SCALE <= MAX_EXPONENT {
            Some((c.mag / SCALE, c.neg))
        } else {
            None
        },
        PExpr::Neg(inner) => match *inner {
            PExpr::Num(c) => if c.fin && c.mag % SCALE == 0 && c.mag / SCALE <= MAX_EXPONENT {
                Some((c.mag / SCALE, !c.neg))
            } else {
                None
            },
            _ => None,
        },
        _ => None,
    }
}

/// Whether a parsed expression can be lowered under a frame: every variable
/// is a symbol of the frame and every exponent is a small whole literal.
pub open spec fn lowerable(e: PExpr, frame: CoordinateFrame) -> bool
    decreases e,
{
    match e {
        PExpr::Num(c) => true,
        PExpr::Var(name) => slot_spec(name@, frame) is Some,
        PExpr::Add(a, b) => lowerable(*a, frame) && lowerable(*b, frame),
        PExpr::Sub(a, b) => lowerable(*a, frame) && lowerable(*b, frame),
        PExpr::Mul(a, b) => lowerable(*a, frame) && lowerable(*b, frame),
        PExpr::Div(a, b) => lowerable(*a, frame) && lowerable(*b, frame),
        PExpr::Pow(a, x) => lowerable(*a, frame) && exp_shape(*x) is Some,
        PExpr::Neg(a) => lowerable(*a, frame),
    }
}

/// The compiled form `l` is exactly the lowering of the parsed form `e`
/// under `frame`.
pub open spec fn lowered(e: PExpr, frame: CoordinateFrame, l: LExpr) -> bool
    decreases e,
{
    match e {
        PExpr::Num(c) => l == LExpr::Con(c),
        PExpr::Var(name) => slot_spec(name@, frame) matches Some(s) && l == LExpr::Slot(s),
        PExpr::Add(a, b) => l matches LExpr::Add(la, lb) && lowered(*a, frame, *la) && lowered(
            *b,
            frame,
            *lb,
        ),
        PExpr::Sub(a, b) => l matches LExpr::Sub(la, lb) && lowered(*a, frame, *la) && lowered(
            *b,
            frame,
            *lb,
        ),
        PExpr::Mul(a, b) => l matches LExpr::Mul(la, lb) && lowered(*a, frame, *la) && lowered(
            *b,
            frame,
            *lb,
        ),
        PExpr::Div(a, b) => l matches LExpr::Div(la, lb) && lowered(*a, frame, *la) && lowered(
            *b,
            frame,
            *lb,
        ),
        PExpr::Pow(a, x) => exp_shape(*x) matches Some(sh) && (l matches LExpr::Pow(la, xe, xr)
            && lowered(*a, frame, *la) && xe == sh.0 && xr == sh.1),
        PExpr::Neg(a) => l matches LExpr::Neg(la) && lowered(*a, frame, *la),
    }
}

/// Whether a name is the single byte `c`.
fn name_is_byte(name: &Vec<u8>, c: u8) -> (r: bool)
    ensures
        r == (name@ == seq![c]),
{
    let r = name.len() == 1 && name[0] == c;
    proof {
        if r {
            assert(name@ =~= seq![c]);
        } else {
            if name@ == seq![c] {
                assert(name@.len() == 1);
                assert(name@[0] == c);
            }
        }
    }
    r
}

/// Whether a name is `theta`.
fn name_is_theta(name: &Vec<u8>) -> (r: bool)
    ensures
        r == (name@ == theta_name()),
{
    let r = name.len() == 5 && name[0] == 116 && name[1] == 104 && name[2] == 101 && name[3]
        == 116 && name[4] == 97;
    proof {
        if r {
            assert(name@ =~= theta_name());
        } else {
            if name@ == theta_name() {
                assert(name@.len() == 5);
                assert(name@[0] == 116u8 && name@[1] == 104u8 && name@[2] == 101u8
                    && name@[3] == 116u8 && name@[4] == 97u8);
            }
        }
    }
    r
}

/// The slot bound to a variable name under a frame.
fn frame_slot(name: &Vec<u8>, frame: CoordinateFrame) -> (r: Option<usize>)
    ensures
        r == slot_spec(name@, frame),
{
    match frame {
        CoordinateFrame::Cartesian => {
            if name_is_byte(name, 120) {
                Some(0)
            } else if name_is_byte(name, 121) {
                Some(1)
            } else {
                None
            }
        },
        CoordinateFrame::Polar => {
            if name_is_byte(name, 114) {
                Some(0)
            } else if name_is_theta(name) {
                Some(1)
            } else {
                None
            }
        },
    }
}

/// The whole exponent denoted by a parsed exponent expression, if any.
fn exp_shape_exec(e: &PExpr) -> (r: Option<(u64, bool)>)
    ensures
        r == exp_shape(*e),
{
    match e {
        PExpr::Num(c) => {
            if c.fin && c.mag % SCALE == 0 && c.mag / SCALE <= MAX_EXPONENT {
                Some((c.mag / SCALE, c.neg))
            } else {
                None
            }
        },
        PExpr::Neg(inner) => {
            match &**inner {
                PExpr::Num(c) => {
                    if c.fin && c.mag % SCALE == 0 && c.mag / SCALE <= MAX_EXPONENT {
                        Some((c.mag / SCALE, !c.neg))
                    } else {
                        None
                    }
                },
                _ => None,
            }
        },
        _ => None,
    }
}

/// Lower one parsed expression under a frame, or report why it cannot be
/// lowered.
fn lower(e: &PExpr, frame: CoordinateFrame) -> (r: Result<LExpr, String>)
    ensures
        (r is Ok) == lowerable(*e, frame),
        r matches Ok(l) ==> lowered(*e, frame, l),
    decreases *e,
{
    match e {
        PExpr::Num(c) => Ok(LExpr::Con(*c)),
        PExpr::Var(name) => {
            match frame_slot(name, frame) {
                Some(s) => Ok(LExpr::Slot(s)),
                None => Err("unknown symbol for the chosen coordinate frame".to_string()),
            }
        },
        PExpr::Add(a, b) => {
            let la = match lower(&*a, frame) {
                Ok(l) => l,
                Err(m) => {
                    return Err(m);
                },
            };
            let lb = match lower(&*b, frame) {
                Ok(l) => l,
                Err(m) => {
                    return Err(m);
                },
            };
            Ok(LExpr::Add(Box::new(la), Box::new(lb)))
        },
        PExpr::Sub(a, b) => {
            let la = match lower(&*a, frame) {
                Ok(l) => l,
                Err(m) => {
                    return Err(m);
                },
            };
            let lb = match lower(&*b, frame) {
                Ok(l) => l,
                Err(m) => {
                    return Err(m);
                },
            };
            Ok(LExpr::Sub(Box::new(la), Box::new(lb)))
        },
        PExpr::Mul(a, b) => {
            let la = match lower(&*a, frame) {
                Ok(l) => l,
                Err(m) => {
                    return Err(m);
                },
            };
            let lb = match lower(&*b, frame) {
                Ok(l) => l,
                Err(m) => {
                    return Err(m);
                },
            };
            Ok(LExpr::Mul(Box::new(la), Box::new(lb)))
        },
        PExpr::Div(a, b) => {
            let la = match lower(&*a, frame) {
                Ok(l) => l,
                Err(m) => {
                    return Err(m);
                },
            };
            let lb = match lower(&*b, frame) {
                Ok(l) => l,
                Err(m) => {
                    return Err(m);
                },
            };
            Ok(LExpr::Div(Box::new(la), Box::new(lb)))
        },
        PExpr::Pow(a, x) => {
            let la = match lower(&*a, frame) {
                Ok(l) => l,
                Err(m) => {
                    return Err(m);
                },
            };
            match exp_shape_exec(&*x) {
                Some((xe, xr)) => Ok(LExpr::Pow(Box::new(la), xe, xr)),
                None => Err("exponent must be a small whole literal".to_string()),
            }
        },
        PExpr::Neg(a) => {
            match lower(&*a, frame) {
                Ok(l) => Ok(LExpr::Neg(Box::new(l))),
                Err(m) => Err(m),
            }
        },
    }
}

/// A dimension mismatch between an evaluator and caller-supplied buffers.
#[derive(Debug, Clone, Copy, PartialEq, Eq, Structural)]
pub struct DimensionError;

/// Every parsed expression of a sequence can be lowered under a frame.
pub open spec fn all_lowerable(es: Seq<PExpr>, frame: CoordinateFrame) -> bool {
    forall|k: int| 0 <= k < es.len() ==> lowerable(es[k], frame)
}

/// An executable form of one or more parsed expressions, bound to the
/// frame's ordered input variables.  Its dimensionality is its expression
/// count.  Evaluation is pure: no state is retained between calls.
#[derive(Debug)]
pub struct CompiledEvaluator {
    pub exprs: Vec<LExpr>,
}

impl CompiledEvaluator {
    /// The compiled dimensionality.
    pub open spec fn dims(self) -> nat {
        self.exprs@.len()
    }

    /// Build one evaluator from a snapshot of the settings.
    pub fn create(settings: &crate::ode::settings::OdeSettings) -> (r: Result<
        CompiledEvaluator,
        CompileError,
    >)
        ensures
            settings.inputs.parsed_expressions is Err ==> r is Err && r->Err_0 is ParseFailed,
            settings.inputs.parsed_expressions matches Ok(es) ==> ((r is Ok) == all_lowerable(
                es@,
                settings.coordinate,
            )),
            settings.inputs.parsed_expressions matches Ok(es) ==> (r matches Ok(ev)
                ==> ev.exprs@.len() == es@.len() && (forall|k: int|
                0 <= k < es@.len() ==> lowered(es@[k], settings.coordinate, ev.exprs@[k]))),
            settings.inputs.parsed_expressions is Ok && r is Err ==> r->Err_0 is BuildFailed,
    {
        compile(&settings.inputs.parsed_expressions, settings.coordinate)
    }

    /// Evaluate the derivative vector at `(t, y)` into `out`.  The buffers
    /// must match the compiled dimensionality; a mismatch is reported as a
    /// typed error and `out` is left unchanged.
    pub fn evaluate(&self, t: Fx, y: &Vec<Fx>, out: &mut Vec<Fx>) -> (r: Result<
        (),
        DimensionError,
    >)
        ensures
            (r is Ok) == (y@.len() == self.exprs@.len() && old(out)@.len() == self.exprs@.len()),
            r is Ok ==> final(out)@ == rhs_vals(self.exprs@, t, y@),
            r is Err ==> final(out)@ == old(out)@,
    {
        if y.len() != self.exprs.len() || out.len() != self.exprs.len() {
            return Err(DimensionError);
        }
        let mut env: Vec<Fx> = Vec::new();
        env.push(t);
        let mut i: usize = 0;
        while i < y.len()
            invariant
                i <= y@.len(),
                env@ == seq![t] + y@.subrange(0, i as int),
            decreases y@.len() - i,
        {
            env.push(y[i]);
            i = i + 1;
        }
        proof {
            assert(env@ =~= env_of(t, y@));
        }
        out.clear();
        let mut k: usize = 0;
        while k < self.exprs.len()
            invariant
                k <= self.exprs@.len(),
                env@ == env_of(t, y@),
                out@.len() == k,
                forall|j: int| 0 <= j < k ==> out@[j] == eval_spec(self.exprs@[j], env_of(t, y@)),
            decreases self.exprs@.len() - k,
        {
            let v = eval_expr(&self.exprs[k], &env);
            out.push(v);
            k = k + 1;
        }
        proof {
            assert(out@ =~= rhs_vals(self.exprs@, t, y@));
        }
        Ok(())
    }

    /// Evaluate the derivative vector at `(t, y)` into `dy`: the
    /// adapter-facing name of `evaluate`, as the integrator consumes it.
    pub fn rhs(&self, t: Fx, y: &Vec<Fx>, dy: &mut Vec<Fx>) -> (r: Result<(), DimensionError>)
        ensures
            (r is Ok) == (y@.len() == self.exprs@.len() && old(dy)@.len() == self.exprs@.len()),
            r is Ok ==> final(dy)@ == rhs_vals(self.exprs@, t, y@),
            r is Err ==> final(dy)@ == old(dy)@,
    {
        self.evaluate(t, y, dy)
    }

    /// Evaluate the derivative of a one-dimensional system at `(t, y)`.
    pub fn eval_rhs1(&self, t: Fx, y: Fx) -> (r: Fx)
        requires
            self.exprs@.len() == 1,
        ensures
            r == rhs1(self.exprs@, t, y),
    {
        let mut env: Vec<Fx> = Vec::new();
        env.push(t);
        env.push(y);
        proof {
            assert(env@ =~= env_of(t, seq![y]));
        }
        eval_expr(&self.exprs[0], &env)
    }
}

/// The fixed-point value one.
fn one() -> (r: Fx)
    ensures
        r == fx_one(),
{
    Fx::from_units(false, SCALE)
}

/// Evaluate one compiled expression on an input vector.
fn eval_expr(e: &LExpr, env: &Vec<Fx>) -> (r: Fx)
    ensures
        r == eval_spec(*e, env@),
    decreases *e,
{
    match e {
        LExpr::Con(c) => *c,
        LExpr::Slot(s) => {
            if *s < env.len() {
                env[*s]
            } else {
                Fx::nf()
            }
        },
        LExpr::Add(a, b) => eval_expr(&*a, env).add(eval_expr(&*b, env)),
        LExpr::Sub(a, b) => eval_expr(&*a, env).sub(eval_expr(&*b, env)),
        LExpr::Mul(a, b) => eval_expr(&*a, env).mul(eval_expr(&*b, env)),
        LExpr::Div(a, b) => eval_expr(&*a, env).div(eval_expr(&*b, env)),
        LExpr::Pow(a, x, rec) => {
            let bv = eval_expr(&*a, env);
            let mut acc = one();
            let mut k: u64 = 0;
            while k < *x
                invariant
                    k <= *x,
                    acc == pow_fx(bv, k as nat),
                decreases *x - k,
            {
                acc = bv.mul(acc);
                k = k + 1;
            }
            if *rec {
                one().div(acc)
            } else {
                acc
            }
        },
        LExpr::Neg(a) => eval_expr(&*a, env).negate(),
    }
}

/// Turn the stored parse result of a set of expression sources into one
/// evaluator under a frame.  A failed parse is reported as `ParseFailed`;
/// an unknown symbol or an unsupported exponent as `BuildFailed`; and the
/// build succeeds exactly when every expression lowers under the frame.
pub fn compile(parsed: &Result<Vec<PExpr>, String>, frame: CoordinateFrame) -> (r: Result<
    CompiledEvaluator,
    CompileError,
>)
    ensures
        parsed is Err ==> r is Err && r->Err_0 is ParseFailed,
        parsed matches Ok(es) ==> ((r is Ok) == all_lowerable(es@, frame)),
        parsed matches Ok(es) ==> (r matches Ok(ev) ==> ev.exprs@.len() == es@.len() && (forall|
            k: int,
        |
            0 <= k < es@.len() ==> lowered(es@[k], frame, ev.exprs@[k]))),
        parsed is Ok && r is Err ==> r->Err_0 is BuildFailed,
{
    match parsed {
        Err(m) => Err(CompileError::ParseFailed(m.clone())),
        Ok(es) => {
            let mut lexprs: Vec<LExpr> = Vec::new();
            let mut k: usize = 0;
            while k < es.len()
                invariant
                    parsed is Ok,
                    parsed->Ok_0 == *es,
                    k <= es@.len(),
                    lexprs@.len() == k,
                    forall|j: int| 0 <= j < k ==> lowered(es@[j], frame, lexprs@[j]),
                    forall|j: int| 0 <= j < k ==> lowerable(es@[j], frame),
                decreases es@.len() - k,
            {
                match lower(&es[k], frame) {
                    Ok(l) => {
                        lexprs.push(l);
                    },
                    Err(m) => {
                        proof {
                            assert(!lowerable(es@[k as int], frame));
                            assert(!all_lowerable(es@, frame));
                        }
                        return Err(CompileError::BuildFailed(m));
                    },
                }
                k = k + 1;
            }
            Ok(CompiledEvaluator { exprs: lexprs })
        },
    }
}

/// The exponent denoted by a parsed expression depends only on its ghost
/// image.
pub proof fn lemma_view_exp_shape(x1: PExpr, x2: PExpr)
    requires
        expr_view(x1) == expr_view(x2),
    ensures
        exp_shape(x1) == exp_shape(x2),
{
    match x1 {
        PExpr::Num(_) => {
            match x2 {
                PExpr::Num(_) => {},
                PExpr::Var(_) => {},
                PExpr::Add(_, _) => {},
                PExpr::Sub(_, _) => {},
                PExpr::Mul(_, _) => {},
                PExpr::Div(_, _) => {},
                PExpr::Pow(_, _) => {},
                PExpr::Neg(_) => {},
            }
        },
        PExpr::Var(_) => {
            match x2 {
                PExpr::Num(_) => {},
                PExpr::Var(_) => {},
                PExpr::Add(_, _) => {},
                PExpr::Sub(_, _) => {},
                PExpr::Mul(_, _) => {},
                PExpr::Div(_, _) => {},
                PExpr::Pow(_, _) => {},
                PExpr::Neg(_) => {},
            }
        },
        PExpr::Add(_, _) => {
            match x2 {
                PExpr::Num(_) => {},
                PExpr::Var(_) => {},
                PExpr::Add(_, _) => {},
                PExpr::Sub(_, _) => {},
                PExpr::Mul(_, _) => {},
                PExpr::Div(_, _) => {},
                PExpr::Pow(_, _) => {},
                PExpr::Neg(_) => {},
            }
        },
        PExpr::Sub(_, _) => {
            match x2 {
                PExpr::Num(_) => {},
                PExpr::Var(_) => {},
                PExpr::Add(_, _) => {},
                PExpr::Sub(_, _) => {},
                PExpr::Mul(_, _) => {},
                PExpr::Div(_, _) => {},
                PExpr::Pow(_, _) => {},
                PExpr::Neg(_) => {},
            }
        },
        PExpr::Mul(_, _) => {
            match x2 {
                PExpr::Num(_) => {},
                PExpr::Var(_) => {},
                PExpr::Add(_, _) => {},
                PExpr::Sub(_, _) => {},
                PExpr::Mul(_, _) => {},
                PExpr::Div(_, _) => {},
                PExpr::Pow(_, _) => {},
                PExpr::Neg(_) => {},
            }
        },
        PExpr::Div(_, _) => {
            match x2 {
                PExpr::Num(_) => {},
                PExpr::Var(_) => {},
                PExpr::Add(_, _) => {},
                PExpr::Sub(_, _) => {},
                PExpr::Mul(_, _) => {},
                PExpr::Div(_, _) => {},
                PExpr::Pow(_, _) => {},
                PExpr::Neg(_) => {},
            }
        },
        PExpr::Pow(_, _) => {
            match x2 {
                PExpr::Num(_) => {},
                PExpr::Var(_) => {},
                PExpr::Add(_, _) => {},
                PExpr::Sub(_, _) => {},
                PExpr::Mul(_, _) => {},
                PExpr::Div(_, _) => {},
                PExpr::Pow(_, _) => {},
                PExpr::Neg(_) => {},
            }
        },
        PExpr::Neg(i1) => {
            match x2 {
                PExpr::Num(_) => {},
                PExpr::Var(_) => {},
                PExpr::Add(_, _) => {},
                PExpr::Sub(_, _) => {},
                PExpr::Mul(_, _) => {},
                PExpr::Div(_, _) => {},
                PExpr::Pow(_, _) => {},
                PExpr::Neg(i2) => {
                    assert(expr_view(*i1) == expr_view(*i2));
                    match *i1 {
                        PExpr::Num(_) => {
                            match *i2 {
                                PExpr::Num(_) => {},
                                PExpr::Var(_) => {},
                                PExpr::Add(_, _) => {},
                                PExpr::Sub(_, _) => {},
                                PExpr::Mul(_, _) => {},
                                PExpr::Div(_, _) => {},
                                PExpr::Pow(_, _) => {},
                                PExpr::Neg(_) => {},
                            }
                        },
                        PExpr::Var(_) => {
                            match *i2 {
                                PExpr::Num(_) => {},
                                PExpr::Var(_) => {},
                                PExpr::Add(_, _) => {},
                                PExpr::Sub(_, _) => {},
                                PExpr::Mul(_, _) => {},
                                PExpr::Div(_, _) => {},
                                PExpr::Pow(_, _) => {},
                                PExpr::Neg(_) => {},
                            }
                        },
                        PExpr::Add(_, _) => {
                            match *i2 {
                                PExpr::Num(_) => {},
                                PExpr::Var(_) => {},
                                PExpr::Add(_, _) => {},
                                PExpr::Sub(_, _) => {},
                                PExpr::Mul(_, _) => {},
                                PExpr::Div(_, _) => {},
                                PExpr::Pow(_, _) => {},
                                PExpr::Neg(_) => {},
                            }
                        },
                        PExpr::Sub(_, _) => {
                            match *i2 {
                                PExpr::Num(_) => {},
                                PExpr::Var(_) => {},
                                PExpr::Add(_, _) => {},
                                PExpr::Sub(_, _) => {},
                                PExpr::Mul(_, _) => {},
                                PExpr::Div(_, _) => {},
                                PExpr::Pow(_, _) => {},
                                PExpr::Neg(_) => {},
                            }
                        },
                        PExpr::Mul(_, _) => {
                            match *i2 {
                                PExpr::Num(_) => {},
                                PExpr::Var(_) => {},
                                PExpr::Add(_, _) => {},
                                PExpr::Sub(_, _) => {},
                                PExpr::Mul(_, _) => {},
                                PExpr::Div(_, _) => {},
                                PExpr::Pow(_, _) => {},
                                PExpr::Neg(_) => {},
                            }
                        },
                        PExpr::Div(_, _) => {
                            match *i2 {
                                PExpr::Num(_) => {},
                                PExpr::Var(_) => {},
                                PExpr::Add(_, _) => {},
                                PExpr::Sub(_, _) => {},
                                PExpr::Mul(_, _) => {},
                                PExpr::Div(_, _) => {},
                                PExpr::Pow(_, _) => {},
                                PExpr::Neg(_) => {},
                            }
                        },
                        PExpr::Pow(_, _) => {
                            match *i2 {
                                PExpr::Num(_) => {},
                                PExpr::Var(_) => {},
                                PExpr::Add(_, _) => {},
                                PExpr::Sub(_, _) => {},
                                PExpr::Mul(_, _) => {},
                                PExpr::Div(_, _) => {},
                                PExpr::Pow(_, _) => {},
                                PExpr::Neg(_) => {},
                            }
                        },
                        PExpr::Neg(_) => {
                            match *i2 {
                                PExpr::Num(_) => {},
                                PExpr::Var(_) => {},
                                PExpr::Add(_, _) => {},
                                PExpr::Sub(_, _) => {},
                                PExpr::Mul(_, _) => {},
                                PExpr::Div(_, _) => {},
                                PExpr::Pow(_, _) => {},
                                PExpr::Neg(_) => {},
                            }
                        },
                    }
                },
            }
        },
    }
}

/// Whether a parsed expression lowers under a frame depends only on its
/// ghost image.
pub proof fn lemma_view_lowerable(e1: PExpr, e2: PExpr, frame: CoordinateFrame)
    requires
        expr_view(e1) == expr_view(e2),
    ensures
        lowerable(e1, frame) == lowerable(e2, frame),
    decreases e1,
{
    match e1 {
        PExpr::Num(c) => {},
        PExpr::Var(n1) => {
            match e2 {
                PExpr::Var(n2) => {},
                PExpr::Num(_) => {},
                PExpr::Var(_) => {},
                PExpr::Add(_, _) => {},
                PExpr::Sub(_, _) => {},
                PExpr::Mul(_, _) => {},
                PExpr::Div(_, _) => {},
                PExpr::Pow(_, _) => {},
                PExpr::Neg(_) => {},
            }
        },
        PExpr::Add(a1, b1) => {
            match e2 {
                PExpr::Add(a2, b2) => {
                    lemma_view_lowerable(*a1, *a2, frame);
                    lemma_view_lowerable(*b1, *b2, frame);
                },
                PExpr::Num(_) => {},
                PExpr::Var(_) => {},
                PExpr::Add(_, _) => {},
                PExpr::Sub(_, _) => {},
                PExpr::Mul(_, _) => {},
                PExpr::Div(_, _) => {},
                PExpr::Pow(_, _) => {},
                PExpr::Neg(_) => {},
            }
        },
        PExpr::Sub(a1, b1) => {
            match e2 {
                PExpr::Sub(a2, b2) => {
                    lemma_view_lowerable(*a1, *a2, frame);
                    lemma_view_lowerable(*b1, *b2, frame);
                },
                PExpr::Num(_) => {},
                PExpr::Var(_) => {},
                PExpr::Add(_, _) => {},
                PExpr::Sub(_, _) => {},
                PExpr::Mul(_, _) => {},
                PExpr::Div(_, _) => {},
                PExpr::Pow(_, _) => {},
                PExpr::Neg(_) => {},
            }
        },
        PExpr::Mul(a1, b1) => {
            match e2 {
                PExpr::Mul(a2, b2) => {
                    lemma_view_lowerable(*a1, *a2, frame);
                    lemma_view_lowerable(*b1, *b2, frame);
                },
                PExpr::Num(_) => {},
                PExpr::Var(_) => {},
                PExpr::Add(_, _) => {},
                PExpr::Sub(_, _) => {},
                PExpr::Mul(_, _) => {},
                PExpr::Div(_, _) => {},
                PExpr::Pow(_, _) => {},
                PExpr::Neg(_) => {},
            }
        },
        PExpr::Div(a1, b1) => {
            match e2 {
                PExpr::Div(a2, b2) => {
                    lemma_view_lowerable(*a1, *a2, frame);
                    lemma_view_lowerable(*b1, *b2, frame);
                },
                PExpr::Num(_) => {},
                PExpr::Var(_) => {},
                PExpr::Add(_, _) => {},
                PExpr::Sub(_, _) => {},
                PExpr::Mul(_, _) => {},
                PExpr::Div(_, _) => {},
                PExpr::Pow(_, _) => {},
                PExpr::Neg(_) => {},
            }
        },
        PExpr::Pow(a1, x1) => {
            match e2 {
                PExpr::Pow(a2, x2) => {
                    lemma_view_lowerable(*a1, *a2, frame);
                    lemma_view_exp_shape(*x1, *x2);
                },
                PExpr::Num(_) => {},
                PExpr::Var(_) => {},
                PExpr::Add(_, _) => {},
                PExpr::Sub(_, _) => {},
                PExpr::Mul(_, _) => {},
                PExpr::Div(_, _) => {},
                PExpr::Pow(_, _) => {},
                PExpr::Neg(_) => {},
            }
        },
        PExpr::Neg(a1) => {
            match e2 {
                PExpr::Neg(a2) => {
                    lemma_view_lowerable(*a1, *a2, frame);
                },
                PExpr::Num(_) => {},
                PExpr::Var(_) => {},
                PExpr::Add(_, _) => {},
                PExpr::Sub(_, _) => {},
                PExpr::Mul(_, _) => {},
                PExpr::Div(_, _) => {},
                PExpr::Pow(_, _) => {},
                PExpr::Neg(_) => {},
            }
        },
    }
}

/// Whether a whole set of parsed expressions compiles under a frame
/// depends only on their ghost images: two parses of the same texts agree
/// on success or failure.
pub proof fn lemma_compile_agreement(es1: Seq<PExpr>, es2: Seq<PExpr>, frame: CoordinateFrame)
    requires
        es1.len() == es2.len(),
        forall|k: int| 0 <= k < es1.len() ==> expr_view(es1[k]) == expr_view(es2[k]),
    ensures
        all_lowerable(es1, frame) == all_lowerable(es2, frame),
{
    assert forall|k: int| 0 <= k < es1.len() implies #[trigger] lowerable(es1[k], frame)
        == lowerable(es2[k], frame) by {
        lemma_view_lowerable(es1[k], es2[k], frame);
    }
}

/// Lowering is a function of the parsed form's ghost image and the frame:
/// any two compiled forms of expressions with the same image are equal.
pub proof fn lemma_lowered_deterministic(
    e1: PExpr,
    e2: PExpr,
    frame: CoordinateFrame,
    l1: LExpr,
    l2: LExpr,
)
    requires
        expr_view(e1) == expr_view(e2),
        lowered(e1, frame, l1),
        lowered(e2, frame, l2),
    ensures
        l1 == l2,
    decreases e1,
{
    match e1 {
        PExpr::Num(c1) => {
            match e2 {
                PExpr::Num(c2) => {},
                PExpr::Var(_) => {},
                PExpr::Add(_, _) => {},
                PExpr::Sub(_, _) => {},
                PExpr::Mul(_, _) => {},
                PExpr::Div(_, _) => {},
                PExpr::Pow(_, _) => {},
                PExpr::Neg(_) => {},
            }
        },
        PExpr::Var(n1) => {
            match e2 {
                PExpr::Var(n2) => {},
                PExpr::Num(_) => {},
                PExpr::Add(_, _) => {},
                PExpr::Sub(_, _) => {},
                PExpr::Mul(_, _) => {},
                PExpr::Div(_, _) => {},
                PExpr::Pow(_, _) => {},
                PExpr::Neg(_) => {},
            }
        },
        PExpr::Add(a1, b1) => {
            match e2 {
                PExpr::Add(a2, b2) => {
                    assert(expr_view(*a1) == expr_view(*a2));
                    assert(expr_view(*b1) == expr_view(*b2));
                    match l1 {
                        LExpr::Add(x1, y1) => match l2 {
                            LExpr::Add(x2, y2) => {
                                lemma_lowered_deterministic(*a1, *a2, frame, *x1, *x2);
                                lemma_lowered_deterministic(*b1, *b2, frame, *y1, *y2);
                            },
                            _ => {},
                        },
                        _ => {},
                    }
                },
                PExpr::Num(_) => {},
                PExpr::Var(_) => {},
                PExpr::Sub(_, _) => {},
                PExpr::Mul(_, _) => {},
                PExpr::Div(_, _) => {},
                PExpr::Pow(_, _) => {},
                PExpr::Neg(_) => {},
            }
        },
        PExpr::Sub(a1, b1) => {
            match e2 {
                PExpr::Sub(a2, b2) => {
                    assert(expr_view(*a1) == expr_view(*a2));
                    assert(expr_view(*b1) == expr_view(*b2));
                    match l1 {
                        LExpr::Sub(x1, y1) => match l2 {
                            LExpr::Sub(x2, y2) => {
                                lemma_lowered_deterministic(*a1, *a2, frame, *x1, *x2);
                                lemma_lowered_deterministic(*b1, *b2, frame, *y1, *y2);
                            },
                            _ => {},
                        },
                        _ => {},
                    }
                },
                PExpr::Num(_) => {},
                PExpr::Var(_) => {},
                PExpr::Add(_, _) => {},
                PExpr::Mul(_, _) => {},
                PExpr::Div(_, _) => {},
                PExpr::Pow(_, _) => {},
                PExpr::Neg(_) => {},
            }
        },
        PExpr::Mul(a1, b1) => {
            match e2 {
                PExpr::Mul(a2, b2) => {
                    assert(expr_view(*a1) == expr_view(*a2));
                    assert(expr_view(*b1) == expr_view(*b2));
                    match l1 {
                        LExpr::Mul(x1, y1) => match l2 {
                            LExpr::Mul(x2, y2) => {
                                lemma_lowered_deterministic(*a1, *a2, frame, *x1, *x2);
                                lemma_lowered_deterministic(*b1, *b2, frame, *y1, *y2);
                            },
                            _ => {},
                        },
                        _ => {},
                    }
                },
                PExpr::Num(_) => {},
                PExpr::Var(_) => {},
                PExpr::Add(_, _) => {},
                PExpr::Sub(_, _) => {},
                PExpr::Div(_, _) => {},
                PExpr::Pow(_, _) => {},
                PExpr::Neg(_) => {},
            }
        },
        PExpr::Div(a1, b1) => {
            match e2 {
                PExpr::Div(a2, b2) => {
                    assert(expr_view(*a1) == expr_view(*a2));
                    assert(expr_view(*b1) == expr_view(*b2));
                    match l1 {
                        LExpr::Div(x1, y1) => match l2 {
                            LExpr::Div(x2, y2) => {
                                lemma_lowered_deterministic(*a1, *a2, frame, *x1, *x2);
                                lemma_lowered_deterministic(*b1, *b2, frame, *y1, *y2);
                            },
                            _ => {},
                        },
                        _ => {},
                    }
                },
                PExpr::Num(_) => {},
                PExpr::Var(_) => {},
                PExpr::Add(_, _) => {},
                PExpr::Sub(_, _) => {},
                PExpr::Mul(_, _) => {},
                PExpr::Pow(_, _) => {},
                PExpr::Neg(_) => {},
            }
        },
        PExpr::Pow(a1, x1) => {
            match e2 {
                PExpr::Pow(a2, x2) => {
                    assert(expr_view(*a1) == expr_view(*a2));
                    assert(expr_view(*x1) == expr_view(*x2));
                    lemma_view_exp_shape(*x1, *x2);
                    match l1 {
                        LExpr::Pow(p1, e1x, r1) => match l2 {
                            LExpr::Pow(p2, e2x, r2) => {
                                lemma_lowered_deterministic(*a1, *a2, frame, *p1, *p2);
                            },
                            _ => {},
                        },
                        _ => {},
                    }
                },
                PExpr::Num(_) => {},
                PExpr::Var(_) => {},
                PExpr::Add(_, _) => {},
                PExpr::Sub(_, _) => {},
                PExpr::Mul(_, _) => {},
                PExpr::Div(_, _) => {},
                PExpr::Neg(_) => {},
            }
        },
        PExpr::Neg(a1) => {
            match e2 {
                PExpr::Neg(a2) => {
                    assert(expr_view(*a1) == expr_view(*a2));
                    match l1 {
                        LExpr::Neg(x1) => match l2 {
                            LExpr::Neg(x2) => {
                                lemma_lowered_deterministic(*a1, *a2, frame, *x1, *x2);
                            },
                            _ => {},
                        },
                        _ => {},
                    }
                },
                PExpr::Num(_) => {},
                PExpr::Var(_) => {},
                PExpr::Add(_, _) => {},
                PExpr::Sub(_, _) => {},
                PExpr::Mul(_, _) => {},
                PExpr::Div(_, _) => {},
                PExpr::Pow(_, _) => {},
            }
        },
    }
}

/// Compiling twice from the same expression text under the same frame
/// leaks no state: parsed forms with the same ghost images (as two parses
/// of one text have, by `parse`'s contract) compile to the same forms, and
/// those produce identical derivative outputs for identical inputs.
pub proof fn lemma_compile_idempotent(
    es1: Seq<PExpr>,
    es2: Seq<PExpr>,
    frame: CoordinateFrame,
    v1: Seq<LExpr>,
    v2: Seq<LExpr>,
    t: Fx,
    ys: Seq<Fx>,
)
    requires
        es1.len() == es2.len(),
        forall|k: int| 0 <= k < es1.len() ==> expr_view(es1[k]) == expr_view(es2[k]),
        v1.len() == es1.len(),
        v2.len() == es2.len(),
        forall|k: int| 0 <= k < es1.len() ==> lowered(es1[k], frame, v1[k]),
        forall|k: int| 0 <= k < es2.len() ==> lowered(es2[k], frame, v2[k]),
    ensures
        v1 =~= v2,
        rhs_vals(v1, t, ys) =~= rhs_vals(v2, t, ys),
{
    assert forall|k: int| 0 <= k < es1.len() implies v1[k] == v2[k] by {
        lemma_lowered_deterministic(es1[k], es2[k], frame, v1[k], v2[k]);
    }
    assert(v1 =~= v2);
    assert(rhs_vals(v1, t, ys) =~= rhs_vals(v2, t, ys));
}

} // verus!
