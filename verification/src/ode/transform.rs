//! The coordinate transform around a solve: initial conditions and
//! integration bounds are mapped into the solver's frame before
//! integrating, and every trajectory sample is mapped back pointwise for
//! display.  The transform performs no integration; it is a pure mapping.

use vstd::prelude::*;

use crate::fixed::Fx;
use crate::fixed::s_add;
use crate::fixed::s_mul;
use crate::fixed::s_sqrt;
use crate::ode::settings::CoordinateFrame;
use crate::ode::solver::Trajectory;
use crate::trig::atan2;
use crate::trig::s_atan2;
use crate::trig::s_sin_cos;
use crate::trig::sin_cos;

verus! {

/// The integration span handed to the solver for a plane point `(x0, y0)`
/// and an integration length.  In the polar frame both endpoints become
/// radii; the terminal radius deliberately reuses the initial ordinate
/// `y0`, reproducing the behaviour this transform has always had --
/// whether a terminal-consistent ordinate would serve better is an open
/// question left to the display side.
pub open spec fn solver_span(
    frame: CoordinateFrame,
    x0: Fx,
    y0: Fx,
    length: Fx,
) -> (Fx, Fx) {
    let xn = s_add(x0, length);
    match frame {
        CoordinateFrame::Cartesian => (x0, xn),
        CoordinateFrame::Polar => (
            s_sqrt(s_add(s_mul(x0, x0), s_mul(y0, y0))),
            s_sqrt(s_add(s_mul(xn, xn), s_mul(y0, y0))),
        ),
    }
}

/// The one-dimensional solver state for a plane point `(x0, y0)`: the
/// ordinate itself in the Cartesian frame, the angle in the polar frame.
pub open spec fn solver_state0(frame: CoordinateFrame, x0: Fx, y0: Fx) -> Fx {
    match frame {
        CoordinateFrame::Cartesian => y0,
        CoordinateFrame::Polar => s_atan2(y0, x0),
    }
}

/// Map a plane initial point and an integration length into the solver's
/// frame: the transformed span and the one-element transformed state.
pub fn to_solver_frame(frame: CoordinateFrame, ics: &Vec<Fx>, integration_length: Fx) -> (r: (
    (Fx, Fx),
    Vec<Fx>,
))
    requires
        ics@.len() == 2,
    ensures
        r.1@.len() == 1,
        r.0 == solver_span(frame, ics@[0], ics@[1], integration_length),
        r.1@[0] == solver_state0(frame, ics@[0], ics@[1]),
        ics@[0].fin && ics@[1].fin && integration_length.fin ==> r.0.0.fin && r.0.1.fin
            && r.1@[0].fin,
{
    let x0 = ics[0];
    let y0 = ics[1];
    let xn = x0.add(integration_length);
    let (a, b, s) = match frame {
        CoordinateFrame::Cartesian => (x0, xn, y0),
        CoordinateFrame::Polar => {
            let r0 = x0.mul(x0).add(y0.mul(y0)).sqrt();
            let rn = xn.mul(xn).add(y0.mul(y0)).sqrt();
            let th0 = atan2(y0, x0);
            (r0, rn, th0)
        },
    };
    let mut state: Vec<Fx> = Vec::new();
    state.push(s);
    ((a, b), state)
}

/// The display image of one trajectory sample: the sample itself in the
/// Cartesian frame; `(r cos theta, r sin theta)` in the polar frame, where
/// the abscissa is the radius and the state is the angle.
pub open spec fn display_point(frame: CoordinateFrame, t: Fx, y: Fx) -> (Fx, Fx) {
    match frame {
        CoordinateFrame::Cartesian => (t, y),
        CoordinateFrame::Polar => (s_mul(t, s_sin_cos(y).1), s_mul(t, s_sin_cos(y).0)),
    }
}

/// Map every trajectory sample back into display coordinates, pointwise.
pub fn from_solver_frame(frame: CoordinateFrame, traj: &Trajectory) -> (pts: Vec<(Fx, Fx)>)
    requires
        traj.ts@.len() == traj.ys@.len(),
    ensures
        pts@.len() == traj.ts@.len(),
        forall|i: int|
            0 <= i < pts@.len() ==> pts@[i] == display_point(frame, traj.ts@[i], traj.ys@[i]),
{
    let mut pts: Vec<(Fx, Fx)> = Vec::new();
    let mut i: usize = 0;
    while i < traj.ts.len()
        invariant
            traj.ts@.len() == traj.ys@.len(),
            i <= traj.ts@.len(),
            pts@.len() == i,
            forall|j: int|
                0 <= j < i ==> pts@[j] == display_point(frame, traj.ts@[j], traj.ys@[j]),
        decreases traj.ts@.len() - i,
    {
        let t = traj.ts[i];
        let y = traj.ys[i];
        let p = match frame {
            CoordinateFrame::Cartesian => (t, y),
            CoordinateFrame::Polar => {
                let sc = sin_cos(y);
                (t.mul(sc.1), t.mul(sc.0))
            },
        };
        pts.push(p);
        i = i + 1;
    }
    pts
}

} // verus!
