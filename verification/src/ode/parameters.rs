//! Newtype wrappers for the tuning parameters of an adaptive integration
//! run.

use vstd::prelude::*;

use crate::fixed::Fx;

verus! {

#[derive(Debug, Clone, Copy, PartialEq, Eq, Structural)]
pub struct Tolerance(pub Fx);

#[derive(Debug, Clone, Copy, PartialEq, Eq, Structural)]
pub struct SafetyFactor(pub Fx);

#[derive(Debug, Clone, Copy, PartialEq, Eq, Structural)]
pub struct MaxStepSize(pub Fx);

#[derive(Debug, Clone, Copy, PartialEq, Eq, Structural)]
pub struct MinStepSize(pub Fx);

#[derive(Debug, Clone, Copy, PartialEq, Eq, Structural)]
pub struct MaxSteps(pub usize);

} // verus!
