//! The expression-driven ODE solving pipeline: settings, expression
//! compilation, the embedded adaptive integrator, the bounded driver and the
//! coordinate transform.

pub mod evaluator;
pub mod integrator;
pub mod parameters;
pub mod schemes;
pub mod settings;
pub mod solver;
pub mod transform;
