//! A verified core for an expression-driven adaptive ODE solving pipeline.
//!
//! A user-supplied symbolic expression in one coordinate frame (Cartesian or
//! polar) is compiled into a numeric evaluator, integrated with an embedded
//! adaptive-step Runge-Kutta-Fehlberg scheme under a step-size controller and
//! an iteration safety valve, and mapped between coordinate frames before and
//! after solving.  All numeric work happens on an exact fixed-point scalar,
//! so every stage carries a precise contract.

pub mod axes_2d;
pub mod expr;
pub mod fixed;
pub mod ode;
pub mod trig;
