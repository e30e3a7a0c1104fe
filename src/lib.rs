//! Interaction control for a double pendulum simulation.
//!
//! The numeric model of the two arms lives with the application; this
//! library decides, frame by frame, which arms follow the pointer, whether
//! the integrator runs, and in which order the application must apply the
//! per-frame steps so that the second arm always hangs from the first arm's
//! tip.
pub mod capture;
pub mod frame;
