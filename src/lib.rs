//! A simulation framework for validating closed-loop position controllers
//! against a model of the plant they drive, with a fourth-order Runge-Kutta
//! integrator for general ordinary differential equations.
//!
//! All physical quantities are fixed-point integers; see [`units`].

pub mod units;
pub mod util;
pub mod pid;
pub mod plant;
pub mod harness;
pub mod elevator;
pub mod integration;

pub use elevator::{ElevatorLog, ElevatorShim};
pub use harness::{HarnessAble, SimulationHarness, StateShim, Violation};
pub use pid::{ElevatorPIDLoop, LoopState};
pub use plant::{ElevatorPhysicsState, SimulationLaw};
pub use util::clamp;
