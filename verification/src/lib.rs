//! The rules of the Phoxal Webots controller: the process Webots runs for a
//! simulated robot, which puts that robot's components on the Phoxal bus.
//!
//! The host process owns Webots, the bus session and the floating-point unit.
//! What it does with them is decided here. Where it has to act and then decide
//! on the outcome, a turn type says what to do next and takes the outcome back;
//! floating-point numbers cross over as their bit patterns.

pub mod backend;
pub mod binary64;
pub mod capabilities;
pub mod catalog;
pub mod channel;
pub mod controller;
pub mod launch;
pub mod motor_channel;
pub mod runtime;
pub mod sample_schedule;
