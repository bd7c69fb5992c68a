//! Verified core of a PID-driven fan controller.
//!
//! The crate holds the control policy: the critical-temperature override of
//! each heat pressure source, the aggregation of source outputs into one
//! pressure per fan, the mapping of a pressure to a PWM duty cycle, the
//! validation of a configuration, the text formats of sensor and fan files,
//! and the order of work inside the control loop. Reading and writing files,
//! the clock, and the arithmetic of the PID engine itself are left to the
//! caller, which hands their results in as plain values and gets back what
//! to do next.
//!
//! Numbers cross the boundary as IEEE 754 binary64 encodings (see
//! [`number::Number`]). The crate orders them, divides a raw reading by 1000
//! ([`reading`]) and scales a PWM span by a pressure ([`scaling`]) with the
//! results that binary64 arithmetic gives, computed on integers.

pub mod config;
pub mod control;
pub mod error;
pub mod fan;
pub mod heat_source;
pub mod number;
pub mod options;
pub mod order;
pub mod reading;
pub mod resolve;
pub mod scaling;
pub mod state;
pub mod text;
