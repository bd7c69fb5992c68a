//! The configuration of the controller, as its configuration file states it.
//!
//! Numbers that only the PID engine reads are held as binary64 encodings and
//! handed on untouched.

use crate::number::Number;
use std::time::Duration;
use vstd::prelude::*;

verus! {

/// The whole configuration.
#[derive(Debug)]
pub struct Config {
    /// The pause between two rounds of the control loop.
    pub sample_interval: Duration,
    /// The heat pressure sources, in the order in which fans refer to them.
    pub heat_pressure_srcs: Vec<HeatPressureSource>,
    /// The fans.
    pub fans: Vec<Fan>,
}

/// One heat pressure source: a sensor file and the PID engine that follows
/// it.
#[derive(Debug)]
pub struct HeatPressureSource {
    /// The name by which fans refer to the source.
    pub name: String,
    /// The wildcard path of the sensor file.
    pub wildcard_path: String,
    /// The settings of the PID engine.
    pub pid_parameters: HeatPressureSourcePidParameters,
}

/// The settings of a PID engine.
#[derive(Clone, Copy, Debug)]
pub struct HeatPressureSourcePidParameters {
    /// The target reading, as a binary64 encoding.
    pub set_point: u64,
    /// The proportional gain, as a binary64 encoding.
    pub p: u64,
    /// The integral gain, as a binary64 encoding.
    pub i: u64,
    /// The derivative gain, as a binary64 encoding.
    pub d: u64,
    /// The reading above which the output of the engine loses its ceiling;
    /// without one the ceiling always stands.
    pub critical_temperature: Option<Number>,
}

/// One fan.
#[derive(Debug)]
pub struct Fan {
    /// The name of the fan.
    pub name: String,
    /// The wildcard path of the PWM file.
    pub wildcard_path: String,
    /// How the fan is switched between manual and automatic control.
    pub pwm_modes: FanPwmModes,
    /// The PWM value at pressure 0.
    pub min_pwm: u32,
    /// The PWM value at pressure 1.
    pub max_pwm: u32,
    /// The highest PWM value at a pressure above 1; without one, `max_pwm`.
    pub max_pwm_when_critical: Option<u32>,
    /// The names of the heat pressure sources that drive the fan.
    pub heat_pressure_srcs: Vec<String>,
}

/// The control modes of a fan.
#[derive(Debug)]
pub struct FanPwmModes {
    /// The value that hands the fan to this controller.
    pub manual: u32,
    /// The value that hands the fan back to the firmware.
    pub auto: u32,
    /// The wildcard path of the mode file.
    pub pwm_mode_wildcard_path: String,
}

impl HeatPressureSourcePidParameters {
    /// The critical temperature, if there is one, is a number.
    pub open spec fn wf(self) -> bool {
        self.critical_temperature matches Some(t) ==> t.wf()
    }

    /// The reading above which the ceiling falls: the configured critical
    /// temperature, or positive infinity.
    pub open spec fn threshold(self) -> Number {
        match self.critical_temperature {
            Some(t) => t,
            None => Number::infinity(),
        }
    }
}

impl Config {
    /// Every critical temperature is a number.
    pub open spec fn wf(self) -> bool {
        forall|i: int|
            0 <= i < self.heat_pressure_srcs@.len() ==> (
            #[trigger] self.heat_pressure_srcs@[i]).pid_parameters.wf()
    }
}

} // verus!
