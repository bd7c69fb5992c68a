//! Heat pressure sources.
//!
//! A heat pressure source follows one sensor with one PID engine and keeps
//! the last output of that engine as its pressure: 0 asks for the slowest
//! fan speed, 1 for the fastest that is normal. While the reading lies above
//! the critical temperature of the source, the output loses its ceiling and
//! may pass 1.
//!
//! The engine itself runs at the caller's. For each update the source says
//! what to feed it ([`HeatPressureSource::pid_step`]) and then takes its
//! output ([`HeatPressureSource::update`]).

use crate::config;
use crate::error::{Error, ErrorView};
use crate::number::{is_nan, Number, INFINITY_BITS, ONE_BITS};
use crate::resolve::{match_single_file_glob, single_match, GlobOutcome};
use vstd::prelude::*;

verus! {

/// The range to which the output of a PID engine is held.
#[derive(Clone, Copy, Debug, PartialEq, Eq)]
pub enum ClampMode {
    /// From 0 to 1.
    Normal,
    /// From 0 upward without a ceiling.
    Critical,
}

impl ClampMode {
    /// The upper end of the range: 1, or positive infinity.
    pub open spec fn spec_ceiling(self) -> Number {
        match self {
            ClampMode::Normal => Number::one(),
            ClampMode::Critical => Number::infinity(),
        }
    }

    /// The upper end of the range.
    #[verifier::when_used_as_spec(spec_ceiling)]
    pub fn ceiling(self) -> (c: Number)
        ensures
            c == self.spec_ceiling(),
            c.bits() == match self {
                ClampMode::Normal => ONE_BITS,
                ClampMode::Critical => INFINITY_BITS,
            },
    {
        match self {
            ClampMode::Normal => Number::one(),
            ClampMode::Critical => Number::infinity(),
        }
    }
}

/// The range that a reading asks for: without a ceiling where the reading
/// lies above the threshold, else the normal one.
pub open spec fn clamp_for(reading: Number, threshold: Number) -> ClampMode {
    if reading.rank() > threshold.rank() {
        ClampMode::Critical
    } else {
        ClampMode::Normal
    }
}

/// The nanoseconds from the last update to `now`; 0 before the first
/// update, and 0 where the clock did not advance.
pub open spec fn elapsed_since(last: Option<u64>, now: u64) -> u64 {
    match last {
        Some(then) if now >= then => (now - then) as u64,
        _ => 0,
    }
}

/// What a PID engine is fed for one update.
#[derive(Clone, Copy, Debug, PartialEq, Eq)]
pub struct PidStep {
    /// The reading of the sensor.
    pub reading: Number,
    /// The nanoseconds since the last update.
    pub elapsed_nanos: u64,
    /// The range to which the engine holds its output in this update.
    pub clamp: ClampMode,
}

/// A sensor, the settings of its PID engine, and the state that the updates
/// leave behind.
#[derive(Debug)]
pub struct HeatPressureSource {
    name: String,
    path: String,
    pid_parameters: config::HeatPressureSourcePidParameters,
    last_update_time: Option<u64>,
    last_output_value: Number,
    clamp: ClampMode,
}

/// A heat pressure source with its texts as sequences of characters.
pub struct HeatPressureSourceView {
    /// The name by which fans refer to the source.
    pub name: Seq<char>,
    /// The path of the sensor file.
    pub path: Seq<char>,
    /// The settings of the PID engine.
    pub pid_parameters: config::HeatPressureSourcePidParameters,
    /// The time of the last update that succeeded, in nanoseconds of the
    /// caller's clock.
    pub last_update_time: Option<u64>,
    /// The output of the last update that succeeded; 1 before the first.
    pub last_output_value: Number,
    /// The range to which that output was held.
    pub clamp: ClampMode,
}

impl HeatPressureSourceView {
    /// The output is a number from 0 to the ceiling of its range, and the
    /// critical temperature is a number.
    pub open spec fn wf(self) -> bool {
        &&& self.pid_parameters.wf()
        &&& self.last_output_value.wf()
        &&& 0 <= self.last_output_value.rank() <= self.clamp.spec_ceiling().rank()
    }

    /// What the engine is fed for a reading taken at `now`.
    pub open spec fn pid_step(self, reading: Number, now: u64) -> PidStep {
        PidStep {
            reading,
            elapsed_nanos: elapsed_since(self.last_update_time, now),
            clamp: clamp_for(reading, self.pid_parameters.threshold()),
        }
    }

    /// The source after an update that succeeded: the output of the engine,
    /// held to the range that the reading asks for, is the new pressure.
    pub open spec fn updated(self, reading: Number, now: u64, engine_output: u64) -> Self {
        let clamp = clamp_for(reading, self.pid_parameters.threshold());
        HeatPressureSourceView {
            last_update_time: Some(now),
            last_output_value: Number::of(engine_output).spec_clamped(
                Number::zero(),
                clamp.spec_ceiling(),
            ),
            clamp,
            ..self
        }
    }
}

impl View for HeatPressureSource {
    type V = HeatPressureSourceView;

    closed spec fn view(&self) -> HeatPressureSourceView {
        HeatPressureSourceView {
            name: self.name@,
            path: self.path@,
            pid_parameters: self.pid_parameters,
            last_update_time: self.last_update_time,
            last_output_value: self.last_output_value,
            clamp: self.clamp,
        }
    }
}

/// The source that a configuration entry describes, given what matching
/// its wildcard path gave: it starts at pressure 1, in the normal range,
/// with no update behind it.
pub open spec fn source_from_config(
    source: config::HeatPressureSource,
    path: GlobOutcome,
) -> Result<HeatPressureSourceView, ErrorView> {
    match single_match(source.wildcard_path@, path) {
        Err(e) => Err(e),
        Ok(p) => Ok(
            HeatPressureSourceView {
                name: source.name@,
                path: p,
                pid_parameters: source.pid_parameters,
                last_update_time: None,
                last_output_value: Number::one(),
                clamp: ClampMode::Normal,
            },
        ),
    }
}

impl HeatPressureSource {
    /// The state of the source is sound.
    pub open spec fn wf(&self) -> bool {
        self@.wf()
    }

    /// Builds the source that a configuration entry describes. `path` is
    /// what matching the entry's wildcard path gave.
    pub fn from_config(source: config::HeatPressureSource, path: GlobOutcome) -> (r: Result<
        Self,
        Error,
    >)
        requires
            source.pid_parameters.wf(),
        ensures
            match r {
                Ok(s) => source_from_config(source, path) == Ok::<
                    HeatPressureSourceView,
                    ErrorView,
                >(s@) && s.wf(),
                Err(e) => source_from_config(source, path) == Err::<
                    HeatPressureSourceView,
                    ErrorView,
                >(e@),
            },
    {
        proof {
            Number::lemma_of_bits(ONE_BITS);
        }
        match match_single_file_glob(source.wildcard_path.as_str(), path) {
            Err(e) => Err(e),
            Ok(p) => Ok(
                HeatPressureSource {
                    name: source.name,
                    path: p,
                    pid_parameters: source.pid_parameters,
                    last_update_time: None,
                    last_output_value: Number::one(),
                    clamp: ClampMode::Normal,
                },
            ),
        }
    }

    /// The name by which fans refer to the source.
    pub fn name(&self) -> (name: &String)
        ensures
            name@ == self@.name,
    {
        &self.name
    }

    /// The path of the sensor file.
    pub fn path(&self) -> (path: &String)
        ensures
            path@ == self@.path,
    {
        &self.path
    }

    /// The settings of the PID engine.
    pub fn pid_parameters(&self) -> (p: config::HeatPressureSourcePidParameters)
        ensures
            p == self@.pid_parameters,
    {
        self.pid_parameters
    }

    /// The reading above which the output loses its ceiling: the critical
    /// temperature of the configuration, or positive infinity.
    pub fn critical_temperature(&self) -> (t: Number)
        ensures
            t == self@.pid_parameters.threshold(),
    {
        match self.pid_parameters.critical_temperature {
            Some(t) => t,
            None => Number::infinity(),
        }
    }

    /// The time of the last update that succeeded.
    pub fn last_update_time(&self) -> (t: Option<u64>)
        ensures
            t == self@.last_update_time,
    {
        self.last_update_time
    }

    /// The range to which the output was held in the last update that
    /// succeeded.
    pub fn clamp(&self) -> (c: ClampMode)
        ensures
            c == self@.clamp,
    {
        self.clamp
    }

    /// The pressure: the output of the last update that succeeded, and 1
    /// before the first.
    pub fn output(&self) -> (v: Number)
        ensures
            v == self@.last_output_value,
    {
        self.last_output_value
    }

    /// The failure to report where the sensor file could not be read for the
    /// given reason.
    pub fn read_failure(&self, reason: String) -> (e: Error)
        ensures
            e@ == (ErrorView::ReadingFile { filename: self@.path, reason: reason@ }),
    {
        Error::ReadingFile { filename: self.path.clone(), reason }
    }

    /// What the PID engine is fed for a reading taken at `now`, a time in
    /// nanoseconds on a clock that does not run backward: the reading, the
    /// time since the last update, and the range to which the engine holds
    /// its output.
    pub fn pid_step(&self, reading: Number, now: u64) -> (step: PidStep)
        ensures
            step == self@.pid_step(reading, now),
    {
        let elapsed_nanos: u64 = match self.last_update_time {
            Some(then) => if now >= then {
                now - then
            } else {
                0
            },
            None => 0,
        };
        let clamp = if reading.gt(self.critical_temperature()) {
            ClampMode::Critical
        } else {
            ClampMode::Normal
        };
        PidStep { reading, elapsed_nanos, clamp }
    }

    /// Takes the output that the PID engine gave for the reading taken at
    /// `now`, as a binary64 encoding. A NaN is refused and leaves the source
    /// as it was. Any other output becomes the pressure, held to the range
    /// that the reading asks for.
    pub fn update(&mut self, reading: Number, now: u64, engine_output: u64) -> (r: Result<
        (),
        Error,
    >)
        requires
            old(self).wf(),
        ensures
            final(self).wf(),
            is_nan(engine_output) ==> final(self)@ == old(self)@ && (r matches Err(e) && e@ == (
            ErrorView::PidControllerNan { name: old(self)@.name })),
            !is_nan(engine_output) ==> r is Ok && final(self)@ == old(self)@.updated(
                reading,
                now,
                engine_output,
            ),
    {
        match Number::from_bits(engine_output) {
            None => Err(Error::PidControllerNan { name: self.name.clone() }),
            Some(output) => {
                let clamp = if reading.gt(self.critical_temperature()) {
                    ClampMode::Critical
                } else {
                    ClampMode::Normal
                };
                let ceiling = clamp.ceiling();
                let zero = Number::zero();
                proof {
                    Number::lemma_of_bits(0);
                    crate::number::lemma_clamped_in_range(output, zero, ceiling);
                }
                self.last_output_value = output.clamped(zero, ceiling);
                self.last_update_time = Some(now);
                self.clamp = clamp;
                Ok(())
            },
        }
    }
}

/// While the reading does not pass the critical temperature, the output is
/// held to the normal range: the step names that range, and the pressure
/// after the update is at most 1.
pub proof fn lemma_ceiling_stands(
    source: HeatPressureSourceView,
    reading: Number,
    now: u64,
    engine_output: u64,
)
    requires
        reading.rank() <= source.pid_parameters.threshold().rank(),
    ensures
        source.pid_step(reading, now).clamp == ClampMode::Normal,
        source.updated(reading, now, engine_output).clamp == ClampMode::Normal,
        source.updated(reading, now, engine_output).last_output_value.rank() <= ONE_BITS,
{
    Number::lemma_of_bits(ONE_BITS);
    Number::lemma_of_bits(0);
    crate::number::lemma_clamped_in_range(
        Number::of(engine_output),
        Number::zero(),
        Number::one(),
    );
}

/// A reading above the critical temperature takes the ceiling away for its
/// own update only: the update after it, on a reading at or below the
/// critical temperature, is held to the normal range again, whatever the
/// engine gave in between.
pub proof fn lemma_ceiling_returns(
    source: HeatPressureSourceView,
    hot: Number,
    cool: Number,
    first: u64,
    second: u64,
    hot_output: u64,
    cool_output: u64,
)
    requires
        hot.rank() > source.pid_parameters.threshold().rank(),
        cool.rank() <= source.pid_parameters.threshold().rank(),
    ensures
        source.pid_step(hot, first).clamp == ClampMode::Critical,
        source.updated(hot, first, hot_output).clamp == ClampMode::Critical,
        source.updated(hot, first, hot_output).pid_step(cool, second).clamp == ClampMode::Normal,
        source.updated(hot, first, hot_output).updated(cool, second, cool_output).clamp
            == ClampMode::Normal,
        source.updated(hot, first, hot_output).updated(
            cool,
            second,
            cool_output,
        ).last_output_value.rank() <= ONE_BITS,
{
    lemma_ceiling_stands(source.updated(hot, first, hot_output), cool, second, cool_output);
}

/// An update keeps a sound source sound, so a pressure is never a NaN and
/// never below 0.
pub proof fn lemma_update_keeps_sound(
    source: HeatPressureSourceView,
    reading: Number,
    now: u64,
    engine_output: u64,
)
    requires
        source.wf(),
        !is_nan(engine_output),
    ensures
        source.updated(reading, now, engine_output).wf(),
{
    Number::lemma_of_bits(engine_output);
    Number::lemma_of_bits(ONE_BITS);
    Number::lemma_of_bits(INFINITY_BITS);
    Number::lemma_of_bits(0);
    let clamp = clamp_for(reading, source.pid_parameters.threshold());
    crate::number::lemma_clamped_in_range(
        Number::of(engine_output),
        Number::zero(),
        clamp.spec_ceiling(),
    );
}

} // verus!
