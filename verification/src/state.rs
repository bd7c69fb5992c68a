//! The fans and heat pressure sources of one controller.

use crate::config::Config;
use crate::error::{Error, ErrorView};
use crate::fan::{fan_from_config, texts, Fan, FanControlMode, FanView, FileWrite};
use crate::heat_source::{
    source_from_config, HeatPressureSource, HeatPressureSourceView, PidStep,
};
use crate::number::{is_nan, Number};
use crate::reading::{degrees, degrees_bits};
use crate::resolve::GlobOutcome;
use crate::text::{parse_reading, reading_of};
use crate::config;
use std::time::Duration;
use vstd::prelude::*;

verus! {

/// What matching the two wildcard paths of a fan gave.
#[derive(Debug)]
pub struct FanPaths {
    /// For the wildcard path of the PWM file.
    pub pwm: GlobOutcome,
    /// For the wildcard path of the mode file.
    pub pwm_mode: GlobOutcome,
}

/// Everything that the control loop works on.
#[derive(Debug)]
pub struct State {
    sample_interval: Duration,
    fans: Vec<Fan>,
    heat_sources: Vec<HeatPressureSource>,
}

/// The names of the configured heat pressure sources, in their order.
pub open spec fn source_names(sources: Seq<config::HeatPressureSource>) -> Seq<Seq<char>> {
    Seq::new(sources.len(), |i: int| sources[i].name@)
}

/// For each configured fan, the fan that its entry describes or the reason
/// why there is none.
pub open spec fn fan_outcomes(config: Config, fan_paths: Seq<FanPaths>) -> Seq<
    Result<FanView, ErrorView>,
> {
    Seq::new(
        config.fans@.len(),
        |j: int|
            fan_from_config(
                config.fans@[j],
                source_names(config.heat_pressure_srcs@),
                fan_paths[j].pwm,
                fan_paths[j].pwm_mode,
            ),
    )
}

/// For each configured heat pressure source, the source that its entry
/// describes or the reason why there is none.
pub open spec fn source_outcomes(config: Config, source_paths: Seq<GlobOutcome>) -> Seq<
    Result<HeatPressureSourceView, ErrorView>,
> {
    Seq::new(
        config.heat_pressure_srcs@.len(),
        |i: int| source_from_config(config.heat_pressure_srcs@[i], source_paths[i]),
    )
}

/// The failure of the first outcome that is one.
pub open spec fn first_error<T>(outcomes: Seq<Result<T, ErrorView>>) -> Option<ErrorView>
    decreases outcomes.len(),
{
    if outcomes.len() == 0 {
        None
    } else {
        match first_error(outcomes.drop_last()) {
            Some(e) => Some(e),
            None => match outcomes.last() {
                Err(e) => Some(e),
                Ok(_) => None,
            },
        }
    }
}

/// The failure that stops the construction of a state: that of the first
/// fan that fails, else that of the first heat pressure source that fails.
pub open spec fn construction_error(
    config: Config,
    fan_paths: Seq<FanPaths>,
    source_paths: Seq<GlobOutcome>,
) -> Option<ErrorView> {
    match first_error(fan_outcomes(config, fan_paths)) {
        Some(e) => Some(e),
        None => first_error(source_outcomes(config, source_paths)),
    }
}

/// The first failure among the outcomes is the first failure among any
/// start of them that holds one.
pub proof fn lemma_first_error_prefix<T>(outcomes: Seq<Result<T, ErrorView>>, k: int)
    requires
        0 <= k <= outcomes.len(),
        first_error(outcomes.subrange(0, k)) is Some,
    ensures
        first_error(outcomes) == first_error(outcomes.subrange(0, k)),
    decreases outcomes.len(),
{
    if k == outcomes.len() {
        assert(outcomes.subrange(0, k) =~= outcomes);
    } else {
        assert(outcomes.drop_last().subrange(0, k) =~= outcomes.subrange(0, k));
        lemma_first_error_prefix(outcomes.drop_last(), k);
    }
}

/// There is a first failure exactly when some outcome is a failure, and it
/// is the failure of an outcome before which every outcome is a success.
pub proof fn lemma_first_error<T>(outcomes: Seq<Result<T, ErrorView>>)
    ensures
        first_error(outcomes) is None <==> forall|j: int|
            0 <= j < outcomes.len() ==> (#[trigger] outcomes[j]) is Ok,
        first_error(outcomes) matches Some(e) ==> exists|j: int|
            0 <= j < outcomes.len() && #[trigger] outcomes[j] == Err::<T, ErrorView>(e) && forall|
                i: int,
            | 0 <= i < j ==> (#[trigger] outcomes[i]) is Ok,
    decreases outcomes.len(),
{
    if outcomes.len() > 0 {
        let shorter = outcomes.drop_last();
        lemma_first_error(shorter);
        assert forall|j: int| 0 <= j < shorter.len() implies shorter[j] == outcomes[j] by {}
        match first_error(shorter) {
            Some(e) => {
                let j = choose|j: int|
                    0 <= j < shorter.len() && #[trigger] shorter[j] == Err::<T, ErrorView>(e)
                        && forall|i: int| 0 <= i < j ==> (#[trigger] shorter[i]) is Ok;
                assert(outcomes[j] == Err::<T, ErrorView>(e));
                assert forall|i: int| 0 <= i < j implies (#[trigger] outcomes[i]) is Ok by {
                    assert(shorter[i] is Ok);
                }
            },
            None => {
                let last = outcomes.len() - 1;
                assert forall|i: int| 0 <= i < last implies (#[trigger] outcomes[i]) is Ok by {
                    assert(shorter[i] is Ok);
                }
                if let Err(e) = outcomes.last() {
                    assert(outcomes[last] == Err::<T, ErrorView>(e));
                }
            },
        }
    }
}

impl State {
    /// The pause between two rounds of the control loop.
    pub closed spec fn spec_sample_interval(&self) -> Duration {
        self.sample_interval
    }

    /// The fans.
    pub closed spec fn spec_fans(&self) -> Seq<Fan> {
        self.fans@
    }

    /// The heat pressure sources.
    pub closed spec fn spec_heat_sources(&self) -> Seq<HeatPressureSource> {
        self.heat_sources@
    }

    /// Every fan and every source is sound, and each source that drives a
    /// fan is one of the sources of this state.
    pub open spec fn wf(&self) -> bool {
        &&& forall|j: int|
            0 <= j < self.spec_fans().len() ==> (#[trigger] self.spec_fans()[j]).wf()
                && self.spec_fans()[j]@.indices_within(self.spec_heat_sources().len())
        &&& forall|i: int|
            0 <= i < self.spec_heat_sources().len() ==> (#[trigger] self.spec_heat_sources()[i]).wf()
    }

    /// Builds the state that a configuration describes. `fan_paths` holds,
    /// for each fan of the configuration in its order, what matching its two
    /// wildcard paths gave; `source_paths` the same for each heat pressure
    /// source. The fans are checked first, then the sources, each kind in the
    /// order of the configuration, and the first failure is returned.
    pub fn from_config(config: Config, fan_paths: Vec<FanPaths>, source_paths: Vec<GlobOutcome>) -> (r:
        Result<State, Error>)
        requires
            config.wf(),
            fan_paths@.len() == config.fans@.len(),
            source_paths@.len() == config.heat_pressure_srcs@.len(),
        ensures
            match r {
                Ok(state) => {
                    &&& construction_error(config, fan_paths@, source_paths@) is None
                    &&& state.wf()
                    &&& state.spec_sample_interval() == config.sample_interval
                    &&& state.spec_fans().len() == config.fans@.len()
                    &&& forall|j: int|
                        0 <= j < config.fans@.len() ==> fan_outcomes(config, fan_paths@)[j] == Ok::<
                            FanView,
                            ErrorView,
                        >((#[trigger] state.spec_fans()[j])@)
                    &&& state.spec_heat_sources().len() == config.heat_pressure_srcs@.len()
                    &&& forall|i: int|
                        0 <= i < config.heat_pressure_srcs@.len() ==> source_outcomes(
                            config,
                            source_paths@,
                        )[i] == Ok::<HeatPressureSourceView, ErrorView>(
                            (#[trigger] state.spec_heat_sources()[i])@,
                        )
                },
                Err(e) => construction_error(config, fan_paths@, source_paths@) == Some(e@),
            },
    {
        let ghost fan_results = fan_outcomes(config, fan_paths@);
        let ghost source_results = source_outcomes(config, source_paths@);
        let ghost all_names = source_names(config.heat_pressure_srcs@);
        let Config { sample_interval, heat_pressure_srcs, fans: fan_entries } = config;
        let mut names: Vec<String> = Vec::new();
        let mut n: usize = 0;
        while n < heat_pressure_srcs.len()
            invariant
                n <= heat_pressure_srcs.len(),
                names@.len() == n,
                forall|k: int| 0 <= k < n ==> (#[trigger] names@[k])@ == heat_pressure_srcs@[k].name@,
            decreases heat_pressure_srcs.len() - n,
        {
            names.push(heat_pressure_srcs[n].name.clone());
            n = n + 1;
        }
        assert(texts(names@) =~= all_names);
        let mut fans: Vec<Fan> = Vec::new();
        let mut pending_fans = fan_entries;
        let mut pending_paths = fan_paths;
        let fan_count = pending_fans.len();
        while pending_fans.len() > 0
            invariant
                fan_count == config.fans@.len() == fan_paths@.len(),
                fans@.len() + pending_fans@.len() == fan_count,
                pending_fans@ == config.fans@.subrange(fans@.len() as int, fan_count as int),
                pending_paths@ == fan_paths@.subrange(fans@.len() as int, fan_count as int),
                fan_results == fan_outcomes(config, fan_paths@),
                all_names == source_names(config.heat_pressure_srcs@),
                texts(names@) == all_names,
                names@.len() == config.heat_pressure_srcs@.len(),
                first_error(fan_results.subrange(0, fans@.len() as int)) is None,
                forall|j: int|
                    0 <= j < fans@.len() ==> fan_results[j] == Ok::<FanView, ErrorView>(
                        (#[trigger] fans@[j])@,
                    ) && fans@[j].wf() && fans@[j]@.indices_within(names@.len()),
            decreases pending_fans.len(),
        {
            let ghost done = fans@.len() as int;
            let entry = pending_fans.remove(0);
            let paths = pending_paths.remove(0);
            assert(entry == config.fans@[done]);
            assert(paths == fan_paths@[done]);
            let ghost longer = fan_results.subrange(0, done + 1);
            assert(longer.drop_last() =~= fan_results.subrange(0, done));
            assert(longer.last() == fan_results[done]);
            match Fan::from_config(entry, &names, paths.pwm, paths.pwm_mode) {
                Err(e) => {
                    proof {
                        lemma_first_error_prefix(fan_results, done + 1);
                    }
                    return Err(e);
                },
                Ok(fan) => {
                    fans.push(fan);
                },
            }
            assert(pending_fans@ =~= config.fans@.subrange(fans@.len() as int, fan_count as int));
            assert(pending_paths@ =~= fan_paths@.subrange(fans@.len() as int, fan_count as int));
        }
        assert(fan_results.subrange(0, fans@.len() as int) =~= fan_results);
        let mut heat_sources: Vec<HeatPressureSource> = Vec::new();
        let mut pending_sources = heat_pressure_srcs;
        let mut pending_paths = source_paths;
        let source_count = pending_sources.len();
        while pending_sources.len() > 0
            invariant
                config.wf(),
                source_count == config.heat_pressure_srcs@.len() == source_paths@.len(),
                heat_sources@.len() + pending_sources@.len() == source_count,
                pending_sources@ == config.heat_pressure_srcs@.subrange(
                    heat_sources@.len() as int,
                    source_count as int,
                ),
                pending_paths@ == source_paths@.subrange(
                    heat_sources@.len() as int,
                    source_count as int,
                ),
                source_results == source_outcomes(config, source_paths@),
                first_error(fan_outcomes(config, fan_paths@)) is None,
                first_error(source_results.subrange(0, heat_sources@.len() as int)) is None,
                forall|i: int|
                    0 <= i < heat_sources@.len() ==> source_results[i] == Ok::<
                        HeatPressureSourceView,
                        ErrorView,
                    >((#[trigger] heat_sources@[i])@) && heat_sources@[i].wf(),
            decreases pending_sources.len(),
        {
            let ghost done = heat_sources@.len() as int;
            let entry = pending_sources.remove(0);
            let path = pending_paths.remove(0);
            assert(entry == config.heat_pressure_srcs@[done]);
            assert(path == source_paths@[done]);
            let ghost longer = source_results.subrange(0, done + 1);
            assert(longer.drop_last() =~= source_results.subrange(0, done));
            assert(longer.last() == source_results[done]);
            match HeatPressureSource::from_config(entry, path) {
                Err(e) => {
                    proof {
                        lemma_first_error_prefix(source_results, done + 1);
                    }
                    return Err(e);
                },
                Ok(source) => {
                    heat_sources.push(source);
                },
            }
            assert(pending_sources@ =~= config.heat_pressure_srcs@.subrange(
                heat_sources@.len() as int,
                source_count as int,
            ));
            assert(pending_paths@ =~= source_paths@.subrange(
                heat_sources@.len() as int,
                source_count as int,
            ));
        }
        assert(source_results.subrange(0, heat_sources@.len() as int) =~= source_results);
        Ok(State { sample_interval, fans, heat_sources })
    }

    /// The pause between two rounds of the control loop.
    pub fn sample_interval(&self) -> (interval: Duration)
        ensures
            interval == self.spec_sample_interval(),
    {
        self.sample_interval
    }

    /// The fans.
    pub fn fans(&self) -> (fans: &Vec<Fan>)
        ensures
            fans@ == self.spec_fans(),
    {
        &self.fans
    }

    /// The heat pressure sources.
    pub fn heat_sources(&self) -> (sources: &Vec<HeatPressureSource>)
        ensures
            sources@ == self.spec_heat_sources(),
    {
        &self.heat_sources
    }

    /// What to write to hand every fan to the firmware or to this
    /// controller: one write for each fan, in the order of the fans. The
    /// caller makes them in that order and stops at the first that fails.
    pub fn set_fan_control_modes(&self, mode: FanControlMode) -> (writes: Vec<FileWrite>)
        ensures
            writes@.len() == self.spec_fans().len(),
            forall|j: int|
                0 <= j < writes@.len() ==> (#[trigger] writes@[j]).path@
                    == self.spec_fans()[j]@.pwm_mode_path && writes@[j].value
                    == self.spec_fans()[j]@.mode_value(mode),
    {
        let mut writes: Vec<FileWrite> = Vec::new();
        let mut j: usize = 0;
        while j < self.fans.len()
            invariant
                j <= self.fans.len(),
                writes@.len() == j,
                forall|k: int|
                    0 <= k < j ==> (#[trigger] writes@[k]).path@ == self.fans@[k]@.pwm_mode_path
                        && writes@[k].value == self.fans@[k]@.mode_value(mode),
            decreases self.fans.len() - j,
        {
            writes.push(self.fans[j].set_control_mode(mode));
            j = j + 1;
        }
        writes
    }

    /// The reading that the content of the sensor file of the source at
    /// place `source` gives: the unsigned integer written in it, divided by
    /// 1000. Where the content is not an unsigned integer, the failure to
    /// report.
    pub fn reading(&self, source: usize, content: String) -> (r: Result<Number, Error>)
        requires
            source < self.spec_heat_sources().len(),
        ensures
            match r {
                Ok(value) => {
                    &&& reading_of(content@) matches Some(raw) && value.bits() == degrees_bits(raw)
                    &&& value.wf()
                    &&& value.rank() >= 0
                },
                Err(e) => reading_of(content@) is None && e@ == (ErrorView::ParsingResult {
                    value: content@,
                    filename: self.spec_heat_sources()[source as int]@.path,
                }),
            },
    {
        match parse_reading(content.as_str()) {
            Some(raw) => Ok(degrees(raw)),
            None => Err(
                Error::ParsingResult {
                    value: content,
                    filename: self.heat_sources[source].path().clone(),
                },
            ),
        }
    }

    /// What the PID engine of the source at place `source` is fed for a
    /// reading taken at `now`.
    pub fn pid_step(&self, source: usize, reading: Number, now: u64) -> (step: PidStep)
        requires
            source < self.spec_heat_sources().len(),
        ensures
            step == self.spec_heat_sources()[source as int]@.pid_step(reading, now),
    {
        self.heat_sources[source].pid_step(reading, now)
    }

    /// Hands the source at place `source` the output that its PID engine
    /// gave for the reading taken at `now`. A NaN is refused and changes
    /// nothing; any other output becomes the pressure of that source. No
    /// other source and no fan changes.
    pub fn update_heat_source(
        &mut self,
        source: usize,
        reading: Number,
        now: u64,
        engine_output: u64,
    ) -> (r: Result<(), Error>)
        requires
            old(self).wf(),
            source < old(self).spec_heat_sources().len(),
        ensures
            final(self).wf(),
            final(self).spec_sample_interval() == old(self).spec_sample_interval(),
            final(self).spec_fans() == old(self).spec_fans(),
            final(self).spec_heat_sources().len() == old(self).spec_heat_sources().len(),
            forall|i: int|
                0 <= i < old(self).spec_heat_sources().len() && i != source
                    ==> #[trigger] final(self).spec_heat_sources()[i]
                    == old(self).spec_heat_sources()[i],
            is_nan(engine_output) ==> final(self).spec_heat_sources()[source as int]@
                == old(self).spec_heat_sources()[source as int]@ && (r matches Err(e) && e@ == (
            ErrorView::PidControllerNan {
                name: old(self).spec_heat_sources()[source as int]@.name,
            })),
            !is_nan(engine_output) ==> r is Ok && final(self).spec_heat_sources()[source as int]@
                == old(self).spec_heat_sources()[source as int]@.updated(
                reading,
                now,
                engine_output,
            ),
    {
        let r = self.heat_sources[source].update(reading, now, engine_output);
        proof {
            assert forall|i: int| 0 <= i < self.heat_sources@.len() implies (
            #[trigger] self.spec_heat_sources()[i]).wf() by {
                if i != source {
                    assert(old(self).spec_heat_sources()[i].wf());
                }
            }
            assert forall|j: int| 0 <= j < self.fans@.len() implies (
            #[trigger] self.spec_fans()[j]).wf() && self.spec_fans()[j]@.indices_within(
                self.spec_heat_sources().len(),
            ) by {
                assert(old(self).spec_fans()[j].wf());
            }
        }
        r
    }

    /// What to write to run the fan at place `fan` at the speed that the
    /// heat pressure sources ask for.
    pub fn update_fan(&self, fan: usize) -> (write: FileWrite)
        requires
            self.wf(),
            fan < self.spec_fans().len(),
        ensures
            write.path@ == self.spec_fans()[fan as int]@.pwm_path,
            write.value == self.spec_fans()[fan as int]@.speed(
                self.spec_fans()[fan as int]@.pressure(self.spec_heat_sources()),
            ),
    {
        assert(self.spec_fans()[fan as int].wf());
        self.fans[fan].update(self.heat_sources.as_slice())
    }
}

/// A configuration with a fan whose lowest speed lies above its highest is
/// refused, whatever its wildcard paths match.
pub proof fn lemma_bad_bounds_rejected(
    config: Config,
    fan_paths: Seq<FanPaths>,
    source_paths: Seq<GlobOutcome>,
    fan: int,
)
    requires
        0 <= fan < config.fans@.len(),
        config.fans@[fan].min_pwm > config.fans@[fan].max_pwm,
    ensures
        construction_error(config, fan_paths, source_paths) is Some,
{
    let outcomes = fan_outcomes(config, fan_paths);
    lemma_first_error(outcomes);
    assert(outcomes[fan] is Err);
}

} // verus!
