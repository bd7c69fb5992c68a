//! Fans.
//!
//! A fan takes the highest pressure among the heat pressure sources that
//! drive it and turns it into a PWM value between its lowest and its highest
//! speed. What is to be written to which file is handed back to the caller
//! as a [`FileWrite`].

use crate::config;
use crate::error::{Error, ErrorView};
use crate::heat_source::HeatPressureSource;
use crate::number::{Number, ONE_BITS};
use crate::order::lemma_scaled_steps_monotone;
use crate::resolve::{match_single_file_glob, single_match, GlobOutcome};
use crate::scaling::{
    lemma_scaled_by_one, lemma_scaled_by_zero, lemma_scaled_within_span, scale, scaled_steps,
};
use crate::text::{decimal, decimal_digits};
use vstd::prelude::*;

verus! {

/// Who controls a fan.
#[derive(Clone, Copy, Debug, PartialEq, Eq)]
pub enum FanControlMode {
    /// The firmware.
    Auto,
    /// This controller.
    Manual,
}

/// A value to be written to a fan file.
#[derive(Debug, PartialEq, Eq)]
pub struct FileWrite {
    /// The path of the file.
    pub path: String,
    /// The value.
    pub value: u32,
}

impl FileWrite {
    /// The content that the file takes: the decimal digits of the value and
    /// nothing else.
    pub fn contents(&self) -> (text: String)
        ensures
            text@ == decimal_digits(self.value as nat),
    {
        decimal(self.value)
    }

    /// The failure to report where the write did not succeed for the given
    /// reason.
    pub fn failure(self, reason: String) -> (e: Error)
        ensures
            e@ == (ErrorView::WritingFile {
                value: self.value,
                filename: self.path@,
                reason: reason@,
            }),
    {
        Error::WritingFile { value: self.value, filename: self.path, reason }
    }
}

/// A fan and what drives it.
#[derive(Debug)]
pub struct Fan {
    name: String,
    pwm_path: String,
    min_pwm: u32,
    max_pwm: u32,
    max_pwm_when_critical: u32,
    heat_sources_indices: Vec<usize>,
    pwm_mode_manual: u32,
    pwm_mode_auto: u32,
    pwm_mode_path: String,
}

/// A fan with its texts as sequences of characters.
pub struct FanView {
    /// The name of the fan.
    pub name: Seq<char>,
    /// The path of the PWM file.
    pub pwm_path: Seq<char>,
    /// The PWM value at pressure 0.
    pub min_pwm: u32,
    /// The PWM value at pressure 1.
    pub max_pwm: u32,
    /// The highest PWM value at a pressure above 1.
    pub max_pwm_when_critical: u32,
    /// The places, in the list of heat pressure sources, of the sources that
    /// drive the fan.
    pub heat_sources_indices: Seq<usize>,
    /// The value that hands the fan to this controller.
    pub pwm_mode_manual: u32,
    /// The value that hands the fan back to the firmware.
    pub pwm_mode_auto: u32,
    /// The path of the mode file.
    pub pwm_mode_path: Seq<char>,
}

/// The views of a list of texts.
pub open spec fn texts(strings: Seq<String>) -> Seq<Seq<char>> {
    Seq::new(strings.len(), |i: int| strings[i]@)
}

/// The place of the source called `name` in the list of source names; of
/// several sources of that name, the last.
pub open spec fn source_index(names: Seq<Seq<char>>, name: Seq<char>) -> Option<int>
    decreases names.len(),
{
    if names.len() == 0 {
        None
    } else if names.last() == name {
        Some(names.len() - 1)
    } else {
        source_index(names.drop_last(), name)
    }
}

/// The first place at or after `from` in `references` of a name that no
/// source has.
pub open spec fn first_unknown(
    names: Seq<Seq<char>>,
    references: Seq<Seq<char>>,
    from: int,
) -> Option<int>
    decreases references.len() - from,
{
    if from < 0 || from >= references.len() {
        None
    } else if source_index(names, references[from]) is None {
        Some(from)
    } else {
        first_unknown(names, references, from + 1)
    }
}

/// The highest of the values; of several that are equal, the last. The
/// empty sequence gives 1.
pub open spec fn strongest(values: Seq<Number>) -> Number
    decreases values.len(),
{
    if values.len() == 0 {
        Number::one()
    } else if values.len() == 1 {
        values[0]
    } else {
        let rest = strongest(values.drop_last());
        if values.last().rank() >= rest.rank() {
            values.last()
        } else {
            rest
        }
    }
}

/// The pressures of the sources at the given places.
pub open spec fn referenced_outputs(
    indices: Seq<usize>,
    heat_sources: Seq<HeatPressureSource>,
) -> Seq<Number> {
    Seq::new(indices.len(), |k: int| heat_sources[indices[k] as int]@.last_output_value)
}

impl FanView {
    /// The lowest speed does not lie above the highest.
    pub open spec fn wf(self) -> bool {
        self.min_pwm <= self.max_pwm
    }

    /// The value that selects a control mode.
    pub open spec fn mode_value(self, mode: FanControlMode) -> u32 {
        match mode {
            FanControlMode::Auto => self.pwm_mode_auto,
            FanControlMode::Manual => self.pwm_mode_manual,
        }
    }

    /// The PWM value for a pressure: the lowest speed plus the share of the
    /// span between lowest and highest speed that the pressure takes, but
    /// no more than the highest value allowed at a critical temperature.
    pub open spec fn speed(self, percent: Number) -> nat {
        let raised = self.min_pwm as nat + scaled_steps(
            (self.max_pwm - self.min_pwm) as u32,
            percent,
        );
        if raised < self.max_pwm_when_critical {
            raised
        } else {
            self.max_pwm_when_critical as nat
        }
    }

    /// Every source that drives the fan is in a list of `count` sources.
    pub open spec fn indices_within(self, count: nat) -> bool {
        forall|k: int|
            0 <= k < self.heat_sources_indices.len() ==> (#[trigger] self.heat_sources_indices[k])
                < count
    }

    /// The pressure on the fan: the highest pressure among the sources that
    /// drive it, and 1 where none does.
    pub open spec fn pressure(self, heat_sources: Seq<HeatPressureSource>) -> Number {
        strongest(referenced_outputs(self.heat_sources_indices, heat_sources))
    }
}

impl View for Fan {
    type V = FanView;

    closed spec fn view(&self) -> FanView {
        FanView {
            name: self.name@,
            pwm_path: self.pwm_path@,
            min_pwm: self.min_pwm,
            max_pwm: self.max_pwm,
            max_pwm_when_critical: self.max_pwm_when_critical,
            heat_sources_indices: self.heat_sources_indices@,
            pwm_mode_manual: self.pwm_mode_manual,
            pwm_mode_auto: self.pwm_mode_auto,
            pwm_mode_path: self.pwm_mode_path@,
        }
    }
}

/// The fan that a configuration entry describes, or the first reason why
/// there is none: its lowest speed lies above its highest; it names a heat
/// pressure source that is not in `names`; its PWM file or, after that, its
/// mode file is not the one match of its wildcard path.
pub open spec fn fan_from_config(
    fan: config::Fan,
    names: Seq<Seq<char>>,
    pwm_path: GlobOutcome,
    pwm_mode_path: GlobOutcome,
) -> Result<FanView, ErrorView> {
    let references = texts(fan.heat_pressure_srcs@);
    if fan.min_pwm > fan.max_pwm {
        Err(
            ErrorView::PwmMinMaxOutOfBounds {
                min_pwm: fan.min_pwm,
                max_pwm: fan.max_pwm,
                name: fan.name@,
            },
        )
    } else {
        match first_unknown(names, references, 0) {
            Some(k) => Err(
                ErrorView::UnknownHeatSource { fan: fan.name@, heat_source: references[k] },
            ),
            None => match single_match(fan.wildcard_path@, pwm_path) {
                Err(e) => Err(e),
                Ok(pwm) => match single_match(
                    fan.pwm_modes.pwm_mode_wildcard_path@,
                    pwm_mode_path,
                ) {
                    Err(e) => Err(e),
                    Ok(mode) => Ok(
                        FanView {
                            name: fan.name@,
                            pwm_path: pwm,
                            min_pwm: fan.min_pwm,
                            max_pwm: fan.max_pwm,
                            max_pwm_when_critical: match fan.max_pwm_when_critical {
                                Some(v) => v,
                                None => fan.max_pwm,
                            },
                            heat_sources_indices: Seq::new(
                                references.len(),
                                |k: int| source_index(names, references[k]).unwrap() as usize,
                            ),
                            pwm_mode_manual: fan.pwm_modes.manual,
                            pwm_mode_auto: fan.pwm_modes.auto,
                            pwm_mode_path: mode,
                        },
                    ),
                },
            },
        }
    }
}

/// The place that `source_index` gives holds the name, and no later place
/// does.
pub proof fn lemma_source_index(names: Seq<Seq<char>>, name: Seq<char>)
    ensures
        match source_index(names, name) {
            Some(i) => 0 <= i < names.len() && names[i] == name && forall|j: int|
                i < j < names.len() ==> names[j] != name,
            None => forall|j: int| 0 <= j < names.len() ==> names[j] != name,
        },
    decreases names.len(),
{
    if names.len() > 0 && names.last() != name {
        let shorter = names.drop_last();
        lemma_source_index(shorter, name);
        match source_index(shorter, name) {
            Some(i) => {
                assert(names[i] == shorter[i]);
                assert forall|j: int| i < j < names.len() implies names[j] != name by {
                    if j < shorter.len() {
                        assert(names[j] == shorter[j]);
                    }
                }
            },
            None => {
                assert forall|j: int| 0 <= j < names.len() implies names[j] != name by {
                    if j < shorter.len() {
                        assert(names[j] == shorter[j]);
                    }
                }
            },
        }
    }
}

/// Where no name is unknown from `from` on, every reference from there on
/// names a source.
pub proof fn lemma_first_unknown(names: Seq<Seq<char>>, references: Seq<Seq<char>>, from: int)
    requires
        0 <= from,
        first_unknown(names, references, from) is None,
    ensures
        forall|k: int|
            from <= k < references.len() ==> source_index(names, #[trigger] references[k]) is Some,
    decreases references.len() - from,
{
    if from < references.len() {
        lemma_first_unknown(names, references, from + 1);
    }
}

/// A fan that was built refers to sources that exist and bear the names
/// that its entry gave: each place among its sources lies within the list
/// of names and holds the name of the reference that it stands for.
pub proof fn lemma_references_resolve(
    fan: config::Fan,
    names: Seq<Seq<char>>,
    pwm_path: GlobOutcome,
    pwm_mode_path: GlobOutcome,
)
    requires
        fan_from_config(fan, names, pwm_path, pwm_mode_path) is Ok,
    ensures
        ({
            let built = fan_from_config(fan, names, pwm_path, pwm_mode_path)->Ok_0;
            let references = texts(fan.heat_pressure_srcs@);
            &&& built.wf()
            &&& built.heat_sources_indices.len() == references.len()
            &&& names.len() <= usize::MAX ==> forall|k: int|
                0 <= k < references.len() ==> (#[trigger] built.heat_sources_indices[k])
                    < names.len() && names[built.heat_sources_indices[k] as int]
                    == references[k]
        }),
{
    let built = fan_from_config(fan, names, pwm_path, pwm_mode_path)->Ok_0;
    let references = texts(fan.heat_pressure_srcs@);
    lemma_first_unknown(names, references, 0);
    if names.len() <= usize::MAX {
        assert forall|k: int| 0 <= k < references.len() implies (
        #[trigger] built.heat_sources_indices[k]) < names.len()
            && names[built.heat_sources_indices[k] as int] == references[k] by {
            lemma_source_index(names, references[k]);
        }
    }
}

/// The place of the source called `name` in `names`; of several, the last.
fn find_source(names: &Vec<String>, name: &String) -> (r: Option<usize>)
    ensures
        match r {
            Some(i) => source_index(texts(names@), name@) == Some(i as int) && i < names.len(),
            None => source_index(texts(names@), name@) is None,
        },
{
    let mut i: usize = names.len();
    let ghost all = texts(names@);
    assert(all.subrange(0, i as int) =~= all);
    while i > 0
        invariant
            i <= names.len(),
            all == texts(names@),
            source_index(all, name@) == source_index(all.subrange(0, i as int), name@),
        decreases i,
    {
        let ghost prefix = all.subrange(0, i as int);
        assert(prefix.drop_last() =~= all.subrange(0, i - 1));
        assert(prefix.last() == names@[i - 1]@);
        i = i - 1;
        if names[i] == *name {
            return Some(i);
        }
    }
    assert(all.subrange(0, 0).len() == 0);
    None
}

impl Fan {
    /// The fan satisfies what its configuration was checked for.
    pub open spec fn wf(&self) -> bool {
        self@.wf()
    }

    /// Builds the fan that a configuration entry describes.
    /// `heat_source_names` holds the names of the heat pressure sources in
    /// the order of the configuration; `pwm_path` and `pwm_mode_path` are
    /// what matching the two wildcard paths of the entry gave.
    pub fn from_config(
        fan: config::Fan,
        heat_source_names: &Vec<String>,
        pwm_path: GlobOutcome,
        pwm_mode_path: GlobOutcome,
    ) -> (r: Result<Fan, Error>)
        ensures
            match r {
                Ok(f) => {
                    &&& fan_from_config(fan, texts(heat_source_names@), pwm_path, pwm_mode_path)
                        == Ok::<FanView, ErrorView>(f@)
                    &&& f.wf()
                    &&& f@.indices_within(heat_source_names@.len())
                },
                Err(e) => fan_from_config(fan, texts(heat_source_names@), pwm_path, pwm_mode_path)
                    == Err::<FanView, ErrorView>(e@),
            },
    {
        if fan.min_pwm > fan.max_pwm {
            return Err(
                Error::PwmMinMaxOutOfBounds {
                    min_pwm: fan.min_pwm,
                    max_pwm: fan.max_pwm,
                    name: fan.name,
                },
            );
        }
        let ghost names = texts(heat_source_names@);
        let ghost references = texts(fan.heat_pressure_srcs@);
        let mut indices: Vec<usize> = Vec::new();
        let mut k: usize = 0;
        while k < fan.heat_pressure_srcs.len()
            invariant
                k <= fan.heat_pressure_srcs.len(),
                fan.min_pwm <= fan.max_pwm,
                names == texts(heat_source_names@),
                references == texts(fan.heat_pressure_srcs@),
                first_unknown(names, references, 0) == first_unknown(names, references, k as int),
                indices@.len() == k,
                forall|j: int|
                    0 <= j < k ==> source_index(names, references[j]) == Some(
                        (#[trigger] indices@[j]) as int,
                    ) && indices@[j] < heat_source_names@.len(),
            decreases fan.heat_pressure_srcs.len() - k,
        {
            assert(references[k as int] == fan.heat_pressure_srcs@[k as int]@);
            match find_source(heat_source_names, &fan.heat_pressure_srcs[k]) {
                None => {
                    assert(first_unknown(names, references, k as int) == Some(k as int));
                    return Err(
                        Error::UnknownHeatSource {
                            fan: fan.name,
                            heat_source: fan.heat_pressure_srcs[k].clone(),
                        },
                    );
                },
                Some(i) => {
                    indices.push(i);
                },
            }
            k = k + 1;
        }
        let pwm = match match_single_file_glob(fan.wildcard_path.as_str(), pwm_path) {
            Err(e) => {
                return Err(e);
            },
            Ok(p) => p,
        };
        let mode = match match_single_file_glob(
            fan.pwm_modes.pwm_mode_wildcard_path.as_str(),
            pwm_mode_path,
        ) {
            Err(e) => {
                return Err(e);
            },
            Ok(p) => p,
        };
        let max_pwm_when_critical = match fan.max_pwm_when_critical {
            Some(v) => v,
            None => fan.max_pwm,
        };
        let built = Fan {
            name: fan.name,
            pwm_path: pwm,
            min_pwm: fan.min_pwm,
            max_pwm: fan.max_pwm,
            max_pwm_when_critical,
            heat_sources_indices: indices,
            pwm_mode_manual: fan.pwm_modes.manual,
            pwm_mode_auto: fan.pwm_modes.auto,
            pwm_mode_path: mode,
        };
        proof {
            let expected = fan_from_config(fan, names, pwm_path, pwm_mode_path);
            assert(expected is Ok);
            assert(built@.heat_sources_indices =~= expected->Ok_0.heat_sources_indices);
        }
        Ok(built)
    }

    /// The name of the fan.
    pub fn name(&self) -> (name: &String)
        ensures
            name@ == self@.name,
    {
        &self.name
    }

    /// The path of the PWM file.
    pub fn pwm_path(&self) -> (path: &String)
        ensures
            path@ == self@.pwm_path,
    {
        &self.pwm_path
    }

    /// The path of the mode file.
    pub fn pwm_mode_path(&self) -> (path: &String)
        ensures
            path@ == self@.pwm_mode_path,
    {
        &self.pwm_mode_path
    }

    /// The PWM value at pressure 0.
    pub fn min_pwm(&self) -> (v: u32)
        ensures
            v == self@.min_pwm,
    {
        self.min_pwm
    }

    /// The PWM value at pressure 1.
    pub fn max_pwm(&self) -> (v: u32)
        ensures
            v == self@.max_pwm,
    {
        self.max_pwm
    }

    /// The highest PWM value at a pressure above 1.
    pub fn max_pwm_when_critical(&self) -> (v: u32)
        ensures
            v == self@.max_pwm_when_critical,
    {
        self.max_pwm_when_critical
    }

    /// The places of the sources that drive the fan.
    pub fn heat_sources_indices(&self) -> (indices: &Vec<usize>)
        ensures
            indices@ == self@.heat_sources_indices,
    {
        &self.heat_sources_indices
    }

    /// What to write to hand the fan to the firmware or to this controller:
    /// the value of that mode, to the mode file.
    pub fn set_control_mode(&self, mode: FanControlMode) -> (write: FileWrite)
        ensures
            write.path@ == self@.pwm_mode_path,
            write.value == self@.mode_value(mode),
    {
        FileWrite {
            path: self.pwm_mode_path.clone(),
            value: match mode {
                FanControlMode::Auto => self.pwm_mode_auto,
                FanControlMode::Manual => self.pwm_mode_manual,
            },
        }
    }

    /// What to write to run the fan at the speed that the pressure asks
    /// for. A pressure above 1 may take the speed above the highest normal
    /// one, up to the highest allowed at a critical temperature.
    pub fn set_pwm_speed_percent(&self, percent: Number) -> (write: FileWrite)
        requires
            self.wf(),
            percent.wf(),
            percent.rank() >= 0,
        ensures
            write.path@ == self@.pwm_path,
            write.value == self@.speed(percent),
    {
        let steps = scale(self.max_pwm - self.min_pwm, percent);
        let raised: u64 = self.min_pwm as u64 + steps as u64;
        let speed: u32 = if raised < self.max_pwm_when_critical as u64 {
            raised as u32
        } else {
            self.max_pwm_when_critical
        };
        FileWrite { path: self.pwm_path.clone(), value: speed }
    }

    /// The pressure on the fan: the highest pressure among the sources that
    /// drive it, and 1 where none does.
    pub fn pressure(&self, heat_sources: &[HeatPressureSource]) -> (percent: Number)
        requires
            self@.indices_within(heat_sources@.len()),
        ensures
            percent == self@.pressure(heat_sources@),
    {
        let ghost values = referenced_outputs(self.heat_sources_indices@, heat_sources@);
        let count = self.heat_sources_indices.len();
        if count == 0 {
            return Number::one();
        }
        assert(self@.heat_sources_indices[0] < heat_sources@.len());
        let mut best = heat_sources[self.heat_sources_indices[0]].output();
        let mut k: usize = 1;
        assert(values.subrange(0, 1).len() == 1);
        while k < count
            invariant
                1 <= k <= count == self.heat_sources_indices@.len(),
                self@.indices_within(heat_sources@.len()),
                values == referenced_outputs(self.heat_sources_indices@, heat_sources@),
                best == strongest(values.subrange(0, k as int)),
            decreases count - k,
        {
            let ghost longer = values.subrange(0, k + 1);
            assert(longer.drop_last() =~= values.subrange(0, k as int));
            assert(self@.heat_sources_indices[k as int] < heat_sources@.len());
            let candidate = heat_sources[self.heat_sources_indices[k]].output();
            assert(longer.last() == candidate);
            if !candidate.lt(best) {
                best = candidate;
            }
            k = k + 1;
        }
        assert(values.subrange(0, count as int) =~= values);
        best
    }

    /// What to write to run the fan at the speed that the heat pressure
    /// sources ask for.
    pub fn update(&self, heat_sources: &[HeatPressureSource]) -> (write: FileWrite)
        requires
            self.wf(),
            self@.indices_within(heat_sources@.len()),
            forall|i: int| 0 <= i < heat_sources@.len() ==> (#[trigger] heat_sources@[i]).wf(),
        ensures
            write.path@ == self@.pwm_path,
            write.value == self@.speed(self@.pressure(heat_sources@)),
    {
        let percent = self.pressure(heat_sources);
        proof {
            lemma_pressure_is_sound(self@, heat_sources@);
        }
        self.set_pwm_speed_percent(percent)
    }
}

/// The highest of some values is one of them, and none of them is higher.
pub proof fn lemma_strongest_is_maximum(values: Seq<Number>)
    requires
        values.len() > 0,
    ensures
        exists|k: int| 0 <= k < values.len() && values[k] == strongest(values),
        forall|j: int| 0 <= j < values.len() ==> values[j].rank() <= strongest(values).rank(),
    decreases values.len(),
{
    if values.len() == 1 {
        assert(values[0] == strongest(values));
    } else {
        let shorter = values.drop_last();
        lemma_strongest_is_maximum(shorter);
        let k = choose|k: int| 0 <= k < shorter.len() && shorter[k] == strongest(shorter);
        if values.last().rank() >= strongest(shorter).rank() {
            assert(values[values.len() - 1] == strongest(values));
        } else {
            assert(values[k] == strongest(values));
        }
        assert forall|j: int| 0 <= j < values.len() implies values[j].rank() <= strongest(
            values,
        ).rank() by {
            if j < shorter.len() {
                assert(shorter[j] == values[j]);
            }
        }
    }
}

/// A fan that several sources drive is under the pressure of the one that
/// presses most: the pressure on the fan is the pressure of one of its
/// sources, and no source of the fan has a higher one.
pub proof fn lemma_pressure_is_maximum(fan: FanView, heat_sources: Seq<HeatPressureSource>)
    requires
        fan.heat_sources_indices.len() > 0,
    ensures
        exists|k: int|
            0 <= k < fan.heat_sources_indices.len() && heat_sources[fan.heat_sources_indices[k] as int]@.last_output_value
                == fan.pressure(heat_sources),
        forall|j: int|
            0 <= j < fan.heat_sources_indices.len()
                ==> heat_sources[fan.heat_sources_indices[j] as int]@.last_output_value.rank()
                <= fan.pressure(heat_sources).rank(),
{
    let values = referenced_outputs(fan.heat_sources_indices, heat_sources);
    lemma_strongest_is_maximum(values);
    let k = choose|k: int| 0 <= k < values.len() && values[k] == strongest(values);
    assert(heat_sources[fan.heat_sources_indices[k] as int]@.last_output_value == fan.pressure(
        heat_sources,
    ));
    assert forall|j: int| 0 <= j < fan.heat_sources_indices.len() implies heat_sources[fan.heat_sources_indices[j] as int]@.last_output_value.rank()
        <= fan.pressure(heat_sources).rank() by {
        assert(values[j].rank() <= strongest(values).rank());
    }
}

/// A fan that no source drives is under the pressure 1, whatever the
/// sources say.
pub proof fn lemma_pressure_without_sources(fan: FanView, heat_sources: Seq<HeatPressureSource>)
    requires
        fan.heat_sources_indices.len() == 0,
    ensures
        fan.pressure(heat_sources) == Number::one(),
{
}

/// The pressure on a fan whose sources are sound is a number that is not
/// below 0.
pub proof fn lemma_pressure_is_sound(fan: FanView, heat_sources: Seq<HeatPressureSource>)
    requires
        fan.indices_within(heat_sources.len()),
        forall|i: int| 0 <= i < heat_sources.len() ==> (#[trigger] heat_sources[i]).wf(),
    ensures
        fan.pressure(heat_sources).wf(),
        fan.pressure(heat_sources).rank() >= 0,
{
    Number::lemma_of_bits(ONE_BITS);
    let values = referenced_outputs(fan.heat_sources_indices, heat_sources);
    if values.len() > 0 {
        lemma_strongest_is_maximum(values);
        let k = choose|k: int| 0 <= k < values.len() && values[k] == strongest(values);
        assert(heat_sources[fan.heat_sources_indices[k] as int].wf());
    }
}

/// The speed of a fan stays within its bounds: it never passes the highest
/// value allowed at a critical temperature; at a pressure from 0 to 1 it
/// does not pass the highest normal speed; and it does not fall below the
/// lowest speed, unless the highest value allowed at a critical temperature
/// is itself configured below that.
pub proof fn lemma_speed_in_range(fan: FanView, percent: Number)
    requires
        fan.wf(),
        percent.wf(),
        percent.rank() >= 0,
    ensures
        fan.speed(percent) <= fan.max_pwm_when_critical,
        percent.rank() <= ONE_BITS ==> fan.speed(percent) <= fan.max_pwm,
        fan.min_pwm <= fan.max_pwm_when_critical ==> fan.min_pwm <= fan.speed(percent),
{
    if percent.rank() <= ONE_BITS {
        lemma_scaled_within_span((fan.max_pwm - fan.min_pwm) as u32, percent);
    }
}

/// At pressure 0 a fan runs at its lowest speed and at pressure 1 at its
/// highest normal speed, each held to the highest value allowed at a
/// critical temperature.
pub proof fn lemma_speed_at_the_ends(fan: FanView)
    requires
        fan.wf(),
    ensures
        fan.speed(Number::zero()) == if fan.min_pwm < fan.max_pwm_when_critical {
            fan.min_pwm
        } else {
            fan.max_pwm_when_critical
        },
        fan.speed(Number::one()) == if fan.max_pwm < fan.max_pwm_when_critical {
            fan.max_pwm
        } else {
            fan.max_pwm_when_critical
        },
{
    lemma_scaled_by_zero((fan.max_pwm - fan.min_pwm) as u32);
    lemma_scaled_by_one((fan.max_pwm - fan.min_pwm) as u32);
}

/// More pressure never slows a fan: of two pressures that are not below 0,
/// the higher gives a speed that is as high as that of the lower, or
/// higher.
pub proof fn lemma_speed_monotone(fan: FanView, lower: Number, higher: Number)
    requires
        fan.wf(),
        lower.wf(),
        higher.wf(),
        0 <= lower.rank() <= higher.rank(),
    ensures
        fan.speed(lower) <= fan.speed(higher),
{
    lemma_scaled_steps_monotone((fan.max_pwm - fan.min_pwm) as u32, lower, higher);
}

} // verus!
