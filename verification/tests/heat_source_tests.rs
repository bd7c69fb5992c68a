use pid_fan_controller::config;
use pid_fan_controller::error::Error;
use pid_fan_controller::heat_source::{ClampMode, HeatPressureSource, PidStep};
use pid_fan_controller::number::Number;
use pid_fan_controller::resolve::{GlobEntry, GlobOutcome};

fn num(x: f64) -> Number {
    Number::from_bits(x.to_bits()).expect("not a NaN")
}

fn entry(critical: Option<f64>) -> config::HeatPressureSource {
    config::HeatPressureSource {
        name: String::from("cpu"),
        wildcard_path: String::from("/sys/hwmon*/temp1_input"),
        pid_parameters: config::HeatPressureSourcePidParameters {
            set_point: 50.0f64.to_bits(),
            p: (-0.05f64).to_bits(),
            i: (-0.001f64).to_bits(),
            d: 0.0f64.to_bits(),
            critical_temperature: critical.map(num),
        },
    }
}

fn source(critical: Option<f64>) -> HeatPressureSource {
    HeatPressureSource::from_config(
        entry(critical),
        GlobOutcome::Entries(vec![GlobEntry::Found {
            path: String::from("/sys/hwmon1/temp1_input"),
        }]),
    )
    .expect("a source")
}

#[test]
fn a_source_starts_at_full_pressure() {
    let source = source(Some(80.0));
    assert_eq!(source.name(), "cpu");
    assert_eq!(source.path(), "/sys/hwmon1/temp1_input");
    assert_eq!(source.output(), Number::one());
    assert_eq!(source.output().to_bits(), 1.0f64.to_bits());
    assert_eq!(source.last_update_time(), None);
    assert_eq!(source.clamp(), ClampMode::Normal);
    assert_eq!(source.critical_temperature(), num(80.0));
    let parameters = source.pid_parameters();
    assert_eq!(f64::from_bits(parameters.set_point), 50.0);
    assert_eq!(f64::from_bits(parameters.p), -0.05);
    assert_eq!(f64::from_bits(parameters.i), -0.001);
    assert_eq!(f64::from_bits(parameters.d), 0.0);
}

#[test]
fn without_a_critical_temperature_the_threshold_is_infinite() {
    let source = source(None);
    assert_eq!(source.critical_temperature(), Number::infinity());
    assert_eq!(source.pid_step(num(1e300), 0).clamp, ClampMode::Normal);
    assert_eq!(
        source.pid_step(num(f64::INFINITY), 0).clamp,
        ClampMode::Normal
    );
}

#[test]
fn a_source_needs_its_one_sensor_file() {
    let r = HeatPressureSource::from_config(entry(None), GlobOutcome::Entries(vec![]));
    assert_eq!(
        r.err(),
        Some(Error::GlobMatchesNone {
            glob: String::from("/sys/hwmon*/temp1_input")
        })
    );
    let r = HeatPressureSource::from_config(
        entry(None),
        GlobOutcome::Entries(vec![
            GlobEntry::Found {
                path: String::from("/sys/hwmon1/temp1_input"),
            },
            GlobEntry::Found {
                path: String::from("/sys/hwmon2/temp1_input"),
            },
        ]),
    );
    assert_eq!(
        r.err(),
        Some(Error::GlobMatchesMultiple {
            glob: String::from("/sys/hwmon*/temp1_input")
        })
    );
}

#[test]
fn the_ceiling_of_each_range() {
    assert_eq!(ClampMode::Normal.ceiling().to_bits(), 1.0f64.to_bits());
    assert_eq!(
        ClampMode::Critical.ceiling().to_bits(),
        f64::INFINITY.to_bits()
    );
}

#[test]
fn the_first_step_has_no_time_behind_it() {
    let source = source(Some(80.0));
    assert_eq!(
        source.pid_step(num(60.0), 123_456_789),
        PidStep {
            reading: num(60.0),
            elapsed_nanos: 0,
            clamp: ClampMode::Normal,
        }
    );
}

#[test]
fn a_later_step_has_the_time_since_the_last_update() {
    let mut source = source(Some(80.0));
    source
        .update(num(60.0), 1_000_000_000, 0.5f64.to_bits())
        .expect("an update");
    assert_eq!(source.last_update_time(), Some(1_000_000_000));
    assert_eq!(source.pid_step(num(61.0), 3_500_000_000).elapsed_nanos, 2_500_000_000);
    assert_eq!(source.pid_step(num(61.0), 1_000_000_000).elapsed_nanos, 0);
    assert_eq!(source.pid_step(num(61.0), 999_999_999).elapsed_nanos, 0);
    assert_eq!(source.pid_step(num(61.0), u64::MAX).elapsed_nanos, u64::MAX - 1_000_000_000);
}

#[test]
fn only_a_reading_above_the_critical_temperature_lifts_the_ceiling() {
    let source = source(Some(80.0));
    assert_eq!(source.pid_step(num(79.999), 0).clamp, ClampMode::Normal);
    assert_eq!(source.pid_step(num(80.0), 0).clamp, ClampMode::Normal);
    assert_eq!(source.pid_step(num(80.001), 0).clamp, ClampMode::Critical);
    assert_eq!(source.pid_step(num(0.0), 0).clamp, ClampMode::Normal);
    assert_eq!(source.pid_step(num(1e9), 0).clamp, ClampMode::Critical);
}

#[test]
fn an_update_keeps_the_output_of_the_engine() {
    let mut source = source(Some(80.0));
    assert_eq!(source.update(num(60.0), 10, 0.5f64.to_bits()), Ok(()));
    assert_eq!(source.output(), num(0.5));
    assert_eq!(source.last_update_time(), Some(10));
    assert_eq!(source.clamp(), ClampMode::Normal);
    assert_eq!(source.update(num(55.0), 20, 0.0f64.to_bits()), Ok(()));
    assert_eq!(source.output(), num(0.0));
    assert_eq!(source.last_update_time(), Some(20));
}

#[test]
fn a_nan_is_refused_and_changes_nothing() {
    let mut source = source(Some(80.0));
    source
        .update(num(90.0), 10, 1.75f64.to_bits())
        .expect("an update");
    for bits in [f64::NAN.to_bits(), 0x7FF0_0000_0000_0001, u64::MAX] {
        assert_eq!(
            source.update(num(60.0), 20, bits),
            Err(Error::PidControllerNan {
                name: String::from("cpu")
            })
        );
        assert_eq!(source.output(), num(1.75));
        assert_eq!(source.last_update_time(), Some(10));
        assert_eq!(source.clamp(), ClampMode::Critical);
    }
    let fresh = self::source(Some(80.0));
    let mut fresh = fresh;
    assert!(fresh.update(num(60.0), 20, f64::NAN.to_bits()).is_err());
    assert_eq!(fresh.output(), Number::one());
    assert_eq!(fresh.last_update_time(), None);
}

#[test]
fn the_output_is_held_to_the_range_of_its_update() {
    let mut source = source(Some(80.0));
    source.update(num(60.0), 1, 1.5f64.to_bits()).expect("ok");
    assert_eq!(source.output(), num(1.0));
    source.update(num(60.0), 2, (-0.5f64).to_bits()).expect("ok");
    assert_eq!(source.output(), num(0.0));
    source
        .update(num(60.0), 3, f64::INFINITY.to_bits())
        .expect("ok");
    assert_eq!(source.output(), num(1.0));
    source
        .update(num(60.0), 4, f64::NEG_INFINITY.to_bits())
        .expect("ok");
    assert_eq!(source.output(), num(0.0));
    source.update(num(90.0), 5, 1.5f64.to_bits()).expect("ok");
    assert_eq!(source.output(), num(1.5));
    source
        .update(num(90.0), 6, f64::INFINITY.to_bits())
        .expect("ok");
    assert_eq!(source.output(), Number::infinity());
    source.update(num(90.0), 7, (-2.0f64).to_bits()).expect("ok");
    assert_eq!(source.output(), num(0.0));
}

#[test]
fn below_the_critical_temperature_the_ceiling_stands() {
    let mut source = source(Some(80.0));
    let mut now = 0;
    for reading in [20.0, 79.0, 45.5, 80.0, 0.0, 79.9999, 60.0] {
        now += 1_000_000_000;
        let step = source.pid_step(num(reading), now);
        assert_eq!(step.clamp, ClampMode::Normal);
        assert_eq!(step.clamp.ceiling(), Number::one());
        source
            .update(num(reading), now, 3.25f64.to_bits())
            .expect("an update");
        assert_eq!(source.clamp(), ClampMode::Normal);
        assert!(!source.output().gt(Number::one()));
    }
}

#[test]
fn the_ceiling_returns_with_the_first_cool_reading() {
    let mut source = source(Some(80.0));
    assert_eq!(source.pid_step(num(85.0), 1).clamp, ClampMode::Critical);
    source.update(num(85.0), 1, 1.6f64.to_bits()).expect("ok");
    assert_eq!(source.clamp(), ClampMode::Critical);
    assert_eq!(source.output(), num(1.6));
    assert_eq!(source.pid_step(num(80.0), 2).clamp, ClampMode::Normal);
    source.update(num(80.0), 2, 1.6f64.to_bits()).expect("ok");
    assert_eq!(source.clamp(), ClampMode::Normal);
    assert_eq!(source.output(), num(1.0));
}

#[test]
fn a_sensor_that_cannot_be_read_is_reported_with_its_file() {
    assert_eq!(
        source(None).read_failure(String::from("No such file or directory")),
        Error::ReadingFile {
            filename: String::from("/sys/hwmon1/temp1_input"),
            reason: String::from("No such file or directory"),
        }
    );
}
