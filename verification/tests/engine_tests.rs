use pid_control::{Controller, PIDController};
use pid_fan_controller::config;
use pid_fan_controller::heat_source::{ClampMode, HeatPressureSource};
use pid_fan_controller::number::Number;
use pid_fan_controller::reading::degrees;
use pid_fan_controller::resolve::{GlobEntry, GlobOutcome};
use pid_fan_controller::text::parse_reading;
use std::time::Duration;

fn source(set_point: f64, p: f64, i: f64, d: f64, critical: Option<f64>) -> HeatPressureSource {
    HeatPressureSource::from_config(
        config::HeatPressureSource {
            name: String::from("cpu"),
            wildcard_path: String::from("/sys/temp*"),
            pid_parameters: config::HeatPressureSourcePidParameters {
                set_point: set_point.to_bits(),
                p: p.to_bits(),
                i: i.to_bits(),
                d: d.to_bits(),
                critical_temperature: critical
                    .map(|t| Number::from_bits(t.to_bits()).expect("not a NaN")),
            },
        },
        GlobOutcome::Entries(vec![GlobEntry::Found {
            path: String::from("/sys/temp1"),
        }]),
    )
    .expect("a source")
}

fn engine(source: &HeatPressureSource) -> PIDController {
    let parameters = source.pid_parameters();
    let mut engine = PIDController::new(
        f64::from_bits(parameters.p),
        f64::from_bits(parameters.i),
        f64::from_bits(parameters.d),
    );
    engine.set_target(f64::from_bits(parameters.set_point));
    engine.set_limits(0.0, 1.0);
    engine
}

fn update(
    source: &mut HeatPressureSource,
    engine: &mut PIDController,
    content: &str,
    now: u64,
) -> f64 {
    let raw = parse_reading(content).expect("a reading");
    let reading = degrees(raw);
    assert_eq!(reading.to_bits(), (raw as f64 / 1000.0).to_bits());
    let step = source.pid_step(reading, now);
    engine.set_limits(0.0, f64::from_bits(step.clamp.ceiling().to_bits()));
    let output = engine.update(
        f64::from_bits(step.reading.to_bits()),
        Duration::from_nanos(step.elapsed_nanos).as_secs_f64(),
    );
    source
        .update(reading, now, output.to_bits())
        .expect("an update");
    assert_eq!(source.output().to_bits(), output.to_bits());
    f64::from_bits(source.output().to_bits())
}

#[test]
fn output_does_not_fall_as_the_reading_rises_above_the_set_point() {
    let mut source = source(50.0, 1.0, 0.0, 0.0, None);
    let mut engine = engine(&source);
    let mut last = 0.0;
    let mut now = 0;
    for content in ["60000\n", "61000\n", "65000\n", "70000\n", "90000\n"] {
        now += 1_000_000_000;
        let output = update(&mut source, &mut engine, content, now);
        assert!(output >= last);
        assert!((0.0..=1.0).contains(&output));
        last = output;
    }
}

#[test]
fn output_rises_toward_one_with_a_gain_that_answers_heat() {
    let mut source = source(50.0, -0.05, 0.0, 0.0, None);
    let mut engine = engine(&source);
    assert_eq!(update(&mut source, &mut engine, "40000\n", 1), 0.0);
    assert_eq!(update(&mut source, &mut engine, "50000\n", 2), 0.0);
    assert_eq!(update(&mut source, &mut engine, "60000\n", 3), 0.5);
    assert_eq!(update(&mut source, &mut engine, "65000\n", 4), 0.75);
    assert_eq!(update(&mut source, &mut engine, "70000\n", 5), 1.0);
    assert_eq!(update(&mut source, &mut engine, "90000\n", 6), 1.0);
    assert_eq!(source.clamp(), ClampMode::Normal);
}

#[test]
fn the_engine_passes_one_only_above_the_critical_temperature() {
    let mut source = source(50.0, -0.05, 0.0, 0.0, Some(80.0));
    let mut engine = engine(&source);
    assert_eq!(update(&mut source, &mut engine, "80000\n", 1), 1.0);
    assert_eq!(source.clamp(), ClampMode::Normal);
    assert_eq!(update(&mut source, &mut engine, "90000\n", 2), 2.0);
    assert_eq!(source.clamp(), ClampMode::Critical);
    assert_eq!(update(&mut source, &mut engine, "80000\n", 3), 1.0);
    assert_eq!(source.clamp(), ClampMode::Normal);
    assert_eq!(update(&mut source, &mut engine, "60000\n", 4), 0.5);
}

#[test]
fn the_integral_uses_the_time_between_updates() {
    let mut source = source(50.0, 0.0, -0.01, 0.0, None);
    let mut engine = engine(&source);
    assert_eq!(update(&mut source, &mut engine, "60000\n", 5_000_000_000), 0.0);
    let second = update(&mut source, &mut engine, "60000\n", 7_000_000_000);
    assert_eq!(second, 0.01 * 10.0 * 2.0);
    let third = update(&mut source, &mut engine, "60000\n", 7_500_000_000);
    assert_eq!(third, second + 0.01 * 10.0 * 0.5);
}

#[test]
fn an_engine_that_gives_a_nan_leaves_the_pressure_alone() {
    let mut source = source(50.0, f64::NAN, 0.0, 0.0, None);
    let mut engine = engine(&source);
    let reading = Number::from_bits(60.0f64.to_bits()).expect("not a NaN");
    let step = source.pid_step(reading, 1);
    let output = engine.update(f64::from_bits(step.reading.to_bits()), 0.0);
    assert!(output.is_nan());
    assert!(source.update(reading, 1, output.to_bits()).is_err());
    assert_eq!(source.output(), Number::one());
}
