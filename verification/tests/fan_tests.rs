use pid_fan_controller::config;
use pid_fan_controller::error::Error;
use pid_fan_controller::fan::{Fan, FanControlMode, FileWrite};
use pid_fan_controller::heat_source::HeatPressureSource;
use pid_fan_controller::number::Number;
use pid_fan_controller::resolve::{GlobEntry, GlobOutcome};

fn num(x: f64) -> Number {
    Number::from_bits(x.to_bits()).expect("not a NaN")
}

fn one_file(path: &str) -> GlobOutcome {
    GlobOutcome::Entries(vec![GlobEntry::Found {
        path: String::from(path),
    }])
}

fn names(list: &[&str]) -> Vec<String> {
    list.iter().map(|s| String::from(*s)).collect()
}

fn entry(min_pwm: u32, max_pwm: u32, critical: Option<u32>, sources: &[&str]) -> config::Fan {
    config::Fan {
        name: String::from("cpu_fan"),
        wildcard_path: String::from("/sys/hwmon*/pwm1"),
        pwm_modes: config::FanPwmModes {
            manual: 1,
            auto: 5,
            pwm_mode_wildcard_path: String::from("/sys/hwmon*/pwm1_enable"),
        },
        min_pwm,
        max_pwm,
        max_pwm_when_critical: critical,
        heat_pressure_srcs: names(sources),
    }
}

fn fan(min_pwm: u32, max_pwm: u32, critical: Option<u32>, sources: &[&str]) -> Fan {
    Fan::from_config(
        entry(min_pwm, max_pwm, critical, sources),
        &names(&["cpu", "gpu", "disk"]),
        one_file("/sys/hwmon2/pwm1"),
        one_file("/sys/hwmon2/pwm1_enable"),
    )
    .expect("a fan")
}

fn source(name: &str, output: f64) -> HeatPressureSource {
    let mut source = HeatPressureSource::from_config(
        config::HeatPressureSource {
            name: String::from(name),
            wildcard_path: String::from("/sys/temp*"),
            pid_parameters: config::HeatPressureSourcePidParameters {
                set_point: 50.0f64.to_bits(),
                p: 1.0f64.to_bits(),
                i: 0.0f64.to_bits(),
                d: 0.0f64.to_bits(),
                critical_temperature: Some(num(80.0)),
            },
        },
        one_file("/sys/temp1"),
    )
    .expect("a source");
    let reading = if output > 1.0 { num(90.0) } else { num(60.0) };
    source
        .update(reading, 1, output.to_bits())
        .expect("an update");
    assert_eq!(source.output(), num(output));
    source
}

#[test]
fn a_fan_is_built_from_its_entry() {
    let fan = fan(50, 200, Some(255), &["gpu", "cpu"]);
    assert_eq!(fan.name(), "cpu_fan");
    assert_eq!(fan.pwm_path(), "/sys/hwmon2/pwm1");
    assert_eq!(fan.pwm_mode_path(), "/sys/hwmon2/pwm1_enable");
    assert_eq!(fan.min_pwm(), 50);
    assert_eq!(fan.max_pwm(), 200);
    assert_eq!(fan.max_pwm_when_critical(), 255);
    assert_eq!(fan.heat_sources_indices(), &vec![1usize, 0]);
}

#[test]
fn the_critical_maximum_defaults_to_the_maximum() {
    assert_eq!(fan(50, 200, None, &[]).max_pwm_when_critical(), 200);
}

#[test]
fn a_minimum_above_the_maximum_is_refused() {
    let r = Fan::from_config(
        entry(201, 200, None, &["cpu"]),
        &names(&["cpu"]),
        one_file("/sys/hwmon2/pwm1"),
        one_file("/sys/hwmon2/pwm1_enable"),
    );
    assert_eq!(
        r.err(),
        Some(Error::PwmMinMaxOutOfBounds {
            min_pwm: 201,
            max_pwm: 200,
            name: String::from("cpu_fan"),
        })
    );
}

#[test]
fn a_minimum_equal_to_the_maximum_is_accepted() {
    let fan = fan(120, 120, None, &["cpu"]);
    assert!(fan.min_pwm() <= fan.max_pwm());
    assert_eq!(fan.set_pwm_speed_percent(num(0.0)).value, 120);
    assert_eq!(fan.set_pwm_speed_percent(num(1.0)).value, 120);
}

#[test]
fn unknown_heat_source_is_reported_with_fan_and_source() {
    let r = Fan::from_config(
        entry(50, 200, None, &["cpu", "chipset", "also_missing"]),
        &names(&["cpu", "gpu"]),
        one_file("/sys/hwmon2/pwm1"),
        one_file("/sys/hwmon2/pwm1_enable"),
    );
    assert_eq!(
        r.err(),
        Some(Error::UnknownHeatSource {
            fan: String::from("cpu_fan"),
            heat_source: String::from("chipset"),
        })
    );
}

#[test]
fn any_heat_source_is_unknown_where_there_is_none() {
    let r = Fan::from_config(
        entry(50, 200, None, &["cpu"]),
        &names(&[]),
        one_file("/sys/hwmon2/pwm1"),
        one_file("/sys/hwmon2/pwm1_enable"),
    );
    assert_eq!(
        r.err(),
        Some(Error::UnknownHeatSource {
            fan: String::from("cpu_fan"),
            heat_source: String::from("cpu"),
        })
    );
}

#[test]
fn the_checks_of_a_fan_come_in_their_order() {
    let none = || GlobOutcome::Entries(vec![]);
    let r = Fan::from_config(entry(9, 8, None, &["x"]), &names(&["cpu"]), none(), none());
    assert!(matches!(r, Err(Error::PwmMinMaxOutOfBounds { .. })));
    let r = Fan::from_config(entry(8, 9, None, &["x"]), &names(&["cpu"]), none(), none());
    assert!(matches!(r, Err(Error::UnknownHeatSource { .. })));
    let r = Fan::from_config(
        entry(8, 9, None, &["cpu"]),
        &names(&["cpu"]),
        none(),
        GlobOutcome::Malformed {
            reason: String::from("bad"),
        },
    );
    assert_eq!(
        r.err(),
        Some(Error::GlobMatchesNone {
            glob: String::from("/sys/hwmon*/pwm1")
        })
    );
    let r = Fan::from_config(
        entry(8, 9, None, &["cpu"]),
        &names(&["cpu"]),
        one_file("/sys/hwmon2/pwm1"),
        none(),
    );
    assert_eq!(
        r.err(),
        Some(Error::GlobMatchesNone {
            glob: String::from("/sys/hwmon*/pwm1_enable")
        })
    );
}

#[test]
fn of_two_sources_of_one_name_the_last_is_meant() {
    let fan = Fan::from_config(
        entry(50, 200, None, &["cpu", "gpu", "cpu"]),
        &names(&["cpu", "gpu", "cpu", "disk"]),
        one_file("/sys/hwmon2/pwm1"),
        one_file("/sys/hwmon2/pwm1_enable"),
    )
    .expect("a fan");
    assert_eq!(fan.heat_sources_indices(), &vec![2usize, 1, 2]);
}

#[test]
fn a_control_mode_is_written_to_the_mode_file() {
    let fan = fan(50, 200, None, &[]);
    assert_eq!(
        fan.set_control_mode(FanControlMode::Manual),
        FileWrite {
            path: String::from("/sys/hwmon2/pwm1_enable"),
            value: 1
        }
    );
    assert_eq!(
        fan.set_control_mode(FanControlMode::Auto),
        FileWrite {
            path: String::from("/sys/hwmon2/pwm1_enable"),
            value: 5
        }
    );
}

#[test]
fn half_pressure_gives_pwm_125() {
    let fan = fan(50, 200, None, &[]);
    assert_eq!(
        fan.set_pwm_speed_percent(num(0.5)),
        FileWrite {
            path: String::from("/sys/hwmon2/pwm1"),
            value: 125
        }
    );
}

#[test]
fn critical_pressure_gives_pwm_245() {
    let fan = fan(50, 200, Some(255), &[]);
    assert_eq!(fan.set_pwm_speed_percent(num(1.3)).value, 245);
}

#[test]
fn the_critical_maximum_is_never_passed() {
    let fan = fan(50, 200, Some(255), &[]);
    assert_eq!(fan.set_pwm_speed_percent(num(1.4)).value, 255);
    assert_eq!(fan.set_pwm_speed_percent(num(3.0)).value, 255);
    assert_eq!(fan.set_pwm_speed_percent(num(1e30)).value, 255);
    assert_eq!(fan.set_pwm_speed_percent(num(f64::INFINITY)).value, 255);
    let plain = self::fan(50, 200, None, &[]);
    assert_eq!(plain.set_pwm_speed_percent(num(1.3)).value, 200);
    assert_eq!(plain.set_pwm_speed_percent(num(f64::INFINITY)).value, 200);
}

#[test]
fn the_ends_of_the_normal_range() {
    let fan = fan(50, 200, Some(255), &[]);
    assert_eq!(fan.set_pwm_speed_percent(num(0.0)).value, 50);
    assert_eq!(fan.set_pwm_speed_percent(num(-0.0)).value, 50);
    assert_eq!(fan.set_pwm_speed_percent(num(1.0)).value, 200);
    assert_eq!(fan.set_pwm_speed_percent(num(0.01)).value, 52);
    assert_eq!(fan.set_pwm_speed_percent(num(0.003)).value, 50);
}

#[test]
fn a_critical_maximum_below_the_minimum_wins() {
    let fan = fan(50, 200, Some(40), &[]);
    assert_eq!(fan.set_pwm_speed_percent(num(0.0)).value, 40);
    assert_eq!(fan.set_pwm_speed_percent(num(0.5)).value, 40);
    assert_eq!(fan.set_pwm_speed_percent(num(2.0)).value, 40);
}

#[test]
fn the_largest_values_do_not_overflow() {
    let fan = fan(u32::MAX - 1, u32::MAX, None, &[]);
    assert_eq!(fan.set_pwm_speed_percent(num(f64::INFINITY)).value, u32::MAX);
    assert_eq!(fan.set_pwm_speed_percent(num(1.0)).value, u32::MAX);
    let wide = self::fan(0, u32::MAX, None, &[]);
    assert_eq!(wide.set_pwm_speed_percent(num(1.0)).value, u32::MAX);
    assert_eq!(wide.set_pwm_speed_percent(num(0.5)).value, 2147483648);
    let high = self::fan(u32::MAX, u32::MAX, Some(u32::MAX), &[]);
    assert_eq!(high.set_pwm_speed_percent(num(9.0)).value, u32::MAX);
}

#[test]
fn a_pressure_up_to_one_stays_between_minimum_and_maximum() {
    let fan = fan(50, 200, Some(255), &[]);
    for i in 0..=10_000u32 {
        let p = i as f64 / 10_000.0;
        let value = fan.set_pwm_speed_percent(num(p)).value;
        assert!(50 <= value && value <= 200, "{} gave {}", p, value);
        assert_eq!(value, 50 + (150.0 * p).round() as u32);
    }
    for i in 10_001..=40_000u32 {
        let p = i as f64 / 10_000.0;
        let value = fan.set_pwm_speed_percent(num(p)).value;
        assert!(50 <= value && value <= 255, "{} gave {}", p, value);
        assert_eq!(value, 255.min(50 + (150.0 * p).round() as u32));
    }
}

#[test]
fn a_fan_follows_the_source_that_presses_most() {
    let sources = vec![source("cpu", 0.2), source("gpu", 0.9), source("disk", 0.5)];
    let fan = fan(50, 200, Some(255), &["cpu", "gpu", "disk"]);
    assert_eq!(fan.pressure(&sources), num(0.9));
    assert_eq!(
        fan.update(&sources),
        FileWrite {
            path: String::from("/sys/hwmon2/pwm1"),
            value: 185
        }
    );
    let two = self::fan(50, 200, Some(255), &["disk", "cpu"]);
    assert_eq!(two.pressure(&sources), num(0.5));
    assert_eq!(two.update(&sources).value, 125);
    let one = self::fan(50, 200, Some(255), &["cpu"]);
    assert_eq!(one.update(&sources).value, 80);
}

#[test]
fn a_fan_follows_a_source_into_the_critical_range() {
    let sources = vec![source("cpu", 0.2), source("gpu", 1.3), source("disk", 1.0)];
    let fan = fan(50, 200, Some(255), &["cpu", "gpu", "disk"]);
    assert_eq!(fan.pressure(&sources), num(1.3));
    assert_eq!(fan.update(&sources).value, 245);
}

#[test]
fn a_fan_without_sources_runs_at_full_speed() {
    let sources = vec![source("cpu", 0.0), source("gpu", 0.25), source("disk", 0.5)];
    let fan = fan(50, 200, Some(255), &[]);
    assert_eq!(fan.pressure(&sources), Number::one());
    assert_eq!(fan.update(&sources).value, 200);
    assert_eq!(fan.pressure(&[]), Number::one());
    assert_eq!(fan.update(&[]).value, 200);
}

#[test]
fn a_write_says_what_the_file_takes_and_what_failed() {
    let write = FileWrite {
        path: String::from("/sys/hwmon2/pwm1"),
        value: 125,
    };
    assert_eq!(write.contents(), "125");
    assert_eq!(
        write.failure(String::from("Read-only file system")),
        Error::WritingFile {
            value: 125,
            filename: String::from("/sys/hwmon2/pwm1"),
            reason: String::from("Read-only file system"),
        }
    );
}

#[test]
fn more_pressure_never_slows_a_fan() {
    let fan = fan(50, 200, Some(255), &[]);
    let wide = self::fan(0, u32::MAX, None, &[]);
    let mut last = 0;
    let mut last_wide = 0;
    let mut bits = 0u64;
    while bits <= f64::INFINITY.to_bits() {
        let p = Number::from_bits(bits).expect("not a NaN");
        let value = fan.set_pwm_speed_percent(p).value;
        let value_wide = wide.set_pwm_speed_percent(p).value;
        assert!(value >= last);
        assert!(value_wide >= last_wide);
        last = value;
        last_wide = value_wide;
        bits += 0x0000_1000_0000_0001;
    }
    assert_eq!(fan.set_pwm_speed_percent(Number::infinity()).value, 255);
}
