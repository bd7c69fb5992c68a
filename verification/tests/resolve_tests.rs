use pid_fan_controller::error::Error;
use pid_fan_controller::resolve::{match_single_file_glob, GlobEntry, GlobOutcome};

fn found(path: &str) -> GlobEntry {
    GlobEntry::Found {
        path: String::from(path),
    }
}

fn unreadable(path: &str) -> GlobEntry {
    GlobEntry::Unreadable {
        path: String::from(path),
        reason: String::from("Permission denied"),
    }
}

#[test]
fn one_match_is_the_file() {
    assert_eq!(
        match_single_file_glob(
            "/sys/class/hwmon/hwmon*/temp1_input",
            GlobOutcome::Entries(vec![found("/sys/class/hwmon/hwmon3/temp1_input")]),
        ),
        Ok(String::from("/sys/class/hwmon/hwmon3/temp1_input"))
    );
}

#[test]
fn no_match_is_a_failure() {
    assert_eq!(
        match_single_file_glob("/sys/none*", GlobOutcome::Entries(vec![])),
        Err(Error::GlobMatchesNone {
            glob: String::from("/sys/none*")
        })
    );
}

#[test]
fn two_matches_are_a_failure() {
    assert_eq!(
        match_single_file_glob(
            "/sys/pwm*",
            GlobOutcome::Entries(vec![found("/sys/pwm1"), found("/sys/pwm2")]),
        ),
        Err(Error::GlobMatchesMultiple {
            glob: String::from("/sys/pwm*")
        })
    );
    assert_eq!(
        match_single_file_glob(
            "/sys/pwm*",
            GlobOutcome::Entries(vec![found("/sys/pwm1"), unreadable("/sys/private")]),
        ),
        Err(Error::GlobMatchesMultiple {
            glob: String::from("/sys/pwm*")
        })
    );
    assert_eq!(
        match_single_file_glob(
            "/sys/pwm*",
            GlobOutcome::Entries(vec![found("/sys/pwm1"), found("/sys/pwm2"), found("/sys/pwm3")]),
        ),
        Err(Error::GlobMatchesMultiple {
            glob: String::from("/sys/pwm*")
        })
    );
}

#[test]
fn an_unreadable_first_entry_is_a_failure() {
    assert_eq!(
        match_single_file_glob(
            "/sys/*/pwm1",
            GlobOutcome::Entries(vec![unreadable("/sys/private")]),
        ),
        Err(Error::GlobError {
            glob: String::from("/sys/*/pwm1"),
            path: String::from("/sys/private"),
            reason: String::from("Permission denied"),
        })
    );
    assert_eq!(
        match_single_file_glob(
            "/sys/*/pwm1",
            GlobOutcome::Entries(vec![unreadable("/sys/private"), found("/sys/a/pwm1")]),
        ),
        Err(Error::GlobError {
            glob: String::from("/sys/*/pwm1"),
            path: String::from("/sys/private"),
            reason: String::from("Permission denied"),
        })
    );
}

#[test]
fn a_malformed_pattern_is_a_failure() {
    assert_eq!(
        match_single_file_glob(
            "/sys/***",
            GlobOutcome::Malformed {
                reason: String::from("wildcards are either regular `*` or recursive `**`"),
            },
        ),
        Err(Error::MalformedGlob {
            glob: String::from("/sys/***"),
            reason: String::from("wildcards are either regular `*` or recursive `**`"),
        })
    );
}
