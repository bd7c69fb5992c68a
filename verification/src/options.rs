//! What the command line asks for.
//!
//! The caller reads the arguments and the environment; this module decides
//! what they mean.

use crate::error::{Error, ErrorView};
use vstd::prelude::*;
use vstd::string::*;

verus! {

/// The environment variable that names the configuration file where the
/// command line does not.
pub const CONFIG_PATH_VARIABLE: &'static str = "PID_FAN_CONFIG_FILE";

/// The configuration file that is read where neither the command line nor
/// the environment names one.
pub const DEFAULT_CONFIG_PATH: &'static str = "/etc/pid_fan_controller_config.yaml";

/// What the controller was asked to do, and with what.
#[derive(Debug, PartialEq, Eq)]
pub struct Options {
    /// The path of the configuration file.
    pub config_path: String,
    /// The command.
    pub mode: Mode,
    /// Whether progress is logged.
    pub verbose: bool,
}

/// The command that the controller carries out.
#[derive(Clone, Copy, Debug, PartialEq, Eq)]
pub enum Mode {
    /// Hand every fan back to the firmware, then leave.
    ResetFanModes,
    /// Take every fan over and control it until the process is ended.
    RunFanControl,
}

/// The arguments and the environment, as the caller found them.
#[derive(Debug)]
pub struct CommandLine {
    /// The configuration file that the command line names.
    pub config: Option<String>,
    /// The configuration file that the environment names.
    pub environment_config: Option<String>,
    /// Whether progress is to be logged.
    pub verbose: bool,
    /// Whether the control loop was asked for.
    pub run_fan_control: bool,
    /// Whether the reset of the fan modes was asked for.
    pub reset_fan_modes: bool,
    /// Whether the usage text was asked for.
    pub help: bool,
}

/// What to do with a command line.
#[derive(Debug, PartialEq, Eq)]
pub enum Invocation {
    /// Print the usage text and leave without a failure.
    Usage,
    /// Carry out the command.
    Run(Options),
}

/// The configuration file that is read where neither the command line nor
/// the environment names one.
pub open spec fn default_config_path() -> Seq<char> {
    DEFAULT_CONFIG_PATH@
}

/// The configuration file to read: the one that the command line names,
/// else the one that the environment names, else the default.
pub open spec fn chosen_config_path(command_line: CommandLine) -> Seq<char> {
    match command_line.config {
        Some(path) => path@,
        None => match command_line.environment_config {
            Some(path) => path@,
            None => default_config_path(),
        },
    }
}

/// The command that the two command flags select: exactly one of them must
/// be set.
pub open spec fn chosen_mode(run_fan_control: bool, reset_fan_modes: bool) -> Result<
    Mode,
    ErrorView,
> {
    if run_fan_control && reset_fan_modes {
        Err(ErrorView::MultipleCommands)
    } else if run_fan_control {
        Ok(Mode::RunFanControl)
    } else if reset_fan_modes {
        Ok(Mode::ResetFanModes)
    } else {
        Err(ErrorView::NoCommands)
    }
}

/// Decides what a command line asks for. A request for the usage text
/// comes before everything else; otherwise exactly one command must be
/// named.
pub fn get(command_line: CommandLine) -> (r: Result<Invocation, Error>)
    ensures
        match r {
            Ok(Invocation::Usage) => command_line.help,
            Ok(Invocation::Run(options)) => {
                &&& !command_line.help
                &&& chosen_mode(command_line.run_fan_control, command_line.reset_fan_modes) == Ok::<
                    Mode,
                    ErrorView,
                >(options.mode)
                &&& options.config_path@ == chosen_config_path(command_line)
                &&& options.verbose == command_line.verbose
            },
            Err(e) => {
                &&& !command_line.help
                &&& chosen_mode(command_line.run_fan_control, command_line.reset_fan_modes) == Err::<
                    Mode,
                    ErrorView,
                >(e@)
            },
        },
{
    if command_line.help {
        return Ok(Invocation::Usage);
    }
    let mode = if command_line.run_fan_control && command_line.reset_fan_modes {
        return Err(Error::MultipleCommands);
    } else if command_line.run_fan_control {
        Mode::RunFanControl
    } else if command_line.reset_fan_modes {
        Mode::ResetFanModes
    } else {
        return Err(Error::NoCommands);
    };
    let verbose = command_line.verbose;
    let config_path = match command_line.config {
        Some(path) => path,
        None => match command_line.environment_config {
            Some(path) => path,
            None => DEFAULT_CONFIG_PATH.to_owned(),
        },
    };
    Ok(Invocation::Run(Options { config_path, mode, verbose }))
}

} // verus!
