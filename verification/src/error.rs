//! The failures that the controller reports.
//!
//! A failure that stems from the operating system or from a file's syntax
//! carries the message of its cause as text.

use vstd::prelude::*;

verus! {

/// A failure of the controller.
#[derive(Debug, PartialEq, Eq)]
#[allow(inconsistent_fields)]
pub enum Error {
    /// The configuration file could not be read.
    OpenConfig { filename: String, reason: String },
    /// The configuration file does not hold a configuration.
    ParseConfig { filename: String, reason: String },
    /// A fan names a heat pressure source that the configuration lacks.
    UnknownHeatSource { fan: String, heat_source: String },
    /// A wildcard path matches no file.
    GlobMatchesNone { glob: String },
    /// A wildcard path matches more than one file.
    GlobMatchesMultiple { glob: String },
    /// A directory could not be read while a wildcard path was matched.
    GlobError { glob: String, path: String, reason: String },
    /// A wildcard path is not a valid pattern.
    MalformedGlob { glob: String, reason: String },
    /// A fan's lowest PWM value lies above its highest.
    PwmMinMaxOutOfBounds { min_pwm: u32, max_pwm: u32, name: String },
    /// A value could not be written to a fan file.
    WritingFile { value: u32, filename: String, reason: String },
    /// A sensor file could not be read.
    ReadingFile { filename: String, reason: String },
    /// The content of a sensor file is not an unsigned integer.
    ParsingResult { value: String, filename: String },
    /// The PID engine of a heat pressure source gave a NaN.
    PidControllerNan { name: String },
    /// The command line could not be understood.
    GetoptsFailure { reason: String },
    /// The command line asks for more than one command.
    MultipleCommands,
    /// The command line asks for no command.
    NoCommands,
}

/// A failure with its texts as sequences of characters.
#[allow(inconsistent_fields)]
pub enum ErrorView {
    OpenConfig { filename: Seq<char>, reason: Seq<char> },
    ParseConfig { filename: Seq<char>, reason: Seq<char> },
    UnknownHeatSource { fan: Seq<char>, heat_source: Seq<char> },
    GlobMatchesNone { glob: Seq<char> },
    GlobMatchesMultiple { glob: Seq<char> },
    GlobError { glob: Seq<char>, path: Seq<char>, reason: Seq<char> },
    MalformedGlob { glob: Seq<char>, reason: Seq<char> },
    PwmMinMaxOutOfBounds { min_pwm: u32, max_pwm: u32, name: Seq<char> },
    WritingFile { value: u32, filename: Seq<char>, reason: Seq<char> },
    ReadingFile { filename: Seq<char>, reason: Seq<char> },
    ParsingResult { value: Seq<char>, filename: Seq<char> },
    PidControllerNan { name: Seq<char> },
    GetoptsFailure { reason: Seq<char> },
    MultipleCommands,
    NoCommands,
}

impl View for Error {
    type V = ErrorView;

    open spec fn view(&self) -> ErrorView {
        match *self {
            Error::OpenConfig { filename, reason } => ErrorView::OpenConfig {
                filename: filename@,
                reason: reason@,
            },
            Error::ParseConfig { filename, reason } => ErrorView::ParseConfig {
                filename: filename@,
                reason: reason@,
            },
            Error::UnknownHeatSource { fan, heat_source } => ErrorView::UnknownHeatSource {
                fan: fan@,
                heat_source: heat_source@,
            },
            Error::GlobMatchesNone { glob } => ErrorView::GlobMatchesNone { glob: glob@ },
            Error::GlobMatchesMultiple { glob } => ErrorView::GlobMatchesMultiple { glob: glob@ },
            Error::GlobError { glob, path, reason } => ErrorView::GlobError {
                glob: glob@,
                path: path@,
                reason: reason@,
            },
            Error::MalformedGlob { glob, reason } => ErrorView::MalformedGlob {
                glob: glob@,
                reason: reason@,
            },
            Error::PwmMinMaxOutOfBounds { min_pwm, max_pwm, name } => {
                ErrorView::PwmMinMaxOutOfBounds { min_pwm, max_pwm, name: name@ }
            },
            Error::WritingFile { value, filename, reason } => ErrorView::WritingFile {
                value,
                filename: filename@,
                reason: reason@,
            },
            Error::ReadingFile { filename, reason } => ErrorView::ReadingFile {
                filename: filename@,
                reason: reason@,
            },
            Error::ParsingResult { value, filename } => ErrorView::ParsingResult {
                value: value@,
                filename: filename@,
            },
            Error::PidControllerNan { name } => ErrorView::PidControllerNan { name: name@ },
            Error::GetoptsFailure { reason } => ErrorView::GetoptsFailure { reason: reason@ },
            Error::MultipleCommands => ErrorView::MultipleCommands,
            Error::NoCommands => ErrorView::NoCommands,
        }
    }
}

} // verus!
