//! The order of work in the controller.
//!
//! The caller does the work: it writes control modes, updates a source or a
//! fan, sleeps, and leaves the process. A [`ControlLoop`] tells it what comes
//! next, given how the last piece of work ended. A round of the loop updates
//! every heat pressure source, then every fan, then sleeps. A failure while
//! the control modes are set ends the process; a failure of one update is
//! the caller's to log and changes nothing in what follows.

use crate::fan::FanControlMode;
use crate::options::Mode;
use vstd::prelude::*;

verus! {

/// The exit code of a run that did what it was asked for.
pub const EXIT_SUCCESS: i32 = 0;

/// The exit code of a run that could not start: the command line or the
/// configuration is at fault.
pub const EXIT_STARTUP_FAILURE: i32 = 1;

/// The exit code of a run that could not set the control mode of a fan.
pub const EXIT_CONTROL_FAILURE: i32 = 2;

/// Where the controller stands.
#[derive(Clone, Copy, Debug, PartialEq, Eq)]
pub enum Stage {
    /// Nothing was done yet.
    Idle,
    /// The control modes of the fans are being set.
    SettingControlModes,
    /// The heat pressure source at this place is being updated.
    UpdatingSource(usize),
    /// The fan at this place is being updated.
    UpdatingFan(usize),
    /// The round is over and the controller pauses.
    Sleeping,
    /// The process is to end with this exit code.
    Stopped(i32),
}

/// A piece of work for the caller.
#[derive(Clone, Copy, Debug, PartialEq, Eq)]
pub enum Action {
    /// Write this control mode to every fan, stopping at the first failure.
    SetControlModes(FanControlMode),
    /// Update the heat pressure source at this place.
    UpdateSource(usize),
    /// Update the fan at this place.
    UpdateFan(usize),
    /// Pause for the sample interval.
    Sleep,
    /// End the process with this exit code.
    Exit(i32),
}

/// How a piece of work ended.
#[derive(Clone, Copy, Debug, PartialEq, Eq)]
pub enum Outcome {
    /// It was done.
    Done,
    /// It failed.
    Failed,
}

/// The command, the number of sources and fans, and the stage.
#[derive(Clone, Copy, Debug, PartialEq, Eq)]
pub struct Schedule {
    /// The command that is carried out.
    pub mode: Mode,
    /// The number of heat pressure sources.
    pub sources: usize,
    /// The number of fans.
    pub fans: usize,
    /// Where the controller stands.
    pub stage: Stage,
}

impl Schedule {
    /// The stage names a source or a fan that exists.
    pub open spec fn wf(self) -> bool {
        match self.stage {
            Stage::UpdatingSource(i) => i < self.sources,
            Stage::UpdatingFan(j) => j < self.fans,
            _ => true,
        }
    }

    /// The control mode that the command asks for: manual control to run
    /// the loop, automatic control to reset the fans.
    pub open spec fn control_mode(self) -> FanControlMode {
        match self.mode {
            Mode::RunFanControl => FanControlMode::Manual,
            Mode::ResetFanModes => FanControlMode::Auto,
        }
    }

    /// The stage that opens a round: the first source, else the first fan,
    /// else the pause.
    pub open spec fn round_start(self) -> Stage {
        if self.sources > 0 {
            Stage::UpdatingSource(0)
        } else if self.fans > 0 {
            Stage::UpdatingFan(0)
        } else {
            Stage::Sleeping
        }
    }

    /// The stage that follows, given how the work of the present stage
    /// ended.
    pub open spec fn next_stage(self, outcome: Outcome) -> Stage {
        match self.stage {
            Stage::Idle => Stage::SettingControlModes,
            Stage::SettingControlModes => match outcome {
                Outcome::Failed => Stage::Stopped(EXIT_CONTROL_FAILURE),
                Outcome::Done => match self.mode {
                    Mode::ResetFanModes => Stage::Stopped(EXIT_SUCCESS),
                    Mode::RunFanControl => self.round_start(),
                },
            },
            Stage::UpdatingSource(i) => if i + 1 < self.sources {
                Stage::UpdatingSource((i + 1) as usize)
            } else if self.fans > 0 {
                Stage::UpdatingFan(0)
            } else {
                Stage::Sleeping
            },
            Stage::UpdatingFan(j) => if j + 1 < self.fans {
                Stage::UpdatingFan((j + 1) as usize)
            } else {
                Stage::Sleeping
            },
            Stage::Sleeping => self.round_start(),
            Stage::Stopped(code) => Stage::Stopped(code),
        }
    }

    /// The schedule at the stage that follows.
    pub open spec fn advanced(self, outcome: Outcome) -> Schedule {
        Schedule { stage: self.next_stage(outcome), ..self }
    }

    /// The work of the present stage; before the start there is none.
    pub open spec fn work(self) -> Option<Action> {
        match self.stage {
            Stage::Idle => None,
            Stage::SettingControlModes => Some(Action::SetControlModes(self.control_mode())),
            Stage::UpdatingSource(i) => Some(Action::UpdateSource(i)),
            Stage::UpdatingFan(j) => Some(Action::UpdateFan(j)),
            Stage::Sleeping => Some(Action::Sleep),
            Stage::Stopped(code) => Some(Action::Exit(code)),
        }
    }

    /// The stage is one of the control loop itself.
    pub open spec fn running(self) -> bool {
        self.stage is UpdatingSource || self.stage is UpdatingFan || self.stage is Sleeping
    }

    /// The place of the stage within its round: the sources come first,
    /// then the fans, then the pause.
    pub open spec fn place(self) -> int
        recommends
            self.running(),
    {
        match self.stage {
            Stage::UpdatingSource(i) => i as int,
            Stage::UpdatingFan(j) => self.sources + j,
            _ => self.sources + self.fans,
        }
    }
}

/// The controller's place in its work.
#[derive(Debug)]
pub struct ControlLoop {
    schedule: Schedule,
}

impl View for ControlLoop {
    type V = Schedule;

    closed spec fn view(&self) -> Schedule {
        self.schedule
    }
}

impl ControlLoop {
    /// A controller that has done nothing yet, for a command and for the
    /// given numbers of heat pressure sources and fans.
    pub fn new(mode: Mode, sources: usize, fans: usize) -> (control: ControlLoop)
        ensures
            control@ == (Schedule { mode, sources, fans, stage: Stage::Idle }),
            control@.wf(),
    {
        ControlLoop { schedule: Schedule { mode, sources, fans, stage: Stage::Idle } }
    }

    /// Where the controller stands.
    pub fn stage(&self) -> (stage: Stage)
        ensures
            stage == self@.stage,
    {
        self.schedule.stage
    }

    /// Moves to the next stage and says what its work is. `outcome` tells
    /// how the work of the present stage ended; before the start it is not
    /// looked at.
    pub fn step(&mut self, outcome: Outcome) -> (action: Action)
        requires
            old(self)@.wf(),
        ensures
            final(self)@ == old(self)@.advanced(outcome),
            final(self)@.wf(),
            final(self)@.work() == Some(action),
    {
        let sources = self.schedule.sources;
        let fans = self.schedule.fans;
        let round_start = if sources > 0 {
            Stage::UpdatingSource(0)
        } else if fans > 0 {
            Stage::UpdatingFan(0)
        } else {
            Stage::Sleeping
        };
        let next = match self.schedule.stage {
            Stage::Idle => Stage::SettingControlModes,
            Stage::SettingControlModes => match outcome {
                Outcome::Failed => Stage::Stopped(EXIT_CONTROL_FAILURE),
                Outcome::Done => match self.schedule.mode {
                    Mode::ResetFanModes => Stage::Stopped(EXIT_SUCCESS),
                    Mode::RunFanControl => round_start,
                },
            },
            Stage::UpdatingSource(i) => if i + 1 < sources {
                Stage::UpdatingSource(i + 1)
            } else if fans > 0 {
                Stage::UpdatingFan(0)
            } else {
                Stage::Sleeping
            },
            Stage::UpdatingFan(j) => if j + 1 < fans {
                Stage::UpdatingFan(j + 1)
            } else {
                Stage::Sleeping
            },
            Stage::Sleeping => round_start,
            Stage::Stopped(code) => Stage::Stopped(code),
        };
        self.schedule.stage = next;
        match next {
            Stage::Idle | Stage::SettingControlModes => Action::SetControlModes(
                match self.schedule.mode {
                    Mode::RunFanControl => FanControlMode::Manual,
                    Mode::ResetFanModes => FanControlMode::Auto,
                },
            ),
            Stage::UpdatingSource(i) => Action::UpdateSource(i),
            Stage::UpdatingFan(j) => Action::UpdateFan(j),
            Stage::Sleeping => Action::Sleep,
            Stage::Stopped(code) => Action::Exit(code),
        }
    }
}

/// The loop has no way out: from a stage of the loop the next stage is one
/// of the loop again, and it is the same whether the work failed or not. A
/// failing sensor or fan stops nothing.
pub proof fn lemma_failures_are_isolated(schedule: Schedule)
    requires
        schedule.wf(),
        schedule.running(),
    ensures
        schedule.advanced(Outcome::Failed) == schedule.advanced(Outcome::Done),
        schedule.advanced(Outcome::Failed).running(),
        schedule.advanced(Outcome::Failed).wf(),
{
}

/// A round takes the sources in their order, then the fans in their order,
/// then the pause: each stage of the loop but the pause is followed by the
/// stage one place further on, and the pause by the stage at place 0. So no
/// fan is updated before every source was.
pub proof fn lemma_round_order(schedule: Schedule, outcome: Outcome)
    requires
        schedule.wf(),
        schedule.running(),
    ensures
        !(schedule.stage is Sleeping) ==> schedule.advanced(outcome).place() == schedule.place()
            + 1,
        schedule.stage is Sleeping ==> schedule.advanced(outcome).place() == 0,
        schedule.advanced(outcome).stage is UpdatingSource ==> schedule.advanced(outcome).place()
            < schedule.sources,
        schedule.advanced(outcome).stage is UpdatingFan ==> schedule.sources
            <= schedule.advanced(outcome).place() < schedule.sources + schedule.fans,
{
}

/// The start asks for the control modes to be set: manual control to run
/// the loop, automatic control to reset the fans. A failure of that work
/// ends the process with the exit code of a control failure. Its success
/// opens the first round of the loop, or, where the fans were to be reset,
/// ends the process without a failure.
pub proof fn lemma_start(schedule: Schedule)
    requires
        schedule.stage is Idle,
    ensures
        schedule.advanced(Outcome::Done).work() == Some(
            Action::SetControlModes(schedule.control_mode()),
        ),
        schedule.advanced(Outcome::Done).advanced(Outcome::Failed).work() == Some(
            Action::Exit(EXIT_CONTROL_FAILURE),
        ),
        schedule.mode == Mode::ResetFanModes ==> schedule.advanced(Outcome::Done).advanced(
            Outcome::Done,
        ).work() == Some(Action::Exit(EXIT_SUCCESS)),
        schedule.mode == Mode::RunFanControl ==> schedule.advanced(Outcome::Done).advanced(
            Outcome::Done,
        ).running() && schedule.advanced(Outcome::Done).advanced(Outcome::Done).place() == 0,
{
}

} // verus!
