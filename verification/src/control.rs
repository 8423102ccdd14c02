//! The decisions of the main control loop.
//!
//! The loop waits for a command or for the sampling interval to pass, plans
//! one adjustment cycle, has the transition engine carry it out, and keeps
//! the offset that the cycle used only if the cycle changed the brightness.
//! Waiting and adjusting happen outside; what is planned and what is kept is
//! decided here.

use crate::config::Config;
use crate::server::LumdCommand;
use vstd::prelude::*;

verus! {

/// Seconds until the next sample after a command has been served.
pub const COMMAND_WAIT_SECS: u64 = 30;

/// What the loop carries from one cycle to the next.
#[derive(Clone, Copy, Debug, PartialEq, Eq, Structural)]
pub struct ControlState {
    /// Seconds that the next wait for a command may last.
    pub sleep_secs: u64,
    /// The brightness offset in force.
    pub offset: i32,
    /// Whether the next cycle runs at once, without a wait.
    pub instant: bool,
}

/// How a wait on the command channel ended.
#[derive(Clone, Copy, Debug, PartialEq, Eq, Structural)]
pub enum Wake {
    /// A command arrived.
    Command(LumdCommand),
    /// The time ran out.
    Timeout,
    /// Every sender is gone.
    Disconnected,
}

/// One adjustment cycle as planned.
#[derive(Clone, Copy, Debug, PartialEq, Eq, Structural)]
pub struct Cycle {
    /// The offset that the cycle tries.
    pub offset: i32,
    /// Whether the brightness jumps to its target in one write.
    pub instant: bool,
    /// Whether the cycle runs even where the target is already shown.
    pub force: bool,
    /// Seconds that the wait after the cycle may last.
    pub sleep_secs: u64,
}

/// What the loop does next.
#[derive(Clone, Copy, Debug, PartialEq, Eq, Structural)]
pub enum Plan {
    /// Leave the loop, after clearing the shared running flag if asked to.
    Stop { clear_running: bool },
    /// Run this cycle.
    Adjust(Cycle),
}

impl ControlState {
    /// The state in which the loop starts.
    pub open spec fn initial(config: Config) -> ControlState {
        ControlState {
            sleep_secs: config.sample_interval_secs,
            offset: config.brightness_offset,
            instant: true,
        }
    }

    /// The offset that a command asks the next cycle to try.
    pub open spec fn candidate_offset(self, config: Config, command: LumdCommand) -> int {
        match command {
            LumdCommand::BrightnessUp => self.offset + config.manual_adjustment_amount,
            LumdCommand::BrightnessDown => self.offset - config.manual_adjustment_amount,
            _ => self.offset as int,
        }
    }

    /// Whether the offset that a wake-up asks for is an `i32`.
    pub open spec fn can_plan(self, config: Config, wake: Option<Wake>) -> bool {
        match wake {
            Some(Wake::Command(command)) => i32::MIN <= self.candidate_offset(config, command)
                <= i32::MAX,
            _ => true,
        }
    }

    /// The plan that follows a wake-up; `None` stands for no wait at all.
    pub open spec fn plan_spec(self, config: Config, wake: Option<Wake>) -> Plan {
        match wake {
            None => Plan::Adjust(
                Cycle {
                    offset: self.offset,
                    instant: self.instant,
                    force: false,
                    sleep_secs: self.sleep_secs,
                },
            ),
            Some(Wake::Timeout) => Plan::Adjust(
                Cycle {
                    offset: self.offset,
                    instant: self.instant,
                    force: false,
                    sleep_secs: config.sample_interval_secs,
                },
            ),
            Some(Wake::Disconnected) => Plan::Stop { clear_running: false },
            Some(Wake::Command(LumdCommand::Shutdown)) => Plan::Stop { clear_running: true },
            Some(Wake::Command(LumdCommand::Resample)) => Plan::Adjust(
                Cycle {
                    offset: self.offset,
                    instant: false,
                    force: true,
                    sleep_secs: COMMAND_WAIT_SECS,
                },
            ),
            Some(Wake::Command(command)) => Plan::Adjust(
                Cycle {
                    offset: self.candidate_offset(config, command) as i32,
                    instant: true,
                    force: false,
                    sleep_secs: COMMAND_WAIT_SECS,
                },
            ),
        }
    }

    /// The state after a cycle: the offset that the cycle tried is kept only
    /// if the cycle changed the brightness, and the next cycle waits first.
    pub open spec fn settled(self, cycle: Cycle, changed: bool) -> ControlState {
        ControlState {
            sleep_secs: cycle.sleep_secs,
            offset: if changed {
                cycle.offset
            } else {
                self.offset
            },
            instant: false,
        }
    }

    /// A manual command moves the offset that the next cycle tries by the
    /// configured amount, and the offset in force follows only if that
    /// cycle changes the brightness.
    pub proof fn lemma_manual_offset_is_kept_if_changed(
        self,
        config: Config,
        up: bool,
        changed: bool,
    )
        requires
            self.can_plan(
                config,
                Some(
                    Wake::Command(
                        if up {
                            LumdCommand::BrightnessUp
                        } else {
                            LumdCommand::BrightnessDown
                        },
                    ),
                ),
            ),
        ensures
            ({
                let command = if up {
                    LumdCommand::BrightnessUp
                } else {
                    LumdCommand::BrightnessDown
                };
                let step = if up {
                    config.manual_adjustment_amount as int
                } else {
                    -config.manual_adjustment_amount
                };
                &&& self.plan_spec(config, Some(Wake::Command(command))) matches Plan::Adjust(cycle)
                &&& cycle.offset == self.offset + step
                &&& cycle.instant
                &&& !cycle.force
                &&& self.settled(cycle, changed).offset == (if changed {
                    self.offset + step
                } else {
                    self.offset as int
                })
            }),
    {
    }

    /// A shutdown command ends the loop from every state, and so does the
    /// loss of every sender.
    pub proof fn lemma_shutdown_stops(self, config: Config)
        ensures
            self.plan_spec(config, Some(Wake::Command(LumdCommand::Shutdown))) == (Plan::Stop {
                clear_running: true,
            }),
            self.plan_spec(config, Some(Wake::Disconnected)) == (Plan::Stop {
                clear_running: false,
            }),
            self.can_plan(config, Some(Wake::Command(LumdCommand::Shutdown))),
    {
    }

    /// Makes the state in which the loop starts: the first cycle runs at once.
    pub fn new(config: &Config) -> (state: ControlState)
        ensures
            state == ControlState::initial(*config),
    {
        ControlState {
            sleep_secs: config.sample_interval_secs,
            offset: config.brightness_offset,
            instant: true,
        }
    }

    /// Says how long to wait for a command before the next cycle, in
    /// seconds, or `None` where the next cycle runs at once.
    pub fn wait(&self) -> (timeout: Option<u64>)
        ensures
            timeout == (if self.instant {
                None
            } else {
                Some(self.sleep_secs)
            }),
    {
        if self.instant {
            None
        } else {
            Some(self.sleep_secs)
        }
    }

    /// Plans what follows a wake-up; `None` stands for no wait at all.
    pub fn plan(&self, config: &Config, wake: Option<Wake>) -> (plan: Plan)
        requires
            self.can_plan(*config, wake),
        ensures
            plan == self.plan_spec(*config, wake),
    {
        match wake {
            None => Plan::Adjust(
                Cycle {
                    offset: self.offset,
                    instant: self.instant,
                    force: false,
                    sleep_secs: self.sleep_secs,
                },
            ),
            Some(Wake::Timeout) => Plan::Adjust(
                Cycle {
                    offset: self.offset,
                    instant: self.instant,
                    force: false,
                    sleep_secs: config.sample_interval_secs,
                },
            ),
            Some(Wake::Disconnected) => Plan::Stop { clear_running: false },
            Some(Wake::Command(LumdCommand::Shutdown)) => Plan::Stop { clear_running: true },
            Some(Wake::Command(LumdCommand::Resample)) => Plan::Adjust(
                Cycle {
                    offset: self.offset,
                    instant: false,
                    force: true,
                    sleep_secs: COMMAND_WAIT_SECS,
                },
            ),
            Some(Wake::Command(LumdCommand::BrightnessUp)) => Plan::Adjust(
                Cycle {
                    offset: self.offset + config.manual_adjustment_amount,
                    instant: true,
                    force: false,
                    sleep_secs: COMMAND_WAIT_SECS,
                },
            ),
            Some(Wake::Command(LumdCommand::BrightnessDown)) => Plan::Adjust(
                Cycle {
                    offset: self.offset - config.manual_adjustment_amount,
                    instant: true,
                    force: false,
                    sleep_secs: COMMAND_WAIT_SECS,
                },
            ),
        }
    }

    /// Plans what follows a wake-up, or returns `None` where the offset that
    /// a command asks for is no `i32`.
    pub fn try_plan(&self, config: &Config, wake: Option<Wake>) -> (plan: Option<Plan>)
        ensures
            plan == (if self.can_plan(*config, wake) {
                Some(self.plan_spec(*config, wake))
            } else {
                None
            }),
    {
        let fits = match wake {
            Some(Wake::Command(LumdCommand::BrightnessUp)) => {
                let sum: i64 = self.offset as i64 + config.manual_adjustment_amount as i64;
                -0x8000_0000 <= sum && sum <= 0x7fff_ffff
            },
            Some(Wake::Command(LumdCommand::BrightnessDown)) => {
                let difference: i64 = self.offset as i64 - config.manual_adjustment_amount as i64;
                -0x8000_0000 <= difference && difference <= 0x7fff_ffff
            },
            _ => true,
        };
        if fits {
            Some(self.plan(config, wake))
        } else {
            None
        }
    }

    /// Closes a cycle: keeps the offset that it tried only if it changed the
    /// brightness.
    pub fn settle(&self, cycle: &Cycle, changed: bool) -> (state: ControlState)
        ensures
            state == self.settled(*cycle, changed),
            !changed ==> state.offset == self.offset,
            changed ==> state.offset == cycle.offset,
            !state.instant,
    {
        ControlState {
            sleep_secs: cycle.sleep_secs,
            offset: if changed {
                cycle.offset
            } else {
                self.offset
            },
            instant: false,
        }
    }
}

} // verus!
