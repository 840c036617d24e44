use vstd::prelude::*;

verus! {

/// A command with its one parameter byte.
#[derive(Clone, Copy, Debug, PartialEq, Eq, Structural)]
pub struct Setting {
    pub command: u8,
    pub parameter: u8,
}

/// The command bytes in which the controller revisions differ.
#[derive(Clone, Copy, Debug, PartialEq, Eq, Structural)]
pub struct CommandSet {
    /// Starts a write to the black plane.
    pub black_write: u8,
    /// Starts a write to the red plane.
    pub red_write: u8,
    /// Powers the panel on, where that takes a command of its own.
    pub power_on: Option<u8>,
    /// Command and parameter that select the refresh to run, where the
    /// revision asks for them.
    pub activation: Option<Setting>,
    /// Starts the refresh.
    pub refresh: u8,
    /// The level of the BUSY line while the controller is busy: `true`
    /// for high.
    pub busy_level: bool,
}

/// Controller revision, fixed when the driver is made.
#[derive(Clone, Copy, Debug, PartialEq, Eq, Structural)]
pub enum Dialect {
    /// Current revisions.
    New,
    /// Early revisions.
    Old,
}

impl Dialect {
    /// The command set of this revision.
    pub open spec fn commands(self) -> CommandSet {
        match self {
            Dialect::New => CommandSet {
                black_write: 0x24,
                red_write: 0x26,
                power_on: None,
                activation: Some(Setting { command: 0x22, parameter: 0xF7 }),
                refresh: 0x20,
                busy_level: true,
            },
            Dialect::Old => CommandSet {
                black_write: 0x10,
                red_write: 0x13,
                power_on: Some(0x04u8),
                activation: None,
                refresh: 0x12,
                busy_level: false,
            },
        }
    }

    /// The command set of this revision.
    pub fn command_set(self) -> (set: CommandSet)
        ensures
            set == self.commands(),
    {
        match self {
            Dialect::New => CommandSet {
                black_write: 0x24,
                red_write: 0x26,
                power_on: None,
                activation: Some(Setting { command: 0x22, parameter: 0xF7 }),
                refresh: 0x20,
                busy_level: true,
            },
            Dialect::Old => CommandSet {
                black_write: 0x10,
                red_write: 0x13,
                power_on: Some(0x04),
                activation: None,
                refresh: 0x12,
                busy_level: false,
            },
        }
    }
}

impl Default for Dialect {
    /// The current revision, for a caller who knows of no older panel.
    fn default() -> (dialect: Self)
        ensures
            dialect == Dialect::New,
    {
        Dialect::New
    }
}

} // verus!
