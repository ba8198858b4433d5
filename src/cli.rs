//! Requests of the command-line front end, and which of them are commands
//! for the supply.
use vstd::prelude::*;
use crate::decimal::Decimal;
use crate::error::PsuError;
use crate::switch::Switch;

verus! {

/// What a user can ask for on the command line.
#[derive(Debug, Clone, Copy, PartialEq, Eq, Structural)]
pub enum Command {
    /// Turns on or off the output of the power supply
    Power { switch: Switch },
    /// Return status information about the power supply
    Status,
    /// Set the voltage of the output or config
    Voltage { v: Decimal },
    /// Set the current of the output or config
    Current { a: Decimal },
    /// Saves current panel settings to specified config
    Save { id: u32 },
    /// Loads config settings of specified no.
    Load { id: u32 },
    /// Enable/Disable over current protection
    Ocp { switch: Switch },
    /// Enable/Disable over voltage protection
    Ovp { switch: Switch },
    /// Enable/Disable Beep
    Beep { switch: Switch },
    /// list possible power supply devices
    List { verbose: bool },
    /// Read commands from stdin and execute them
    Interactive,
}

/// The supply command a request stands for; status queries, listing and
/// the interactive mode are not commands and have none.
pub open spec fn device_command(c: Command) -> Result<crate::command::Command, PsuError> {
    match c {
        Command::Power { switch } => Ok(crate::command::Command::Power(switch)),
        Command::Ovp { switch } => Ok(crate::command::Command::Ovp(switch)),
        Command::Ocp { switch } => Ok(crate::command::Command::Ocp(switch)),
        Command::Beep { switch } => Ok(crate::command::Command::Beep(switch)),
        Command::Load { id } => Ok(crate::command::Command::Load(id)),
        Command::Save { id } => Ok(crate::command::Command::Save(id)),
        Command::Voltage { v } => Ok(crate::command::Command::Voltage(v)),
        Command::Current { a } => Ok(crate::command::Command::Current(a)),
        Command::Status => Err(PsuError::Unsupported),
        Command::List { .. } => Err(PsuError::Unsupported),
        Command::Interactive => Err(PsuError::Unsupported),
    }
}

impl Command {
    /// The supply command this request stands for, or `Unsupported`.
    pub fn try_into(self) -> (r: Result<crate::command::Command, PsuError>)
        ensures
            r == device_command(self),
    {
        match self {
            Command::Power { switch } => Ok(crate::command::Command::Power(switch)),
            Command::Ovp { switch } => Ok(crate::command::Command::Ovp(switch)),
            Command::Ocp { switch } => Ok(crate::command::Command::Ocp(switch)),
            Command::Beep { switch } => Ok(crate::command::Command::Beep(switch)),
            Command::Load { id } => Ok(crate::command::Command::Load(id)),
            Command::Save { id } => Ok(crate::command::Command::Save(id)),
            Command::Voltage { v } => Ok(crate::command::Command::Voltage(v)),
            Command::Current { a } => Ok(crate::command::Command::Current(a)),
            Command::Status => Err(PsuError::Unsupported),
            Command::List { .. } => Err(PsuError::Unsupported),
            Command::Interactive => Err(PsuError::Unsupported),
        }
    }
}

} // verus!
