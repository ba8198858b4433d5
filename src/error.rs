//! Failures of the protocol layer.
use vstd::prelude::*;

verus! {

/// What went wrong while talking to, or finding, a power supply.
#[derive(Debug, Clone, Copy, PartialEq, Eq, Structural)]
pub enum PsuError {
    /// The port accepted fewer bytes of a command than it holds.
    ShortWrite,
    /// A read failed for a reason other than its timeout.
    Read,
    /// A query that expects data got an empty reply.
    EmptyResponse,
    /// A numeric reply is not a decimal number.
    Decode,
    /// A command-line request that is not a device command.
    Unsupported,
    /// Text that is neither `on` nor `off`.
    InvalidSwitch,
    /// No port belongs to a power supply.
    NoDevice,
    /// More than one port belongs to a power supply.
    MultipleDevices,
}

impl PsuError {
    /// A short description of the failure, for people.
    pub fn message(&self) -> (r: &'static str) {
        match self {
            PsuError::ShortWrite => "Could not write command",
            PsuError::Read => "could not retrieve response from power supply",
            PsuError::EmptyResponse => "PSU did not respond with data",
            PsuError::Decode => "PSU reply is not a decimal number",
            PsuError::Unsupported => "Conversion is not supported",
            PsuError::InvalidSwitch => "Value must be either 'on' or 'off'",
            PsuError::NoDevice => "No Power Supply Found!",
            PsuError::MultipleDevices => "Multiple Power Supplies Found!",
        }
    }
}

} // verus!
