//! Host-side protocol layer for Korad/Tenma style KA3005P bench power supplies.
//!
//! The supply speaks a terse ASCII command language over a 9600-8-N-1 serial
//! link. Replies carry no terminator: a read that times out marks their end.
//! This crate holds the protocol logic (command encoding, reply framing and
//! status decoding) as verified code; the serial port itself is driven by the
//! caller, which feeds what it observes into the state machines defined here.

pub mod cli;
pub mod command;
pub mod decimal;
pub mod discovery;
pub mod error;
pub mod exchange;
pub mod flags;
pub mod status;
pub mod switch;

pub use command::Command;
pub use decimal::Decimal;
pub use error::PsuError;
pub use exchange::{Exchange, Progress, ReadOutcome};
pub use flags::{Channel, Flags, Lock, Mode};
pub use status::{Status, StatusProgress, StatusQuery};
pub use switch::Switch;
