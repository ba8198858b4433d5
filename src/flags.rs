//! Decoding of the status byte that the supply returns for `STATUS?`.
use vstd::prelude::*;
use crate::switch::Switch;

verus! {

/// Channel One / Two
#[derive(Debug, Clone, Copy, PartialEq, Eq, Structural)]
pub enum Channel {
    /// Channel One of the power supply
    One,
    /// Channel Two of the power supply (if your device has one)
    Two,
}

/// Locked / Unlocked
#[derive(Debug, Clone, Copy, PartialEq, Eq, Structural)]
pub enum Lock {
    /// Device is currently locked. Ignores physical buttons but will still respond to serial commands
    Locked,
    /// Device is currently unlocked.
    Unlocked,
}

/// CC or CV mode
#[derive(Debug, Clone, Copy, PartialEq, Eq, Structural)]
pub enum Mode {
    /// Power supply is in Constant Current mode
    Cc,
    /// Power supply is in Constant Voltage mode
    Cv,
}

/// Bit of the status byte that holds channel one's mode.
pub const CHANNEL1_BIT: u8 = 0x01;
/// Bit of the status byte that holds channel two's mode.
pub const CHANNEL2_BIT: u8 = 0x02;
/// Bit of the status byte that holds the beep setting.
pub const BEEP_BIT: u8 = 0x10;
/// Bit of the status byte that holds the panel lock.
pub const LOCK_BIT: u8 = 0x20;
/// Bit of the status byte that holds the output switch.
pub const OUTPUT_BIT: u8 = 0x40;

/// Whether `mask` is set in `byte`.
pub open spec fn bit_set(byte: u8, mask: u8) -> bool {
    byte & mask != 0
}

/// The mode a channel bit stands for: set means constant voltage.
pub open spec fn mode_of(set: bool) -> Mode {
    if set {
        Mode::Cv
    } else {
        Mode::Cc
    }
}

/// The lock state a lock bit stands for.
pub open spec fn lock_of(set: bool) -> Lock {
    if set {
        Lock::Locked
    } else {
        Lock::Unlocked
    }
}

/// Structure containing all the information fields from the power supply
#[derive(Debug, Clone, Copy, PartialEq, Eq, Structural)]
pub struct Flags {
    /// The raw byte
    pub flags: u8,
    /// Channel 1. CV or CC mode
    pub channel1: Mode,
    /// Channel 2. CV or CC mode
    pub channel2: Mode,
    /// Interface beep enabled or disabled.
    pub beep: Switch,
    /// Interface locked. Will ignore button presses but not serial commands.
    pub lock: Lock,
    /// Output enabled / disabled
    pub output: Switch,
}

impl Flags {
    /// The flags that status byte `byte` stands for.
    pub open spec fn spec_new(byte: u8) -> Flags {
        Flags {
            flags: byte,
            channel1: mode_of(bit_set(byte, CHANNEL1_BIT)),
            channel2: mode_of(bit_set(byte, CHANNEL2_BIT)),
            beep: Switch::spec_from_bool(bit_set(byte, BEEP_BIT)),
            lock: lock_of(bit_set(byte, LOCK_BIT)),
            output: Switch::spec_from_bool(bit_set(byte, OUTPUT_BIT)),
        }
    }

    /// Decodes a status byte.
    pub fn new(flags: u8) -> (r: Flags)
        ensures
            r == Flags::spec_new(flags),
    {
        let channel1 = if flags & CHANNEL1_BIT != 0 {
            Mode::Cv
        } else {
            Mode::Cc
        };
        let channel2 = if flags & CHANNEL2_BIT != 0 {
            Mode::Cv
        } else {
            Mode::Cc
        };
        let beep = if flags & BEEP_BIT != 0 {
            Switch::On
        } else {
            Switch::Off
        };
        let lock = if flags & LOCK_BIT != 0 {
            Lock::Locked
        } else {
            Lock::Unlocked
        };
        let output = if flags & OUTPUT_BIT != 0 {
            Switch::On
        } else {
            Switch::Off
        };
        Flags { flags, channel1, channel2, beep, lock, output }
    }
}

impl From<u8> for Flags {
    fn from(flags: u8) -> (r: Flags)
        ensures
            r == Flags::spec_new(flags),
    {
        Flags::new(flags)
    }
}

impl vstd::std_specs::convert::FromSpecImpl<u8> for Flags {
    open spec fn obeys_from_spec() -> bool {
        true
    }

    open spec fn from_spec(flags: u8) -> Flags {
        Flags::spec_new(flags)
    }
}

/// Each field of the decoded flags depends on its own bit alone: two status
/// bytes that agree on a field's bit decode to the same value of that field,
/// whatever their other bits hold.
pub proof fn lemma_flag_bits_independent(a: u8, b: u8)
    ensures
        a & CHANNEL1_BIT == b & CHANNEL1_BIT ==> Flags::spec_new(a).channel1 == Flags::spec_new(b).channel1,
        a & CHANNEL2_BIT == b & CHANNEL2_BIT ==> Flags::spec_new(a).channel2 == Flags::spec_new(b).channel2,
        a & BEEP_BIT == b & BEEP_BIT ==> Flags::spec_new(a).beep == Flags::spec_new(b).beep,
        a & LOCK_BIT == b & LOCK_BIT ==> Flags::spec_new(a).lock == Flags::spec_new(b).lock,
        a & OUTPUT_BIT == b & OUTPUT_BIT ==> Flags::spec_new(a).output == Flags::spec_new(b).output,
{
}

} // verus!
