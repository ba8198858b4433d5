//! Commands the supply accepts, and their ASCII encoding.
use vstd::prelude::*;
use crate::decimal::{
    Decimal, ascii_bytes, decimal_text, digit_char, fixed_text, is_digit_char, lemma_fixed_text_reads_back,
    lemma_fixed_text_shape, padded_text, parse_decimal, pow10_exec, rounded,
};
use crate::flags::{Flags, OUTPUT_BIT};
use crate::switch::Switch;

verus! {

/// Commands supported by the power supply.
#[derive(Debug, Clone, Copy, PartialEq, Eq, Structural)]
pub enum Command {
    /// Enable/Disable Power
    Power(Switch),
    /// Enable/Disable Beep
    Beep(Switch),
    /// Enable/Disable over voltage protection
    Ovp(Switch),
    /// Enable/Disable over current protection
    Ocp(Switch),
    /// Store current settings to memory. Supports 1 to 5
    Save(u32),
    /// Load stored setting. Note will disable power supply output on load.
    Load(u32),
    /// Sets the voltage. Units in Volts, sent rounded half up to hundredths
    Voltage(Decimal),
    /// Sets the current. Units in Amps, sent rounded half up to thousandths
    Current(Decimal),
}

/// Decimal places the supply expects in a voltage set-point.
pub const VOLTAGE_PLACES: usize = 2;
/// Decimal places the supply expects in a current set-point.
pub const CURRENT_PLACES: usize = 3;

/// The digit that stands for a switch on the wire: `1` for on.
pub open spec fn switch_text(s: Switch) -> Seq<char> {
    if s is On {
        seq!['1']
    } else {
        seq!['0']
    }
}

/// The exact ASCII request the supply expects for `c`.
pub open spec fn encoding(c: Command) -> Seq<char> {
    match c {
        Command::Power(s) => seq!['O', 'U', 'T'] + switch_text(s),
        Command::Ovp(s) => seq!['O', 'V', 'P'] + switch_text(s),
        Command::Ocp(s) => seq!['O', 'C', 'P'] + switch_text(s),
        Command::Beep(s) => seq!['B', 'E', 'E', 'P'] + switch_text(s),
        Command::Save(id) => seq!['S', 'A', 'V'] + decimal_text(id as nat),
        Command::Load(id) => seq!['R', 'C', 'L'] + decimal_text(id as nat),
        Command::Voltage(v) => seq!['V', 'S', 'E', 'T', '1', ':'] + fixed_text(
            rounded(v, VOLTAGE_PLACES as nat),
            VOLTAGE_PLACES as nat,
        ),
        Command::Current(a) => seq!['I', 'S', 'E', 'T', '1', ':'] + fixed_text(
            rounded(a, CURRENT_PLACES as nat),
            CURRENT_PLACES as nat,
        ),
    }
}

/// Appends decimal digit `d`.
fn push_digit(s: &mut String, d: u128)
    requires
        d < 10,
    ensures
        final(s)@ == old(s)@ + seq![digit_char(d as nat)],
{
    proof {
        reveal_strlit("0");
        reveal_strlit("1");
        reveal_strlit("2");
        reveal_strlit("3");
        reveal_strlit("4");
        reveal_strlit("5");
        reveal_strlit("6");
        reveal_strlit("7");
        reveal_strlit("8");
        reveal_strlit("9");
    }
    let t = if d == 0 {
        "0"
    } else if d == 1 {
        "1"
    } else if d == 2 {
        "2"
    } else if d == 3 {
        "3"
    } else if d == 4 {
        "4"
    } else if d == 5 {
        "5"
    } else if d == 6 {
        "6"
    } else if d == 7 {
        "7"
    } else if d == 8 {
        "8"
    } else {
        "9"
    };
    assert(t@ =~= seq![digit_char(d as nat)]);
    s.append(t);
}

/// Appends `n` in decimal.
fn push_decimal(s: &mut String, n: u128)
    ensures
        final(s)@ == old(s)@ + decimal_text(n as nat),
    decreases n,
{
    if n >= 10 {
        push_decimal(s, n / 10);
    }
    push_digit(s, n % 10);
    assert(final(s)@ =~= old(s)@ + decimal_text(n as nat));
}

/// Appends the last `width` decimal digits of `n`.
fn push_padded(s: &mut String, n: u128, width: usize)
    ensures
        final(s)@ == old(s)@ + padded_text(n as nat, width as nat),
    decreases width,
{
    if width > 0 {
        push_padded(s, n / 10, width - 1);
        push_digit(s, n % 10);
        assert(final(s)@ =~= old(s)@ + padded_text(n as nat, width as nat));
    } else {
        assert(final(s)@ =~= old(s)@ + padded_text(n as nat, width as nat));
    }
}

/// Appends `q` units of `10^-places` with exactly `places` digits after
/// the point.
fn push_fixed(s: &mut String, q: u128, places: usize)
    requires
        places <= 3,
    ensures
        final(s)@ == old(s)@ + fixed_text(q as nat, places as nat),
{
    let unit = pow10_exec(places);
    push_decimal(s, q / unit);
    proof {
        reveal_strlit(".");
    }
    s.append(".");
    push_padded(s, q % unit, places);
    assert(final(s)@ =~= old(s)@ + fixed_text(q as nat, places as nat));
}

/// Appends the wire digit of a switch.
fn push_switch(s: &mut String, w: Switch)
    ensures
        final(s)@ == old(s)@ + switch_text(w),
{
    match w {
        Switch::On => push_digit(s, 1),
        Switch::Off => push_digit(s, 0),
    }
}

impl Command {
    /// The ASCII request for this command.
    pub fn encode(&self) -> (r: String)
        ensures
            r@ == encoding(*self),
    {
        let mut s = String::new();
        match *self {
            Command::Power(w) => {
                proof {
                    reveal_strlit("OUT");
                }
                s.append("OUT");
                push_switch(&mut s, w);
            },
            Command::Ovp(w) => {
                proof {
                    reveal_strlit("OVP");
                }
                s.append("OVP");
                push_switch(&mut s, w);
            },
            Command::Ocp(w) => {
                proof {
                    reveal_strlit("OCP");
                }
                s.append("OCP");
                push_switch(&mut s, w);
            },
            Command::Beep(w) => {
                proof {
                    reveal_strlit("BEEP");
                }
                s.append("BEEP");
                push_switch(&mut s, w);
            },
            Command::Save(id) => {
                proof {
                    reveal_strlit("SAV");
                }
                s.append("SAV");
                push_decimal(&mut s, id as u128);
            },
            Command::Load(id) => {
                proof {
                    reveal_strlit("RCL");
                }
                s.append("RCL");
                push_decimal(&mut s, id as u128);
            },
            Command::Voltage(v) => {
                proof {
                    reveal_strlit("VSET1:");
                }
                s.append("VSET1:");
                push_fixed(&mut s, v.rounded(VOLTAGE_PLACES), VOLTAGE_PLACES);
            },
            Command::Current(a) => {
                proof {
                    reveal_strlit("ISET1:");
                }
                s.append("ISET1:");
                push_fixed(&mut s, a.rounded(CURRENT_PLACES), CURRENT_PLACES);
            },
        }
        assert(s@ =~= encoding(*self));
        s
    }
}

impl From<Command> for String {
    fn from(c: Command) -> (r: String)
        ensures
            r@ == encoding(c),
    {
        c.encode()
    }
}

impl vstd::std_specs::convert::FromSpecImpl<Command> for String {
    /// Strings are known here by their characters only, so the conversion is
    /// stated on the view, in the `ensures` of `from`.
    open spec fn obeys_from_spec() -> bool {
        false
    }

    open spec fn from_spec(c: Command) -> String {
        choose|s: String| s@ == encoding(c)
    }
}

/// The status byte `byte` with its output bit set where `on` holds and
/// cleared where it does not.
pub open spec fn with_output_bit(byte: u8, on: bool) -> u8 {
    if on {
        byte | OUTPUT_BIT
    } else {
        byte & !OUTPUT_BIT
    }
}

/// The on/off convention of the wire agrees with the status byte: a supply
/// that sets its output bit as the digit of `OUT` says reports back, as its
/// output, the switch that was sent, whatever its other bits hold.
pub proof fn lemma_power_round_trip(s: Switch, byte: u8)
    ensures
        Flags::spec_new(
            with_output_bit(byte, encoding(Command::Power(s)).last() == '1'),
        ).output == s,
{
    assert((byte | 0x40u8) & 0x40u8 != 0) by (bit_vector);
    assert((byte & !0x40u8) & 0x40u8 == 0) by (bit_vector);
    assert(encoding(Command::Power(s)).last() == switch_text(s).last());
}

/// A set-point text: the prefix, then digits with exactly `places` of them
/// after a single point.
pub open spec fn is_set_point_text(t: Seq<char>, prefix: Seq<char>, places: nat) -> bool {
    &&& t.len() >= prefix.len() + places + 2
    &&& t.subrange(0, prefix.len() as int) == prefix
    &&& t[t.len() - places - 1] == '.'
    &&& forall|i: int|
        prefix.len() <= i < t.len() && i != t.len() - places - 1 ==> is_digit_char(#[trigger] t[i])
}

/// Every voltage set-point goes out with exactly two digits after the point.
pub proof fn lemma_voltage_two_places(v: Decimal)
    ensures
        is_set_point_text(
            encoding(Command::Voltage(v)),
            seq!['V', 'S', 'E', 'T', '1', ':'],
            VOLTAGE_PLACES as nat,
        ),
{
    lemma_set_point_shape(seq!['V', 'S', 'E', 'T', '1', ':'], rounded(v, 2), 2);
}

/// Every current set-point goes out with exactly three digits after the
/// point.
pub proof fn lemma_current_three_places(a: Decimal)
    ensures
        is_set_point_text(
            encoding(Command::Current(a)),
            seq!['I', 'S', 'E', 'T', '1', ':'],
            CURRENT_PLACES as nat,
        ),
{
    lemma_set_point_shape(seq!['I', 'S', 'E', 'T', '1', ':'], rounded(a, 3), 3);
}

/// The number in a voltage set-point, read back as decimal text, is the
/// voltage rounded to hundredths, wherever that fits a `u64`.
pub proof fn lemma_voltage_reads_back(v: Decimal)
    requires
        rounded(v, VOLTAGE_PLACES as nat) <= u64::MAX,
    ensures
        parse_decimal(
            ascii_bytes(encoding(Command::Voltage(v)).subrange(6, encoding(Command::Voltage(v)).len() as int)),
        ) == Some(
            Decimal { mantissa: rounded(v, VOLTAGE_PLACES as nat) as u64, scale: VOLTAGE_PLACES },
        ),
{
    let prefix = seq!['V', 'S', 'E', 'T', '1', ':'];
    let f = fixed_text(rounded(v, 2), 2);
    assert((prefix + f).subrange(6, (prefix + f).len() as int) =~= f);
    lemma_fixed_text_reads_back(rounded(v, 2), 2);
}

/// The number in a current set-point, read back as decimal text, is the
/// current rounded to thousandths, wherever that fits a `u64`.
pub proof fn lemma_current_reads_back(a: Decimal)
    requires
        rounded(a, CURRENT_PLACES as nat) <= u64::MAX,
    ensures
        parse_decimal(
            ascii_bytes(encoding(Command::Current(a)).subrange(6, encoding(Command::Current(a)).len() as int)),
        ) == Some(
            Decimal { mantissa: rounded(a, CURRENT_PLACES as nat) as u64, scale: CURRENT_PLACES },
        ),
{
    let prefix = seq!['I', 'S', 'E', 'T', '1', ':'];
    let f = fixed_text(rounded(a, 3), 3);
    assert((prefix + f).subrange(6, (prefix + f).len() as int) =~= f);
    lemma_fixed_text_reads_back(rounded(a, 3), 3);
}

proof fn lemma_set_point_shape(prefix: Seq<char>, q: nat, places: nat)
    ensures
        is_set_point_text(prefix + fixed_text(q, places), prefix, places),
{
    lemma_fixed_text_shape(q, places);
    let f = fixed_text(q, places);
    let t = prefix + f;
    assert(t.subrange(0, prefix.len() as int) =~= prefix);
    assert(t[t.len() - places - 1] == f[f.len() - places - 1]);
    assert forall|i: int|
        prefix.len() <= i < t.len() && i != t.len() - places - 1 implies is_digit_char(
        #[trigger] t[i],
    ) by {
        assert(t[i] == f[i - prefix.len()]);
    }
}

} // verus!
