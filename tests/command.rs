use ka3005p::{Command, Decimal, Flags, Switch};

fn decimal_of(x: f32) -> Decimal {
    Decimal::parse(format!("{}", x).as_bytes()).unwrap()
}

#[test]
fn test_output_vset() {
    // PSU is picky on the number of decimal places.
    assert_eq!(
        String::from(Command::Voltage(decimal_of(3.123))),
        "VSET1:3.12".to_string()
    );
    assert_eq!(
        String::from(Command::Voltage(decimal_of(1.500))),
        "VSET1:1.50".to_string()
    );
    assert_eq!(
        String::from(Command::Voltage(decimal_of(4.999))),
        "VSET1:5.00".to_string()
    );
    assert_eq!(
        String::from(Command::Voltage(decimal_of(4.0))),
        "VSET1:4.00".to_string()
    );
}

#[test]
fn test_output_iset() {
    // PSU is picky on the number of decimal places.
    assert_eq!(
        String::from(Command::Current(decimal_of(3.123))),
        "ISET1:3.123".to_string()
    );
    assert_eq!(
        String::from(Command::Current(decimal_of(1.500))),
        "ISET1:1.500".to_string()
    );
    assert_eq!(
        String::from(Command::Current(decimal_of(4.99999))),
        "ISET1:5.000".to_string()
    );
    assert_eq!(
        String::from(Command::Current(decimal_of(4.0))),
        "ISET1:4.000".to_string()
    );
}

#[test]
fn encode_switch_commands() {
    assert_eq!(Command::Power(Switch::On).encode(), "OUT1");
    assert_eq!(Command::Power(Switch::Off).encode(), "OUT0");
    assert_eq!(Command::Ovp(Switch::On).encode(), "OVP1");
    assert_eq!(Command::Ovp(Switch::Off).encode(), "OVP0");
    assert_eq!(Command::Ocp(Switch::On).encode(), "OCP1");
    assert_eq!(Command::Ocp(Switch::Off).encode(), "OCP0");
    assert_eq!(Command::Beep(Switch::On).encode(), "BEEP1");
    assert_eq!(Command::Beep(Switch::Off).encode(), "BEEP0");
}

#[test]
fn encode_memory_slots() {
    assert_eq!(Command::Save(1).encode(), "SAV1");
    assert_eq!(Command::Load(4).encode(), "RCL4");
    assert_eq!(Command::Save(0).encode(), "SAV0");
    assert_eq!(Command::Load(10).encode(), "RCL10");
    assert_eq!(Command::Save(u32::MAX).encode(), "SAV4294967295");
}

#[test]
fn encode_voltage_exact_decimals() {
    assert_eq!(Command::Voltage(Decimal::new(3123, 3)).encode(), "VSET1:3.12");
    assert_eq!(Command::Voltage(Decimal::new(4999, 3)).encode(), "VSET1:5.00");
    assert_eq!(Command::Voltage(Decimal::new(12, 0)).encode(), "VSET1:12.00");
    assert_eq!(Command::Voltage(Decimal::new(5, 2)).encode(), "VSET1:0.05");
    assert_eq!(Command::Voltage(Decimal::new(0, 0)).encode(), "VSET1:0.00");
    // Half a unit of the last place rounds up.
    assert_eq!(Command::Voltage(Decimal::new(1005, 3)).encode(), "VSET1:1.01");
    assert_eq!(Command::Voltage(Decimal::new(10049, 4)).encode(), "VSET1:1.00");
    // Far below the last place: rounds to zero.
    assert_eq!(Command::Voltage(Decimal::new(u64::MAX, 40)).encode(), "VSET1:0.00");
    assert_eq!(
        Command::Voltage(Decimal::new(u64::MAX, 0)).encode(),
        "VSET1:18446744073709551615.00"
    );
}

#[test]
fn encode_current_exact_decimals() {
    assert_eq!(Command::Current(Decimal::new(499999, 5)).encode(), "ISET1:5.000");
    assert_eq!(Command::Current(Decimal::new(305, 3)).encode(), "ISET1:0.305");
    assert_eq!(Command::Current(Decimal::new(15, 1)).encode(), "ISET1:1.500");
    assert_eq!(Command::Current(Decimal::new(30449, 5)).encode(), "ISET1:0.304");
    assert_eq!(Command::Current(Decimal::new(30450, 5)).encode(), "ISET1:0.305");
}

#[test]
fn power_round_trip_through_status_byte() {
    for s in [Switch::On, Switch::Off] {
        let text = Command::Power(s).encode();
        let on = text.ends_with('1');
        for byte in [0u8, 0x40, 0x33, 0xff] {
            let b = if on { byte | 0x40 } else { byte & !0x40 };
            assert_eq!(Flags::new(b).output, s);
        }
    }
}
