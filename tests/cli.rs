use ka3005p::cli;
use ka3005p::{Command, Decimal, PsuError, Switch};

#[test]
fn cli_device_commands_convert() {
    let c = cli::Command::Power { switch: Switch::On }.try_into();
    assert_eq!(c, Ok(Command::Power(Switch::On)));
    let v = Decimal::new(121, 1);
    assert_eq!(cli::Command::Voltage { v }.try_into(), Ok(Command::Voltage(v)));
    assert_eq!(cli::Command::Save { id: 2 }.try_into(), Ok(Command::Save(2)));
    assert_eq!(cli::Command::Load { id: 3 }.try_into(), Ok(Command::Load(3)));
    assert_eq!(
        cli::Command::Beep { switch: Switch::Off }.try_into(),
        Ok(Command::Beep(Switch::Off))
    );
}

#[test]
fn cli_non_device_commands_are_unsupported() {
    assert_eq!(cli::Command::Status.try_into(), Err(PsuError::Unsupported));
    assert_eq!(cli::Command::List { verbose: true }.try_into(), Err(PsuError::Unsupported));
    assert_eq!(cli::Command::Interactive.try_into(), Err(PsuError::Unsupported));
}
