use ka3005p::{PsuError, Switch};

#[test]
fn switch_parses_any_case() {
    assert_eq!(Switch::parse("on"), Ok(Switch::On));
    assert_eq!(Switch::parse("ON"), Ok(Switch::On));
    assert_eq!(Switch::parse("Off"), Ok(Switch::Off));
    assert_eq!("oFF".parse::<Switch>(), Ok(Switch::Off));
}

#[test]
fn switch_rejects_other_text() {
    assert_eq!(Switch::parse("of"), Err(PsuError::InvalidSwitch));
    assert_eq!(Switch::parse("onn"), Err(PsuError::InvalidSwitch));
    assert_eq!(Switch::parse(""), Err(PsuError::InvalidSwitch));
    assert_eq!(Switch::parse(" on"), Err(PsuError::InvalidSwitch));
}

#[test]
fn switch_from_lowercase_is_exact() {
    assert_eq!(Switch::from_lowercase("on"), Ok(Switch::On));
    assert_eq!(Switch::from_lowercase("off"), Ok(Switch::Off));
    assert_eq!(Switch::from_lowercase("ON"), Err(PsuError::InvalidSwitch));
}

#[test]
fn switch_bool_conversions() {
    assert!(bool::from(Switch::On));
    assert!(!bool::from(Switch::Off));
    assert_eq!(Switch::from(true), Switch::On);
    assert_eq!(Switch::from(false), Switch::Off);
}
