use ka3005p::{Flags, Lock, Mode, Switch};

#[test]
fn test_channel1_status() {
    assert_eq!(Mode::Cc, Flags::new(0).channel1);
    assert_eq!(Mode::Cv, Flags::new(1).channel1);
}

#[test]
fn test_channel2_status() {
    assert_eq!(Mode::Cc, Flags::new(0).channel2);
    assert_eq!(Mode::Cv, Flags::new(2).channel2);
}

#[test]
fn test_beep_status() {
    assert_eq!(Switch::Off, Flags::new(0).beep);
    assert_eq!(Switch::On, Flags::new(16).beep);
}

#[test]
fn test_lock_status() {
    assert_eq!(Lock::Unlocked, Flags::new(0).lock);
    assert_eq!(Lock::Locked, Flags::new(32).lock);
}

#[test]
fn test_output_status() {
    assert_eq!(Switch::Off, Flags::new(0).output);
    assert_eq!(Switch::On, Flags::new(64).output);
}

#[test]
fn flags_bits_combine_independently() {
    let all = Flags::new(0x73);
    assert_eq!(all.channel1, Mode::Cv);
    assert_eq!(all.channel2, Mode::Cv);
    assert_eq!(all.beep, Switch::On);
    assert_eq!(all.lock, Lock::Locked);
    assert_eq!(all.output, Switch::On);
    let some = Flags::new(0x41 | 0x8c);
    assert_eq!(some.channel1, Mode::Cv);
    assert_eq!(some.channel2, Mode::Cc);
    assert_eq!(some.beep, Switch::Off);
    assert_eq!(some.lock, Lock::Unlocked);
    assert_eq!(some.output, Switch::On);
}

#[test]
fn flags_unused_bits_change_nothing_but_the_raw_byte() {
    let plain = Flags::new(0x20);
    let noisy = Flags::new(0x20 | 0x8c);
    assert_eq!(plain.channel1, noisy.channel1);
    assert_eq!(plain.channel2, noisy.channel2);
    assert_eq!(plain.beep, noisy.beep);
    assert_eq!(plain.lock, noisy.lock);
    assert_eq!(plain.output, noisy.output);
    assert_eq!(noisy.flags, 0xac);
}

#[test]
fn flags_from_byte_matches_new() {
    assert_eq!(Flags::from(0x52u8), Flags::new(0x52));
    assert_eq!(Flags::from(0x52u8).flags, 0x52);
}
