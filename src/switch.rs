//! The on/off state used by several commands and status fields.
use vstd::prelude::*;
use vstd::string::StrSliceExecFns;
use crate::error::PsuError;

verus! {

/// On / Off
#[derive(Debug, Clone, Copy, PartialEq, Eq, Structural)]
pub enum Switch {
    /// Enable the feature/output
    On,
    /// Disable the feature/output
    Off,
}

impl Switch {
    /// The boolean a switch stands for: `On` is `true`.
    pub open spec fn spec_is_on(self) -> bool {
        self is On
    }

    /// The switch a boolean stands for.
    pub open spec fn spec_from_bool(b: bool) -> Switch {
        if b {
            Switch::On
        } else {
            Switch::Off
        }
    }
}

impl From<Switch> for bool {
    fn from(w: Switch) -> (r: bool)
        ensures
            r == w.spec_is_on(),
    {
        match w {
            Switch::On => true,
            Switch::Off => false,
        }
    }
}

impl vstd::std_specs::convert::FromSpecImpl<Switch> for bool {
    open spec fn obeys_from_spec() -> bool {
        true
    }

    open spec fn from_spec(w: Switch) -> bool {
        w.spec_is_on()
    }
}

impl From<bool> for Switch {
    fn from(x: bool) -> (r: Switch)
        ensures
            r == Switch::spec_from_bool(x),
    {
        if x {
            Switch::On
        } else {
            Switch::Off
        }
    }
}

impl vstd::std_specs::convert::FromSpecImpl<bool> for Switch {
    open spec fn obeys_from_spec() -> bool {
        true
    }

    open spec fn from_spec(x: bool) -> Switch {
        Switch::spec_from_bool(x)
    }
}

/// The lower-case form of `s`, as `str::to_lowercase` gives it.
pub uninterp spec fn lower_of(s: Seq<char>) -> Seq<char>;

/// Relies on `str::to_lowercase`: the result depends on the characters alone.
#[verifier::external_body]
fn lowercase(s: &str) -> (r: String)
    ensures
        r@ == lower_of(s@),
{
    s.to_lowercase()
}

/// The switch that lower-case text names: exactly `on` or `off`.
pub open spec fn switch_named(t: Seq<char>) -> Result<Switch, PsuError> {
    if t == seq!['o', 'n'] {
        Ok(Switch::On)
    } else if t == seq!['o', 'f', 'f'] {
        Ok(Switch::Off)
    } else {
        Err(PsuError::InvalidSwitch)
    }
}

impl Switch {
    /// Reads text that is already lower case: `on` or `off`, nothing else.
    pub fn from_lowercase(t: &str) -> (r: Result<Switch, PsuError>)
        ensures
            r == switch_named(t@),
    {
        let n = t.unicode_len();
        if n == 2 && t.get_char(0) == 'o' && t.get_char(1) == 'n' {
            assert(t@ =~= seq!['o', 'n']);
            Ok(Switch::On)
        } else if n == 3 && t.get_char(0) == 'o' && t.get_char(1) == 'f' && t.get_char(2) == 'f' {
            assert(t@ =~= seq!['o', 'f', 'f']);
            Ok(Switch::Off)
        } else {
            proof {
                if t@ == seq!['o', 'n'] {
                    assert(t@[0] == 'o' && t@[1] == 'n');
                }
                if t@ == seq!['o', 'f', 'f'] {
                    assert(t@[0] == 'o' && t@[1] == 'f' && t@[2] == 'f');
                }
            }
            Err(PsuError::InvalidSwitch)
        }
    }

    /// Reads `on` or `off`, in any case.
    pub fn parse(s: &str) -> (r: Result<Switch, PsuError>)
        ensures
            r == switch_named(lower_of(s@)),
    {
        let lower = lowercase(s);
        Switch::from_lowercase(lower.as_str())
    }
}

impl std::str::FromStr for Switch {
    type Err = PsuError;

    fn from_str(s: &str) -> Result<Switch, PsuError> {
        Switch::parse(s)
    }
}

} // verus!
