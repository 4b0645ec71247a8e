//! Starting with Windows.
//!
//! A per-user `Run` value, and nothing else. The value is the single source of truth: nothing
//! about it is mirrored into the settings, so the two can never disagree.

use crate::text::concat3;
use vstd::prelude::*;

verus! {

/// Whether the program starts with Windows.
#[derive(Debug, Clone, Copy, PartialEq, Eq, Structural)]
pub enum AutoStartState {
    Disabled,
    Enabled,
    /// The Run value is there, but Windows has it switched off.
    ///
    /// Windows' switch wins, and the settings page says so rather than fighting it.
    DisabledByWindows,
}

/// Reads and writes the autostart registration.
pub trait AutoStart {
    fn state(&self) -> AutoStartState;

    fn enable(&self) -> Result<(), String>;

    fn disable(&self) -> Result<(), String>;
}

/// Somewhere without a Run key. Reports disabled and ignores the rest, so callers never branch.
#[derive(Debug, Clone, Copy, PartialEq, Eq, Structural)]
pub struct Unsupported;

impl AutoStart for Unsupported {
    fn state(&self) -> (r: AutoStartState)
        ensures
            r == AutoStartState::Disabled,
    {
        AutoStartState::Disabled
    }

    fn enable(&self) -> (r: Result<(), String>)
        ensures
            r is Ok,
    {
        Ok(())
    }

    fn disable(&self) -> (r: Result<(), String>)
        ensures
            r is Ok,
    {
        Ok(())
    }
}

/// The registration of a platform without a Run key.
pub fn auto_start() -> (r: Unsupported)
    ensures
        r == Unsupported,
{
    Unsupported
}

/// What the registry holds about the program.
#[derive(Debug, PartialEq, Eq)]
pub struct WindowsAutoStart {
    /// The Run value, where it can be read.
    pub run: Option<String>,
    /// The status Windows keeps beside it, where it can be read. Not a string: the first byte is
    /// odd when the entry is off.
    pub approved: Option<Vec<u8>>,
}

impl WindowsAutoStart {
    /// There is a Run value, and it says something.
    pub open spec fn registered(self) -> bool {
        self.run is Some && self.run->0@.len() > 0
    }

    /// Windows' own switch is off.
    pub open spec fn switched_off(self) -> bool {
        self.approved is Some && self.approved->0@.len() > 0 && self.approved->0@[0] % 2 == 1
    }

    /// What the registry says.
    pub open spec fn says(self) -> AutoStartState {
        if !self.registered() {
            AutoStartState::Disabled
        } else if self.switched_off() {
            AutoStartState::DisabledByWindows
        } else {
            AutoStartState::Enabled
        }
    }

    /// What the registry says. Reading never writes: overriding Windows' own switch is exactly the
    /// kind of behaviour antivirus heuristics look for, and the user meant it when they used it.
    pub fn state(&self) -> (r: AutoStartState)
        ensures
            r == self.says(),
    {
        let registered = match &self.run {
            Some(value) => !value.as_str().is_empty(),
            None => false,
        };
        if !registered {
            return AutoStartState::Disabled;
        }
        let switched_off = match &self.approved {
            Some(status) => status.len() > 0 && status[0] % 2 == 1,
            None => false,
        };
        if switched_off {
            AutoStartState::DisabledByWindows
        } else {
            AutoStartState::Enabled
        }
    }

    /// The Run value for a program. Quoted, so a space in the install location does not split the
    /// command.
    pub fn command(executable: &str) -> (r: String)
        ensures
            r@ == "\""@ + executable@ + "\""@,
    {
        concat3("\"", executable, "\"")
    }
}

/// Registering a program enables it, unless Windows has it switched off.
pub proof fn law_registering_enables(registry: WindowsAutoStart, executable: Seq<char>)
    requires
        registry.run is Some,
        registry.run->0@ == "\""@ + executable + "\""@,
    ensures
        registry.says() == if registry.switched_off() {
            AutoStartState::DisabledByWindows
        } else {
            AutoStartState::Enabled
        },
{
    reveal_strlit("\"");
}

} // verus!
