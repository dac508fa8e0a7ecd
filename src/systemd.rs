//! The states that the unit manager reports for a unit, read from and
//! written back to the manager's words for them.
use vstd::prelude::*;

verus! {

/// Whether `s` is the text `lit`.
fn text_is(s: &str, lit: &str) -> (r: bool)
    ensures
        r == (s@ == lit@),
{
    String::from_str(s) == String::from_str(lit)
}

/// What a unit did when it last ran.
#[derive(Debug, Clone, PartialEq, Eq)]
pub enum LastRunState {
    Failed,
    Dead,
    Mounted,
    Running,
    Listening,
    Plugged,
    Exited,
    Active,
    Waiting,
    Unknown(String),
}

impl LastRunState {
    /// The manager's word for the state.
    pub open spec fn spec_text(&self) -> Seq<char> {
        match self {
            LastRunState::Failed => "failed"@,
            LastRunState::Dead => "dead"@,
            LastRunState::Mounted => "mounted"@,
            LastRunState::Running => "running"@,
            LastRunState::Listening => "listening"@,
            LastRunState::Plugged => "plugged"@,
            LastRunState::Exited => "exited"@,
            LastRunState::Active => "active"@,
            LastRunState::Waiting => "waiting"@,
            LastRunState::Unknown(s) => s@,
        }
    }

    /// The state that the manager's word `s` names, if it names one.
    pub open spec fn known(s: Seq<char>) -> Option<LastRunState> {
        if s == "failed"@ {
            Some(LastRunState::Failed)
        } else if s == "dead"@ {
            Some(LastRunState::Dead)
        } else if s == "mounted"@ {
            Some(LastRunState::Mounted)
        } else if s == "running"@ {
            Some(LastRunState::Running)
        } else if s == "listening"@ {
            Some(LastRunState::Listening)
        } else if s == "plugged"@ {
            Some(LastRunState::Plugged)
        } else if s == "exited"@ {
            Some(LastRunState::Exited)
        } else if s == "active"@ {
            Some(LastRunState::Active)
        } else if s == "waiting"@ {
            Some(LastRunState::Waiting)
        } else {
            None
        }
    }

    /// `r` is what the word `s` reads as: the state that it names, or
    /// `Unknown(s)` for a word of no known state.
    pub open spec fn read_from(s: Seq<char>, r: LastRunState) -> bool {
        match LastRunState::known(s) {
            Some(k) => r == k,
            None => r matches LastRunState::Unknown(t) && t@ == s,
        }
    }

    /// The manager's word for the state.
    pub fn to_string(&self) -> (r: String)
        ensures
            r@ == self.spec_text(),
    {
        match self {
            LastRunState::Failed => String::from_str("failed"),
            LastRunState::Dead => String::from_str("dead"),
            LastRunState::Mounted => String::from_str("mounted"),
            LastRunState::Running => String::from_str("running"),
            LastRunState::Listening => String::from_str("listening"),
            LastRunState::Plugged => String::from_str("plugged"),
            LastRunState::Exited => String::from_str("exited"),
            LastRunState::Active => String::from_str("active"),
            LastRunState::Waiting => String::from_str("waiting"),
            LastRunState::Unknown(s) => s.clone(),
        }
    }

    /// The state that the manager's word `s` names, `Unknown(s)` for a word
    /// of no known state.
    pub fn from_str(s: &str) -> (r: LastRunState)
        ensures
            LastRunState::read_from(s@, r),
    {
        if text_is(s, "failed") {
            LastRunState::Failed
        } else if text_is(s, "dead") {
            LastRunState::Dead
        } else if text_is(s, "mounted") {
            LastRunState::Mounted
        } else if text_is(s, "running") {
            LastRunState::Running
        } else if text_is(s, "listening") {
            LastRunState::Listening
        } else if text_is(s, "plugged") {
            LastRunState::Plugged
        } else if text_is(s, "exited") {
            LastRunState::Exited
        } else if text_is(s, "active") {
            LastRunState::Active
        } else if text_is(s, "waiting") {
            LastRunState::Waiting
        } else {
            LastRunState::Unknown(String::from_str(s))
        }
    }
}

/// Whether a unit runs, as a request or as a report.
#[derive(Debug, Clone, PartialEq, Eq)]
pub enum RuntimeState {
    Started,
    Stopped,
    Restarted,
    Reloaded,
    Unknown(String),
}

impl RuntimeState {
    /// The word for the state.
    pub open spec fn spec_text(&self) -> Seq<char> {
        match self {
            RuntimeState::Started => "started"@,
            RuntimeState::Stopped => "stopped"@,
            RuntimeState::Restarted => "restarted"@,
            RuntimeState::Reloaded => "reloaded"@,
            RuntimeState::Unknown(s) => s@,
        }
    }

    /// The state that the word `s` names: the manager's words for a unit
    /// that runs count as started, those for one that does not as stopped.
    pub open spec fn known(s: Seq<char>) -> Option<RuntimeState> {
        if s == "started"@ || s == "running"@ || s == "mounted"@ || s == "listening"@ || s
            == "plugged"@ || s == "active"@ {
            Some(RuntimeState::Started)
        } else if s == "stopped"@ || s == "dead"@ || s == "failed"@ || s == "exited"@ || s
            == "waiting"@ {
            Some(RuntimeState::Stopped)
        } else if s == "restarted"@ {
            Some(RuntimeState::Restarted)
        } else if s == "reloaded"@ {
            Some(RuntimeState::Reloaded)
        } else {
            None
        }
    }

    /// `r` is what the word `s` reads as: the state that it names, or
    /// `Unknown(s)` for a word of no known state.
    pub open spec fn read_from(s: Seq<char>, r: RuntimeState) -> bool {
        match RuntimeState::known(s) {
            Some(k) => r == k,
            None => r matches RuntimeState::Unknown(t) && t@ == s,
        }
    }

    /// The word for the state.
    pub fn to_string(&self) -> (r: String)
        ensures
            r@ == self.spec_text(),
    {
        match self {
            RuntimeState::Started => String::from_str("started"),
            RuntimeState::Stopped => String::from_str("stopped"),
            RuntimeState::Restarted => String::from_str("restarted"),
            RuntimeState::Reloaded => String::from_str("reloaded"),
            RuntimeState::Unknown(s) => s.clone(),
        }
    }

    /// The state that the word `s` names, `Unknown(s)` for a word of no
    /// known state.
    pub fn from_str(s: &str) -> (r: RuntimeState)
        ensures
            RuntimeState::read_from(s@, r),
    {
        if text_is(s, "started") || text_is(s, "running") || text_is(s, "mounted") || text_is(
            s,
            "listening",
        ) || text_is(s, "plugged") || text_is(s, "active") {
            RuntimeState::Started
        } else if text_is(s, "stopped") || text_is(s, "dead") || text_is(s, "failed") || text_is(
            s,
            "exited",
        ) || text_is(s, "waiting") {
            RuntimeState::Stopped
        } else if text_is(s, "restarted") {
            RuntimeState::Restarted
        } else if text_is(s, "reloaded") {
            RuntimeState::Reloaded
        } else {
            RuntimeState::Unknown(String::from_str(s))
        }
    }
}

/// Whether a unit is enabled.
#[derive(Debug, Clone, PartialEq, Eq)]
pub enum EnabledState {
    Enabled,
    Disabled,
    Failed,
    Unknown(String),
}

impl EnabledState {
    /// The word for the state.
    pub open spec fn spec_text(&self) -> Seq<char> {
        match self {
            EnabledState::Enabled => "enabled"@,
            EnabledState::Disabled => "disabled"@,
            EnabledState::Failed => "failed"@,
            EnabledState::Unknown(s) => s@,
        }
    }

    /// The state that the word `s` names: `active` counts as enabled and
    /// `inactive` as disabled.
    pub open spec fn known(s: Seq<char>) -> Option<EnabledState> {
        if s == "enabled"@ || s == "active"@ {
            Some(EnabledState::Enabled)
        } else if s == "disabled"@ || s == "inactive"@ {
            Some(EnabledState::Disabled)
        } else if s == "failed"@ {
            Some(EnabledState::Failed)
        } else {
            None
        }
    }

    /// `r` is what the word `s` reads as: the state that it names, or
    /// `Unknown(s)` for a word of no known state.
    pub open spec fn read_from(s: Seq<char>, r: EnabledState) -> bool {
        match EnabledState::known(s) {
            Some(k) => r == k,
            None => r matches EnabledState::Unknown(t) && t@ == s,
        }
    }

    /// The word for the state.
    pub fn to_string(&self) -> (r: String)
        ensures
            r@ == self.spec_text(),
    {
        match self {
            EnabledState::Enabled => String::from_str("enabled"),
            EnabledState::Disabled => String::from_str("disabled"),
            EnabledState::Failed => String::from_str("failed"),
            EnabledState::Unknown(s) => s.clone(),
        }
    }

    /// The state that the word `s` names, `Unknown(s)` for a word of no
    /// known state.
    pub fn from_str(s: &str) -> (r: EnabledState)
        ensures
            EnabledState::read_from(s@, r),
    {
        if text_is(s, "enabled") || text_is(s, "active") {
            EnabledState::Enabled
        } else if text_is(s, "disabled") || text_is(s, "inactive") {
            EnabledState::Disabled
        } else if text_is(s, "failed") {
            EnabledState::Failed
        } else {
            EnabledState::Unknown(String::from_str(s))
        }
    }
}

/// The states asked of a unit.
#[derive(Debug, Clone, PartialEq, Eq)]
pub struct UnitSettings {
    pub name: String,
    pub enabled_state: EnabledState,
    pub runtime_state: RuntimeState,
}

/// A unit as the manager lists it.
#[derive(Debug, Clone, PartialEq, Eq)]
pub struct Unit {
    pub name: String,
    pub description: String,
    pub last_run_state: LastRunState,
    pub enabled_state: EnabledState,
    pub runtime_state: RuntimeState,
    pub object_path: String,
}

impl Unit {
    /// The unit of one entry of the manager's unit list: its enabled state
    /// read from the entry's active state, and both its runtime state and its
    /// last-run state read from the entry's sub-state.
    pub fn from_entry(
        name: String,
        description: String,
        active_state: &str,
        sub_state: &str,
        object_path: String,
    ) -> (r: Unit)
        ensures
            r.name == name,
            r.description == description,
            r.object_path == object_path,
            EnabledState::read_from(active_state@, r.enabled_state),
            RuntimeState::read_from(sub_state@, r.runtime_state),
            LastRunState::read_from(sub_state@, r.last_run_state),
    {
        Unit {
            name,
            description,
            enabled_state: EnabledState::from_str(active_state),
            runtime_state: RuntimeState::from_str(sub_state),
            last_run_state: LastRunState::from_str(sub_state),
            object_path,
        }
    }
}

} // verus!
