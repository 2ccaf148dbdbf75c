//! What the window decides, apart from how it is drawn.
//!
//! Everything here is a plain value: what a screen shows, what a control may
//! do, what one press or one key changes, and which command leaves for the
//! daemon. Painting it is somebody else's.

use vstd::prelude::*;

use crate::display::DisplayPreset;
use crate::lighting::LightingCommand;
use crate::profile::{CoolingProgram, Profile};
use crate::DeviceId;

pub mod screen;

verus! {

/// Whether a control can be operated, and what it says when it cannot.
#[derive(Debug, PartialEq, Eq)]
pub enum ControlState {
    Enabled,
    Disabled { reason: String },
    /// The control holds a value nothing can be done with.
    Error { message: String },
}

impl Clone for ControlState {
    fn clone(&self) -> (copy: Self)
        ensures
            copy == *self,
    {
        match self {
            Self::Enabled => Self::Enabled,
            Self::Disabled { reason } => Self::Disabled { reason: reason.clone() },
            Self::Error { message } => Self::Error { message: message.clone() },
        }
    }
}

impl ControlState {
    pub fn disabled(reason: &str) -> (state: Self)
        ensures
            state matches Self::Disabled { reason: kept } && kept@ == reason@,
    {
        Self::Disabled { reason: reason.to_owned() }
    }

    pub fn error(message: &str) -> (state: Self)
        ensures
            state matches Self::Error { message: kept } && kept@ == message@,
    {
        Self::Error { message: message.to_owned() }
    }

    pub fn is_enabled(&self) -> (enabled: bool)
        ensures
            enabled == (*self is Enabled),
    {
        matches!(self, Self::Enabled)
    }

    pub fn is_disabled(&self) -> (disabled: bool)
        ensures
            disabled == (*self is Disabled),
    {
        matches!(self, Self::Disabled { .. })
    }

    /// What the control says about itself, when it has something to say.
    pub open spec fn says(self) -> Option<Seq<char>> {
        match self {
            Self::Enabled => None,
            Self::Disabled { reason } => Some(reason@),
            Self::Error { message } => Some(message@),
        }
    }

    /// What the control says about itself, when it has something to say.
    pub fn message(&self) -> (message: Option<&str>)
        ensures
            message is Some <==> self.says() is Some,
            message matches Some(message) ==> message@ == self.says()->0,
            match *self {
                Self::Enabled => message is None,
                Self::Disabled { reason } => message matches Some(words) && words@ == reason@,
                Self::Error { message: held } => message matches Some(words) && words@ == held@,
            },
    {
        match self {
            Self::Enabled => None,
            Self::Disabled { reason } => Some(reason.as_str()),
            Self::Error { message } => Some(message.as_str()),
        }
    }
}

/// How loudly a note speaks.
#[derive(Debug, Clone, Copy, PartialEq, Eq, Structural)]
pub enum NoteLevel {
    Warning,
    Critical,
}

/// One sentence set apart from the controls around it.
#[derive(Debug, Clone, PartialEq, Eq)]
pub struct Note {
    pub level: NoteLevel,
    pub message: String,
}

impl Note {
    pub fn new(level: NoteLevel, message: &str) -> (note: Self)
        ensures
            note.level == level,
            note.message@ == message@,
    {
        Self { level, message: message.to_owned() }
    }
}

/// Something the window asks the daemon to do.
#[derive(Debug, Clone, PartialEq, Eq)]
pub enum Command {
    Apply(CoolingProgram),
    ApplyLighting(LightingCommand),
    ApplyDisplay(DisplayPreset),
    ActivateProfile(String),
    SaveProfile(Profile),
    DeleteProfile(String),
}

/// How a command ended.
#[derive(Debug, Clone, Copy, PartialEq, Eq, Structural)]
pub enum OutcomeSeverity {
    Confirmed,
    Unconfirmed,
    Refused,
}

/// The result of the last command, in the words the operator reads.
#[derive(Debug, Clone, PartialEq, Eq)]
pub struct CommandOutcome {
    pub severity: OutcomeSeverity,
    pub message: String,
}

/// Whether a device answers and can be written to.
#[derive(Debug, Clone, Copy, PartialEq, Eq, Structural)]
pub enum DeviceHealth {
    Ready,
    ReadOnly,
    Unavailable,
}

/// What is known of one supported device.
#[derive(Debug, Clone, PartialEq, Eq)]
pub struct DeviceSummary {
    pub id: DeviceId,
    pub name: String,
    pub firmware: Option<String>,
    pub driver: String,
    pub health: DeviceHealth,
}

/// A screen the rail leads to.
#[derive(Debug, Clone, Copy, PartialEq, Eq, Structural)]
pub enum Destination {
    Monitoring,
    Cooling,
    Lighting,
    Settings,
}

impl Destination {
    /// The destinations at the head of the rail. Settings sits at its foot.
    pub fn primary() -> (destinations: [Self; 3])
        ensures
            destinations@ == seq![Self::Monitoring, Self::Cooling, Self::Lighting],
    {
        let destinations: [Self; 3] = [Self::Monitoring, Self::Cooling, Self::Lighting];
        assert(destinations@ =~= seq![Self::Monitoring, Self::Cooling, Self::Lighting]);
        destinations
    }

    /// Where the rail entry sits in keyboard traversal order.
    pub open spec fn stop(self) -> int {
        match self {
            Self::Monitoring => 1,
            Self::Cooling => 2,
            Self::Lighting => 3,
            Self::Settings => 4,
        }
    }

    /// Where the rail entry sits in keyboard traversal order.
    pub fn tab_index(self) -> (index: isize)
        ensures
            index == self.stop(),
            self is Monitoring ==> index == 1,
            self is Cooling ==> index == 2,
            self is Lighting ==> index == 3,
            self is Settings ==> index == 4,
    {
        match self {
            Self::Monitoring => 1,
            Self::Cooling => 2,
            Self::Lighting => 3,
            Self::Settings => 4,
        }
    }
}

} // verus!
