//! The typed protocol spoken over the daemon's Unix socket.
//!
//! This file is the vocabulary: what either side may say and what every answer
//! carries. Framing and the place of the socket live in their own modules.

use vstd::prelude::*;

pub mod frame;
pub mod paths;

pub use frame::{read_frame, read_line, write_frame, FrameError, MAX_FRAME_BYTES};
pub use paths::{
    runtime_dir, runtime_dir_from_env, socket_path_from_env, RUNTIME_DIR_ENV, SOCKET_FILE_NAME,
    SOCKET_PATH_ENV,
};

use crate::capability::{CapabilityId, CapabilityRecord, LcdPanel};
use crate::diagnostics::DiagnosticsExport;
use crate::display::{DisplayError, DisplayPreset};
use crate::lighting::{LightingCommand, LightingError, LightingProgram};
use crate::profile::{Channel, CoolingProgram, Incompatibility, Profile, ValidationError};
use crate::telemetry::{PwmMode, TelemetrySnapshot};
use crate::text;
use crate::DeviceId;

verus! {

/// Incremented on any breaking change to [`Request`] or [`Response`].
pub const PROTOCOL_VERSION: u32 = 8;

/// A request from the client to the daemon.
#[derive(Debug, Clone, PartialEq, Eq)]
pub enum Request {
    /// Negotiate the protocol version. Sent before anything else.
    Hello { protocol_version: u32 },
    /// Current daemon, device and ownership state.
    Status,
    /// The versioned capability record for every allowlisted device.
    Capabilities,
    /// Every stored profile plus the active one.
    Profiles,
    /// Store a profile, replacing one with the same name.
    SaveProfile { profile: Profile },
    /// Make a stored profile active.
    ActivateProfile { name: String },
    /// Remove a stored profile.
    DeleteProfile { name: String },
    /// The most recent sampling pass.
    Telemetry,
    /// Apply a cooling program directly, without saving it as a profile.
    ApplyProgram { program: CoolingProgram },
    /// Apply a lighting program to one channel of the RGB controller.
    ApplyLighting { command: LightingCommand },
    /// Show a preset on the Kraken's panel.
    ApplyDisplay { preset: DisplayPreset },
    /// Redacted diagnostics for an issue report.
    Diagnostics,
}

/// A response from the daemon.
#[derive(Debug, Clone, PartialEq)]
pub enum Response {
    Hello { protocol_version: u32, daemon_version: String },
    Status(Box<DaemonStatus>),
    Capabilities(Box<CapabilityRecord>),
    Profiles { active: String, profiles: Vec<Profile> },
    Activated(ActivationOutcome),
    Saved { name: String },
    Deleted { name: String, activated_instead: Option<String> },
    Telemetry(Box<TelemetrySnapshot>),
    Applied(Box<ApplyOutcome>),
    Lit(LightingOutcome),
    Shown(Box<DisplayOutcome>),
    Diagnostics(DiagnosticsExport),
    Error(IpcError),
}

impl Response {
    /// The name this variant travels under.
    pub open spec fn kind_text(self) -> Seq<char> {
        match self {
            Self::Hello { .. } => "hello"@,
            Self::Status(_) => "status"@,
            Self::Capabilities(_) => "capabilities"@,
            Self::Profiles { .. } => "profiles"@,
            Self::Activated(_) => "activated"@,
            Self::Saved { .. } => "saved"@,
            Self::Deleted { .. } => "deleted"@,
            Self::Telemetry(_) => "telemetry"@,
            Self::Applied(_) => "applied"@,
            Self::Lit(_) => "lit"@,
            Self::Shown(_) => "shown"@,
            Self::Diagnostics(_) => "diagnostics"@,
            Self::Error(_) => "error"@,
        }
    }

    /// The name this variant travels under, for an error that has to say what
    /// arrived instead of what was expected.
    pub fn kind(&self) -> (kind: &'static str)
        ensures
            kind@ == self.kind_text(),
            *self is Hello ==> kind@ == "hello"@,
            *self is Status ==> kind@ == "status"@,
            *self is Capabilities ==> kind@ == "capabilities"@,
            *self is Profiles ==> kind@ == "profiles"@,
            *self is Activated ==> kind@ == "activated"@,
            *self is Saved ==> kind@ == "saved"@,
            *self is Deleted ==> kind@ == "deleted"@,
            *self is Telemetry ==> kind@ == "telemetry"@,
            *self is Applied ==> kind@ == "applied"@,
            *self is Lit ==> kind@ == "lit"@,
            *self is Shown ==> kind@ == "shown"@,
            *self is Diagnostics ==> kind@ == "diagnostics"@,
            *self is Error ==> kind@ == "error"@,
    {
        match self {
            Self::Hello { .. } => "hello",
            Self::Status(_) => "status",
            Self::Capabilities(_) => "capabilities",
            Self::Profiles { .. } => "profiles",
            Self::Activated(_) => "activated",
            Self::Saved { .. } => "saved",
            Self::Deleted { .. } => "deleted",
            Self::Telemetry(_) => "telemetry",
            Self::Applied(_) => "applied",
            Self::Lit(_) => "lit",
            Self::Shown(_) => "shown",
            Self::Diagnostics(_) => "diagnostics",
            Self::Error(_) => "error",
        }
    }
}

/// The result of one lighting command.
///
/// The controller acknowledges no state, so `Confirmed` means the controller
/// accepted the report, and nothing stronger is claimed anywhere.
#[derive(Debug, Clone, PartialEq, Eq)]
pub struct LightingOutcome {
    pub channel: u8,
    pub program: LightingProgram,
    pub hardware: HardwareState,
    /// Reports actually sent. Zero means the request matched the committed
    /// state and was deduplicated.
    pub writes: u32,
    pub deduplicated: bool,
}

/// The result of one panel command.
#[derive(Debug, Clone, PartialEq, Eq)]
pub struct DisplayOutcome {
    pub preset: DisplayPreset,
    pub hardware: HardwareState,
    /// Frames actually sent. Zero means the request matched what the panel is
    /// already showing and was deduplicated.
    pub frames: u32,
    /// True when the picture was already on the glass and no frame went out.
    pub deduplicated: bool,
    /// True when the display-control report went out for this command.
    pub brightness_sent: bool,
}

/// What the panel is currently showing, as far as the daemon knows.
#[derive(Debug, Clone, PartialEq, Eq)]
pub struct DisplayState {
    /// Geometry a frame must match, when the panel answered at all.
    pub panel: Option<LcdPanel>,
    /// The last preset the daemon committed, when it has committed one.
    pub committed: Option<DisplayPreset>,
    /// True while a preset that reads telemetry is being streamed.
    pub streaming: bool,
    /// Why the stream stopped, once a transfer failed.
    pub faulted: Option<String>,
    /// Frames dropped because a transfer was still in flight when the next
    /// sample arrived.
    pub dropped_frames: u64,
}

/// What one lighting channel is currently showing, as far as the daemon knows.
#[derive(Debug, Clone, PartialEq, Eq)]
pub struct ChannelState {
    pub channel: u8,
    /// Accessory names the controller reported, in slot order.
    pub accessories: Vec<String>,
    /// The last program the daemon committed, when it has committed one.
    pub committed: Option<LightingProgram>,
}

/// What actually happened to the hardware when a profile was activated.
#[derive(Debug, Clone, PartialEq, Eq)]
pub struct ActivationOutcome {
    pub name: String,
    pub hardware: HardwareState,
    /// The write the activation performed, when it performed one.
    pub applied: Option<ApplyOutcome>,
}

/// The result of one cooling write, with the evidence behind it.
#[derive(Debug, Clone, PartialEq, Eq)]
pub struct ApplyOutcome {
    pub hardware: HardwareState,
    /// Number of kernel attributes actually written. Zero means the request
    /// matched the confirmed state and was deduplicated.
    pub writes: u32,
    /// True when nothing was written because the state already matched.
    pub deduplicated: bool,
    /// What the kernel reported after the write, per channel.
    pub readback: Vec<ChannelReadback>,
}

impl ApplyOutcome {
    /// The outcome of a program that touches no hardware.
    pub fn untouched(hardware: HardwareState) -> (outcome: Self)
        ensures
            outcome.hardware == hardware,
            outcome.writes == 0,
            !outcome.deduplicated,
            outcome.readback@ == Seq::<ChannelReadback>::empty(),
    {
        Self { hardware, writes: 0, deduplicated: false, readback: Vec::new() }
    }

    /// The first readback of this channel.
    pub fn readback_for(&self, channel: Channel) -> (found: Option<&ChannelReadback>)
        ensures
            found == match crate::lists::first_where(
                self.readback@,
                |entry: ChannelReadback| entry.channel == channel,
            ) {
                Some(entry) => Some(&entry),
                None => None,
            },
    {
        let ghost wanted = |entry: ChannelReadback| entry.channel == channel;
        let mut index: usize = 0;
        while index < self.readback.len()
            invariant
                index <= self.readback@.len(),
                wanted == (|entry: ChannelReadback| entry.channel == channel),
                crate::lists::first_from(self.readback@, wanted, index as int)
                    == crate::lists::first_where(self.readback@, wanted),
            decreases self.readback@.len() - index,
        {
            if self.readback[index].channel == channel {
                return Some(&self.readback[index]);
            }
            index = index + 1;
        }
        None
    }
}

/// What one channel reported after a write.
///
/// Every field is optional because a readback the kernel does not provide is
/// recorded as missing rather than assumed to match what was written.
#[derive(Debug, Clone, PartialEq, Eq)]
pub struct ChannelReadback {
    pub channel: Channel,
    pub mode: Option<PwmMode>,
    pub duty: Option<u8>,
    /// Curve points that read back identical to what was written.
    pub curve_points_confirmed: Option<u16>,
    /// Set when the readback contradicts the value that was written.
    pub mismatch: Option<String>,
}

impl ChannelReadback {
    pub fn new(channel: Channel) -> (readback: Self)
        ensures
            readback == (Self {
                channel,
                mode: None,
                duty: None,
                curve_points_confirmed: None,
                mismatch: None,
            }),
    {
        Self { channel, mode: None, duty: None, curve_points_confirmed: None, mismatch: None }
    }

    pub fn is_confirmed(&self) -> (confirmed: bool)
        ensures
            confirmed == (self.mismatch is None && (self.mode is Some || self.duty is Some)),
    {
        self.mismatch.is_none() && (self.mode.is_some() || self.duty.is_some())
    }
}

/// How much of the hardware state the daemon can vouch for.
#[derive(Debug, Clone, PartialEq, Eq)]
pub enum HardwareState {
    /// The device is running its own firmware program and nothing was written.
    Onboard,
    /// The daemon wrote the program and read it back.
    Confirmed,
    /// The profile was selected but not written, and `reason` says why.
    NotApplied { reason: String },
    /// A write started and could not be confirmed. No further write is sent
    /// until a readback succeeds.
    Uncertain { reason: String },
}

/// Whether the daemon may write at all.
#[derive(Debug, Clone, PartialEq, Eq)]
pub enum AccessMode {
    ReadWrite,
    /// Writes are refused. `conflicts` lists the evidence.
    ReadOnly { conflicts: Vec<OwnershipConflict> },
}

impl AccessMode {
    pub fn is_read_only(&self) -> (read_only: bool)
        ensures
            read_only == (*self is ReadOnly),
    {
        matches!(self, Self::ReadOnly { .. })
    }
}

/// Another process or a permission problem preventing ownership.
#[derive(Debug, Clone, PartialEq, Eq)]
pub struct OwnershipConflict {
    pub device: Option<DeviceId>,
    /// Path or resource the conflict was observed on.
    pub resource: String,
    pub detail: String,
}

/// Per-device state the client renders.
#[derive(Debug, Clone, PartialEq, Eq)]
pub struct DeviceStatus {
    pub id: DeviceId,
    pub present: bool,
    /// The daemon holds the exclusive per-device lock.
    pub owned: bool,
    /// Capabilities that may be written right now.
    pub writable: Vec<CapabilityId>,
    /// Operator-facing reason each unavailable capability is blocked.
    pub blocked: Vec<BlockedCapability>,
}

#[derive(Debug, Clone, PartialEq, Eq)]
pub struct BlockedCapability {
    pub capability: CapabilityId,
    pub reason: String,
}

/// How the on-disk configuration was resolved at startup.
#[derive(Debug, Clone, PartialEq, Eq)]
pub enum ConfigState {
    /// No configuration existed; built-in defaults are active.
    Defaults,
    /// A valid configuration was loaded.
    Loaded,
    /// The configuration could not be loaded. The unreadable file was kept at
    /// `preserved_path` and `recovery_action` names what the operator can do.
    Recovered { detail: String, preserved_path: String, recovery_action: String },
}

impl ConfigState {
    /// One actionable sentence, or `None` when nothing needs attention.
    pub fn recovery_message(&self) -> (message: Option<String>)
        ensures
            match *self {
                Self::Recovered { detail, preserved_path, recovery_action } => message matches Some(
                    message,
                ) && message@ == "Configuration could not be loaded ("@ + detail@
                    + "). Safe defaults are active. The previous file was kept at "@
                    + preserved_path@ + ". "@ + recovery_action@,
                _ => message is None,
            },
    {
        match self {
            Self::Defaults => None,
            Self::Loaded => None,
            Self::Recovered { detail, preserved_path, recovery_action } => {
                let mut message: String = "Configuration could not be loaded (".to_owned();
                message.append(detail.as_str());
                message.append("). Safe defaults are active. The previous file was kept at ");
                message.append(preserved_path.as_str());
                message.append(". ");
                message.append(recovery_action.as_str());
                Some(message)
            },
        }
    }
}

/// Everything the client needs to decide what to enable.
#[derive(Debug, Clone, PartialEq, Eq)]
pub struct DaemonStatus {
    pub daemon_version: String,
    pub protocol_version: u32,
    pub access: AccessMode,
    pub devices: Vec<DeviceStatus>,
    pub active_profile: String,
    pub config: ConfigState,
    /// The thermal program the daemon last committed, when it committed one.
    pub cooling: Option<CoolingProgram>,
    /// Lighting channels the controller reported, empty when it reported none.
    pub lighting: Vec<ChannelState>,
    /// The panel's geometry and what it was last told to show.
    pub display: DisplayState,
    /// Path of the Unix socket. The daemon opens no other listening endpoint.
    pub socket_path: String,
}

/// Every way a request can be refused, with enough detail to render it.
#[derive(Debug, Clone, PartialEq, Eq)]
pub enum IpcError {
    UnsupportedProtocol { requested: u32, supported: u32 },
    Malformed { detail: String },
    FrameTooLarge { max_bytes: usize },
    HandshakeRequired,
    PeerRejected { reason: String },
    Validation(ValidationError),
    Lighting(LightingError),
    Display(DisplayError),
    ReadOnly { reason: String },
    Incompatible { details: Vec<Incompatibility> },
    ProfileNotFound { name: String },
    ProfileNameUnavailable { name: String },
    NoDevice,
    Io { detail: String },
}

impl IpcError {
    /// The sentence shown for this refusal.
    pub open spec fn text(self) -> Seq<char> {
        match self {
            Self::UnsupportedProtocol { requested, supported } => "Client protocol "@
                + text::decimal(requested as nat) + " is not supported. This daemon speaks "@
                + text::decimal(supported as nat) + "."@,
            Self::Malformed { detail } => "Request could not be parsed: "@ + detail@,
            Self::FrameTooLarge { max_bytes } => "Request exceeds the "@ + text::decimal(
                max_bytes as nat,
            ) + " byte frame limit."@,
            Self::HandshakeRequired =>
                "Request rejected before the protocol handshake completed."@,
            Self::PeerRejected { reason } => "Local peer rejected: "@ + reason@,
            Self::Validation(source) => source.text(),
            Self::Lighting(source) => source.text(),
            Self::Display(source) => source.text(),
            Self::ReadOnly { reason } => "Controls are read-only: "@ + reason@,
            Self::Incompatible { .. } => "Profile is incompatible with the connected hardware."@,
            Self::ProfileNotFound { name } => "No profile named "@ + name@ + "."@,
            Self::ProfileNameUnavailable { name } => "The name "@ + name@
                + " is reserved for the built-in safe profile."@,
            Self::NoDevice => "No supported device is present."@,
            Self::Io { detail } => "Local operation failed: "@ + detail@,
        }
    }

    /// The sentence shown for this refusal.
    pub fn to_text(&self) -> (message: String)
        ensures
            message@ == self.text(),
    {
        let mut message: String = String::new();
        match self {
            Self::UnsupportedProtocol { requested, supported } => {
                message.append("Client protocol ");
                text::push_decimal(&mut message, *requested as u64);
                message.append(" is not supported. This daemon speaks ");
                text::push_decimal(&mut message, *supported as u64);
                message.append(".");
            },
            Self::Malformed { detail } => {
                message.append("Request could not be parsed: ");
                message.append(detail.as_str());
            },
            Self::FrameTooLarge { max_bytes } => {
                message.append("Request exceeds the ");
                text::push_decimal(&mut message, *max_bytes as u64);
                message.append(" byte frame limit.");
            },
            Self::HandshakeRequired => {
                message.append("Request rejected before the protocol handshake completed.");
            },
            Self::PeerRejected { reason } => {
                message.append("Local peer rejected: ");
                message.append(reason.as_str());
            },
            Self::Validation(source) => {
                message.append(source.to_text().as_str());
            },
            Self::Lighting(source) => {
                message.append(source.to_text().as_str());
            },
            Self::Display(source) => {
                message.append(source.to_text().as_str());
            },
            Self::ReadOnly { reason } => {
                message.append("Controls are read-only: ");
                message.append(reason.as_str());
            },
            Self::Incompatible { .. } => {
                message.append("Profile is incompatible with the connected hardware.");
            },
            Self::ProfileNotFound { name } => {
                message.append("No profile named ");
                message.append(name.as_str());
                message.append(".");
            },
            Self::ProfileNameUnavailable { name } => {
                message.append("The name ");
                message.append(name.as_str());
                message.append(" is reserved for the built-in safe profile.");
            },
            Self::NoDevice => {
                message.append("No supported device is present.");
            },
            Self::Io { detail } => {
                message.append("Local operation failed: ");
                message.append(detail.as_str());
            },
        }
        assert(message@ =~= self.text());
        message
    }
}

/// A refusal names every value it carries, each in its own place.
pub proof fn an_answer_of_refusal_names_what_it_carries(error: IpcError)
    ensures
        match error {
            IpcError::UnsupportedProtocol { requested, supported } => text::tells(
                error.text(),
                seq![text::decimal(requested as nat), text::decimal(supported as nat)],
            ),
            IpcError::Malformed { detail } => text::tells(
                error.text(),
                seq![detail@],
            ),
            IpcError::FrameTooLarge { max_bytes } => text::tells(
                error.text(),
                seq![text::decimal(max_bytes as nat)],
            ),
            IpcError::PeerRejected { reason } => text::tells(
                error.text(),
                seq![reason@],
            ),
            IpcError::Validation(source) => text::tells(
                error.text(),
                seq![source.text()],
            ),
            IpcError::Lighting(source) => text::tells(
                error.text(),
                seq![source.text()],
            ),
            IpcError::Display(source) => text::tells(
                error.text(),
                seq![source.text()],
            ),
            IpcError::ReadOnly { reason } => text::tells(
                error.text(),
                seq![reason@],
            ),
            IpcError::ProfileNotFound { name } => text::tells(
                error.text(),
                seq![name@],
            ),
            IpcError::ProfileNameUnavailable { name } => text::tells(
                error.text(),
                seq![name@],
            ),
            IpcError::Io { detail } => text::tells(
                error.text(),
                seq![detail@],
            ),
            _ => true,
        },
{
    match error {
        IpcError::UnsupportedProtocol { requested, supported } => {
            let rest = "."@;
            let parts = Seq::<Seq<char>>::empty();
            text::lemma_tells(" is not supported. This daemon speaks "@, text::decimal(supported as nat), rest, parts);
            let rest = " is not supported. This daemon speaks "@ + text::decimal(supported as nat) + rest;
            let parts = seq![text::decimal(supported as nat)] + parts;
            text::lemma_tells("Client protocol "@, text::decimal(requested as nat), rest, parts);
            let rest = "Client protocol "@ + text::decimal(requested as nat) + rest;
            let parts = seq![text::decimal(requested as nat)] + parts;
            assert(error.text() =~= rest);
            assert(parts =~= seq![text::decimal(requested as nat), text::decimal(supported as nat)]);
        },
        IpcError::Malformed { detail } => {
            let rest = Seq::<char>::empty();
            let parts = Seq::<Seq<char>>::empty();
            text::lemma_tells("Request could not be parsed: "@, detail@, rest, parts);
            let rest = "Request could not be parsed: "@ + detail@ + rest;
            let parts = seq![detail@] + parts;
            assert(error.text() =~= rest);
            assert(parts =~= seq![detail@]);
        },
        IpcError::FrameTooLarge { max_bytes } => {
            let rest = " byte frame limit."@;
            let parts = Seq::<Seq<char>>::empty();
            text::lemma_tells("Request exceeds the "@, text::decimal(max_bytes as nat), rest, parts);
            let rest = "Request exceeds the "@ + text::decimal(max_bytes as nat) + rest;
            let parts = seq![text::decimal(max_bytes as nat)] + parts;
            assert(error.text() =~= rest);
            assert(parts =~= seq![text::decimal(max_bytes as nat)]);
        },
        IpcError::PeerRejected { reason } => {
            let rest = Seq::<char>::empty();
            let parts = Seq::<Seq<char>>::empty();
            text::lemma_tells("Local peer rejected: "@, reason@, rest, parts);
            let rest = "Local peer rejected: "@ + reason@ + rest;
            let parts = seq![reason@] + parts;
            assert(error.text() =~= rest);
            assert(parts =~= seq![reason@]);
        },
        IpcError::Validation(source) => {
            let rest = Seq::<char>::empty();
            let parts = Seq::<Seq<char>>::empty();
            text::lemma_tells(Seq::<char>::empty(), source.text(), rest, parts);
            let rest = Seq::<char>::empty() + source.text() + rest;
            let parts = seq![source.text()] + parts;
            assert(error.text() =~= rest);
            assert(parts =~= seq![source.text()]);
        },
        IpcError::Lighting(source) => {
            let rest = Seq::<char>::empty();
            let parts = Seq::<Seq<char>>::empty();
            text::lemma_tells(Seq::<char>::empty(), source.text(), rest, parts);
            let rest = Seq::<char>::empty() + source.text() + rest;
            let parts = seq![source.text()] + parts;
            assert(error.text() =~= rest);
            assert(parts =~= seq![source.text()]);
        },
        IpcError::Display(source) => {
            let rest = Seq::<char>::empty();
            let parts = Seq::<Seq<char>>::empty();
            text::lemma_tells(Seq::<char>::empty(), source.text(), rest, parts);
            let rest = Seq::<char>::empty() + source.text() + rest;
            let parts = seq![source.text()] + parts;
            assert(error.text() =~= rest);
            assert(parts =~= seq![source.text()]);
        },
        IpcError::ReadOnly { reason } => {
            let rest = Seq::<char>::empty();
            let parts = Seq::<Seq<char>>::empty();
            text::lemma_tells("Controls are read-only: "@, reason@, rest, parts);
            let rest = "Controls are read-only: "@ + reason@ + rest;
            let parts = seq![reason@] + parts;
            assert(error.text() =~= rest);
            assert(parts =~= seq![reason@]);
        },
        IpcError::ProfileNotFound { name } => {
            let rest = "."@;
            let parts = Seq::<Seq<char>>::empty();
            text::lemma_tells("No profile named "@, name@, rest, parts);
            let rest = "No profile named "@ + name@ + rest;
            let parts = seq![name@] + parts;
            assert(error.text() =~= rest);
            assert(parts =~= seq![name@]);
        },
        IpcError::ProfileNameUnavailable { name } => {
            let rest = " is reserved for the built-in safe profile."@;
            let parts = Seq::<Seq<char>>::empty();
            text::lemma_tells("The name "@, name@, rest, parts);
            let rest = "The name "@ + name@ + rest;
            let parts = seq![name@] + parts;
            assert(error.text() =~= rest);
            assert(parts =~= seq![name@]);
        },
        IpcError::Io { detail } => {
            let rest = Seq::<char>::empty();
            let parts = Seq::<Seq<char>>::empty();
            text::lemma_tells("Local operation failed: "@, detail@, rest, parts);
            let rest = "Local operation failed: "@ + detail@ + rest;
            let parts = seq![detail@] + parts;
            assert(error.text() =~= rest);
            assert(parts =~= seq![detail@]);
        },
        _ => {},
    }
}

} // verus!
