//! Bounded, redacted diagnostics.
//!
//! The log is an in-memory ring: it never grows without bound and never reaches
//! disk on its own. An export carries only what this module builds.

use std::collections::VecDeque;

use vstd::prelude::*;

pub mod redaction;
mod sweep;

pub use redaction::{Redactor, Sweep, Tree, REDACTION_PLACEHOLDER};

use crate::capability::{CapabilityId, CapabilityRecord};
use crate::ipc::{HardwareState, IpcError};
use crate::profile::Channel;
use crate::telemetry::Collector;
use crate::DeviceId;

verus! {

/// Bumped whenever [`DiagnosticsExport`] changes shape.
pub const DIAGNOSTICS_SCHEMA_VERSION: u32 = 1;

/// Events retained in memory. Older events are dropped first.
pub const DEFAULT_CAPACITY: usize = 512;

#[derive(Debug, Clone, Copy, PartialEq, Eq, Structural)]
pub enum Severity {
    Info,
    Warning,
    Error,
}

/// A state transition or typed failure worth keeping.
#[derive(Debug, Clone, PartialEq, Eq)]
pub enum EventKind {
    DaemonStarted { version: String, socket_path: String },
    DaemonStopping { reason: String },
    DeviceDiscovered { device: DeviceId, sysfs_path: String },
    DeviceRejected { device: DeviceId, reason: String },
    CapabilityResolved { device: DeviceId, capability: CapabilityId, state: String },
    OwnershipAcquired { device: DeviceId, lock_path: String },
    OwnershipConflict { device: Option<DeviceId>, resource: String, detail: String },
    AccessModeChanged { read_only: bool, reason: String },
    ClientAccepted { uid: u32, pid: i32 },
    ClientRejected { reason: String },
    ClientDisconnected { detail: String },
    RequestRejected { error: IpcError },
    ProfileActivated { name: String, hardware: HardwareState },
    ProfileSaved { name: String },
    ProfileDeleted { name: String },
    ConfigLoaded { path: String },
    ConfigRecovered { detail: String, preserved_path: String },
    /// A cooling program reached the hardware, or was refused before it did.
    ProgramApplied {
        hardware: HardwareState,
        /// Kernel attributes actually written. Zero means deduplicated.
        writes: u32,
    },
    /// A lighting program reached the controller, or was refused before it did.
    LightingApplied {
        channel: u8,
        /// The program as its summary, never as packet bytes.
        program: String,
        hardware: HardwareState,
        /// Reports actually sent. Zero means deduplicated or refused.
        writes: u32,
    },
    /// A frame was rendered for the panel, or refused before it was.
    DisplayApplied {
        /// Preset mode, as its stable key rather than its label.
        mode: String,
        hardware: HardwareState,
        /// Frames actually sent. Zero means deduplicated or refused.
        frames: u32,
    },
    /// A committed curve is not what the device turned out to be running.
    CurveDiverged {
        channel: Channel,
        /// Liquid temperature in millidegrees Celsius.
        liquid_temperature_mc: i32,
        /// Duty the committed curve commands at that temperature.
        expected: u8,
        /// Duty the device reports it is running.
        reported: u8,
    },
    /// A committed command reached the hardware but could not be written down.
    SessionNotRecorded { detail: String },
    /// A telemetry collector panicked or stopped answering.
    CollectorFailed { collector: Collector, detail: String },
    CollectorRecovered { collector: Collector },
}

/// How severe a write to the hardware is, by what became of it.
pub open spec fn write_severity(hardware: HardwareState) -> Severity {
    match hardware {
        HardwareState::Uncertain { .. } => Severity::Error,
        HardwareState::NotApplied { .. } => Severity::Warning,
        _ => Severity::Info,
    }
}

fn severity_of_write(hardware: &HardwareState) -> (severity: Severity)
    ensures
        severity == write_severity(*hardware),
{
    match hardware {
        HardwareState::Uncertain { .. } => Severity::Error,
        HardwareState::NotApplied { .. } => Severity::Warning,
        HardwareState::Confirmed => Severity::Info,
        HardwareState::Onboard => Severity::Info,
    }
}

impl EventKind {
    /// How severe an event is. Refusals and failures are warnings; a write goes
    /// by what became of it; everything else is a notice.
    pub open spec fn severity_level(self) -> Severity {
        match self {
            Self::DeviceRejected { .. } => Severity::Warning,
            Self::OwnershipConflict { .. } => Severity::Warning,
            Self::ClientRejected { .. } => Severity::Warning,
            Self::RequestRejected { .. } => Severity::Warning,
            Self::CollectorFailed { .. } => Severity::Warning,
            Self::ConfigRecovered { .. } => Severity::Warning,
            Self::SessionNotRecorded { .. } => Severity::Warning,
            Self::CurveDiverged { .. } => Severity::Warning,
            Self::ProgramApplied { hardware, .. } => write_severity(hardware),
            Self::LightingApplied { hardware, .. } => write_severity(hardware),
            Self::DisplayApplied { hardware, .. } => write_severity(hardware),
            Self::AccessModeChanged { read_only, .. } => if read_only {
                Severity::Warning
            } else {
                Severity::Info
            },
            _ => Severity::Info,
        }
    }

    pub fn severity(&self) -> (severity: Severity)
        ensures
            severity == self.severity_level(),
            severity is Error ==> *self is ProgramApplied || *self is LightingApplied || *self
                is DisplayApplied,
    {
        match self {
            Self::DeviceRejected { .. } => Severity::Warning,
            Self::OwnershipConflict { .. } => Severity::Warning,
            Self::ClientRejected { .. } => Severity::Warning,
            Self::RequestRejected { .. } => Severity::Warning,
            Self::CollectorFailed { .. } => Severity::Warning,
            Self::ConfigRecovered { .. } => Severity::Warning,
            Self::SessionNotRecorded { .. } => Severity::Warning,
            Self::CurveDiverged { .. } => Severity::Warning,
            Self::ProgramApplied { hardware, .. } => severity_of_write(hardware),
            Self::LightingApplied { hardware, .. } => severity_of_write(hardware),
            Self::DisplayApplied { hardware, .. } => severity_of_write(hardware),
            Self::AccessModeChanged { read_only, .. } => {
                if *read_only {
                    Severity::Warning
                } else {
                    Severity::Info
                }
            },
            // Listed one by one rather than defaulted, so that an event added
            // later does not arrive as a notice by accident.
            Self::DaemonStarted { .. } => Severity::Info,
            Self::DaemonStopping { .. } => Severity::Info,
            Self::DeviceDiscovered { .. } => Severity::Info,
            Self::CapabilityResolved { .. } => Severity::Info,
            Self::OwnershipAcquired { .. } => Severity::Info,
            Self::ClientAccepted { .. } => Severity::Info,
            Self::ClientDisconnected { .. } => Severity::Info,
            Self::ProfileActivated { .. } => Severity::Info,
            Self::ProfileSaved { .. } => Severity::Info,
            Self::ProfileDeleted { .. } => Severity::Info,
            Self::ConfigLoaded { .. } => Severity::Info,
            Self::CollectorRecovered { .. } => Severity::Info,
        }
    }
}

/// One timestamped entry.
#[derive(Debug, Clone, PartialEq, Eq)]
pub struct DiagnosticEvent {
    pub at_unix_ms: u64,
    pub severity: Severity,
    pub kind: EventKind,
}

/// The complete payload of an export action.
#[derive(Debug, Clone, PartialEq, Eq)]
pub struct DiagnosticsExport {
    pub schema_version: u32,
    pub generated_at_unix_ms: u64,
    pub daemon_version: String,
    pub capabilities: Option<CapabilityRecord>,
    pub events: Vec<DiagnosticEvent>,
}

/// Bounded in-memory event log.
#[derive(Debug)]
pub struct DiagnosticsLog {
    events: VecDeque<DiagnosticEvent>,
    capacity: usize,
    redactor: Redactor,
}

/// The events a log holds after one more: the newest ones that fit.
pub open spec fn recorded(
    events: Seq<DiagnosticEvent>,
    capacity: nat,
    event: DiagnosticEvent,
) -> Seq<DiagnosticEvent> {
    if events.len() >= capacity && capacity > 0 {
        events.skip(events.len() - capacity + 1).push(event)
    } else {
        events.push(event)
    }
}

/// A device record as it is written once its serial number is taken out.
pub open spec fn device_without_serial(device: crate::capability::DeviceRecord) -> redaction::Tree {
    let usb = device.usb.tree().parts().update(
        3,
        redaction::Tree::List(
            seq![
                redaction::Tree::Name("unknown"@),
                redaction::Tree::Text("redacted"@),
                redaction::Tree::Text("policy:redact-serials"@),
            ],
        ),
    );
    redaction::Tree::List(device.tree().parts().update(1, redaction::Tree::List(usb)))
}

/// A capability record as it is written once every serial number is taken out.
pub open spec fn record_without_serials(record: CapabilityRecord) -> redaction::Tree {
    redaction::Tree::List(
        record.tree().parts().update(
            2,
            redaction::Tree::List(
                record.devices@.map_values(
                    |device: crate::capability::DeviceRecord| device_without_serial(device),
                ),
            ),
        ),
    )
}

/// What an export is written as before the sweep.
pub open spec fn unswept(
    generated_at_unix_ms: u64,
    daemon_version: Seq<char>,
    capabilities: Option<CapabilityRecord>,
    events: Seq<DiagnosticEvent>,
) -> redaction::Tree {
    redaction::Tree::List(
        seq![
            redaction::Tree::Number(DIAGNOSTICS_SCHEMA_VERSION as int),
            redaction::Tree::Number(generated_at_unix_ms as int),
            redaction::Tree::Text(daemon_version),
            match capabilities {
                Some(record) => record_without_serials(record),
                None => redaction::Tree::Null,
            },
            redaction::Tree::List(events.map_values(|event: DiagnosticEvent| event.tree())),
        ],
    )
}

/// What an export is written as when it could not be swept: neither the
/// capability record nor the events leave.
pub open spec fn withheld(
    generated_at_unix_ms: u64,
    daemon_version: Seq<char>,
) -> redaction::Tree {
    unswept(generated_at_unix_ms, daemon_version, None, Seq::empty())
}

impl DiagnosticsLog {
    /// The events held, oldest first.
    pub closed spec fn held(self) -> Seq<DiagnosticEvent> {
        self.events@
    }

    /// The most events the log holds.
    pub closed spec fn limit(self) -> nat {
        self.capacity as nat
    }

    /// The secrets every export is swept of.
    pub closed spec fn secrets(self) -> Seq<Seq<char>> {
        self.redactor@
    }

    /// In every state the log has room for one event at least, and holds no more
    /// than it has room for.
    #[verifier::type_invariant]
    spec fn fits(self) -> bool {
        0 < self.capacity && self.events@.len() <= self.capacity
    }

    pub fn with_capacity(capacity: usize) -> (log: Self)
        ensures
            log.held() == Seq::<DiagnosticEvent>::empty(),
            log.limit() == if capacity == 0 {
                1
            } else {
                capacity as nat
            },
            log.secrets() == Seq::<Seq<char>>::empty(),
    {
        let capacity: usize = if capacity == 0 {
            1
        } else {
            capacity
        };
        Self { events: VecDeque::new(), capacity, redactor: Redactor::new() }
    }

    /// Register a secret to strip from every future export.
    pub fn add_secret(&mut self, secret: &str)
        ensures
            final(self).held() == old(self).held(),
            final(self).limit() == old(self).limit(),
            final(self).secrets() == if crate::text::byte_len(secret@)
                >= redaction::MIN_SECRET_BYTES && !old(self).secrets().contains(secret@) {
                old(self).secrets().push(secret@)
            } else {
                old(self).secrets()
            },
    {
        proof {
            use_type_invariant(&*self);
        }
        let mut redactor: Redactor = Redactor::new();
        std::mem::swap(&mut redactor, &mut self.redactor);
        redactor.add_secret(secret);
        self.redactor = redactor;
    }

    /// Keep an event, dropping the oldest ones that no longer fit.
    pub fn record(&mut self, at_unix_ms: u64, kind: EventKind)
        ensures
            final(self).held() == recorded(
                old(self).held(),
                old(self).limit(),
                DiagnosticEvent { at_unix_ms, severity: kind.severity_level(), kind },
            ),
            final(self).limit() == old(self).limit() > 0,
            final(self).held().len() <= final(self).limit(),
            final(self).secrets() == old(self).secrets(),
    {
        proof {
            use_type_invariant(&*self);
        }
        let severity: Severity = kind.severity();
        let event = DiagnosticEvent { at_unix_ms, severity, kind };
        let mut events: VecDeque<DiagnosticEvent> = VecDeque::new();
        std::mem::swap(&mut events, &mut self.events);
        let ghost before = events@;
        assert(before.skip(0) =~= before);
        while events.len() >= self.capacity
            invariant
                self.capacity > 0,
                events@.len() <= before.len(),
                events@ == before.skip(before.len() - events@.len()),
                events@.len() == before.len() || events@.len() >= self.capacity - 1,
            decreases events@.len(),
        {
            let ghost longer = events@;
            let _ = events.pop_front();
            assert(events@ =~= longer.skip(1));
            assert(events@ =~= before.skip(before.len() - events@.len()));
        }
        events.push_back(event);
        self.events = events;
    }

    pub fn len(&self) -> (len: usize)
        ensures
            len == self.held().len(),
            len <= self.limit(),
    {
        proof {
            use_type_invariant(self);
        }
        self.events.len()
    }

    pub fn is_empty(&self) -> (empty: bool)
        ensures
            empty == (self.held().len() == 0),
    {
        self.events.len() == 0
    }

    /// The events held, oldest first.
    pub fn events(&self) -> (events: Vec<&DiagnosticEvent>)
        ensures
            events@.map_values(|event: &DiagnosticEvent| *event) == self.held(),
            events@.len() <= self.limit(),
    {
        proof {
            use_type_invariant(self);
        }
        let ghost plain = |event: &DiagnosticEvent| *event;
        let mut events: Vec<&DiagnosticEvent> = Vec::new();
        let mut index: usize = 0;
        while index < self.events.len()
            invariant
                index <= self.events@.len(),
                plain == (|event: &DiagnosticEvent| *event),
                events@.map_values(plain) == self.events@.take(index as int),
            decreases self.events@.len() - index,
        {
            let ghost before = events@;
            events.push(&self.events[index]);
            index = index + 1;
            assert(events@.map_values(plain) =~= before.map_values(plain).push(
                self.events@[index - 1],
            ));
            assert(events@.map_values(plain) =~= self.events@.take(index as int));
        }
        assert(self.events@.take(index as int) =~= self.events@);
        events
    }

    /// Every event held, swept, or nothing when one of them could not be.
    fn swept_events(&self) -> (events: Option<Vec<DiagnosticEvent>>)
        ensures
            ({
                let before = self.held().map_values(|event: DiagnosticEvent| event.tree());
                &&& events is Some <==> redaction::names_kept(
                    self.secrets(),
                    redaction::Tree::List(before),
                )
                &&& events matches Some(events) ==> events.tree() == redaction::swept(
                    self.secrets(),
                    redaction::Tree::List(before),
                )
            }),
            events matches Some(events) ==> {
                &&& events@.len() == self.held().len()
                &&& forall|i: int|
                    0 <= i < events@.len() ==> (#[trigger] events@[i]).at_unix_ms
                        == self.held()[i].at_unix_ms && events@[i].severity
                        == self.held()[i].severity && events@[i].kind.tree() == redaction::swept(
                        self.secrets(),
                        self.held()[i].kind.tree(),
                    )
            },
    {
        let ghost before = self.events@.map_values(|event: DiagnosticEvent| event.tree());
        let mut events: Vec<DiagnosticEvent> = Vec::new();
        let mut index: usize = 0;
        while index < self.events.len()
            invariant
                index <= self.events@.len(),
                before == self.events@.map_values(|event: DiagnosticEvent| event.tree()),
                events@.len() == index,
                forall|i: int|
                    0 <= i < index ==> redaction::names_kept(
                        self.redactor@,
                        #[trigger] before[i],
                    ),
                forall|i: int|
                    0 <= i < index ==> (#[trigger] events@[i]).tree() == redaction::swept(
                        self.redactor@,
                        before[i],
                    ),
                forall|i: int|
                    0 <= i < index ==> (#[trigger] events@[i]).at_unix_ms
                        == self.events@[i].at_unix_ms && events@[i].severity
                        == self.events@[i].severity && events@[i].kind.tree() == redaction::swept(
                        self.redactor@,
                        self.events@[i].kind.tree(),
                    ),
            decreases self.events@.len() - index,
        {
            assert(before[index as int] == self.events@[index as int].tree());
            match self.events[index].sweep(&self.redactor) {
                Some(event) => events.push(event),
                None => {
                    return None;
                },
            }
            index = index + 1;
        }
        proof {
            let after = events@.map_values(|event: DiagnosticEvent| event.tree());
            assert forall|i: int| 0 <= i < before.len() implies #[trigger] after[i]
                == redaction::swept(self.redactor@, before[i]) by {
                assert(after[i] == events@[i].tree());
            }
            redaction::lemma_swept_list(self.redactor@, before, after);
        }
        Some(events)
    }

    /// Build an export with every secret removed from all of it.
    ///
    /// Two removals run. Every serial number field is blanked whether or not
    /// anything registered it as a secret. The sweep then replaces registered
    /// secrets wherever they ended up. Nothing that could not be swept leaves:
    /// the capability record and the events stay behind whole.
    pub fn export(
        &self,
        generated_at_unix_ms: u64,
        daemon_version: &str,
        capabilities: Option<CapabilityRecord>,
    ) -> (export: DiagnosticsExport)
        ensures
            ({
                let whole = unswept(
                    generated_at_unix_ms,
                    daemon_version@,
                    capabilities,
                    self.held(),
                );
                export.tree() == if redaction::names_kept(self.secrets(), whole) {
                    redaction::swept(self.secrets(), whole)
                } else {
                    withheld(
                        generated_at_unix_ms,
                        redaction::redacted(self.secrets(), daemon_version@),
                    )
                }
            }),
            export.schema_version == 1,
            export.generated_at_unix_ms == generated_at_unix_ms,
            export.daemon_version@ == redaction::redacted(self.secrets(), daemon_version@),
            export.events@.len() == self.held().len() || export.events@.len() == 0,
            forall|i: int|
                0 <= i < export.events@.len() ==> (#[trigger] export.events@[i]).at_unix_ms
                    == self.held()[i].at_unix_ms && export.events@[i].severity
                    == self.held()[i].severity,
            export.capabilities is Some ==> capabilities is Some,
            redaction::names_kept(
                self.secrets(),
                unswept(generated_at_unix_ms, daemon_version@, capabilities, self.held()),
            ) ==> export.events@.len() == self.held().len() && (export.capabilities is Some
                <==> capabilities is Some),
    {
        let ghost given = capabilities;
        let cleaned: Option<CapabilityRecord> = match capabilities {
            Some(record) => {
                let mut record: CapabilityRecord = record;
                record.redact_serials();
                Some(record)
            },
            None => None,
        };
        let ghost secrets = self.redactor@;
        let ghost whole = unswept(generated_at_unix_ms, daemon_version@, given, self.held());
        proof {
            if let Some(record) = given {
                lemma_serials_removed(record, cleaned->0);
            }
            assert(cleaned.tree() == whole.parts()[3]);
            assert(whole.parts()[0] == redaction::Tree::Number(DIAGNOSTICS_SCHEMA_VERSION as int));
            assert(redaction::names_kept(secrets, whole.parts()[0]));
            assert(whole.parts()[1] == redaction::Tree::Number(generated_at_unix_ms as int));
            assert(redaction::names_kept(secrets, whole.parts()[1]));
            assert(whole.parts()[2] == redaction::Tree::Text(daemon_version@));
            assert(redaction::names_kept(secrets, whole.parts()[2]));
            assert(whole.parts()[4] == redaction::Tree::List(
                self.held().map_values(|event: DiagnosticEvent| event.tree()),
            ));
        }
        let swept_capabilities: Option<Option<CapabilityRecord>> = self.redactor.redacted(&cleaned);
        let swept_events: Option<Vec<DiagnosticEvent>> = self.swept_events();
        match (swept_capabilities, swept_events) {
            (Some(capabilities), Some(events)) => {
                let export = DiagnosticsExport {
                    schema_version: DIAGNOSTICS_SCHEMA_VERSION,
                    generated_at_unix_ms,
                    daemon_version: self.redactor.redact(daemon_version),
                    capabilities,
                    events,
                };
                proof {
                    redaction::lemma_swept_list(secrets, whole.parts(), export.tree().parts());
                }
                export
            },
            _ => {
                let events: Vec<DiagnosticEvent> = Vec::new();
                assert(events@.map_values(|event: DiagnosticEvent| event.tree())
                    =~= Seq::<DiagnosticEvent>::empty().map_values(
                    |event: DiagnosticEvent| event.tree(),
                ));
                let export = DiagnosticsExport {
                    schema_version: DIAGNOSTICS_SCHEMA_VERSION,
                    generated_at_unix_ms,
                    daemon_version: self.redactor.redact(daemon_version),
                    capabilities: None,
                    events,
                };
                assert(export.tree().parts() =~= withheld(
                    generated_at_unix_ms,
                    redaction::redacted(secrets, daemon_version@),
                ).parts());
                export
            },
        }
    }
}

impl Clone for DiagnosticsLog {
    fn clone(&self) -> (log: Self)
        ensures
            log.held().len() == self.held().len(),
            forall|i: int|
                0 <= i < self.held().len() ==> cloned(
                    #[trigger] self.held()[i],
                    log.held()[i],
                ),
            log.limit() == self.limit(),
            log.secrets() == self.secrets(),
    {
        proof {
            use_type_invariant(self);
        }
        let events: VecDeque<DiagnosticEvent> = self.events.clone();
        Self { events, capacity: self.capacity, redactor: self.redactor.clone() }
    }
}

impl Default for DiagnosticsLog {
    fn default() -> (log: Self)
        ensures
            log.held() == Seq::<DiagnosticEvent>::empty(),
            log.limit() == DEFAULT_CAPACITY,
            log.secrets() == Seq::<Seq<char>>::empty(),
    {
        Self::with_capacity(DEFAULT_CAPACITY)
    }
}

/// A record whose serial numbers were taken out is written as the record with
/// each of them replaced.
proof fn lemma_serials_removed(before: CapabilityRecord, after: CapabilityRecord)
    requires
        after.schema_version == before.schema_version,
        after.context == before.context,
        after.rejected == before.rejected,
        after.devices@.len() == before.devices@.len(),
        forall|i: int|
            0 <= i < before.devices@.len() ==> crate::capability::serial_redacted(
                before.devices@[i],
                #[trigger] after.devices@[i],
            ),
    ensures
        after.tree() == record_without_serials(before),
{
    let devices = after.devices@.map_values(
        |device: crate::capability::DeviceRecord| device.tree(),
    );
    assert(devices =~= before.devices@.map_values(
        |device: crate::capability::DeviceRecord| device_without_serial(device),
    )) by {
        assert forall|i: int| 0 <= i < devices.len() implies devices[i] == device_without_serial(
            before.devices@[i],
        ) by {
            let old_device = before.devices@[i];
            let new_device = after.devices@[i];
            assert(crate::capability::serial_redacted(old_device, new_device));
            assert(new_device.usb.serial.tree().parts() =~= seq![
                redaction::Tree::Name("unknown"@),
                redaction::Tree::Text("redacted"@),
                redaction::Tree::Text("policy:redact-serials"@),
            ]);
            assert(new_device.usb.tree().parts() =~= old_device.usb.tree().parts().update(
                3,
                new_device.usb.serial.tree(),
            ));
            assert(new_device.tree().parts() =~= old_device.tree().parts().update(
                1,
                new_device.usb.tree(),
            ));
        }
    }
    assert(after.tree().parts() =~= record_without_serials(before).parts());
}

/// The log is bounded, keeps the newest events in order, and ends in the one
/// that was recorded last.
pub proof fn recording_drops_the_oldest_first(
    events: Seq<DiagnosticEvent>,
    capacity: nat,
    event: DiagnosticEvent,
)
    requires
        capacity > 0,
        events.len() <= capacity,
    ensures
        recorded(events, capacity, event).len() <= capacity,
        recorded(events, capacity, event).last() == event,
        events.len() < capacity ==> recorded(events, capacity, event) == events.push(event),
        events.len() == capacity ==> recorded(events, capacity, event) == events.skip(1).push(event),
{
}

/// Nothing an export carries holds a registered secret, unless the secret is
/// one that can overlap the placeholder itself: neither the one that was swept
/// whole nor the one that leaves the capability record and the events behind.
pub proof fn an_export_carries_no_secret(
    secrets: Seq<Seq<char>>,
    secret: Seq<char>,
    generated_at_unix_ms: u64,
    daemon_version: Seq<char>,
    capabilities: Option<CapabilityRecord>,
    events: Seq<DiagnosticEvent>,
)
    requires
        secrets.contains(secret),
        secret.len() > 0,
        crate::text::is_clear_of(secret, REDACTION_PLACEHOLDER@),
    ensures
        ({
            let whole = unswept(generated_at_unix_ms, daemon_version, capabilities, events);
            redaction::names_kept(secrets, whole) ==> !redaction::holds(
                redaction::swept(secrets, whole),
                secret,
            )
        }),
        !redaction::holds(
            withheld(generated_at_unix_ms, redaction::redacted(secrets, daemon_version)),
            secret,
        ),
{
    let whole = unswept(generated_at_unix_ms, daemon_version, capabilities, events);
    if redaction::names_kept(secrets, whole) {
        redaction::a_swept_value_holds_no_secret(secrets, whole, secret);
    }
    let version = redaction::redacted(secrets, daemon_version);
    redaction::redacted_text_holds_no_secret(secrets, daemon_version, secret);
    let kept_back = withheld(generated_at_unix_ms, version);
    if redaction::holds(kept_back, secret) {
        let parts = kept_back.parts();
        let i = choose|i: int|
            0 <= i < parts.len() && redaction::holds(#[trigger] parts[i], secret);
        assert(parts[0] == redaction::Tree::Number(DIAGNOSTICS_SCHEMA_VERSION as int));
        assert(parts[1] == redaction::Tree::Number(generated_at_unix_ms as int));
        assert(parts[2] == redaction::Tree::Text(version));
        assert(parts[3] == redaction::Tree::Null);
        assert(parts[4] == redaction::Tree::List(
            Seq::<DiagnosticEvent>::empty().map_values(|event: DiagnosticEvent| event.tree()),
        ));
        assert(!redaction::holds(parts[0], secret));
        assert(!redaction::holds(parts[1], secret));
        assert(!redaction::holds(parts[2], secret));
        assert(!redaction::holds(parts[3], secret));
        assert(!redaction::holds(parts[4], secret));
    }
}

/// A refusal, a failure and a divergence are warnings.
pub proof fn what_went_wrong_is_a_warning(kind: EventKind)
    requires
        kind is DeviceRejected || kind is OwnershipConflict || kind is ClientRejected || kind
            is RequestRejected || kind is CollectorFailed || kind is ConfigRecovered || kind
            is SessionNotRecorded || kind is CurveDiverged,
    ensures
        kind.severity_level() is Warning,
{
}

/// What happens in the ordinary course of things is a notice.
pub proof fn what_went_right_is_a_notice(kind: EventKind)
    requires
        kind is DaemonStarted || kind is DaemonStopping || kind is DeviceDiscovered || kind
            is CapabilityResolved || kind is OwnershipAcquired || kind is ClientAccepted || kind
            is ClientDisconnected || kind is ProfileActivated || kind is ProfileSaved || kind
            is ProfileDeleted || kind is ConfigLoaded || kind is CollectorRecovered,
    ensures
        kind.severity_level() is Info,
{
}

/// A write is an error when nobody can say what the hardware holds, a warning
/// when it was not applied, and a notice otherwise; losing the right to write is
/// a warning, getting it back a notice.
pub proof fn a_write_is_as_severe_as_its_outcome(kind: EventKind)
    ensures
        kind matches EventKind::ProgramApplied { hardware, .. } ==> {
            &&& kind.severity_level() is Error <==> hardware is Uncertain
            &&& kind.severity_level() is Warning <==> hardware is NotApplied
            &&& kind.severity_level() is Info <==> hardware is Onboard || hardware is Confirmed
        },
        kind matches EventKind::LightingApplied { hardware, .. } ==> {
            &&& kind.severity_level() is Error <==> hardware is Uncertain
            &&& kind.severity_level() is Warning <==> hardware is NotApplied
            &&& kind.severity_level() is Info <==> hardware is Onboard || hardware is Confirmed
        },
        kind matches EventKind::DisplayApplied { hardware, .. } ==> {
            &&& kind.severity_level() is Error <==> hardware is Uncertain
            &&& kind.severity_level() is Warning <==> hardware is NotApplied
            &&& kind.severity_level() is Info <==> hardware is Onboard || hardware is Confirmed
        },
        kind matches EventKind::AccessModeChanged { read_only, .. } ==> {
            &&& kind.severity_level() is Warning <==> read_only
            &&& kind.severity_level() is Info <==> !read_only
        },
{
}

/// Without secrets an export is written as everything there is, but for the
/// serial numbers.
pub proof fn without_secrets_everything_leaves(
    generated_at_unix_ms: u64,
    daemon_version: Seq<char>,
    capabilities: Option<CapabilityRecord>,
    events: Seq<DiagnosticEvent>,
)
    ensures
        ({
            let whole = unswept(generated_at_unix_ms, daemon_version, capabilities, events);
            let none = Seq::<Seq<char>>::empty();
            &&& redaction::names_kept(none, whole)
            &&& redaction::swept(none, whole) == whole
        }),
{
    let whole = unswept(generated_at_unix_ms, daemon_version, capabilities, events);
    redaction::a_value_without_secrets_is_left_alone(Seq::empty(), whole);
}

/// Of a device only the serial number is written as something else: as unknown,
/// for the reason that it is taken out by policy.
pub proof fn only_the_serial_number_is_written_otherwise(
    device: crate::capability::DeviceRecord,
    part: int,
    detail: int,
)
    requires
        0 <= part < 7,
        0 <= detail < 6,
    ensures
        ({
            let before = device.tree().parts();
            let after = device_without_serial(device).parts();
            &&& after.len() == before.len() == 7
            &&& part != 1 ==> after[part] == before[part]
            &&& after[1].parts().len() == before[1].parts().len() == 6
            &&& detail != 3 ==> after[1].parts()[detail] == before[1].parts()[detail]
            &&& before[1].parts()[3] == device.usb.serial.tree()
            &&& after[1].parts()[3] == redaction::Tree::List(
                seq![
                    redaction::Tree::Name("unknown"@),
                    redaction::Tree::Text("redacted"@),
                    redaction::Tree::Text("policy:redact-serials"@),
                ],
            )
        }),
{
}

} // verus!
