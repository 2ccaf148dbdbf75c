//! The diagnostics log and what an export removes.

use kori::capability::{
    CapabilityRecord, DeviceRecord, Evidenced, ProbeContext, SupportState, UsbIdentity,
    CAPABILITY_SCHEMA_VERSION,
};
use kori::diagnostics::{
    DiagnosticsExport, DiagnosticsLog, EventKind, Redactor, Severity, Sweep, Tree,
    DIAGNOSTICS_SCHEMA_VERSION, REDACTION_PLACEHOLDER,
};
use kori::ipc::{HardwareState, IpcError};
use kori::kraken_base;
use kori::profile::Channel;
use kori::telemetry::Collector;

const SERIAL: &str = "F1XTURE0000000000000000000KRAKEN";

fn record_with_serial() -> CapabilityRecord {
    CapabilityRecord {
        schema_version: CAPABILITY_SCHEMA_VERSION,
        context: ProbeContext {
            kernel_release: Evidenced::known("7.1.6".to_string(), "uname"),
            probed_at_unix_ms: 10,
        },
        devices: vec![DeviceRecord {
            support: SupportState::Supported,
            usb: UsbIdentity {
                id: kraken_base(),
                manufacturer: Evidenced::known("NZXT Inc.".to_string(), "sysfs"),
                product: Evidenced::known("NZXT Kraken Base".to_string(), "sysfs"),
                serial: Evidenced::known(SERIAL.to_string(), "sysfs"),
                firmware: Evidenced::known("0200".to_string(), "sysfs"),
                sysfs_path: "/sys/bus/usb/devices/1-9".to_string(),
            },
            interfaces: vec![],
            hwmon: None,
            rgb: None,
            lcd: None,
            capabilities: vec![],
        }],
        rejected: vec![],
    }
}

#[test]
fn log_is_bounded_and_drops_oldest_first() {
    let mut log = DiagnosticsLog::with_capacity(3);
    for i in 0..10 {
        log.record(i, EventKind::ProfileSaved { name: format!("p{i}") });
    }
    assert_eq!(log.len(), 3);
    assert_eq!(log.events().first().unwrap().at_unix_ms, 7);
}

#[test]
fn a_log_never_holds_more_than_it_has_room_for() {
    for capacity in [0usize, 1, 2, 5] {
        let mut log = DiagnosticsLog::with_capacity(capacity);
        log.add_secret(SERIAL);
        for at in 0..8 {
            log.record(at, EventKind::DaemonStopping { reason: SERIAL.to_string() });
            assert!(log.len() <= capacity.max(1));
            assert_eq!(log.events().last().unwrap().at_unix_ms, at);
        }
        let copy = log.clone();
        assert_eq!(copy.events(), log.events());
        // The copy strips the same secrets.
        assert!(!format!("{:?}", copy.export(1, "1.0", None)).contains(SERIAL));
    }
}

#[test]
fn export_redacts_serials_from_the_capability_record() {
    let log = DiagnosticsLog::default();
    let export = log.export(1, "0.1.0", Some(record_with_serial()));
    let written = format!("{export:?}");
    assert!(!written.contains(SERIAL), "{written}");
    assert!(export.capabilities.is_some());
}

#[test]
fn export_redacts_secrets_from_free_text_events() {
    let mut log = DiagnosticsLog::default();
    log.add_secret(SERIAL);
    log.record(
        1,
        EventKind::OwnershipConflict {
            device: Some(kraken_base()),
            resource: format!("/dev/serial/by-id/usb-NZXT_{SERIAL}"),
            detail: format!("held by another process for {SERIAL}"),
        },
    );

    let export = log.export(2, "0.1.0", None);
    let written = format!("{export:?}");
    assert!(!written.contains(SERIAL), "{written}");
    assert!(written.contains(REDACTION_PLACEHOLDER), "{written}");
}

#[test]
fn export_contains_only_declared_fields() {
    let mut log = DiagnosticsLog::default();
    log.record(
        1,
        EventKind::DaemonStarted {
            version: "0.1.0".to_string(),
            socket_path: "/run/user/1000/kori.sock".to_string(),
        },
    );
    // Taken apart field by field: a further field would not compile.
    let DiagnosticsExport {
        capabilities,
        daemon_version,
        events,
        generated_at_unix_ms,
        schema_version,
    } = log.export(2, "0.1.0", None);
    assert_eq!(capabilities, None);
    assert_eq!(daemon_version, "0.1.0");
    assert_eq!(events.len(), 1);
    assert_eq!(generated_at_unix_ms, 2);
    assert_eq!(schema_version, DIAGNOSTICS_SCHEMA_VERSION);
}

#[test]
fn the_sweep_reaches_the_capability_record_and_not_only_the_events() {
    let mut log = DiagnosticsLog::default();
    log.add_secret(SERIAL);

    let mut record = record_with_serial();
    let device = &mut record.devices[0];
    device.usb.sysfs_path = format!("/sys/bus/usb/devices/usb-NZXT_{SERIAL}");
    device.usb.product = Evidenced::known(
        format!("NZXT Kraken Base {SERIAL}"),
        &format!("/dev/serial/by-id/{SERIAL}"),
    );

    let export = log.export(1, "0.1.0", Some(record));
    let written = format!("{export:?}");
    assert!(!written.contains(SERIAL), "{written}");
    assert!(written.contains(REDACTION_PLACEHOLDER), "{written}");
}

/// A text that can only be read back as it was written.
#[derive(Debug, Clone, PartialEq)]
struct Digits(String);

impl Sweep for Digits {
    fn tree(&self) -> Tree {
        unreachable!("a tree is only ever spoken of in contracts")
    }

    fn sweep(&self, redactor: &Redactor) -> Option<Self> {
        if redactor.keeps(&self.0) {
            Some(self.clone())
        } else {
            None
        }
    }
}

#[test]
fn a_value_that_cannot_be_swept_is_refused_rather_than_returned_intact() {
    let mut redactor = Redactor::new();
    redactor.add_secret("12345678");

    assert_eq!(
        redactor.redacted(&Digits("12345678".to_string())),
        None,
        "a value that cannot be put back together must not come back carrying the secret"
    );

    // A value with nothing to remove still comes back unchanged.
    let clean = Digits("0000".to_string());
    assert_eq!(redactor.redacted(&clean), Some(clean));
}

#[test]
fn a_control_failure_is_never_recorded_as_a_notice() {
    for kind in [
        EventKind::CurveDiverged {
            channel: Channel::Pump,
            liquid_temperature_mc: 31_200,
            expected: 180,
            reported: 90,
        },
        EventKind::SessionNotRecorded {
            detail: "the configuration directory is read-only".to_string(),
        },
        EventKind::CollectorFailed {
            collector: Collector::Gpu,
            detail: "the collector panicked".to_string(),
        },
    ] {
        assert_eq!(kind.severity(), Severity::Warning, "{kind:?}");
    }

    assert_eq!(
        EventKind::ProgramApplied {
            hardware: HardwareState::Uncertain { reason: "readback failed".to_string() },
            writes: 1,
        }
        .severity(),
        Severity::Error
    );
    assert_eq!(
        EventKind::ProfileSaved { name: "Silent".to_string() }.severity(),
        Severity::Info
    );
}

#[test]
fn short_values_are_not_registered_as_secrets() {
    let mut redactor = Redactor::new();
    redactor.add_secret("ab");
    assert_eq!(redactor.redact("a table"), "a table");
}

#[test]
fn rejected_requests_are_recorded_as_warnings() {
    let mut log = DiagnosticsLog::default();
    log.record(1, EventKind::RequestRejected { error: IpcError::NoDevice });
    assert_eq!(log.events().first().unwrap().severity, Severity::Warning);
}

#[test]
fn a_secret_is_replaced_wherever_it_stands() {
    let mut redactor = Redactor::new();
    redactor.add_secret("SERIAL");
    let once = redactor.redact("a SERIAL b SERIALSERIAL");
    assert_eq!(
        once,
        format!("a {REDACTION_PLACEHOLDER} b {REDACTION_PLACEHOLDER}{REDACTION_PLACEHOLDER}")
    );
    assert_eq!(redactor.redact("nothing here"), "nothing here");
}

#[test]
fn an_export_that_cannot_be_swept_leaves_nothing_but_its_frame() {
    let mut log = DiagnosticsLog::default();
    // A secret that is part of the name an event travels under.
    log.add_secret("profile_saved");
    log.record(1, EventKind::ProfileSaved { name: "Silent".to_string() });
    let export = log.export(9, "1.0 profile_saved", Some(record_with_serial()));
    assert_eq!(export.events.len(), 0);
    assert_eq!(export.capabilities, None);
    assert_eq!(export.generated_at_unix_ms, 9);
    assert_eq!(export.daemon_version, format!("1.0 {REDACTION_PLACEHOLDER}"));
}

#[test]
fn a_log_without_secrets_exports_what_it_holds() {
    let mut log = DiagnosticsLog::with_capacity(2);
    assert!(log.is_empty());
    log.record(4, EventKind::ProfileSaved { name: "Quiet".to_string() });
    let export = log.export(5, "1.2.3", None);
    assert_eq!(export.events.len(), 1);
    assert_eq!(export.events[0].kind, EventKind::ProfileSaved { name: "Quiet".to_string() });
    assert_eq!(export.daemon_version, "1.2.3");
}
