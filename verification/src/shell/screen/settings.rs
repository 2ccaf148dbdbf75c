//! The Settings screen: local paths, versions and diagnostics.
//!
//! One row per fact, in a label-and-value shape, because that is what these
//! are: static facts an operator reads once, or quotes in a report.

use vstd::prelude::*;

use super::cooling::{Button, ButtonKind, SERVICE_ABSENT};
use super::monitoring::NO_DEVICE;
use super::tab::SCREEN_TAB_BASE;
use crate::ipc::DaemonStatus;
use crate::shell::{ControlState, DeviceSummary};
use crate::telemetry::{CollectorFailure, TelemetrySnapshot};
use crate::text;
use crate::theme::{META_SEPARATOR, UNOFFICIAL_NOTICE};

verus! {

/// One recorded fact: what it is, and what it says.
#[derive(Debug, PartialEq, Eq)]
pub struct SettingRow {
    pub label: String,
    pub value: String,
}

impl SettingRow {
    pub fn new(label: &str, value: &str) -> (row: Self)
        ensures
            row.pair() == (label@, value@),
    {
        Self { label: label.to_owned(), value: value.to_owned() }
    }

    /// The label and the value, as the text each holds.
    pub open spec fn pair(self) -> (Seq<char>, Seq<char>) {
        (self.label@, self.value@)
    }
}

/// What each of a list of rows says.
pub open spec fn facts(rows: Seq<SettingRow>) -> Seq<(Seq<char>, Seq<char>)> {
    rows.map_values(|row: SettingRow| row.pair())
}

/// A device with the words its state and its provenance are shown in.
#[derive(Debug)]
pub struct DeviceLine {
    pub summary: DeviceSummary,
    pub state: String,
    pub detail: String,
}

impl DeviceLine {
    /// The fact one device contributes.
    pub open spec fn fact(self) -> (Seq<char>, Seq<char>) {
        (
            self.summary.name@,
            self.state@ + " "@ + META_SEPARATOR@ + " "@ + self.summary.id.text() + " "@
                + META_SEPARATOR@ + " "@ + self.detail@,
        )
    }
}

/// What the screen says of the devices.
pub open spec fn device_facts(devices: Seq<DeviceLine>) -> Seq<(Seq<char>, Seq<char>)> {
    if devices.len() == 0 {
        seq![("Devices"@, NO_DEVICE@)]
    } else {
        devices.map_values(|line: DeviceLine| line.fact())
    }
}

/// Every device and everything known about it.
///
/// The state is the first fragment: on this screen it is one more recorded
/// fact, not a signal to act on.
pub fn device_settings(devices: &Vec<DeviceLine>) -> (rows: Vec<SettingRow>)
    ensures
        facts(rows@) == device_facts(devices@),
{
    let mut rows: Vec<SettingRow> = Vec::new();
    if devices.len() == 0 {
        rows.push(SettingRow::new("Devices", NO_DEVICE));
        assert(facts(rows@) =~= device_facts(devices@));
        return rows;
    }
    for index in 0..devices.len()
        invariant
            rows@.len() == index,
            forall|i: int| 0 <= i < index ==> (#[trigger] rows@[i]).pair() == devices@[i].fact(),
    {
        let line: &DeviceLine = &devices[index];
        let mut value: String = line.state.clone();
        value.append(" ");
        value.append(META_SEPARATOR);
        value.append(" ");
        value.append(line.summary.id.to_text().as_str());
        value.append(" ");
        value.append(META_SEPARATOR);
        value.append(" ");
        value.append(line.detail.as_str());
        assert(value@ =~= line.fact().1);
        rows.push(SettingRow::new(line.summary.name.as_str(), value.as_str()));
    }
    assert(facts(rows@) =~= device_facts(devices@));
    rows
}

/// The age of the oldest section of a pass.
pub open spec fn oldest_age(snapshot: TelemetrySnapshot, now: u64) -> u64 {
    let kraken = crate::telemetry::elapsed(now, snapshot.kraken.at_unix_ms);
    let system = crate::telemetry::elapsed(now, snapshot.system.at_unix_ms);
    let gpu = crate::telemetry::elapsed(now, snapshot.gpu.at_unix_ms);
    let older = if system > kraken {
        system
    } else {
        kraken
    };
    if gpu > older {
        gpu
    } else {
        older
    }
}

/// What the screen says of the sampler.
pub open spec fn sampling_words(telemetry: Option<&TelemetrySnapshot>, now: u64) -> Seq<char> {
    match telemetry {
        Some(snapshot) => "Every "@ + text::decimal(snapshot.interval_ms as nat) + " ms, "@
            + text::decimal(oldest_age(*snapshot, now) as nat)
            + " ms since the last complete pass"@,
        None => "no telemetry"@,
    }
}

/// What the screen says of the sampler.
pub fn sampling(telemetry: Option<&TelemetrySnapshot>, now: u64) -> (words: String)
    ensures
        words@ == sampling_words(telemetry, now),
{
    match telemetry {
        Some(snapshot) => {
            let mut words: String = "Every ".to_owned();
            text::push_decimal(&mut words, snapshot.interval_ms);
            words.append(" ms, ");
            text::push_decimal(&mut words, snapshot.oldest_section_age_ms(now));
            words.append(" ms since the last complete pass");
            assert(words@ =~= sampling_words(telemetry, now));
            words
        },
        None => "no telemetry".to_owned(),
    }
}

/// What the screen says of the configuration.
pub open spec fn config_words(status: DaemonStatus) -> Seq<char> {
    match status.config {
        crate::ipc::ConfigState::Recovered { detail, preserved_path, recovery_action } =>
            "Configuration could not be loaded ("@ + detail@
            + "). Safe defaults are active. The previous file was kept at "@ + preserved_path@
            + ". "@ + recovery_action@,
        _ => "Loaded"@,
    }
}

/// What the screen says of the service.
pub open spec fn service_facts(
    status: Option<&DaemonStatus>,
    telemetry: Option<&TelemetrySnapshot>,
    now: u64,
) -> Seq<(Seq<char>, Seq<char>)> {
    let (socket, version, config) = match status {
        Some(status) => (status.socket_path@, status.daemon_version@, config_words(*status)),
        None => ("not connected"@, "unknown"@, "not available"@),
    };
    seq![
        ("Socket"@, socket),
        ("Daemon version"@, version),
        ("Configuration"@, config),
        ("Sampling"@, sampling_words(telemetry, now)),
        ("Network"@, "No network request, no listening TCP or UDP socket."@),
    ]
}

/// What each failed collector adds.
pub open spec fn failure_facts(failed: Seq<CollectorFailure>) -> Seq<(Seq<char>, Seq<char>)> {
    failed.map_values(
        |failure: CollectorFailure|
            (failure.collector.label_text() + " collector"@, failure.detail@),
    )
}

/// The Settings screen.
#[derive(Debug)]
pub struct SettingsView {
    pub title: &'static str,
    pub subtitle: &'static str,
    pub service: Vec<SettingRow>,
    pub devices: Vec<SettingRow>,
    pub devices_note: &'static str,
    pub diagnostics_note: &'static str,
    pub export: Button,
    pub notice: &'static str,
}

/// The Settings screen.
///
/// Diagnostics can be exported only while a daemon answers.
pub fn settings(
    status: Option<&DaemonStatus>,
    telemetry: Option<&TelemetrySnapshot>,
    failed: &Vec<CollectorFailure>,
    now: u64,
    devices: &Vec<DeviceLine>,
) -> (view: SettingsView)
    ensures
        view.title@ == "Settings"@,
        view.subtitle@ == "Local paths, versions and diagnostics."@,
        facts(view.service@) == service_facts(status, telemetry, now) + failure_facts(failed@),
        facts(view.devices@) == device_facts(devices@),
        view.devices_note@ == "Only the two allowlisted devices are ever opened."@,
        view.diagnostics_note@
            == "Serial numbers are redacted before anything leaves this machine."@,
        view.export.id@ == "export-diagnostics"@,
        view.export.label@ == "Export diagnostics"@,
        view.export.kind is Plain,
        view.export.tab_index == SCREEN_TAB_BASE,
        match status {
            Some(_) => view.export.state is Enabled,
            None => view.export.state matches ControlState::Disabled { reason } && reason@
                == SERVICE_ABSENT@,
        },
        view.notice@ == UNOFFICIAL_NOTICE@,
{
    let mut service: Vec<SettingRow> = Vec::new();
    match status {
        Some(status) => {
            service.push(SettingRow::new("Socket", status.socket_path.as_str()));
            service.push(SettingRow::new("Daemon version", status.daemon_version.as_str()));
            match status.config.recovery_message() {
                Some(message) => service.push(SettingRow::new("Configuration", message.as_str())),
                None => service.push(SettingRow::new("Configuration", "Loaded")),
            }
        },
        None => {
            service.push(SettingRow::new("Socket", "not connected"));
            service.push(SettingRow::new("Daemon version", "unknown"));
            service.push(SettingRow::new("Configuration", "not available"));
        },
    }
    service.push(SettingRow::new("Sampling", sampling(telemetry, now).as_str()));
    service.push(
        SettingRow::new("Network", "No network request, no listening TCP or UDP socket."),
    );
    assert(facts(service@) =~= service_facts(status, telemetry, now));
    let ghost known = facts(service@);
    assert(failure_facts(failed@.take(0)) =~= Seq::empty());
    for index in 0..failed.len()
        invariant
            facts(service@) == known + failure_facts(failed@.take(index as int)),
    {
        let ghost before = facts(service@);
        let failure: &CollectorFailure = &failed[index];
        let mut label: String = failure.collector.label().to_owned();
        label.append(" collector");
        let ghost told = (label@, failure.detail@);
        service.push(SettingRow::new(label.as_str(), failure.detail.as_str()));
        assert(facts(service@) =~= before.push(told));
        assert(failure_facts(failed@.take(index + 1)) =~= failure_facts(
            failed@.take(index as int),
        ).push(told));
        assert(facts(service@) =~= known + failure_facts(failed@.take(index + 1)));
    }
    assert(failed@.take(failed@.len() as int) =~= failed@);
    SettingsView {
        title: "Settings",
        subtitle: "Local paths, versions and diagnostics.",
        service,
        devices: device_settings(devices),
        devices_note: "Only the two allowlisted devices are ever opened.",
        diagnostics_note: "Serial numbers are redacted before anything leaves this machine.",
        export: Button {
            id: "export-diagnostics",
            label: "Export diagnostics",
            kind: ButtonKind::Plain,
            state: if status.is_some() {
                ControlState::Enabled
            } else {
                ControlState::disabled(SERVICE_ABSENT)
            },
            tab_index: SCREEN_TAB_BASE,
        },
        notice: UNOFFICIAL_NOTICE,
    }
}

/// The age of a pass is that of the section sampled longest ago.
pub proof fn a_pass_is_as_old_as_its_oldest_section(snapshot: TelemetrySnapshot, now: u64)
    ensures
        snapshot.kraken.at_unix_ms + oldest_age(snapshot, now) >= now,
        snapshot.system.at_unix_ms + oldest_age(snapshot, now) >= now,
        snapshot.gpu.at_unix_ms + oldest_age(snapshot, now) >= now,
        oldest_age(snapshot, now) == 0 || snapshot.kraken.at_unix_ms + oldest_age(snapshot, now)
            == now || snapshot.system.at_unix_ms + oldest_age(snapshot, now) == now
            || snapshot.gpu.at_unix_ms + oldest_age(snapshot, now) == now,
{
}

/// Every device has a line of its own, in order, and a machine without one says
/// so.
pub proof fn every_device_has_its_line(devices: Seq<DeviceLine>, i: int)
    requires
        0 <= i < devices.len(),
    ensures
        device_facts(devices).len() == devices.len(),
        device_facts(devices)[i].0 == devices[i].summary.name@,
        devices[i].state@.is_prefix_of(device_facts(devices)[i].1),
        device_facts(Seq::empty()) == seq![("Devices"@, NO_DEVICE@)],
{
}

/// Every failed collector has a line of its own, in order, with the reason it
/// gave.
pub proof fn every_failed_collector_has_its_line(failed: Seq<CollectorFailure>, i: int)
    requires
        0 <= i < failed.len(),
    ensures
        failure_facts(failed).len() == failed.len(),
        failure_facts(failed)[i].1 == failed[i].detail@,
        failed[i].collector.label_text().is_prefix_of(failure_facts(failed)[i].0),
{
}

/// The sampler is described by its interval and by the age of its last pass, in
/// that order.
pub proof fn the_sampler_is_told_by_its_interval_and_its_age(
    snapshot: TelemetrySnapshot,
    now: u64,
)
    ensures
        text::tells(
            sampling_words(Some(&snapshot), now),
            seq![
                text::decimal(snapshot.interval_ms as nat),
                text::decimal(oldest_age(snapshot, now) as nat),
            ],
        ),
        sampling_words(None, now) == "no telemetry"@,
{
    let rest = " ms since the last complete pass"@;
    let parts = Seq::<Seq<char>>::empty();
    text::lemma_tells(" ms, "@, text::decimal(oldest_age(snapshot, now) as nat), rest, parts);
    let rest = " ms, "@ + text::decimal(oldest_age(snapshot, now) as nat) + rest;
    let parts = seq![text::decimal(oldest_age(snapshot, now) as nat)] + parts;
    text::lemma_tells("Every "@, text::decimal(snapshot.interval_ms as nat), rest, parts);
    let rest = "Every "@ + text::decimal(snapshot.interval_ms as nat) + rest;
    let parts = seq![text::decimal(snapshot.interval_ms as nat)] + parts;
    assert(sampling_words(Some(&snapshot), now) =~= rest);
    assert(parts =~= seq![text::decimal(snapshot.interval_ms as nat), text::decimal(oldest_age(snapshot, now) as nat)]);
}

/// A connected service is told by its own socket, version and configuration; one
/// that is not says so.
pub proof fn the_service_is_told_by_what_it_reports(
    status: DaemonStatus,
    telemetry: Option<&TelemetrySnapshot>,
    now: u64,
)
    ensures
        service_facts(Some(&status), telemetry, now).len() == 5,
        service_facts(Some(&status), telemetry, now)[0].1 == status.socket_path@,
        service_facts(Some(&status), telemetry, now)[1].1 == status.daemon_version@,
        !(status.config is Recovered) ==> service_facts(Some(&status), telemetry, now)[2].1
            == "Loaded"@,
        status.config matches crate::ipc::ConfigState::Recovered {
            detail,
            preserved_path,
            recovery_action,
        } ==> text::tells(
            service_facts(Some(&status), telemetry, now)[2].1,
            seq![detail@, preserved_path@, recovery_action@],
        ),
        service_facts(None, telemetry, now)[0].1 == "not connected"@,
        service_facts(None, telemetry, now)[1].1 == "unknown"@,
        service_facts(None, telemetry, now)[2].1 == "not available"@,
{
    if let crate::ipc::ConfigState::Recovered { detail, preserved_path, recovery_action } =
        status.config {
        let rest = Seq::<char>::empty();
        let parts = Seq::<Seq<char>>::empty();
        text::lemma_tells(". "@, recovery_action@, rest, parts);
        let rest = ". "@ + recovery_action@ + rest;
        let parts = seq![recovery_action@] + parts;
        text::lemma_tells("). Safe defaults are active. The previous file was kept at "@, preserved_path@, rest, parts);
        let rest = "). Safe defaults are active. The previous file was kept at "@ + preserved_path@ + rest;
        let parts = seq![preserved_path@] + parts;
        text::lemma_tells("Configuration could not be loaded ("@, detail@, rest, parts);
        let rest = "Configuration could not be loaded ("@ + detail@ + rest;
        let parts = seq![detail@] + parts;
        assert(config_words(status) =~= rest);
        assert(parts =~= seq![detail@, preserved_path@, recovery_action@]);
    }
}

} // verus!
