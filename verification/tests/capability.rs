//! Devices, capabilities and what may be written to them.

use kori::capability::{
    Capability, CapabilityId, CapabilityRecord, CapabilityState, DeviceRecord, Evidenced,
    ProbeContext, RgbChannel, RgbTopology, SupportState, UsbIdentity, CAPABILITY_SCHEMA_VERSION,
};
use kori::{allowlist, is_allowlisted, kraken_base, rgb_controller, DeviceId, PRODUCT_NAME};

fn record() -> CapabilityRecord {
    CapabilityRecord {
        schema_version: CAPABILITY_SCHEMA_VERSION,
        context: ProbeContext {
            kernel_release: Evidenced::known("7.1.6".to_string(), "uname"),
            probed_at_unix_ms: 1,
        },
        devices: vec![DeviceRecord {
            support: SupportState::Supported,
            usb: UsbIdentity {
                id: kraken_base(),
                manufacturer: Evidenced::known("NZXT Inc.".to_string(), "sysfs"),
                product: Evidenced::known("NZXT Kraken Base".to_string(), "sysfs"),
                serial: Evidenced::known("SECRET".to_string(), "sysfs"),
                firmware: Evidenced::known("0200".to_string(), "sysfs"),
                sysfs_path: "/sys/bus/usb/devices/1-9".to_string(),
            },
            interfaces: vec![],
            hwmon: None,
            rgb: None,
            lcd: None,
            capabilities: vec![
                Capability {
                    id: CapabilityId::PumpDuty,
                    state: CapabilityState::Available {
                        writable: false,
                        source: "/sys/class/hwmon/hwmon4/pwm1".to_string(),
                    },
                },
                Capability {
                    id: CapabilityId::LcdFrame,
                    state: CapabilityState::Unvalidated {
                        reason: "LCD transport is not proven on this firmware.".to_string(),
                    },
                },
            ],
        }],
        rejected: vec![],
    }
}

#[test]
fn device_id_renders_like_lsusb() {
    assert_eq!(kraken_base().to_text(), "1e71:300e");
    assert_eq!(rgb_controller().to_text(), "1e71:2021");
}

#[test]
fn allowlist_rejects_unknown_devices() {
    assert!(is_allowlisted(kraken_base()));
    assert!(is_allowlisted(rgb_controller()));
    assert!(!is_allowlisted(DeviceId::new(0x1e71, 0x2007)));
    assert!(!is_allowlisted(DeviceId::new(0x046d, 0xc52b)));
}

#[test]
fn the_allowlist_holds_the_two_devices_in_probe_order() {
    assert_eq!(allowlist(), [kraken_base(), rgb_controller()]);
    assert_eq!(PRODUCT_NAME, "Kori");
    assert_eq!(DeviceId::new(0x000a, 0x0f00).to_text(), "000a:0f00");
}

#[test]
fn unvalidated_capability_is_never_writable() {
    let record = record();
    let device = record.device(kraken_base()).unwrap();
    assert!(!device.can_write(CapabilityId::LcdFrame));
    assert!(!device.can_write(CapabilityId::PumpDuty));
    assert!(!device.can_write(CapabilityId::RgbFixedColor));
}

#[test]
fn a_writable_entry_of_a_supported_device_is_written() {
    let mut record = record();
    record.devices[0].capabilities[0].state = CapabilityState::Available {
        writable: true,
        source: "/sys/class/hwmon/hwmon4/pwm1".to_string(),
    };
    assert!(record.device(kraken_base()).unwrap().can_write(CapabilityId::PumpDuty));
    assert_eq!(record.supported().len(), 1);
    assert!(record.device(rgb_controller()).is_none());
}

#[test]
fn blocked_reason_explains_why_the_write_is_refused() {
    let record = record();
    let state = &record
        .device(kraken_base())
        .unwrap()
        .capability(CapabilityId::LcdFrame)
        .unwrap()
        .state;
    let reason = state.blocked_reason().unwrap();
    assert!(reason.contains("not proven on this firmware"), "{reason}");
}

#[test]
fn redaction_removes_serial_numbers() {
    let mut record = record();
    record.redact_serials();
    let written = format!("{record:?}");
    assert!(!written.contains("SECRET"), "{written}");
    assert!(!record.devices[0].usb.serial.is_known());
}

#[test]
fn an_unreadable_rgb_topology_states_the_reason_on_every_field() {
    let topology = RgbTopology::unavailable("permission denied", "/dev/hidraw12");
    assert_eq!(topology.channel_count(), None);
    assert!(!topology.node.is_known());
    assert!(!topology.firmware.is_known());
    assert!(!topology.channels.is_known());

    let written = format!("{topology:?}");
    assert!(written.contains("permission denied"), "{written}");
    assert_eq!(topology.node.reason(), Some("permission denied"));
}

#[test]
fn a_reported_topology_counts_only_the_channels_it_carries() {
    let topology = RgbTopology {
        node: Evidenced::known("/dev/hidraw12".to_string(), "sysfs"),
        firmware: Evidenced::known("1.2.3".to_string(), "report 0x11"),
        channels: Evidenced::known(
            (1..=3)
                .map(|index| RgbChannel {
                    index,
                    accessories: Vec::new(),
                    led_count: Evidenced::unknown(
                        "the controller reports accessory ids, not LED counts",
                        "report 0x21",
                    ),
                })
                .collect(),
            "report 0x21",
        ),
    };
    assert_eq!(topology.channel_count(), Some(3));
    assert!(
        topology
            .channels
            .value()
            .is_some_and(|channels| channels.iter().all(|c| !c.led_count.is_known())),
        "an uncounted LED total must never become a number"
    );
}

#[test]
fn only_an_available_capability_is_readable() {
    let device = record().devices.remove(0);
    assert!(device.capability(CapabilityId::PumpDuty).unwrap().state.is_readable());
    assert!(!device.capability(CapabilityId::LcdFrame).unwrap().state.is_readable());
    let unavailable = CapabilityState::Unavailable { reason: "absent".to_string() };
    assert!(!unavailable.is_readable());
    assert!(unavailable.blocked_reason().unwrap().contains("absent"));
}
