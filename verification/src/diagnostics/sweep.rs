//! How each value of an export is taken apart, swept and put back together.
//!
//! A struct is written as its fields in order, an enum as the name of its
//! variant and then its fields.

use vstd::prelude::*;

use super::redaction::{Redactor, Sweep, Tree};
use super::{DiagnosticEvent, DiagnosticsExport, EventKind, Severity};
use crate::capability::{
    Capability, CapabilityId, CapabilityRecord, CapabilityState, CurveChannel, DeviceRecord,
    Evidenced, HwmonAttribute, HwmonCapabilities, LcdDisplaySettings, LcdPanel, LcdPanelShape,
    LcdTopology, ProbeContext, RejectedDevice, RgbAccessory, RgbChannel, RgbTopology, SupportState,
    UsbEndpoint, UsbIdentity, UsbInterface,
};
use crate::display::DisplayError;
use crate::ipc::{HardwareState, IpcError};
use crate::lighting::LightingError;
use crate::profile::{Channel, Incompatibility, ValidationError};
use crate::telemetry::Collector;
use crate::DeviceId;

verus! {

impl Sweep for DeviceId {
    open spec fn tree(&self) -> Tree {
        Tree::List(
            seq![
                Tree::Number(self.vendor as int),
                Tree::Number(self.product as int),
            ],
        )
    }

    fn sweep(&self, redactor: &Redactor) -> (result: Option<Self>)
        ensures
            result matches Some(kept) ==> kept == *self,
    {
        let ghost before = self.tree().parts();
        assert(before.len() == 2);
        assert(before[0] == Tree::Number(self.vendor as int));
        assert(super::redaction::names_kept(redactor@, before[0]));
        assert(before[1] == Tree::Number(self.product as int));
        assert(super::redaction::names_kept(redactor@, before[1]));
        let result = Self {
            vendor: self.vendor,
            product: self.product,
        };
        proof {
            super::redaction::lemma_swept_list(redactor@, before, result.tree().parts());
        }
        Some(result)
    }
}

impl<T: Sweep> Sweep for Evidenced<T> {
    open spec fn tree(&self) -> Tree {
        Tree::List(
            match self {
                Self::Known { value, source } => seq![
                    Tree::Name("known"@),
                    value.tree(),
                    source.tree(),
                ],
                Self::Unknown { reason, source } => seq![
                    Tree::Name("unknown"@),
                    reason.tree(),
                    source.tree(),
                ],
            },
        )
    }

    fn sweep(&self, redactor: &Redactor) -> (result: Option<Self>)
        ensures
            result matches Some(kept) ==> match (*self, kept) {
                (Self::Known { value, source }, Self::Known { value: kept_value, source: kept_source }) => {
                    &&& kept_value.tree() == super::redaction::swept(redactor@, value.tree())
                    &&& kept_source@ == super::redaction::redacted(redactor@, source@)
                },
                (Self::Unknown { reason, source }, Self::Unknown { reason: kept_reason, source: kept_source }) => {
                    &&& kept_reason@ == super::redaction::redacted(redactor@, reason@)
                    &&& kept_source@ == super::redaction::redacted(redactor@, source@)
                },
                _ => false,
            },
    {
        let ghost before = self.tree().parts();
        match self {
            Self::Known { value, source } => {
                assert(before[0] == Tree::Name("known"@));
                assert(before[1] == value.tree());
                assert(before[2] == source.tree());
                if !redactor.keeps("known") {
                    return None;
                }
                let value = value.sweep(redactor)?;
                let source = source.sweep(redactor)?;
                let result = Self::Known { value, source };
                proof {
                    super::redaction::lemma_swept_list(redactor@, before, result.tree().parts());
                }
                Some(result)
            },
            Self::Unknown { reason, source } => {
                assert(before[0] == Tree::Name("unknown"@));
                assert(before[1] == reason.tree());
                assert(before[2] == source.tree());
                if !redactor.keeps("unknown") {
                    return None;
                }
                let reason = reason.sweep(redactor)?;
                let source = source.sweep(redactor)?;
                let result = Self::Unknown { reason, source };
                proof {
                    super::redaction::lemma_swept_list(redactor@, before, result.tree().parts());
                }
                Some(result)
            },
        }
    }
}

impl Sweep for CapabilityId {
    open spec fn tree(&self) -> Tree {
        Tree::Name(
            match self {
                Self::LiquidTemperature => "liquid_temperature"@,
                Self::PumpSpeed => "pump_speed"@,
                Self::FanSpeed => "fan_speed"@,
                Self::PumpDuty => "pump_duty"@,
                Self::FanDuty => "fan_duty"@,
                Self::PumpCurve => "pump_curve"@,
                Self::FanCurve => "fan_curve"@,
                Self::RgbFixedColor => "rgb_fixed_color"@,
                Self::RgbEffects => "rgb_effects"@,
                Self::LcdFrame => "lcd_frame"@,
                Self::LcdDisplayControl => "lcd_display_control"@,
            },
        )
    }

    fn sweep(&self, redactor: &Redactor) -> (result: Option<Self>)
        ensures
            result matches Some(kept) ==> kept == *self,
    {
        let name: &str = match self {
            Self::LiquidTemperature => "liquid_temperature",
            Self::PumpSpeed => "pump_speed",
            Self::FanSpeed => "fan_speed",
            Self::PumpDuty => "pump_duty",
            Self::FanDuty => "fan_duty",
            Self::PumpCurve => "pump_curve",
            Self::FanCurve => "fan_curve",
            Self::RgbFixedColor => "rgb_fixed_color",
            Self::RgbEffects => "rgb_effects",
            Self::LcdFrame => "lcd_frame",
            Self::LcdDisplayControl => "lcd_display_control",
        };
        if redactor.keeps(name) {
            Some(*self)
        } else {
            None
        }
    }
}

impl Sweep for CapabilityState {
    open spec fn tree(&self) -> Tree {
        Tree::List(
            match self {
                Self::Available { writable, source } => seq![
                    Tree::Name("available"@),
                    Tree::Flag(*writable),
                    source.tree(),
                ],
                Self::Unvalidated { reason } => seq![
                    Tree::Name("unvalidated"@),
                    reason.tree(),
                ],
                Self::Unavailable { reason } => seq![
                    Tree::Name("unavailable"@),
                    reason.tree(),
                ],
            },
        )
    }

    fn sweep(&self, redactor: &Redactor) -> (result: Option<Self>)
        ensures
            result matches Some(kept) ==> match (*self, kept) {
                (Self::Available { writable, source }, Self::Available { writable: kept_writable, source: kept_source }) => {
                    &&& kept_writable == writable
                    &&& kept_source@ == super::redaction::redacted(redactor@, source@)
                },
                (Self::Unvalidated { reason }, Self::Unvalidated { reason: kept_reason }) => {
                    &&& kept_reason@ == super::redaction::redacted(redactor@, reason@)
                },
                (Self::Unavailable { reason }, Self::Unavailable { reason: kept_reason }) => {
                    &&& kept_reason@ == super::redaction::redacted(redactor@, reason@)
                },
                _ => false,
            },
    {
        let ghost before = self.tree().parts();
        match self {
            Self::Available { writable, source } => {
                assert(before[0] == Tree::Name("available"@));
                assert(before[1] == Tree::Flag(*writable));
                assert(super::redaction::names_kept(redactor@, before[1]));
                assert(before[2] == source.tree());
                if !redactor.keeps("available") {
                    return None;
                }
                let source = source.sweep(redactor)?;
                let result = Self::Available { writable: *writable, source };
                proof {
                    super::redaction::lemma_swept_list(redactor@, before, result.tree().parts());
                }
                Some(result)
            },
            Self::Unvalidated { reason } => {
                assert(before[0] == Tree::Name("unvalidated"@));
                assert(before[1] == reason.tree());
                if !redactor.keeps("unvalidated") {
                    return None;
                }
                let reason = reason.sweep(redactor)?;
                let result = Self::Unvalidated { reason };
                proof {
                    super::redaction::lemma_swept_list(redactor@, before, result.tree().parts());
                }
                Some(result)
            },
            Self::Unavailable { reason } => {
                assert(before[0] == Tree::Name("unavailable"@));
                assert(before[1] == reason.tree());
                if !redactor.keeps("unavailable") {
                    return None;
                }
                let reason = reason.sweep(redactor)?;
                let result = Self::Unavailable { reason };
                proof {
                    super::redaction::lemma_swept_list(redactor@, before, result.tree().parts());
                }
                Some(result)
            },
        }
    }
}

impl Sweep for Capability {
    open spec fn tree(&self) -> Tree {
        Tree::List(
            seq![
                self.id.tree(),
                self.state.tree(),
            ],
        )
    }

    fn sweep(&self, redactor: &Redactor) -> (result: Option<Self>)
        ensures
            result matches Some(kept) ==> {
                &&& kept.id == self.id
                &&& kept.state.tree() == super::redaction::swept(redactor@, self.state.tree())
            },
    {
        let ghost before = self.tree().parts();
        assert(before.len() == 2);
        assert(before[0] == self.id.tree());
        assert(before[1] == self.state.tree());
        let id = self.id.sweep(redactor)?;
        let state = self.state.sweep(redactor)?;
        let result = Self {
            id,
            state,
        };
        proof {
            super::redaction::lemma_swept_list(redactor@, before, result.tree().parts());
        }
        Some(result)
    }
}

impl Sweep for UsbEndpoint {
    open spec fn tree(&self) -> Tree {
        Tree::List(
            seq![
                Tree::Number(self.address as int),
                self.direction.tree(),
                self.transfer.tree(),
                Tree::Number(self.max_packet_size as int),
                Tree::Number(self.interval as int),
            ],
        )
    }

    fn sweep(&self, redactor: &Redactor) -> (result: Option<Self>)
        ensures
            result matches Some(kept) ==> {
                &&& kept.address == self.address
                &&& kept.direction@ == super::redaction::redacted(redactor@, self.direction@)
                &&& kept.transfer@ == super::redaction::redacted(redactor@, self.transfer@)
                &&& kept.max_packet_size == self.max_packet_size
                &&& kept.interval == self.interval
            },
    {
        let ghost before = self.tree().parts();
        assert(before.len() == 5);
        assert(before[0] == Tree::Number(self.address as int));
        assert(super::redaction::names_kept(redactor@, before[0]));
        assert(before[1] == self.direction.tree());
        assert(before[2] == self.transfer.tree());
        assert(before[3] == Tree::Number(self.max_packet_size as int));
        assert(super::redaction::names_kept(redactor@, before[3]));
        assert(before[4] == Tree::Number(self.interval as int));
        assert(super::redaction::names_kept(redactor@, before[4]));
        let direction = self.direction.sweep(redactor)?;
        let transfer = self.transfer.sweep(redactor)?;
        let result = Self {
            address: self.address,
            direction,
            transfer,
            max_packet_size: self.max_packet_size,
            interval: self.interval,
        };
        proof {
            super::redaction::lemma_swept_list(redactor@, before, result.tree().parts());
        }
        Some(result)
    }
}

impl Sweep for UsbInterface {
    open spec fn tree(&self) -> Tree {
        Tree::List(
            seq![
                Tree::Number(self.number as int),
                Tree::Number(self.class as int),
                Tree::Number(self.subclass as int),
                Tree::Number(self.protocol as int),
                self.driver.tree(),
                self.endpoints.tree(),
            ],
        )
    }

    fn sweep(&self, redactor: &Redactor) -> (result: Option<Self>)
        ensures
            result matches Some(kept) ==> {
                &&& kept.number == self.number
                &&& kept.class == self.class
                &&& kept.subclass == self.subclass
                &&& kept.protocol == self.protocol
                &&& kept.driver.tree() == super::redaction::swept(redactor@, self.driver.tree())
                &&& kept.endpoints.tree() == super::redaction::swept(redactor@, self.endpoints.tree())
            },
    {
        let ghost before = self.tree().parts();
        assert(before.len() == 6);
        assert(before[0] == Tree::Number(self.number as int));
        assert(super::redaction::names_kept(redactor@, before[0]));
        assert(before[1] == Tree::Number(self.class as int));
        assert(super::redaction::names_kept(redactor@, before[1]));
        assert(before[2] == Tree::Number(self.subclass as int));
        assert(super::redaction::names_kept(redactor@, before[2]));
        assert(before[3] == Tree::Number(self.protocol as int));
        assert(super::redaction::names_kept(redactor@, before[3]));
        assert(before[4] == self.driver.tree());
        assert(before[5] == self.endpoints.tree());
        let driver = self.driver.sweep(redactor)?;
        let endpoints = self.endpoints.sweep(redactor)?;
        let result = Self {
            number: self.number,
            class: self.class,
            subclass: self.subclass,
            protocol: self.protocol,
            driver,
            endpoints,
        };
        proof {
            super::redaction::lemma_swept_list(redactor@, before, result.tree().parts());
        }
        Some(result)
    }
}

impl Sweep for UsbIdentity {
    open spec fn tree(&self) -> Tree {
        Tree::List(
            seq![
                self.id.tree(),
                self.manufacturer.tree(),
                self.product.tree(),
                self.serial.tree(),
                self.firmware.tree(),
                self.sysfs_path.tree(),
            ],
        )
    }

    fn sweep(&self, redactor: &Redactor) -> (result: Option<Self>)
        ensures
            result matches Some(kept) ==> {
                &&& kept.id == self.id
                &&& kept.manufacturer.tree() == super::redaction::swept(redactor@, self.manufacturer.tree())
                &&& kept.product.tree() == super::redaction::swept(redactor@, self.product.tree())
                &&& kept.serial.tree() == super::redaction::swept(redactor@, self.serial.tree())
                &&& kept.firmware.tree() == super::redaction::swept(redactor@, self.firmware.tree())
                &&& kept.sysfs_path@ == super::redaction::redacted(redactor@, self.sysfs_path@)
            },
    {
        let ghost before = self.tree().parts();
        assert(before.len() == 6);
        assert(before[0] == self.id.tree());
        assert(before[1] == self.manufacturer.tree());
        assert(before[2] == self.product.tree());
        assert(before[3] == self.serial.tree());
        assert(before[4] == self.firmware.tree());
        assert(before[5] == self.sysfs_path.tree());
        let id = self.id.sweep(redactor)?;
        let manufacturer = self.manufacturer.sweep(redactor)?;
        let product = self.product.sweep(redactor)?;
        let serial = self.serial.sweep(redactor)?;
        let firmware = self.firmware.sweep(redactor)?;
        let sysfs_path = self.sysfs_path.sweep(redactor)?;
        let result = Self {
            id,
            manufacturer,
            product,
            serial,
            firmware,
            sysfs_path,
        };
        proof {
            super::redaction::lemma_swept_list(redactor@, before, result.tree().parts());
        }
        Some(result)
    }
}

impl Sweep for HwmonAttribute {
    open spec fn tree(&self) -> Tree {
        Tree::List(
            seq![
                self.name.tree(),
                self.path.tree(),
                Tree::Flag(self.readable),
                Tree::Flag(self.writable),
                self.label.tree(),
            ],
        )
    }

    fn sweep(&self, redactor: &Redactor) -> (result: Option<Self>)
        ensures
            result matches Some(kept) ==> {
                &&& kept.name@ == super::redaction::redacted(redactor@, self.name@)
                &&& kept.path@ == super::redaction::redacted(redactor@, self.path@)
                &&& kept.readable == self.readable
                &&& kept.writable == self.writable
                &&& kept.label.tree() == super::redaction::swept(redactor@, self.label.tree())
            },
    {
        let ghost before = self.tree().parts();
        assert(before.len() == 5);
        assert(before[0] == self.name.tree());
        assert(before[1] == self.path.tree());
        assert(before[2] == Tree::Flag(self.readable));
        assert(super::redaction::names_kept(redactor@, before[2]));
        assert(before[3] == Tree::Flag(self.writable));
        assert(super::redaction::names_kept(redactor@, before[3]));
        assert(before[4] == self.label.tree());
        let name = self.name.sweep(redactor)?;
        let path = self.path.sweep(redactor)?;
        let label = self.label.sweep(redactor)?;
        let result = Self {
            name,
            path,
            readable: self.readable,
            writable: self.writable,
            label,
        };
        proof {
            super::redaction::lemma_swept_list(redactor@, before, result.tree().parts());
        }
        Some(result)
    }
}

impl Sweep for CurveChannel {
    open spec fn tree(&self) -> Tree {
        Tree::List(
            seq![
                Tree::Number(self.temp_index as int),
                Tree::Number(self.point_count as int),
                Tree::Flag(self.writable),
            ],
        )
    }

    fn sweep(&self, redactor: &Redactor) -> (result: Option<Self>)
        ensures
            result matches Some(kept) ==> {
                &&& kept.temp_index == self.temp_index
                &&& kept.point_count == self.point_count
                &&& kept.writable == self.writable
            },
    {
        let ghost before = self.tree().parts();
        assert(before.len() == 3);
        assert(before[0] == Tree::Number(self.temp_index as int));
        assert(super::redaction::names_kept(redactor@, before[0]));
        assert(before[1] == Tree::Number(self.point_count as int));
        assert(super::redaction::names_kept(redactor@, before[1]));
        assert(before[2] == Tree::Flag(self.writable));
        assert(super::redaction::names_kept(redactor@, before[2]));
        let result = Self {
            temp_index: self.temp_index,
            point_count: self.point_count,
            writable: self.writable,
        };
        proof {
            super::redaction::lemma_swept_list(redactor@, before, result.tree().parts());
        }
        Some(result)
    }
}

impl Sweep for HwmonCapabilities {
    open spec fn tree(&self) -> Tree {
        Tree::List(
            seq![
                self.driver.tree(),
                self.path.tree(),
                self.attributes.tree(),
                self.curve_points.tree(),
            ],
        )
    }

    fn sweep(&self, redactor: &Redactor) -> (result: Option<Self>)
        ensures
            result matches Some(kept) ==> {
                &&& kept.driver@ == super::redaction::redacted(redactor@, self.driver@)
                &&& kept.path@ == super::redaction::redacted(redactor@, self.path@)
                &&& kept.attributes.tree() == super::redaction::swept(redactor@, self.attributes.tree())
                &&& kept.curve_points.tree() == super::redaction::swept(redactor@, self.curve_points.tree())
            },
    {
        let ghost before = self.tree().parts();
        assert(before.len() == 4);
        assert(before[0] == self.driver.tree());
        assert(before[1] == self.path.tree());
        assert(before[2] == self.attributes.tree());
        assert(before[3] == self.curve_points.tree());
        let driver = self.driver.sweep(redactor)?;
        let path = self.path.sweep(redactor)?;
        let attributes = self.attributes.sweep(redactor)?;
        let curve_points = self.curve_points.sweep(redactor)?;
        let result = Self {
            driver,
            path,
            attributes,
            curve_points,
        };
        proof {
            super::redaction::lemma_swept_list(redactor@, before, result.tree().parts());
        }
        Some(result)
    }
}

impl Sweep for RgbAccessory {
    open spec fn tree(&self) -> Tree {
        Tree::List(
            seq![
                Tree::Number(self.id as int),
                self.name.tree(),
            ],
        )
    }

    fn sweep(&self, redactor: &Redactor) -> (result: Option<Self>)
        ensures
            result matches Some(kept) ==> {
                &&& kept.id == self.id
                &&& kept.name@ == super::redaction::redacted(redactor@, self.name@)
            },
    {
        let ghost before = self.tree().parts();
        assert(before.len() == 2);
        assert(before[0] == Tree::Number(self.id as int));
        assert(super::redaction::names_kept(redactor@, before[0]));
        assert(before[1] == self.name.tree());
        let name = self.name.sweep(redactor)?;
        let result = Self {
            id: self.id,
            name,
        };
        proof {
            super::redaction::lemma_swept_list(redactor@, before, result.tree().parts());
        }
        Some(result)
    }
}

impl Sweep for RgbChannel {
    open spec fn tree(&self) -> Tree {
        Tree::List(
            seq![
                Tree::Number(self.index as int),
                self.accessories.tree(),
                self.led_count.tree(),
            ],
        )
    }

    fn sweep(&self, redactor: &Redactor) -> (result: Option<Self>)
        ensures
            result matches Some(kept) ==> {
                &&& kept.index == self.index
                &&& kept.accessories.tree() == super::redaction::swept(redactor@, self.accessories.tree())
                &&& kept.led_count.tree() == super::redaction::swept(redactor@, self.led_count.tree())
            },
    {
        let ghost before = self.tree().parts();
        assert(before.len() == 3);
        assert(before[0] == Tree::Number(self.index as int));
        assert(super::redaction::names_kept(redactor@, before[0]));
        assert(before[1] == self.accessories.tree());
        assert(before[2] == self.led_count.tree());
        let accessories = self.accessories.sweep(redactor)?;
        let led_count = self.led_count.sweep(redactor)?;
        let result = Self {
            index: self.index,
            accessories,
            led_count,
        };
        proof {
            super::redaction::lemma_swept_list(redactor@, before, result.tree().parts());
        }
        Some(result)
    }
}

impl Sweep for RgbTopology {
    open spec fn tree(&self) -> Tree {
        Tree::List(
            seq![
                self.node.tree(),
                self.firmware.tree(),
                self.channels.tree(),
            ],
        )
    }

    fn sweep(&self, redactor: &Redactor) -> (result: Option<Self>)
        ensures
            result matches Some(kept) ==> {
                &&& kept.node.tree() == super::redaction::swept(redactor@, self.node.tree())
                &&& kept.firmware.tree() == super::redaction::swept(redactor@, self.firmware.tree())
                &&& kept.channels.tree() == super::redaction::swept(redactor@, self.channels.tree())
            },
    {
        let ghost before = self.tree().parts();
        assert(before.len() == 3);
        assert(before[0] == self.node.tree());
        assert(before[1] == self.firmware.tree());
        assert(before[2] == self.channels.tree());
        let node = self.node.sweep(redactor)?;
        let firmware = self.firmware.sweep(redactor)?;
        let channels = self.channels.sweep(redactor)?;
        let result = Self {
            node,
            firmware,
            channels,
        };
        proof {
            super::redaction::lemma_swept_list(redactor@, before, result.tree().parts());
        }
        Some(result)
    }
}

impl Sweep for LcdPanelShape {
    open spec fn tree(&self) -> Tree {
        Tree::Name(
            match self {
                Self::Circular => "circular"@,
                Self::Square => "square"@,
            },
        )
    }

    fn sweep(&self, redactor: &Redactor) -> (result: Option<Self>)
        ensures
            result matches Some(kept) ==> kept == *self,
    {
        let name: &str = match self {
            Self::Circular => "circular",
            Self::Square => "square",
        };
        if redactor.keeps(name) {
            Some(*self)
        } else {
            None
        }
    }
}

impl Sweep for LcdPanel {
    open spec fn tree(&self) -> Tree {
        Tree::List(
            seq![
                Tree::Number(self.width as int),
                Tree::Number(self.height as int),
                self.shape.tree(),
                self.pixel_format.tree(),
                Tree::Number(self.frame_bytes as int),
                Tree::Number(self.bulk_endpoint as int),
                Tree::Number(self.bulk_interface as int),
            ],
        )
    }

    fn sweep(&self, redactor: &Redactor) -> (result: Option<Self>)
        ensures
            result matches Some(kept) ==> {
                &&& kept.width == self.width
                &&& kept.height == self.height
                &&& kept.shape == self.shape
                &&& kept.pixel_format@ == super::redaction::redacted(redactor@, self.pixel_format@)
                &&& kept.frame_bytes == self.frame_bytes
                &&& kept.bulk_endpoint == self.bulk_endpoint
                &&& kept.bulk_interface == self.bulk_interface
            },
    {
        let ghost before = self.tree().parts();
        assert(before.len() == 7);
        assert(before[0] == Tree::Number(self.width as int));
        assert(super::redaction::names_kept(redactor@, before[0]));
        assert(before[1] == Tree::Number(self.height as int));
        assert(super::redaction::names_kept(redactor@, before[1]));
        assert(before[2] == self.shape.tree());
        assert(before[3] == self.pixel_format.tree());
        assert(before[4] == Tree::Number(self.frame_bytes as int));
        assert(super::redaction::names_kept(redactor@, before[4]));
        assert(before[5] == Tree::Number(self.bulk_endpoint as int));
        assert(super::redaction::names_kept(redactor@, before[5]));
        assert(before[6] == Tree::Number(self.bulk_interface as int));
        assert(super::redaction::names_kept(redactor@, before[6]));
        let shape = self.shape.sweep(redactor)?;
        let pixel_format = self.pixel_format.sweep(redactor)?;
        let result = Self {
            width: self.width,
            height: self.height,
            shape,
            pixel_format,
            frame_bytes: self.frame_bytes,
            bulk_endpoint: self.bulk_endpoint,
            bulk_interface: self.bulk_interface,
        };
        proof {
            super::redaction::lemma_swept_list(redactor@, before, result.tree().parts());
        }
        Some(result)
    }
}

impl Sweep for LcdDisplaySettings {
    open spec fn tree(&self) -> Tree {
        Tree::List(
            seq![
                Tree::Number(self.brightness_percent as int),
                Tree::Number(self.quarter_turns as int),
            ],
        )
    }

    fn sweep(&self, redactor: &Redactor) -> (result: Option<Self>)
        ensures
            result matches Some(kept) ==> {
                &&& kept.brightness_percent == self.brightness_percent
                &&& kept.quarter_turns == self.quarter_turns
            },
    {
        let ghost before = self.tree().parts();
        assert(before.len() == 2);
        assert(before[0] == Tree::Number(self.brightness_percent as int));
        assert(super::redaction::names_kept(redactor@, before[0]));
        assert(before[1] == Tree::Number(self.quarter_turns as int));
        assert(super::redaction::names_kept(redactor@, before[1]));
        let result = Self {
            brightness_percent: self.brightness_percent,
            quarter_turns: self.quarter_turns,
        };
        proof {
            super::redaction::lemma_swept_list(redactor@, before, result.tree().parts());
        }
        Some(result)
    }
}

impl Sweep for LcdTopology {
    open spec fn tree(&self) -> Tree {
        Tree::List(
            seq![
                self.hid_node.tree(),
                self.bulk_node.tree(),
                self.firmware.tree(),
                self.panel.tree(),
                self.display.tree(),
            ],
        )
    }

    fn sweep(&self, redactor: &Redactor) -> (result: Option<Self>)
        ensures
            result matches Some(kept) ==> {
                &&& kept.hid_node.tree() == super::redaction::swept(redactor@, self.hid_node.tree())
                &&& kept.bulk_node.tree() == super::redaction::swept(redactor@, self.bulk_node.tree())
                &&& kept.firmware.tree() == super::redaction::swept(redactor@, self.firmware.tree())
                &&& kept.panel.tree() == super::redaction::swept(redactor@, self.panel.tree())
                &&& kept.display.tree() == super::redaction::swept(redactor@, self.display.tree())
            },
    {
        let ghost before = self.tree().parts();
        assert(before.len() == 5);
        assert(before[0] == self.hid_node.tree());
        assert(before[1] == self.bulk_node.tree());
        assert(before[2] == self.firmware.tree());
        assert(before[3] == self.panel.tree());
        assert(before[4] == self.display.tree());
        let hid_node = self.hid_node.sweep(redactor)?;
        let bulk_node = self.bulk_node.sweep(redactor)?;
        let firmware = self.firmware.sweep(redactor)?;
        let panel = self.panel.sweep(redactor)?;
        let display = self.display.sweep(redactor)?;
        let result = Self {
            hid_node,
            bulk_node,
            firmware,
            panel,
            display,
        };
        proof {
            super::redaction::lemma_swept_list(redactor@, before, result.tree().parts());
        }
        Some(result)
    }
}

impl Sweep for SupportState {
    open spec fn tree(&self) -> Tree {
        Tree::List(
            match self {
                Self::Supported => seq![
                    Tree::Name("supported"@),
                ],
                Self::Unsupported { reason } => seq![
                    Tree::Name("unsupported"@),
                    reason.tree(),
                ],
            },
        )
    }

    fn sweep(&self, redactor: &Redactor) -> (result: Option<Self>)
        ensures
            result matches Some(kept) ==> match (*self, kept) {
                (Self::Supported, Self::Supported) => true,
                (Self::Unsupported { reason }, Self::Unsupported { reason: kept_reason }) => {
                    &&& kept_reason@ == super::redaction::redacted(redactor@, reason@)
                },
                _ => false,
            },
    {
        let ghost before = self.tree().parts();
        match self {
            Self::Supported => {
                assert(before[0] == Tree::Name("supported"@));
                if !redactor.keeps("supported") {
                    return None;
                }
                let result = Self::Supported;
                proof {
                    super::redaction::lemma_swept_list(redactor@, before, result.tree().parts());
                }
                Some(result)
            },
            Self::Unsupported { reason } => {
                assert(before[0] == Tree::Name("unsupported"@));
                assert(before[1] == reason.tree());
                if !redactor.keeps("unsupported") {
                    return None;
                }
                let reason = reason.sweep(redactor)?;
                let result = Self::Unsupported { reason };
                proof {
                    super::redaction::lemma_swept_list(redactor@, before, result.tree().parts());
                }
                Some(result)
            },
        }
    }
}

impl Sweep for DeviceRecord {
    open spec fn tree(&self) -> Tree {
        Tree::List(
            seq![
                self.support.tree(),
                self.usb.tree(),
                self.interfaces.tree(),
                self.hwmon.tree(),
                self.rgb.tree(),
                self.lcd.tree(),
                self.capabilities.tree(),
            ],
        )
    }

    fn sweep(&self, redactor: &Redactor) -> (result: Option<Self>)
        ensures
            result matches Some(kept) ==> {
                &&& kept.support.tree() == super::redaction::swept(redactor@, self.support.tree())
                &&& kept.usb.tree() == super::redaction::swept(redactor@, self.usb.tree())
                &&& kept.interfaces.tree() == super::redaction::swept(redactor@, self.interfaces.tree())
                &&& kept.hwmon.tree() == super::redaction::swept(redactor@, self.hwmon.tree())
                &&& kept.rgb.tree() == super::redaction::swept(redactor@, self.rgb.tree())
                &&& kept.lcd.tree() == super::redaction::swept(redactor@, self.lcd.tree())
                &&& kept.capabilities.tree() == super::redaction::swept(redactor@, self.capabilities.tree())
            },
    {
        let ghost before = self.tree().parts();
        assert(before.len() == 7);
        assert(before[0] == self.support.tree());
        assert(before[1] == self.usb.tree());
        assert(before[2] == self.interfaces.tree());
        assert(before[3] == self.hwmon.tree());
        assert(before[4] == self.rgb.tree());
        assert(before[5] == self.lcd.tree());
        assert(before[6] == self.capabilities.tree());
        let support = self.support.sweep(redactor)?;
        let usb = self.usb.sweep(redactor)?;
        let interfaces = self.interfaces.sweep(redactor)?;
        let hwmon = self.hwmon.sweep(redactor)?;
        let rgb = self.rgb.sweep(redactor)?;
        let lcd = self.lcd.sweep(redactor)?;
        let capabilities = self.capabilities.sweep(redactor)?;
        let result = Self {
            support,
            usb,
            interfaces,
            hwmon,
            rgb,
            lcd,
            capabilities,
        };
        proof {
            super::redaction::lemma_swept_list(redactor@, before, result.tree().parts());
        }
        Some(result)
    }
}

impl Sweep for ProbeContext {
    open spec fn tree(&self) -> Tree {
        Tree::List(
            seq![
                self.kernel_release.tree(),
                Tree::Number(self.probed_at_unix_ms as int),
            ],
        )
    }

    fn sweep(&self, redactor: &Redactor) -> (result: Option<Self>)
        ensures
            result matches Some(kept) ==> {
                &&& kept.kernel_release.tree() == super::redaction::swept(redactor@, self.kernel_release.tree())
                &&& kept.probed_at_unix_ms == self.probed_at_unix_ms
            },
    {
        let ghost before = self.tree().parts();
        assert(before.len() == 2);
        assert(before[0] == self.kernel_release.tree());
        assert(before[1] == Tree::Number(self.probed_at_unix_ms as int));
        assert(super::redaction::names_kept(redactor@, before[1]));
        let kernel_release = self.kernel_release.sweep(redactor)?;
        let result = Self {
            kernel_release,
            probed_at_unix_ms: self.probed_at_unix_ms,
        };
        proof {
            super::redaction::lemma_swept_list(redactor@, before, result.tree().parts());
        }
        Some(result)
    }
}

impl Sweep for RejectedDevice {
    open spec fn tree(&self) -> Tree {
        Tree::List(
            seq![
                self.id.tree(),
                self.sysfs_path.tree(),
                self.reason.tree(),
            ],
        )
    }

    fn sweep(&self, redactor: &Redactor) -> (result: Option<Self>)
        ensures
            result matches Some(kept) ==> {
                &&& kept.id == self.id
                &&& kept.sysfs_path@ == super::redaction::redacted(redactor@, self.sysfs_path@)
                &&& kept.reason@ == super::redaction::redacted(redactor@, self.reason@)
            },
    {
        let ghost before = self.tree().parts();
        assert(before.len() == 3);
        assert(before[0] == self.id.tree());
        assert(before[1] == self.sysfs_path.tree());
        assert(before[2] == self.reason.tree());
        let id = self.id.sweep(redactor)?;
        let sysfs_path = self.sysfs_path.sweep(redactor)?;
        let reason = self.reason.sweep(redactor)?;
        let result = Self {
            id,
            sysfs_path,
            reason,
        };
        proof {
            super::redaction::lemma_swept_list(redactor@, before, result.tree().parts());
        }
        Some(result)
    }
}

impl Sweep for CapabilityRecord {
    open spec fn tree(&self) -> Tree {
        Tree::List(
            seq![
                Tree::Number(self.schema_version as int),
                self.context.tree(),
                self.devices.tree(),
                self.rejected.tree(),
            ],
        )
    }

    fn sweep(&self, redactor: &Redactor) -> (result: Option<Self>)
        ensures
            result matches Some(kept) ==> {
                &&& kept.schema_version == self.schema_version
                &&& kept.context.tree() == super::redaction::swept(redactor@, self.context.tree())
                &&& kept.devices.tree() == super::redaction::swept(redactor@, self.devices.tree())
                &&& kept.rejected.tree() == super::redaction::swept(redactor@, self.rejected.tree())
            },
    {
        let ghost before = self.tree().parts();
        assert(before.len() == 4);
        assert(before[0] == Tree::Number(self.schema_version as int));
        assert(super::redaction::names_kept(redactor@, before[0]));
        assert(before[1] == self.context.tree());
        assert(before[2] == self.devices.tree());
        assert(before[3] == self.rejected.tree());
        let context = self.context.sweep(redactor)?;
        let devices = self.devices.sweep(redactor)?;
        let rejected = self.rejected.sweep(redactor)?;
        let result = Self {
            schema_version: self.schema_version,
            context,
            devices,
            rejected,
        };
        proof {
            super::redaction::lemma_swept_list(redactor@, before, result.tree().parts());
        }
        Some(result)
    }
}

impl Sweep for Channel {
    open spec fn tree(&self) -> Tree {
        Tree::Name(
            match self {
                Self::Pump => "pump"@,
                Self::Fan => "fan"@,
            },
        )
    }

    fn sweep(&self, redactor: &Redactor) -> (result: Option<Self>)
        ensures
            result matches Some(kept) ==> kept == *self,
    {
        let name: &str = match self {
            Self::Pump => "pump",
            Self::Fan => "fan",
        };
        if redactor.keeps(name) {
            Some(*self)
        } else {
            None
        }
    }
}

impl Sweep for Collector {
    open spec fn tree(&self) -> Tree {
        Tree::Name(
            match self {
                Self::Kraken => "kraken"@,
                Self::Cpu => "cpu"@,
                Self::Gpu => "gpu"@,
                Self::Memory => "memory"@,
            },
        )
    }

    fn sweep(&self, redactor: &Redactor) -> (result: Option<Self>)
        ensures
            result matches Some(kept) ==> kept == *self,
    {
        let name: &str = match self {
            Self::Kraken => "kraken",
            Self::Cpu => "cpu",
            Self::Gpu => "gpu",
            Self::Memory => "memory",
        };
        if redactor.keeps(name) {
            Some(*self)
        } else {
            None
        }
    }
}

impl Sweep for Severity {
    open spec fn tree(&self) -> Tree {
        Tree::Name(
            match self {
                Self::Info => "info"@,
                Self::Warning => "warning"@,
                Self::Error => "error"@,
            },
        )
    }

    fn sweep(&self, redactor: &Redactor) -> (result: Option<Self>)
        ensures
            result matches Some(kept) ==> kept == *self,
    {
        let name: &str = match self {
            Self::Info => "info",
            Self::Warning => "warning",
            Self::Error => "error",
        };
        if redactor.keeps(name) {
            Some(*self)
        } else {
            None
        }
    }
}

impl Sweep for HardwareState {
    open spec fn tree(&self) -> Tree {
        Tree::List(
            match self {
                Self::Onboard => seq![
                    Tree::Name("onboard"@),
                ],
                Self::Confirmed => seq![
                    Tree::Name("confirmed"@),
                ],
                Self::NotApplied { reason } => seq![
                    Tree::Name("not_applied"@),
                    reason.tree(),
                ],
                Self::Uncertain { reason } => seq![
                    Tree::Name("uncertain"@),
                    reason.tree(),
                ],
            },
        )
    }

    fn sweep(&self, redactor: &Redactor) -> (result: Option<Self>)
        ensures
            result matches Some(kept) ==> match (*self, kept) {
                (Self::Onboard, Self::Onboard) => true,
                (Self::Confirmed, Self::Confirmed) => true,
                (Self::NotApplied { reason }, Self::NotApplied { reason: kept_reason }) => {
                    &&& kept_reason@ == super::redaction::redacted(redactor@, reason@)
                },
                (Self::Uncertain { reason }, Self::Uncertain { reason: kept_reason }) => {
                    &&& kept_reason@ == super::redaction::redacted(redactor@, reason@)
                },
                _ => false,
            },
    {
        let ghost before = self.tree().parts();
        match self {
            Self::Onboard => {
                assert(before[0] == Tree::Name("onboard"@));
                if !redactor.keeps("onboard") {
                    return None;
                }
                let result = Self::Onboard;
                proof {
                    super::redaction::lemma_swept_list(redactor@, before, result.tree().parts());
                }
                Some(result)
            },
            Self::Confirmed => {
                assert(before[0] == Tree::Name("confirmed"@));
                if !redactor.keeps("confirmed") {
                    return None;
                }
                let result = Self::Confirmed;
                proof {
                    super::redaction::lemma_swept_list(redactor@, before, result.tree().parts());
                }
                Some(result)
            },
            Self::NotApplied { reason } => {
                assert(before[0] == Tree::Name("not_applied"@));
                assert(before[1] == reason.tree());
                if !redactor.keeps("not_applied") {
                    return None;
                }
                let reason = reason.sweep(redactor)?;
                let result = Self::NotApplied { reason };
                proof {
                    super::redaction::lemma_swept_list(redactor@, before, result.tree().parts());
                }
                Some(result)
            },
            Self::Uncertain { reason } => {
                assert(before[0] == Tree::Name("uncertain"@));
                assert(before[1] == reason.tree());
                if !redactor.keeps("uncertain") {
                    return None;
                }
                let reason = reason.sweep(redactor)?;
                let result = Self::Uncertain { reason };
                proof {
                    super::redaction::lemma_swept_list(redactor@, before, result.tree().parts());
                }
                Some(result)
            },
        }
    }
}

impl Sweep for Incompatibility {
    open spec fn tree(&self) -> Tree {
        Tree::List(
            seq![
                self.capability.tree(),
                self.reason.tree(),
            ],
        )
    }

    fn sweep(&self, redactor: &Redactor) -> (result: Option<Self>)
        ensures
            result matches Some(kept) ==> {
                &&& kept.capability == self.capability
                &&& kept.reason@ == super::redaction::redacted(redactor@, self.reason@)
            },
    {
        let ghost before = self.tree().parts();
        assert(before.len() == 2);
        assert(before[0] == self.capability.tree());
        assert(before[1] == self.reason.tree());
        let capability = self.capability.sweep(redactor)?;
        let reason = self.reason.sweep(redactor)?;
        let result = Self {
            capability,
            reason,
        };
        proof {
            super::redaction::lemma_swept_list(redactor@, before, result.tree().parts());
        }
        Some(result)
    }
}

impl Sweep for LightingError {
    open spec fn tree(&self) -> Tree {
        Tree::List(
            match self {
                Self::ColorDigits { expected, actual } => seq![
                    Tree::Name("color_digits"@),
                    Tree::Number(*expected as int),
                    Tree::Number(*actual as int),
                ],
                Self::ColorAlphabet { value } => seq![
                    Tree::Name("color_alphabet"@),
                    value.tree(),
                ],
                Self::BrightnessOutOfRange { value, max } => seq![
                    Tree::Name("brightness_out_of_range"@),
                    Tree::Number(*value as int),
                    Tree::Number(*max as int),
                ],
                Self::ChannelUnknown { channel, available } => seq![
                    Tree::Name("channel_unknown"@),
                    Tree::Number(*channel as int),
                    Tree::Number(*available as int),
                ],
                Self::ColorCount { effect, min, max, actual } => seq![
                    Tree::Name("color_count"@),
                    effect.tree(),
                    Tree::Number(*min as int),
                    Tree::Number(*max as int),
                    Tree::Number(*actual as int),
                ],
                Self::DirectionUnsupported { effect } => seq![
                    Tree::Name("direction_unsupported"@),
                    effect.tree(),
                ],
                Self::CadenceTooFast { channel, minimum_interval_ms, elapsed_ms } => seq![
                    Tree::Name("cadence_too_fast"@),
                    Tree::Number(*channel as int),
                    Tree::Number(*minimum_interval_ms as int),
                    Tree::Number(*elapsed_ms as int),
                ],
            },
        )
    }

    fn sweep(&self, redactor: &Redactor) -> (result: Option<Self>)
        ensures
            result matches Some(kept) ==> match (*self, kept) {
                (Self::ColorDigits { expected, actual }, Self::ColorDigits { expected: kept_expected, actual: kept_actual }) => {
                    &&& kept_expected == expected
                    &&& kept_actual == actual
                },
                (Self::ColorAlphabet { value }, Self::ColorAlphabet { value: kept_value }) => {
                    &&& kept_value@ == super::redaction::redacted(redactor@, value@)
                },
                (Self::BrightnessOutOfRange { value, max }, Self::BrightnessOutOfRange { value: kept_value, max: kept_max }) => {
                    &&& kept_value == value
                    &&& kept_max == max
                },
                (Self::ChannelUnknown { channel, available }, Self::ChannelUnknown { channel: kept_channel, available: kept_available }) => {
                    &&& kept_channel == channel
                    &&& kept_available == available
                },
                (Self::ColorCount { effect, min, max, actual }, Self::ColorCount { effect: kept_effect, min: kept_min, max: kept_max, actual: kept_actual }) => {
                    &&& kept_effect@ == super::redaction::redacted(redactor@, effect@)
                    &&& kept_min == min
                    &&& kept_max == max
                    &&& kept_actual == actual
                },
                (Self::DirectionUnsupported { effect }, Self::DirectionUnsupported { effect: kept_effect }) => {
                    &&& kept_effect@ == super::redaction::redacted(redactor@, effect@)
                },
                (Self::CadenceTooFast { channel, minimum_interval_ms, elapsed_ms }, Self::CadenceTooFast { channel: kept_channel, minimum_interval_ms: kept_minimum_interval_ms, elapsed_ms: kept_elapsed_ms }) => {
                    &&& kept_channel == channel
                    &&& kept_minimum_interval_ms == minimum_interval_ms
                    &&& kept_elapsed_ms == elapsed_ms
                },
                _ => false,
            },
    {
        let ghost before = self.tree().parts();
        match self {
            Self::ColorDigits { expected, actual } => {
                assert(before[0] == Tree::Name("color_digits"@));
                assert(before[1] == Tree::Number(*expected as int));
                assert(super::redaction::names_kept(redactor@, before[1]));
                assert(before[2] == Tree::Number(*actual as int));
                assert(super::redaction::names_kept(redactor@, before[2]));
                if !redactor.keeps("color_digits") {
                    return None;
                }
                let result = Self::ColorDigits { expected: *expected, actual: *actual };
                proof {
                    super::redaction::lemma_swept_list(redactor@, before, result.tree().parts());
                }
                Some(result)
            },
            Self::ColorAlphabet { value } => {
                assert(before[0] == Tree::Name("color_alphabet"@));
                assert(before[1] == value.tree());
                if !redactor.keeps("color_alphabet") {
                    return None;
                }
                let value = value.sweep(redactor)?;
                let result = Self::ColorAlphabet { value };
                proof {
                    super::redaction::lemma_swept_list(redactor@, before, result.tree().parts());
                }
                Some(result)
            },
            Self::BrightnessOutOfRange { value, max } => {
                assert(before[0] == Tree::Name("brightness_out_of_range"@));
                assert(before[1] == Tree::Number(*value as int));
                assert(super::redaction::names_kept(redactor@, before[1]));
                assert(before[2] == Tree::Number(*max as int));
                assert(super::redaction::names_kept(redactor@, before[2]));
                if !redactor.keeps("brightness_out_of_range") {
                    return None;
                }
                let result = Self::BrightnessOutOfRange { value: *value, max: *max };
                proof {
                    super::redaction::lemma_swept_list(redactor@, before, result.tree().parts());
                }
                Some(result)
            },
            Self::ChannelUnknown { channel, available } => {
                assert(before[0] == Tree::Name("channel_unknown"@));
                assert(before[1] == Tree::Number(*channel as int));
                assert(super::redaction::names_kept(redactor@, before[1]));
                assert(before[2] == Tree::Number(*available as int));
                assert(super::redaction::names_kept(redactor@, before[2]));
                if !redactor.keeps("channel_unknown") {
                    return None;
                }
                let result = Self::ChannelUnknown { channel: *channel, available: *available };
                proof {
                    super::redaction::lemma_swept_list(redactor@, before, result.tree().parts());
                }
                Some(result)
            },
            Self::ColorCount { effect, min, max, actual } => {
                assert(before[0] == Tree::Name("color_count"@));
                assert(before[1] == effect.tree());
                assert(before[2] == Tree::Number(*min as int));
                assert(super::redaction::names_kept(redactor@, before[2]));
                assert(before[3] == Tree::Number(*max as int));
                assert(super::redaction::names_kept(redactor@, before[3]));
                assert(before[4] == Tree::Number(*actual as int));
                assert(super::redaction::names_kept(redactor@, before[4]));
                if !redactor.keeps("color_count") {
                    return None;
                }
                let effect = effect.sweep(redactor)?;
                let result = Self::ColorCount { effect, min: *min, max: *max, actual: *actual };
                proof {
                    super::redaction::lemma_swept_list(redactor@, before, result.tree().parts());
                }
                Some(result)
            },
            Self::DirectionUnsupported { effect } => {
                assert(before[0] == Tree::Name("direction_unsupported"@));
                assert(before[1] == effect.tree());
                if !redactor.keeps("direction_unsupported") {
                    return None;
                }
                let effect = effect.sweep(redactor)?;
                let result = Self::DirectionUnsupported { effect };
                proof {
                    super::redaction::lemma_swept_list(redactor@, before, result.tree().parts());
                }
                Some(result)
            },
            Self::CadenceTooFast { channel, minimum_interval_ms, elapsed_ms } => {
                assert(before[0] == Tree::Name("cadence_too_fast"@));
                assert(before[1] == Tree::Number(*channel as int));
                assert(super::redaction::names_kept(redactor@, before[1]));
                assert(before[2] == Tree::Number(*minimum_interval_ms as int));
                assert(super::redaction::names_kept(redactor@, before[2]));
                assert(before[3] == Tree::Number(*elapsed_ms as int));
                assert(super::redaction::names_kept(redactor@, before[3]));
                if !redactor.keeps("cadence_too_fast") {
                    return None;
                }
                let result = Self::CadenceTooFast { channel: *channel, minimum_interval_ms: *minimum_interval_ms, elapsed_ms: *elapsed_ms };
                proof {
                    super::redaction::lemma_swept_list(redactor@, before, result.tree().parts());
                }
                Some(result)
            },
        }
    }
}

impl Sweep for DisplayError {
    open spec fn tree(&self) -> Tree {
        Tree::List(
            match self {
                Self::Color { field, source } => seq![
                    Tree::Name("color"@),
                    field.tree(),
                    source.tree(),
                ],
                Self::ImagePathMissing => seq![
                    Tree::Name("image_path_missing"@),
                ],
                Self::ImagePathTooLong { bytes, max_bytes } => seq![
                    Tree::Name("image_path_too_long"@),
                    Tree::Number(*bytes as int),
                    Tree::Number(*max_bytes as int),
                ],
                Self::ImageUndecodable { path, detail } => seq![
                    Tree::Name("image_undecodable"@),
                    path.tree(),
                    detail.tree(),
                ],
                Self::ImageTooLarge { width, height, max } => seq![
                    Tree::Name("image_too_large"@),
                    Tree::Number(*width as int),
                    Tree::Number(*height as int),
                    Tree::Number(*max as int),
                ],
                Self::AnimationTooLong { max } => seq![
                    Tree::Name("animation_too_long"@),
                    Tree::Number(*max as int),
                ],
                Self::PanelUnknown => seq![
                    Tree::Name("panel_unknown"@),
                ],
            },
        )
    }

    fn sweep(&self, redactor: &Redactor) -> (result: Option<Self>)
        ensures
            result matches Some(kept) ==> match (*self, kept) {
                (Self::Color { field, source }, Self::Color { field: kept_field, source: kept_source }) => {
                    &&& kept_field@ == super::redaction::redacted(redactor@, field@)
                    &&& kept_source.tree() == super::redaction::swept(redactor@, source.tree())
                },
                (Self::ImagePathMissing, Self::ImagePathMissing) => true,
                (Self::ImagePathTooLong { bytes, max_bytes }, Self::ImagePathTooLong { bytes: kept_bytes, max_bytes: kept_max_bytes }) => {
                    &&& kept_bytes == bytes
                    &&& kept_max_bytes == max_bytes
                },
                (Self::ImageUndecodable { path, detail }, Self::ImageUndecodable { path: kept_path, detail: kept_detail }) => {
                    &&& kept_path@ == super::redaction::redacted(redactor@, path@)
                    &&& kept_detail@ == super::redaction::redacted(redactor@, detail@)
                },
                (Self::ImageTooLarge { width, height, max }, Self::ImageTooLarge { width: kept_width, height: kept_height, max: kept_max }) => {
                    &&& kept_width == width
                    &&& kept_height == height
                    &&& kept_max == max
                },
                (Self::AnimationTooLong { max }, Self::AnimationTooLong { max: kept_max }) => {
                    &&& kept_max == max
                },
                (Self::PanelUnknown, Self::PanelUnknown) => true,
                _ => false,
            },
    {
        let ghost before = self.tree().parts();
        match self {
            Self::Color { field, source } => {
                assert(before[0] == Tree::Name("color"@));
                assert(before[1] == field.tree());
                assert(before[2] == source.tree());
                if !redactor.keeps("color") {
                    return None;
                }
                let field = field.sweep(redactor)?;
                let source = source.sweep(redactor)?;
                let result = Self::Color { field, source };
                proof {
                    super::redaction::lemma_swept_list(redactor@, before, result.tree().parts());
                }
                Some(result)
            },
            Self::ImagePathMissing => {
                assert(before[0] == Tree::Name("image_path_missing"@));
                if !redactor.keeps("image_path_missing") {
                    return None;
                }
                let result = Self::ImagePathMissing;
                proof {
                    super::redaction::lemma_swept_list(redactor@, before, result.tree().parts());
                }
                Some(result)
            },
            Self::ImagePathTooLong { bytes, max_bytes } => {
                assert(before[0] == Tree::Name("image_path_too_long"@));
                assert(before[1] == Tree::Number(*bytes as int));
                assert(super::redaction::names_kept(redactor@, before[1]));
                assert(before[2] == Tree::Number(*max_bytes as int));
                assert(super::redaction::names_kept(redactor@, before[2]));
                if !redactor.keeps("image_path_too_long") {
                    return None;
                }
                let result = Self::ImagePathTooLong { bytes: *bytes, max_bytes: *max_bytes };
                proof {
                    super::redaction::lemma_swept_list(redactor@, before, result.tree().parts());
                }
                Some(result)
            },
            Self::ImageUndecodable { path, detail } => {
                assert(before[0] == Tree::Name("image_undecodable"@));
                assert(before[1] == path.tree());
                assert(before[2] == detail.tree());
                if !redactor.keeps("image_undecodable") {
                    return None;
                }
                let path = path.sweep(redactor)?;
                let detail = detail.sweep(redactor)?;
                let result = Self::ImageUndecodable { path, detail };
                proof {
                    super::redaction::lemma_swept_list(redactor@, before, result.tree().parts());
                }
                Some(result)
            },
            Self::ImageTooLarge { width, height, max } => {
                assert(before[0] == Tree::Name("image_too_large"@));
                assert(before[1] == Tree::Number(*width as int));
                assert(super::redaction::names_kept(redactor@, before[1]));
                assert(before[2] == Tree::Number(*height as int));
                assert(super::redaction::names_kept(redactor@, before[2]));
                assert(before[3] == Tree::Number(*max as int));
                assert(super::redaction::names_kept(redactor@, before[3]));
                if !redactor.keeps("image_too_large") {
                    return None;
                }
                let result = Self::ImageTooLarge { width: *width, height: *height, max: *max };
                proof {
                    super::redaction::lemma_swept_list(redactor@, before, result.tree().parts());
                }
                Some(result)
            },
            Self::AnimationTooLong { max } => {
                assert(before[0] == Tree::Name("animation_too_long"@));
                assert(before[1] == Tree::Number(*max as int));
                assert(super::redaction::names_kept(redactor@, before[1]));
                if !redactor.keeps("animation_too_long") {
                    return None;
                }
                let result = Self::AnimationTooLong { max: *max };
                proof {
                    super::redaction::lemma_swept_list(redactor@, before, result.tree().parts());
                }
                Some(result)
            },
            Self::PanelUnknown => {
                assert(before[0] == Tree::Name("panel_unknown"@));
                if !redactor.keeps("panel_unknown") {
                    return None;
                }
                let result = Self::PanelUnknown;
                proof {
                    super::redaction::lemma_swept_list(redactor@, before, result.tree().parts());
                }
                Some(result)
            },
        }
    }
}

impl Sweep for ValidationError {
    open spec fn tree(&self) -> Tree {
        Tree::List(
            match self {
                Self::NameLength { min, max } => seq![
                    Tree::Name("name_length"@),
                    Tree::Number(*min as int),
                    Tree::Number(*max as int),
                ],
                Self::NameBlank => seq![
                    Tree::Name("name_blank"@),
                ],
                Self::DutyOutOfRange { channel, value, min, max } => seq![
                    Tree::Name("duty_out_of_range"@),
                    channel.tree(),
                    Tree::Number(*value as int),
                    Tree::Number(*min as int),
                    Tree::Number(*max as int),
                ],
                Self::CurvePointCount { expected, actual } => seq![
                    Tree::Name("curve_point_count"@),
                    Tree::Number(*expected as int),
                    Tree::Number(*actual as int),
                ],
                Self::CurveDutyOutOfRange { channel, temperature_c, value, min, max } => seq![
                    Tree::Name("curve_duty_out_of_range"@),
                    channel.tree(),
                    Tree::Number(*temperature_c as int),
                    Tree::Number(*value as int),
                    Tree::Number(*min as int),
                    Tree::Number(*max as int),
                ],
                Self::Lighting { channel, detail } => seq![
                    Tree::Name("lighting"@),
                    Tree::Number(*channel as int),
                    detail.tree(),
                ],
                Self::Display { detail } => seq![
                    Tree::Name("display"@),
                    detail.tree(),
                ],
                Self::CurveNotMonotonic { channel, previous, previous_temperature_c, value, temperature_c } => seq![
                    Tree::Name("curve_not_monotonic"@),
                    channel.tree(),
                    Tree::Number(*previous as int),
                    Tree::Number(*previous_temperature_c as int),
                    Tree::Number(*value as int),
                    Tree::Number(*temperature_c as int),
                ],
            },
        )
    }

    fn sweep(&self, redactor: &Redactor) -> (result: Option<Self>)
        ensures
            result matches Some(kept) ==> match (*self, kept) {
                (Self::NameLength { min, max }, Self::NameLength { min: kept_min, max: kept_max }) => {
                    &&& kept_min == min
                    &&& kept_max == max
                },
                (Self::NameBlank, Self::NameBlank) => true,
                (Self::DutyOutOfRange { channel, value, min, max }, Self::DutyOutOfRange { channel: kept_channel, value: kept_value, min: kept_min, max: kept_max }) => {
                    &&& kept_channel == channel
                    &&& kept_value == value
                    &&& kept_min == min
                    &&& kept_max == max
                },
                (Self::CurvePointCount { expected, actual }, Self::CurvePointCount { expected: kept_expected, actual: kept_actual }) => {
                    &&& kept_expected == expected
                    &&& kept_actual == actual
                },
                (Self::CurveDutyOutOfRange { channel, temperature_c, value, min, max }, Self::CurveDutyOutOfRange { channel: kept_channel, temperature_c: kept_temperature_c, value: kept_value, min: kept_min, max: kept_max }) => {
                    &&& kept_channel == channel
                    &&& kept_temperature_c == temperature_c
                    &&& kept_value == value
                    &&& kept_min == min
                    &&& kept_max == max
                },
                (Self::Lighting { channel, detail }, Self::Lighting { channel: kept_channel, detail: kept_detail }) => {
                    &&& kept_channel == channel
                    &&& kept_detail@ == super::redaction::redacted(redactor@, detail@)
                },
                (Self::Display { detail }, Self::Display { detail: kept_detail }) => {
                    &&& kept_detail@ == super::redaction::redacted(redactor@, detail@)
                },
                (Self::CurveNotMonotonic { channel, previous, previous_temperature_c, value, temperature_c }, Self::CurveNotMonotonic { channel: kept_channel, previous: kept_previous, previous_temperature_c: kept_previous_temperature_c, value: kept_value, temperature_c: kept_temperature_c }) => {
                    &&& kept_channel == channel
                    &&& kept_previous == previous
                    &&& kept_previous_temperature_c == previous_temperature_c
                    &&& kept_value == value
                    &&& kept_temperature_c == temperature_c
                },
                _ => false,
            },
    {
        let ghost before = self.tree().parts();
        match self {
            Self::NameLength { min, max } => {
                assert(before[0] == Tree::Name("name_length"@));
                assert(before[1] == Tree::Number(*min as int));
                assert(super::redaction::names_kept(redactor@, before[1]));
                assert(before[2] == Tree::Number(*max as int));
                assert(super::redaction::names_kept(redactor@, before[2]));
                if !redactor.keeps("name_length") {
                    return None;
                }
                let result = Self::NameLength { min: *min, max: *max };
                proof {
                    super::redaction::lemma_swept_list(redactor@, before, result.tree().parts());
                }
                Some(result)
            },
            Self::NameBlank => {
                assert(before[0] == Tree::Name("name_blank"@));
                if !redactor.keeps("name_blank") {
                    return None;
                }
                let result = Self::NameBlank;
                proof {
                    super::redaction::lemma_swept_list(redactor@, before, result.tree().parts());
                }
                Some(result)
            },
            Self::DutyOutOfRange { channel, value, min, max } => {
                assert(before[0] == Tree::Name("duty_out_of_range"@));
                assert(before[1] == channel.tree());
                assert(before[2] == Tree::Number(*value as int));
                assert(super::redaction::names_kept(redactor@, before[2]));
                assert(before[3] == Tree::Number(*min as int));
                assert(super::redaction::names_kept(redactor@, before[3]));
                assert(before[4] == Tree::Number(*max as int));
                assert(super::redaction::names_kept(redactor@, before[4]));
                if !redactor.keeps("duty_out_of_range") {
                    return None;
                }
                let channel = channel.sweep(redactor)?;
                let result = Self::DutyOutOfRange { channel, value: *value, min: *min, max: *max };
                proof {
                    super::redaction::lemma_swept_list(redactor@, before, result.tree().parts());
                }
                Some(result)
            },
            Self::CurvePointCount { expected, actual } => {
                assert(before[0] == Tree::Name("curve_point_count"@));
                assert(before[1] == Tree::Number(*expected as int));
                assert(super::redaction::names_kept(redactor@, before[1]));
                assert(before[2] == Tree::Number(*actual as int));
                assert(super::redaction::names_kept(redactor@, before[2]));
                if !redactor.keeps("curve_point_count") {
                    return None;
                }
                let result = Self::CurvePointCount { expected: *expected, actual: *actual };
                proof {
                    super::redaction::lemma_swept_list(redactor@, before, result.tree().parts());
                }
                Some(result)
            },
            Self::CurveDutyOutOfRange { channel, temperature_c, value, min, max } => {
                assert(before[0] == Tree::Name("curve_duty_out_of_range"@));
                assert(before[1] == channel.tree());
                assert(before[2] == Tree::Number(*temperature_c as int));
                assert(super::redaction::names_kept(redactor@, before[2]));
                assert(before[3] == Tree::Number(*value as int));
                assert(super::redaction::names_kept(redactor@, before[3]));
                assert(before[4] == Tree::Number(*min as int));
                assert(super::redaction::names_kept(redactor@, before[4]));
                assert(before[5] == Tree::Number(*max as int));
                assert(super::redaction::names_kept(redactor@, before[5]));
                if !redactor.keeps("curve_duty_out_of_range") {
                    return None;
                }
                let channel = channel.sweep(redactor)?;
                let result = Self::CurveDutyOutOfRange { channel, temperature_c: *temperature_c, value: *value, min: *min, max: *max };
                proof {
                    super::redaction::lemma_swept_list(redactor@, before, result.tree().parts());
                }
                Some(result)
            },
            Self::Lighting { channel, detail } => {
                assert(before[0] == Tree::Name("lighting"@));
                assert(before[1] == Tree::Number(*channel as int));
                assert(super::redaction::names_kept(redactor@, before[1]));
                assert(before[2] == detail.tree());
                if !redactor.keeps("lighting") {
                    return None;
                }
                let detail = detail.sweep(redactor)?;
                let result = Self::Lighting { channel: *channel, detail };
                proof {
                    super::redaction::lemma_swept_list(redactor@, before, result.tree().parts());
                }
                Some(result)
            },
            Self::Display { detail } => {
                assert(before[0] == Tree::Name("display"@));
                assert(before[1] == detail.tree());
                if !redactor.keeps("display") {
                    return None;
                }
                let detail = detail.sweep(redactor)?;
                let result = Self::Display { detail };
                proof {
                    super::redaction::lemma_swept_list(redactor@, before, result.tree().parts());
                }
                Some(result)
            },
            Self::CurveNotMonotonic { channel, previous, previous_temperature_c, value, temperature_c } => {
                assert(before[0] == Tree::Name("curve_not_monotonic"@));
                assert(before[1] == channel.tree());
                assert(before[2] == Tree::Number(*previous as int));
                assert(super::redaction::names_kept(redactor@, before[2]));
                assert(before[3] == Tree::Number(*previous_temperature_c as int));
                assert(super::redaction::names_kept(redactor@, before[3]));
                assert(before[4] == Tree::Number(*value as int));
                assert(super::redaction::names_kept(redactor@, before[4]));
                assert(before[5] == Tree::Number(*temperature_c as int));
                assert(super::redaction::names_kept(redactor@, before[5]));
                if !redactor.keeps("curve_not_monotonic") {
                    return None;
                }
                let channel = channel.sweep(redactor)?;
                let result = Self::CurveNotMonotonic { channel, previous: *previous, previous_temperature_c: *previous_temperature_c, value: *value, temperature_c: *temperature_c };
                proof {
                    super::redaction::lemma_swept_list(redactor@, before, result.tree().parts());
                }
                Some(result)
            },
        }
    }
}

impl Sweep for IpcError {
    open spec fn tree(&self) -> Tree {
        Tree::List(
            match self {
                Self::UnsupportedProtocol { requested, supported } => seq![
                    Tree::Name("unsupported_protocol"@),
                    Tree::Number(*requested as int),
                    Tree::Number(*supported as int),
                ],
                Self::Malformed { detail } => seq![
                    Tree::Name("malformed"@),
                    detail.tree(),
                ],
                Self::FrameTooLarge { max_bytes } => seq![
                    Tree::Name("frame_too_large"@),
                    Tree::Number(*max_bytes as int),
                ],
                Self::HandshakeRequired => seq![
                    Tree::Name("handshake_required"@),
                ],
                Self::PeerRejected { reason } => seq![
                    Tree::Name("peer_rejected"@),
                    reason.tree(),
                ],
                Self::Validation(source) => seq![
                    Tree::Name("validation"@),
                    source.tree(),
                ],
                Self::Lighting(source) => seq![
                    Tree::Name("lighting"@),
                    source.tree(),
                ],
                Self::Display(source) => seq![
                    Tree::Name("display"@),
                    source.tree(),
                ],
                Self::ReadOnly { reason } => seq![
                    Tree::Name("read_only"@),
                    reason.tree(),
                ],
                Self::Incompatible { details } => seq![
                    Tree::Name("incompatible"@),
                    details.tree(),
                ],
                Self::ProfileNotFound { name } => seq![
                    Tree::Name("profile_not_found"@),
                    name.tree(),
                ],
                Self::ProfileNameUnavailable { name } => seq![
                    Tree::Name("profile_name_unavailable"@),
                    name.tree(),
                ],
                Self::NoDevice => seq![
                    Tree::Name("no_device"@),
                ],
                Self::Io { detail } => seq![
                    Tree::Name("io"@),
                    detail.tree(),
                ],
            },
        )
    }

    fn sweep(&self, redactor: &Redactor) -> (result: Option<Self>)
        ensures
            result matches Some(kept) ==> match (*self, kept) {
                (Self::UnsupportedProtocol { requested, supported }, Self::UnsupportedProtocol { requested: kept_requested, supported: kept_supported }) => {
                    &&& kept_requested == requested
                    &&& kept_supported == supported
                },
                (Self::Malformed { detail }, Self::Malformed { detail: kept_detail }) => {
                    &&& kept_detail@ == super::redaction::redacted(redactor@, detail@)
                },
                (Self::FrameTooLarge { max_bytes }, Self::FrameTooLarge { max_bytes: kept_max_bytes }) => {
                    &&& kept_max_bytes == max_bytes
                },
                (Self::HandshakeRequired, Self::HandshakeRequired) => true,
                (Self::PeerRejected { reason }, Self::PeerRejected { reason: kept_reason }) => {
                    &&& kept_reason@ == super::redaction::redacted(redactor@, reason@)
                },
                (Self::Validation(source), Self::Validation(kept_source)) => {
                    &&& kept_source.tree() == super::redaction::swept(redactor@, source.tree())
                },
                (Self::Lighting(source), Self::Lighting(kept_source)) => {
                    &&& kept_source.tree() == super::redaction::swept(redactor@, source.tree())
                },
                (Self::Display(source), Self::Display(kept_source)) => {
                    &&& kept_source.tree() == super::redaction::swept(redactor@, source.tree())
                },
                (Self::ReadOnly { reason }, Self::ReadOnly { reason: kept_reason }) => {
                    &&& kept_reason@ == super::redaction::redacted(redactor@, reason@)
                },
                (Self::Incompatible { details }, Self::Incompatible { details: kept_details }) => {
                    &&& kept_details.tree() == super::redaction::swept(redactor@, details.tree())
                },
                (Self::ProfileNotFound { name }, Self::ProfileNotFound { name: kept_name }) => {
                    &&& kept_name@ == super::redaction::redacted(redactor@, name@)
                },
                (Self::ProfileNameUnavailable { name }, Self::ProfileNameUnavailable { name: kept_name }) => {
                    &&& kept_name@ == super::redaction::redacted(redactor@, name@)
                },
                (Self::NoDevice, Self::NoDevice) => true,
                (Self::Io { detail }, Self::Io { detail: kept_detail }) => {
                    &&& kept_detail@ == super::redaction::redacted(redactor@, detail@)
                },
                _ => false,
            },
    {
        let ghost before = self.tree().parts();
        match self {
            Self::UnsupportedProtocol { requested, supported } => {
                assert(before[0] == Tree::Name("unsupported_protocol"@));
                assert(before[1] == Tree::Number(*requested as int));
                assert(super::redaction::names_kept(redactor@, before[1]));
                assert(before[2] == Tree::Number(*supported as int));
                assert(super::redaction::names_kept(redactor@, before[2]));
                if !redactor.keeps("unsupported_protocol") {
                    return None;
                }
                let result = Self::UnsupportedProtocol { requested: *requested, supported: *supported };
                proof {
                    super::redaction::lemma_swept_list(redactor@, before, result.tree().parts());
                }
                Some(result)
            },
            Self::Malformed { detail } => {
                assert(before[0] == Tree::Name("malformed"@));
                assert(before[1] == detail.tree());
                if !redactor.keeps("malformed") {
                    return None;
                }
                let detail = detail.sweep(redactor)?;
                let result = Self::Malformed { detail };
                proof {
                    super::redaction::lemma_swept_list(redactor@, before, result.tree().parts());
                }
                Some(result)
            },
            Self::FrameTooLarge { max_bytes } => {
                assert(before[0] == Tree::Name("frame_too_large"@));
                assert(before[1] == Tree::Number(*max_bytes as int));
                assert(super::redaction::names_kept(redactor@, before[1]));
                if !redactor.keeps("frame_too_large") {
                    return None;
                }
                let result = Self::FrameTooLarge { max_bytes: *max_bytes };
                proof {
                    super::redaction::lemma_swept_list(redactor@, before, result.tree().parts());
                }
                Some(result)
            },
            Self::HandshakeRequired => {
                assert(before[0] == Tree::Name("handshake_required"@));
                if !redactor.keeps("handshake_required") {
                    return None;
                }
                let result = Self::HandshakeRequired;
                proof {
                    super::redaction::lemma_swept_list(redactor@, before, result.tree().parts());
                }
                Some(result)
            },
            Self::PeerRejected { reason } => {
                assert(before[0] == Tree::Name("peer_rejected"@));
                assert(before[1] == reason.tree());
                if !redactor.keeps("peer_rejected") {
                    return None;
                }
                let reason = reason.sweep(redactor)?;
                let result = Self::PeerRejected { reason };
                proof {
                    super::redaction::lemma_swept_list(redactor@, before, result.tree().parts());
                }
                Some(result)
            },
            Self::Validation(source) => {
                assert(before[0] == Tree::Name("validation"@));
                assert(before[1] == source.tree());
                if !redactor.keeps("validation") {
                    return None;
                }
                let source = source.sweep(redactor)?;
                let result = Self::Validation(source);
                proof {
                    super::redaction::lemma_swept_list(redactor@, before, result.tree().parts());
                }
                Some(result)
            },
            Self::Lighting(source) => {
                assert(before[0] == Tree::Name("lighting"@));
                assert(before[1] == source.tree());
                if !redactor.keeps("lighting") {
                    return None;
                }
                let source = source.sweep(redactor)?;
                let result = Self::Lighting(source);
                proof {
                    super::redaction::lemma_swept_list(redactor@, before, result.tree().parts());
                }
                Some(result)
            },
            Self::Display(source) => {
                assert(before[0] == Tree::Name("display"@));
                assert(before[1] == source.tree());
                if !redactor.keeps("display") {
                    return None;
                }
                let source = source.sweep(redactor)?;
                let result = Self::Display(source);
                proof {
                    super::redaction::lemma_swept_list(redactor@, before, result.tree().parts());
                }
                Some(result)
            },
            Self::ReadOnly { reason } => {
                assert(before[0] == Tree::Name("read_only"@));
                assert(before[1] == reason.tree());
                if !redactor.keeps("read_only") {
                    return None;
                }
                let reason = reason.sweep(redactor)?;
                let result = Self::ReadOnly { reason };
                proof {
                    super::redaction::lemma_swept_list(redactor@, before, result.tree().parts());
                }
                Some(result)
            },
            Self::Incompatible { details } => {
                assert(before[0] == Tree::Name("incompatible"@));
                assert(before[1] == details.tree());
                if !redactor.keeps("incompatible") {
                    return None;
                }
                let details = details.sweep(redactor)?;
                let result = Self::Incompatible { details };
                proof {
                    super::redaction::lemma_swept_list(redactor@, before, result.tree().parts());
                }
                Some(result)
            },
            Self::ProfileNotFound { name } => {
                assert(before[0] == Tree::Name("profile_not_found"@));
                assert(before[1] == name.tree());
                if !redactor.keeps("profile_not_found") {
                    return None;
                }
                let name = name.sweep(redactor)?;
                let result = Self::ProfileNotFound { name };
                proof {
                    super::redaction::lemma_swept_list(redactor@, before, result.tree().parts());
                }
                Some(result)
            },
            Self::ProfileNameUnavailable { name } => {
                assert(before[0] == Tree::Name("profile_name_unavailable"@));
                assert(before[1] == name.tree());
                if !redactor.keeps("profile_name_unavailable") {
                    return None;
                }
                let name = name.sweep(redactor)?;
                let result = Self::ProfileNameUnavailable { name };
                proof {
                    super::redaction::lemma_swept_list(redactor@, before, result.tree().parts());
                }
                Some(result)
            },
            Self::NoDevice => {
                assert(before[0] == Tree::Name("no_device"@));
                if !redactor.keeps("no_device") {
                    return None;
                }
                let result = Self::NoDevice;
                proof {
                    super::redaction::lemma_swept_list(redactor@, before, result.tree().parts());
                }
                Some(result)
            },
            Self::Io { detail } => {
                assert(before[0] == Tree::Name("io"@));
                assert(before[1] == detail.tree());
                if !redactor.keeps("io") {
                    return None;
                }
                let detail = detail.sweep(redactor)?;
                let result = Self::Io { detail };
                proof {
                    super::redaction::lemma_swept_list(redactor@, before, result.tree().parts());
                }
                Some(result)
            },
        }
    }
}

impl Sweep for EventKind {
    open spec fn tree(&self) -> Tree {
        Tree::List(
            match self {
                Self::DaemonStarted { version, socket_path } => seq![
                    Tree::Name("daemon_started"@),
                    version.tree(),
                    socket_path.tree(),
                ],
                Self::DaemonStopping { reason } => seq![
                    Tree::Name("daemon_stopping"@),
                    reason.tree(),
                ],
                Self::DeviceDiscovered { device, sysfs_path } => seq![
                    Tree::Name("device_discovered"@),
                    device.tree(),
                    sysfs_path.tree(),
                ],
                Self::DeviceRejected { device, reason } => seq![
                    Tree::Name("device_rejected"@),
                    device.tree(),
                    reason.tree(),
                ],
                Self::CapabilityResolved { device, capability, state } => seq![
                    Tree::Name("capability_resolved"@),
                    device.tree(),
                    capability.tree(),
                    state.tree(),
                ],
                Self::OwnershipAcquired { device, lock_path } => seq![
                    Tree::Name("ownership_acquired"@),
                    device.tree(),
                    lock_path.tree(),
                ],
                Self::OwnershipConflict { device, resource, detail } => seq![
                    Tree::Name("ownership_conflict"@),
                    device.tree(),
                    resource.tree(),
                    detail.tree(),
                ],
                Self::AccessModeChanged { read_only, reason } => seq![
                    Tree::Name("access_mode_changed"@),
                    Tree::Flag(*read_only),
                    reason.tree(),
                ],
                Self::ClientAccepted { uid, pid } => seq![
                    Tree::Name("client_accepted"@),
                    Tree::Number(*uid as int),
                    Tree::Number(*pid as int),
                ],
                Self::ClientRejected { reason } => seq![
                    Tree::Name("client_rejected"@),
                    reason.tree(),
                ],
                Self::ClientDisconnected { detail } => seq![
                    Tree::Name("client_disconnected"@),
                    detail.tree(),
                ],
                Self::RequestRejected { error } => seq![
                    Tree::Name("request_rejected"@),
                    error.tree(),
                ],
                Self::ProfileActivated { name, hardware } => seq![
                    Tree::Name("profile_activated"@),
                    name.tree(),
                    hardware.tree(),
                ],
                Self::ProfileSaved { name } => seq![
                    Tree::Name("profile_saved"@),
                    name.tree(),
                ],
                Self::ProfileDeleted { name } => seq![
                    Tree::Name("profile_deleted"@),
                    name.tree(),
                ],
                Self::ConfigLoaded { path } => seq![
                    Tree::Name("config_loaded"@),
                    path.tree(),
                ],
                Self::ConfigRecovered { detail, preserved_path } => seq![
                    Tree::Name("config_recovered"@),
                    detail.tree(),
                    preserved_path.tree(),
                ],
                Self::ProgramApplied { hardware, writes } => seq![
                    Tree::Name("program_applied"@),
                    hardware.tree(),
                    Tree::Number(*writes as int),
                ],
                Self::LightingApplied { channel, program, hardware, writes } => seq![
                    Tree::Name("lighting_applied"@),
                    Tree::Number(*channel as int),
                    program.tree(),
                    hardware.tree(),
                    Tree::Number(*writes as int),
                ],
                Self::DisplayApplied { mode, hardware, frames } => seq![
                    Tree::Name("display_applied"@),
                    mode.tree(),
                    hardware.tree(),
                    Tree::Number(*frames as int),
                ],
                Self::CurveDiverged { channel, liquid_temperature_mc, expected, reported } => seq![
                    Tree::Name("curve_diverged"@),
                    channel.tree(),
                    Tree::Number(*liquid_temperature_mc as int),
                    Tree::Number(*expected as int),
                    Tree::Number(*reported as int),
                ],
                Self::SessionNotRecorded { detail } => seq![
                    Tree::Name("session_not_recorded"@),
                    detail.tree(),
                ],
                Self::CollectorFailed { collector, detail } => seq![
                    Tree::Name("collector_failed"@),
                    collector.tree(),
                    detail.tree(),
                ],
                Self::CollectorRecovered { collector } => seq![
                    Tree::Name("collector_recovered"@),
                    collector.tree(),
                ],
            },
        )
    }

    fn sweep(&self, redactor: &Redactor) -> (result: Option<Self>)
        ensures
            result matches Some(kept) ==> match (*self, kept) {
                (Self::DaemonStarted { version, socket_path }, Self::DaemonStarted { version: kept_version, socket_path: kept_socket_path }) => {
                    &&& kept_version@ == super::redaction::redacted(redactor@, version@)
                    &&& kept_socket_path@ == super::redaction::redacted(redactor@, socket_path@)
                },
                (Self::DaemonStopping { reason }, Self::DaemonStopping { reason: kept_reason }) => {
                    &&& kept_reason@ == super::redaction::redacted(redactor@, reason@)
                },
                (Self::DeviceDiscovered { device, sysfs_path }, Self::DeviceDiscovered { device: kept_device, sysfs_path: kept_sysfs_path }) => {
                    &&& kept_device == device
                    &&& kept_sysfs_path@ == super::redaction::redacted(redactor@, sysfs_path@)
                },
                (Self::DeviceRejected { device, reason }, Self::DeviceRejected { device: kept_device, reason: kept_reason }) => {
                    &&& kept_device == device
                    &&& kept_reason@ == super::redaction::redacted(redactor@, reason@)
                },
                (Self::CapabilityResolved { device, capability, state }, Self::CapabilityResolved { device: kept_device, capability: kept_capability, state: kept_state }) => {
                    &&& kept_device == device
                    &&& kept_capability == capability
                    &&& kept_state@ == super::redaction::redacted(redactor@, state@)
                },
                (Self::OwnershipAcquired { device, lock_path }, Self::OwnershipAcquired { device: kept_device, lock_path: kept_lock_path }) => {
                    &&& kept_device == device
                    &&& kept_lock_path@ == super::redaction::redacted(redactor@, lock_path@)
                },
                (Self::OwnershipConflict { device, resource, detail }, Self::OwnershipConflict { device: kept_device, resource: kept_resource, detail: kept_detail }) => {
                    &&& kept_device.tree() == super::redaction::swept(redactor@, device.tree())
                    &&& kept_resource@ == super::redaction::redacted(redactor@, resource@)
                    &&& kept_detail@ == super::redaction::redacted(redactor@, detail@)
                },
                (Self::AccessModeChanged { read_only, reason }, Self::AccessModeChanged { read_only: kept_read_only, reason: kept_reason }) => {
                    &&& kept_read_only == read_only
                    &&& kept_reason@ == super::redaction::redacted(redactor@, reason@)
                },
                (Self::ClientAccepted { uid, pid }, Self::ClientAccepted { uid: kept_uid, pid: kept_pid }) => {
                    &&& kept_uid == uid
                    &&& kept_pid == pid
                },
                (Self::ClientRejected { reason }, Self::ClientRejected { reason: kept_reason }) => {
                    &&& kept_reason@ == super::redaction::redacted(redactor@, reason@)
                },
                (Self::ClientDisconnected { detail }, Self::ClientDisconnected { detail: kept_detail }) => {
                    &&& kept_detail@ == super::redaction::redacted(redactor@, detail@)
                },
                (Self::RequestRejected { error }, Self::RequestRejected { error: kept_error }) => {
                    &&& kept_error.tree() == super::redaction::swept(redactor@, error.tree())
                },
                (Self::ProfileActivated { name, hardware }, Self::ProfileActivated { name: kept_name, hardware: kept_hardware }) => {
                    &&& kept_name@ == super::redaction::redacted(redactor@, name@)
                    &&& kept_hardware.tree() == super::redaction::swept(redactor@, hardware.tree())
                },
                (Self::ProfileSaved { name }, Self::ProfileSaved { name: kept_name }) => {
                    &&& kept_name@ == super::redaction::redacted(redactor@, name@)
                },
                (Self::ProfileDeleted { name }, Self::ProfileDeleted { name: kept_name }) => {
                    &&& kept_name@ == super::redaction::redacted(redactor@, name@)
                },
                (Self::ConfigLoaded { path }, Self::ConfigLoaded { path: kept_path }) => {
                    &&& kept_path@ == super::redaction::redacted(redactor@, path@)
                },
                (Self::ConfigRecovered { detail, preserved_path }, Self::ConfigRecovered { detail: kept_detail, preserved_path: kept_preserved_path }) => {
                    &&& kept_detail@ == super::redaction::redacted(redactor@, detail@)
                    &&& kept_preserved_path@ == super::redaction::redacted(redactor@, preserved_path@)
                },
                (Self::ProgramApplied { hardware, writes }, Self::ProgramApplied { hardware: kept_hardware, writes: kept_writes }) => {
                    &&& kept_hardware.tree() == super::redaction::swept(redactor@, hardware.tree())
                    &&& kept_writes == writes
                },
                (Self::LightingApplied { channel, program, hardware, writes }, Self::LightingApplied { channel: kept_channel, program: kept_program, hardware: kept_hardware, writes: kept_writes }) => {
                    &&& kept_channel == channel
                    &&& kept_program@ == super::redaction::redacted(redactor@, program@)
                    &&& kept_hardware.tree() == super::redaction::swept(redactor@, hardware.tree())
                    &&& kept_writes == writes
                },
                (Self::DisplayApplied { mode, hardware, frames }, Self::DisplayApplied { mode: kept_mode, hardware: kept_hardware, frames: kept_frames }) => {
                    &&& kept_mode@ == super::redaction::redacted(redactor@, mode@)
                    &&& kept_hardware.tree() == super::redaction::swept(redactor@, hardware.tree())
                    &&& kept_frames == frames
                },
                (Self::CurveDiverged { channel, liquid_temperature_mc, expected, reported }, Self::CurveDiverged { channel: kept_channel, liquid_temperature_mc: kept_liquid_temperature_mc, expected: kept_expected, reported: kept_reported }) => {
                    &&& kept_channel == channel
                    &&& kept_liquid_temperature_mc == liquid_temperature_mc
                    &&& kept_expected == expected
                    &&& kept_reported == reported
                },
                (Self::SessionNotRecorded { detail }, Self::SessionNotRecorded { detail: kept_detail }) => {
                    &&& kept_detail@ == super::redaction::redacted(redactor@, detail@)
                },
                (Self::CollectorFailed { collector, detail }, Self::CollectorFailed { collector: kept_collector, detail: kept_detail }) => {
                    &&& kept_collector == collector
                    &&& kept_detail@ == super::redaction::redacted(redactor@, detail@)
                },
                (Self::CollectorRecovered { collector }, Self::CollectorRecovered { collector: kept_collector }) => {
                    &&& kept_collector == collector
                },
                _ => false,
            },
    {
        let ghost before = self.tree().parts();
        match self {
            Self::DaemonStarted { version, socket_path } => {
                assert(before[0] == Tree::Name("daemon_started"@));
                assert(before[1] == version.tree());
                assert(before[2] == socket_path.tree());
                if !redactor.keeps("daemon_started") {
                    return None;
                }
                let version = version.sweep(redactor)?;
                let socket_path = socket_path.sweep(redactor)?;
                let result = Self::DaemonStarted { version, socket_path };
                proof {
                    super::redaction::lemma_swept_list(redactor@, before, result.tree().parts());
                }
                Some(result)
            },
            Self::DaemonStopping { reason } => {
                assert(before[0] == Tree::Name("daemon_stopping"@));
                assert(before[1] == reason.tree());
                if !redactor.keeps("daemon_stopping") {
                    return None;
                }
                let reason = reason.sweep(redactor)?;
                let result = Self::DaemonStopping { reason };
                proof {
                    super::redaction::lemma_swept_list(redactor@, before, result.tree().parts());
                }
                Some(result)
            },
            Self::DeviceDiscovered { device, sysfs_path } => {
                assert(before[0] == Tree::Name("device_discovered"@));
                assert(before[1] == device.tree());
                assert(before[2] == sysfs_path.tree());
                if !redactor.keeps("device_discovered") {
                    return None;
                }
                let device = device.sweep(redactor)?;
                let sysfs_path = sysfs_path.sweep(redactor)?;
                let result = Self::DeviceDiscovered { device, sysfs_path };
                proof {
                    super::redaction::lemma_swept_list(redactor@, before, result.tree().parts());
                }
                Some(result)
            },
            Self::DeviceRejected { device, reason } => {
                assert(before[0] == Tree::Name("device_rejected"@));
                assert(before[1] == device.tree());
                assert(before[2] == reason.tree());
                if !redactor.keeps("device_rejected") {
                    return None;
                }
                let device = device.sweep(redactor)?;
                let reason = reason.sweep(redactor)?;
                let result = Self::DeviceRejected { device, reason };
                proof {
                    super::redaction::lemma_swept_list(redactor@, before, result.tree().parts());
                }
                Some(result)
            },
            Self::CapabilityResolved { device, capability, state } => {
                assert(before[0] == Tree::Name("capability_resolved"@));
                assert(before[1] == device.tree());
                assert(before[2] == capability.tree());
                assert(before[3] == state.tree());
                if !redactor.keeps("capability_resolved") {
                    return None;
                }
                let device = device.sweep(redactor)?;
                let capability = capability.sweep(redactor)?;
                let state = state.sweep(redactor)?;
                let result = Self::CapabilityResolved { device, capability, state };
                proof {
                    super::redaction::lemma_swept_list(redactor@, before, result.tree().parts());
                }
                Some(result)
            },
            Self::OwnershipAcquired { device, lock_path } => {
                assert(before[0] == Tree::Name("ownership_acquired"@));
                assert(before[1] == device.tree());
                assert(before[2] == lock_path.tree());
                if !redactor.keeps("ownership_acquired") {
                    return None;
                }
                let device = device.sweep(redactor)?;
                let lock_path = lock_path.sweep(redactor)?;
                let result = Self::OwnershipAcquired { device, lock_path };
                proof {
                    super::redaction::lemma_swept_list(redactor@, before, result.tree().parts());
                }
                Some(result)
            },
            Self::OwnershipConflict { device, resource, detail } => {
                assert(before[0] == Tree::Name("ownership_conflict"@));
                assert(before[1] == device.tree());
                assert(before[2] == resource.tree());
                assert(before[3] == detail.tree());
                if !redactor.keeps("ownership_conflict") {
                    return None;
                }
                let device = device.sweep(redactor)?;
                let resource = resource.sweep(redactor)?;
                let detail = detail.sweep(redactor)?;
                let result = Self::OwnershipConflict { device, resource, detail };
                proof {
                    super::redaction::lemma_swept_list(redactor@, before, result.tree().parts());
                }
                Some(result)
            },
            Self::AccessModeChanged { read_only, reason } => {
                assert(before[0] == Tree::Name("access_mode_changed"@));
                assert(before[1] == Tree::Flag(*read_only));
                assert(super::redaction::names_kept(redactor@, before[1]));
                assert(before[2] == reason.tree());
                if !redactor.keeps("access_mode_changed") {
                    return None;
                }
                let reason = reason.sweep(redactor)?;
                let result = Self::AccessModeChanged { read_only: *read_only, reason };
                proof {
                    super::redaction::lemma_swept_list(redactor@, before, result.tree().parts());
                }
                Some(result)
            },
            Self::ClientAccepted { uid, pid } => {
                assert(before[0] == Tree::Name("client_accepted"@));
                assert(before[1] == Tree::Number(*uid as int));
                assert(super::redaction::names_kept(redactor@, before[1]));
                assert(before[2] == Tree::Number(*pid as int));
                assert(super::redaction::names_kept(redactor@, before[2]));
                if !redactor.keeps("client_accepted") {
                    return None;
                }
                let result = Self::ClientAccepted { uid: *uid, pid: *pid };
                proof {
                    super::redaction::lemma_swept_list(redactor@, before, result.tree().parts());
                }
                Some(result)
            },
            Self::ClientRejected { reason } => {
                assert(before[0] == Tree::Name("client_rejected"@));
                assert(before[1] == reason.tree());
                if !redactor.keeps("client_rejected") {
                    return None;
                }
                let reason = reason.sweep(redactor)?;
                let result = Self::ClientRejected { reason };
                proof {
                    super::redaction::lemma_swept_list(redactor@, before, result.tree().parts());
                }
                Some(result)
            },
            Self::ClientDisconnected { detail } => {
                assert(before[0] == Tree::Name("client_disconnected"@));
                assert(before[1] == detail.tree());
                if !redactor.keeps("client_disconnected") {
                    return None;
                }
                let detail = detail.sweep(redactor)?;
                let result = Self::ClientDisconnected { detail };
                proof {
                    super::redaction::lemma_swept_list(redactor@, before, result.tree().parts());
                }
                Some(result)
            },
            Self::RequestRejected { error } => {
                assert(before[0] == Tree::Name("request_rejected"@));
                assert(before[1] == error.tree());
                if !redactor.keeps("request_rejected") {
                    return None;
                }
                let error = error.sweep(redactor)?;
                let result = Self::RequestRejected { error };
                proof {
                    super::redaction::lemma_swept_list(redactor@, before, result.tree().parts());
                }
                Some(result)
            },
            Self::ProfileActivated { name, hardware } => {
                assert(before[0] == Tree::Name("profile_activated"@));
                assert(before[1] == name.tree());
                assert(before[2] == hardware.tree());
                if !redactor.keeps("profile_activated") {
                    return None;
                }
                let name = name.sweep(redactor)?;
                let hardware = hardware.sweep(redactor)?;
                let result = Self::ProfileActivated { name, hardware };
                proof {
                    super::redaction::lemma_swept_list(redactor@, before, result.tree().parts());
                }
                Some(result)
            },
            Self::ProfileSaved { name } => {
                assert(before[0] == Tree::Name("profile_saved"@));
                assert(before[1] == name.tree());
                if !redactor.keeps("profile_saved") {
                    return None;
                }
                let name = name.sweep(redactor)?;
                let result = Self::ProfileSaved { name };
                proof {
                    super::redaction::lemma_swept_list(redactor@, before, result.tree().parts());
                }
                Some(result)
            },
            Self::ProfileDeleted { name } => {
                assert(before[0] == Tree::Name("profile_deleted"@));
                assert(before[1] == name.tree());
                if !redactor.keeps("profile_deleted") {
                    return None;
                }
                let name = name.sweep(redactor)?;
                let result = Self::ProfileDeleted { name };
                proof {
                    super::redaction::lemma_swept_list(redactor@, before, result.tree().parts());
                }
                Some(result)
            },
            Self::ConfigLoaded { path } => {
                assert(before[0] == Tree::Name("config_loaded"@));
                assert(before[1] == path.tree());
                if !redactor.keeps("config_loaded") {
                    return None;
                }
                let path = path.sweep(redactor)?;
                let result = Self::ConfigLoaded { path };
                proof {
                    super::redaction::lemma_swept_list(redactor@, before, result.tree().parts());
                }
                Some(result)
            },
            Self::ConfigRecovered { detail, preserved_path } => {
                assert(before[0] == Tree::Name("config_recovered"@));
                assert(before[1] == detail.tree());
                assert(before[2] == preserved_path.tree());
                if !redactor.keeps("config_recovered") {
                    return None;
                }
                let detail = detail.sweep(redactor)?;
                let preserved_path = preserved_path.sweep(redactor)?;
                let result = Self::ConfigRecovered { detail, preserved_path };
                proof {
                    super::redaction::lemma_swept_list(redactor@, before, result.tree().parts());
                }
                Some(result)
            },
            Self::ProgramApplied { hardware, writes } => {
                assert(before[0] == Tree::Name("program_applied"@));
                assert(before[1] == hardware.tree());
                assert(before[2] == Tree::Number(*writes as int));
                assert(super::redaction::names_kept(redactor@, before[2]));
                if !redactor.keeps("program_applied") {
                    return None;
                }
                let hardware = hardware.sweep(redactor)?;
                let result = Self::ProgramApplied { hardware, writes: *writes };
                proof {
                    super::redaction::lemma_swept_list(redactor@, before, result.tree().parts());
                }
                Some(result)
            },
            Self::LightingApplied { channel, program, hardware, writes } => {
                assert(before[0] == Tree::Name("lighting_applied"@));
                assert(before[1] == Tree::Number(*channel as int));
                assert(super::redaction::names_kept(redactor@, before[1]));
                assert(before[2] == program.tree());
                assert(before[3] == hardware.tree());
                assert(before[4] == Tree::Number(*writes as int));
                assert(super::redaction::names_kept(redactor@, before[4]));
                if !redactor.keeps("lighting_applied") {
                    return None;
                }
                let program = program.sweep(redactor)?;
                let hardware = hardware.sweep(redactor)?;
                let result = Self::LightingApplied { channel: *channel, program, hardware, writes: *writes };
                proof {
                    super::redaction::lemma_swept_list(redactor@, before, result.tree().parts());
                }
                Some(result)
            },
            Self::DisplayApplied { mode, hardware, frames } => {
                assert(before[0] == Tree::Name("display_applied"@));
                assert(before[1] == mode.tree());
                assert(before[2] == hardware.tree());
                assert(before[3] == Tree::Number(*frames as int));
                assert(super::redaction::names_kept(redactor@, before[3]));
                if !redactor.keeps("display_applied") {
                    return None;
                }
                let mode = mode.sweep(redactor)?;
                let hardware = hardware.sweep(redactor)?;
                let result = Self::DisplayApplied { mode, hardware, frames: *frames };
                proof {
                    super::redaction::lemma_swept_list(redactor@, before, result.tree().parts());
                }
                Some(result)
            },
            Self::CurveDiverged { channel, liquid_temperature_mc, expected, reported } => {
                assert(before[0] == Tree::Name("curve_diverged"@));
                assert(before[1] == channel.tree());
                assert(before[2] == Tree::Number(*liquid_temperature_mc as int));
                assert(super::redaction::names_kept(redactor@, before[2]));
                assert(before[3] == Tree::Number(*expected as int));
                assert(super::redaction::names_kept(redactor@, before[3]));
                assert(before[4] == Tree::Number(*reported as int));
                assert(super::redaction::names_kept(redactor@, before[4]));
                if !redactor.keeps("curve_diverged") {
                    return None;
                }
                let channel = channel.sweep(redactor)?;
                let result = Self::CurveDiverged { channel, liquid_temperature_mc: *liquid_temperature_mc, expected: *expected, reported: *reported };
                proof {
                    super::redaction::lemma_swept_list(redactor@, before, result.tree().parts());
                }
                Some(result)
            },
            Self::SessionNotRecorded { detail } => {
                assert(before[0] == Tree::Name("session_not_recorded"@));
                assert(before[1] == detail.tree());
                if !redactor.keeps("session_not_recorded") {
                    return None;
                }
                let detail = detail.sweep(redactor)?;
                let result = Self::SessionNotRecorded { detail };
                proof {
                    super::redaction::lemma_swept_list(redactor@, before, result.tree().parts());
                }
                Some(result)
            },
            Self::CollectorFailed { collector, detail } => {
                assert(before[0] == Tree::Name("collector_failed"@));
                assert(before[1] == collector.tree());
                assert(before[2] == detail.tree());
                if !redactor.keeps("collector_failed") {
                    return None;
                }
                let collector = collector.sweep(redactor)?;
                let detail = detail.sweep(redactor)?;
                let result = Self::CollectorFailed { collector, detail };
                proof {
                    super::redaction::lemma_swept_list(redactor@, before, result.tree().parts());
                }
                Some(result)
            },
            Self::CollectorRecovered { collector } => {
                assert(before[0] == Tree::Name("collector_recovered"@));
                assert(before[1] == collector.tree());
                if !redactor.keeps("collector_recovered") {
                    return None;
                }
                let collector = collector.sweep(redactor)?;
                let result = Self::CollectorRecovered { collector };
                proof {
                    super::redaction::lemma_swept_list(redactor@, before, result.tree().parts());
                }
                Some(result)
            },
        }
    }
}

impl Sweep for DiagnosticEvent {
    open spec fn tree(&self) -> Tree {
        Tree::List(
            seq![
                Tree::Number(self.at_unix_ms as int),
                self.severity.tree(),
                self.kind.tree(),
            ],
        )
    }

    fn sweep(&self, redactor: &Redactor) -> (result: Option<Self>)
        ensures
            result matches Some(kept) ==> {
                &&& kept.at_unix_ms == self.at_unix_ms
                &&& kept.severity == self.severity
                &&& kept.kind.tree() == super::redaction::swept(redactor@, self.kind.tree())
            },
    {
        let ghost before = self.tree().parts();
        assert(before.len() == 3);
        assert(before[0] == Tree::Number(self.at_unix_ms as int));
        assert(super::redaction::names_kept(redactor@, before[0]));
        assert(before[1] == self.severity.tree());
        assert(before[2] == self.kind.tree());
        let severity = self.severity.sweep(redactor)?;
        let kind = self.kind.sweep(redactor)?;
        let result = Self {
            at_unix_ms: self.at_unix_ms,
            severity,
            kind,
        };
        proof {
            super::redaction::lemma_swept_list(redactor@, before, result.tree().parts());
        }
        Some(result)
    }
}

impl Sweep for DiagnosticsExport {
    open spec fn tree(&self) -> Tree {
        Tree::List(
            seq![
                Tree::Number(self.schema_version as int),
                Tree::Number(self.generated_at_unix_ms as int),
                self.daemon_version.tree(),
                self.capabilities.tree(),
                self.events.tree(),
            ],
        )
    }

    fn sweep(&self, redactor: &Redactor) -> (result: Option<Self>)
        ensures
            result matches Some(kept) ==> {
                &&& kept.schema_version == self.schema_version
                &&& kept.generated_at_unix_ms == self.generated_at_unix_ms
                &&& kept.daemon_version@ == super::redaction::redacted(redactor@, self.daemon_version@)
                &&& kept.capabilities.tree() == super::redaction::swept(redactor@, self.capabilities.tree())
                &&& kept.events.tree() == super::redaction::swept(redactor@, self.events.tree())
            },
    {
        let ghost before = self.tree().parts();
        assert(before.len() == 5);
        assert(before[0] == Tree::Number(self.schema_version as int));
        assert(super::redaction::names_kept(redactor@, before[0]));
        assert(before[1] == Tree::Number(self.generated_at_unix_ms as int));
        assert(super::redaction::names_kept(redactor@, before[1]));
        assert(before[2] == self.daemon_version.tree());
        assert(before[3] == self.capabilities.tree());
        assert(before[4] == self.events.tree());
        let daemon_version = self.daemon_version.sweep(redactor)?;
        let capabilities = self.capabilities.sweep(redactor)?;
        let events = self.events.sweep(redactor)?;
        let result = Self {
            schema_version: self.schema_version,
            generated_at_unix_ms: self.generated_at_unix_ms,
            daemon_version,
            capabilities,
            events,
        };
        proof {
            super::redaction::lemma_swept_list(redactor@, before, result.tree().parts());
        }
        Some(result)
    }
}

} // verus!
