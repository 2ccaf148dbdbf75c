//! Evidence-backed description of what an allowlisted device actually exposes.
//!
//! Every field is either observed on the running machine or explicitly
//! [`Evidenced::Unknown`]. No default is fabricated to fill a gap.

use vstd::prelude::*;

use crate::DeviceId;

verus! {

/// Bumped whenever the shape of [`CapabilityRecord`] changes.
pub const CAPABILITY_SCHEMA_VERSION: u32 = 3;

/// A value that is either observed with its evidence, or explicitly unknown.
#[derive(Debug, Clone, PartialEq, Eq)]
pub enum Evidenced<T> {
    /// The value was read from `source`.
    Known { value: T, source: String },
    /// The value could not be established, and `reason` says what was tried.
    Unknown { reason: String, source: String },
}

impl<T> Evidenced<T> {
    /// Whether this is an unknown value with this reason and this source.
    pub open spec fn is_unknown_for(self, reason: Seq<char>, source: Seq<char>) -> bool {
        self matches Self::Unknown { reason: held, source: from } && held@ == reason && from@
            == source
    }

    pub fn known(value: T, source: &str) -> (evidenced: Self)
        ensures
            evidenced matches Self::Known { value: held, source: from } && held == value && from@
                == source@,
    {
        Self::Known { value, source: source.to_owned() }
    }

    pub fn unknown(reason: &str, source: &str) -> (evidenced: Self)
        ensures
            evidenced.is_unknown_for(reason@, source@),
            evidenced matches Self::Unknown { reason: held, source: from } && held@ == reason@
                && from@ == source@,
    {
        Self::Unknown { reason: reason.to_owned(), source: source.to_owned() }
    }

    pub fn value(&self) -> (value: Option<&T>)
        ensures
            value == match *self {
                Self::Known { value, .. } => Some(&value),
                Self::Unknown { .. } => None,
            },
    {
        match self {
            Self::Known { value, .. } => Some(value),
            Self::Unknown { .. } => None,
        }
    }

    pub fn is_known(&self) -> (known: bool)
        ensures
            known == (*self is Known),
    {
        matches!(self, Self::Known { .. })
    }

    /// Why the value is missing, for a control that has to say so.
    pub fn reason(&self) -> (reason: Option<&str>)
        ensures
            reason is Some <==> *self is Unknown,
            reason matches Some(reason) ==> reason@ == self->Unknown_reason@,
    {
        match self {
            Self::Known { .. } => None,
            Self::Unknown { reason, .. } => Some(reason.as_str()),
        }
    }
}

/// A capability a control depends on, under a stable identifier.
#[derive(Debug, Clone, Copy, PartialEq, Eq, PartialOrd, Ord, Hash, Structural)]
pub enum CapabilityId {
    /// Coolant temperature in millidegrees Celsius.
    LiquidTemperature,
    /// Pump tachometer in RPM.
    PumpSpeed,
    /// Fan tachometer in RPM.
    FanSpeed,
    /// Fixed pump duty, 0-255 PWM.
    PumpDuty,
    /// Fixed fan duty, 0-255 PWM.
    FanDuty,
    /// Onboard pump curve over the driver's temperature points.
    PumpCurve,
    /// Onboard fan curve over the driver's temperature points.
    FanCurve,
    /// Per-channel fixed RGB color.
    RgbFixedColor,
    /// Animated RGB effects.
    RgbEffects,
    /// LCD framebuffer transfer.
    LcdFrame,
    /// LCD orientation and brightness commands.
    LcdDisplayControl,
}

impl CapabilityId {
    /// Human-readable label used by diagnostics and the client.
    pub open spec fn label_text(self) -> Seq<char> {
        match self {
            Self::LiquidTemperature => "Liquid temperature"@,
            Self::PumpSpeed => "Pump speed"@,
            Self::FanSpeed => "Fan speed"@,
            Self::PumpDuty => "Pump duty"@,
            Self::FanDuty => "Fan duty"@,
            Self::PumpCurve => "Pump curve"@,
            Self::FanCurve => "Fan curve"@,
            Self::RgbFixedColor => "RGB fixed color"@,
            Self::RgbEffects => "RGB effects"@,
            Self::LcdFrame => "LCD frame transfer"@,
            Self::LcdDisplayControl => "LCD display control"@,
        }
    }

    /// Human-readable label used by diagnostics and the client.
    pub fn label(self) -> (label: &'static str)
        ensures
            label@ == self.label_text(),
            self is LiquidTemperature ==> label@ == "Liquid temperature"@,
            self is PumpSpeed ==> label@ == "Pump speed"@,
            self is FanSpeed ==> label@ == "Fan speed"@,
            self is PumpDuty ==> label@ == "Pump duty"@,
            self is FanDuty ==> label@ == "Fan duty"@,
            self is PumpCurve ==> label@ == "Pump curve"@,
            self is FanCurve ==> label@ == "Fan curve"@,
            self is RgbFixedColor ==> label@ == "RGB fixed color"@,
            self is RgbEffects ==> label@ == "RGB effects"@,
            self is LcdFrame ==> label@ == "LCD frame transfer"@,
            self is LcdDisplayControl ==> label@ == "LCD display control"@,
    {
        match self {
            Self::LiquidTemperature => "Liquid temperature",
            Self::PumpSpeed => "Pump speed",
            Self::FanSpeed => "Fan speed",
            Self::PumpDuty => "Pump duty",
            Self::FanDuty => "Fan duty",
            Self::PumpCurve => "Pump curve",
            Self::FanCurve => "Fan curve",
            Self::RgbFixedColor => "RGB fixed color",
            Self::RgbEffects => "RGB effects",
            Self::LcdFrame => "LCD frame transfer",
            Self::LcdDisplayControl => "LCD display control",
        }
    }
}

/// How far a capability may be exercised right now.
#[derive(Debug, Clone, PartialEq, Eq)]
pub enum CapabilityState {
    /// Readable, and writable only when `writable` is true.
    Available {
        writable: bool,
        /// Filesystem path or interface the capability resolves to.
        source: String,
    },
    /// The device exposes it, but the protocol is not validated yet. `reason`
    /// is shown verbatim on the control.
    Unvalidated { reason: String },
    /// The device does not expose it on this firmware or kernel binding.
    Unavailable { reason: String },
}

impl CapabilityState {
    pub open spec fn writable(self) -> bool {
        self matches Self::Available { writable: true, .. }
    }

    /// What a control says about a capability it may not write.
    pub open spec fn blocked_text(self) -> Seq<char> {
        match self {
            Self::Available { source, .. } => "Read-only: no write permission on "@ + source@ + "."@,
            Self::Unvalidated { reason } => reason@,
            Self::Unavailable { reason } => reason@,
        }
    }

    /// True only for a capability that may be written today.
    pub fn is_writable(&self) -> (writable: bool)
        ensures
            writable == self.writable(),
            match *self {
                Self::Available { writable: held, .. } => writable == held,
                _ => !writable,
            },
    {
        matches!(self, Self::Available { writable: true, .. })
    }

    pub fn is_readable(&self) -> (readable: bool)
        ensures
            readable == (*self is Available),
    {
        matches!(self, Self::Available { .. })
    }

    /// Short operator-facing explanation of why a control is disabled.
    pub fn blocked_reason(&self) -> (reason: Option<String>)
        ensures
            reason is None <==> self.writable(),
            reason matches Some(reason) ==> reason@ == self.blocked_text(),
            match *self {
                Self::Available { writable, .. } => reason is None <==> writable,
                Self::Unvalidated { reason: held } => reason matches Some(words) && words@ == held@,
                Self::Unavailable { reason: held } => reason matches Some(words) && words@ == held@,
            },
    {
        match self {
            Self::Available { writable: true, .. } => None,
            Self::Available { writable: false, source } => {
                let mut reason: String = "Read-only: no write permission on ".to_owned();
                reason.append(source.as_str());
                reason.append(".");
                Some(reason)
            },
            Self::Unvalidated { reason } => Some(reason.clone()),
            Self::Unavailable { reason } => Some(reason.clone()),
        }
    }
}

/// One capability with its resolved state.
#[derive(Debug, Clone, PartialEq, Eq)]
pub struct Capability {
    pub id: CapabilityId,
    pub state: CapabilityState,
}

/// A USB interface of a probed device, with the driver the kernel bound to it.
#[derive(Debug, Clone, PartialEq, Eq)]
pub struct UsbInterface {
    /// `bInterfaceNumber`.
    pub number: u8,
    pub class: u8,
    pub subclass: u8,
    pub protocol: u8,
    /// Kernel driver bound to the interface, when any.
    pub driver: Evidenced<String>,
    /// Endpoints the interface publishes, in address order.
    pub endpoints: Vec<UsbEndpoint>,
}

/// One endpoint of a USB interface, in the kernel's own decoded strings.
#[derive(Debug, Clone, PartialEq, Eq)]
pub struct UsbEndpoint {
    /// `bEndpointAddress`.
    pub address: u8,
    /// `in` or `out`, verbatim from sysfs.
    pub direction: String,
    /// `Interrupt`, `Bulk`, `Control` or `Isoc`, verbatim from sysfs.
    pub transfer: String,
    pub max_packet_size: u16,
    /// `bInterval`, in frames or microframes depending on the bus speed.
    pub interval: u8,
}

/// Stable identity of a probed USB device.
#[derive(Debug, Clone, PartialEq, Eq)]
pub struct UsbIdentity {
    pub id: DeviceId,
    pub manufacturer: Evidenced<String>,
    pub product: Evidenced<String>,
    /// USB serial number. Redacted before any diagnostics export.
    pub serial: Evidenced<String>,
    /// `bcdDevice`, the closest thing to a firmware revision USB exposes.
    pub firmware: Evidenced<String>,
    /// sysfs path the record was built from.
    pub sysfs_path: String,
}

/// One `hwmon` attribute the probe resolved.
#[derive(Debug, Clone, PartialEq, Eq)]
pub struct HwmonAttribute {
    /// Attribute file name, for example `temp1_input`.
    pub name: String,
    pub path: String,
    pub readable: bool,
    pub writable: bool,
    /// Label exposed by the driver, when it publishes one.
    pub label: Evidenced<String>,
}

/// The `hwmon` surface of a device bound to a kernel driver.
#[derive(Debug, Clone, PartialEq, Eq)]
pub struct HwmonCapabilities {
    /// Driver name, for example `kraken2023`.
    pub driver: String,
    pub path: String,
    pub attributes: Vec<HwmonAttribute>,
    /// Number of `tempN_auto_pointM_pwm` files found per channel.
    pub curve_points: Vec<CurveChannel>,
}

impl HwmonCapabilities {
    /// The first attribute of this name.
    pub fn attribute(&self, name: &str) -> (found: Option<&HwmonAttribute>)
        ensures
            found == match crate::lists::first_where(
                self.attributes@,
                |attribute: HwmonAttribute| attribute.name@ == name@,
            ) {
                Some(attribute) => Some(&attribute),
                None => None,
            },
    {
        let ghost wanted = |attribute: HwmonAttribute| attribute.name@ == name@;
        let mut index: usize = 0;
        while index < self.attributes.len()
            invariant
                index <= self.attributes@.len(),
                wanted == (|attribute: HwmonAttribute| attribute.name@ == name@),
                crate::lists::first_from(self.attributes@, wanted, index as int)
                    == crate::lists::first_where(self.attributes@, wanted),
            decreases self.attributes@.len() - index,
        {
            if crate::text::same(self.attributes[index].name.as_str(), name) {
                return Some(&self.attributes[index]);
            }
            index = index + 1;
        }
        None
    }
}

/// The onboard curve surface of one PWM channel.
#[derive(Debug, Clone, PartialEq, Eq)]
pub struct CurveChannel {
    /// `1` for `temp1_auto_point*`.
    pub temp_index: u8,
    pub point_count: u16,
    pub writable: bool,
}

/// What the RGB controller answered about itself, field by field.
#[derive(Debug, Clone, PartialEq, Eq)]
pub struct RgbTopology {
    /// `hidraw` node the transport would use.
    pub node: Evidenced<String>,
    /// Firmware the controller reports, which is not the USB `bcdDevice`.
    pub firmware: Evidenced<String>,
    /// Channels the controller reports, in index order.
    pub channels: Evidenced<Vec<RgbChannel>>,
}

impl RgbTopology {
    /// A topology nothing could be read from, with the reason on every field.
    pub fn unavailable(reason: &str, source: &str) -> (topology: Self)
        ensures
            topology.node.is_unknown_for(reason@, source@),
            topology.firmware.is_unknown_for(reason@, source@),
            topology.channels.is_unknown_for(reason@, source@),
    {
        Self {
            node: Evidenced::unknown(reason, source),
            firmware: Evidenced::unknown(reason, source),
            channels: Evidenced::unknown(reason, source),
        }
    }

    /// Number of channels the controller reported, as a byte, or `None` when
    /// unknown.
    pub fn channel_count(&self) -> (count: Option<u8>)
        ensures
            count == match self.channels {
                Evidenced::Known { value, .. } => Some((value@.len() % 256) as u8),
                Evidenced::Unknown { .. } => None,
            },
    {
        match &self.channels {
            Evidenced::Known { value, .. } => Some((value.len() % 256) as u8),
            Evidenced::Unknown { .. } => None,
        }
    }
}

/// One addressable lighting channel and what is plugged into it.
#[derive(Debug, Clone, PartialEq, Eq)]
pub struct RgbChannel {
    /// One-based index, matching the label printed on the controller.
    pub index: u8,
    /// Accessories the controller detected on this channel.
    pub accessories: Vec<RgbAccessory>,
    /// LEDs on the channel, unknown on every accessory whose LED count has not
    /// been counted on real hardware.
    pub led_count: Evidenced<u16>,
}

/// One accessory the controller detected on a channel.
#[derive(Debug, Clone, PartialEq, Eq)]
pub struct RgbAccessory {
    /// Identifier byte the controller returned.
    pub id: u8,
    /// Name for that identifier, or an explicit unknown marker.
    pub name: String,
}

/// What the Kraken answered about its panel, and what this product asserts.
///
/// `firmware` and `display` come from the device. `panel` is a candidate
/// carried by this product for this exact product id, and its `source` says so.
#[derive(Debug, Clone, PartialEq, Eq)]
pub struct LcdTopology {
    /// `hidraw` node the display commands travel over.
    pub hid_node: Evidenced<String>,
    /// `usbfs` node the framebuffer's bulk endpoint is reached through.
    pub bulk_node: Evidenced<String>,
    /// Firmware the Kraken reports, which is not the USB `bcdDevice`.
    pub firmware: Evidenced<String>,
    /// Geometry and pixel format a frame must be laid out in.
    pub panel: Evidenced<LcdPanel>,
    /// Brightness and orientation the panel reports it is currently using.
    pub display: Evidenced<LcdDisplaySettings>,
}

impl LcdTopology {
    /// A topology nothing could be read from, with the reason on every field.
    pub fn unavailable(reason: &str, source: &str) -> (topology: Self)
        ensures
            topology.hid_node.is_unknown_for(reason@, source@),
            topology.bulk_node.is_unknown_for(reason@, source@),
            topology.firmware.is_unknown_for(reason@, source@),
            topology.panel.is_unknown_for(reason@, source@),
            topology.display.is_unknown_for(reason@, source@),
    {
        Self {
            hid_node: Evidenced::unknown(reason, source),
            bulk_node: Evidenced::unknown(reason, source),
            firmware: Evidenced::unknown(reason, source),
            panel: Evidenced::unknown(reason, source),
            display: Evidenced::unknown(reason, source),
        }
    }

    /// True when the panel answered the report only a panel can answer.
    pub fn answered(&self) -> (answered: bool)
        ensures
            answered == (self.display is Known),
    {
        self.display.is_known()
    }
}

/// The shape of the physical panel behind the framebuffer.
#[derive(Debug, Clone, Copy, PartialEq, Eq, Structural)]
pub enum LcdPanelShape {
    Circular,
    Square,
}

/// Geometry and pixel format one frame must match exactly.
#[derive(Debug, Clone, PartialEq, Eq)]
pub struct LcdPanel {
    pub width: u16,
    pub height: u16,
    pub shape: LcdPanelShape,
    /// Human-readable pixel format, for example `RGB565 big-endian`.
    pub pixel_format: String,
    /// Exact payload size of one frame, in bytes.
    pub frame_bytes: u32,
    /// Bulk endpoint address the framebuffer is written to.
    pub bulk_endpoint: u8,
    /// USB interface that endpoint belongs to.
    pub bulk_interface: u8,
}

/// What the panel says it is currently set to.
#[derive(Debug, Clone, Copy, PartialEq, Eq, Structural)]
pub struct LcdDisplaySettings {
    pub brightness_percent: u8,
    /// Orientation as the device counts it: `0` through `3`, each a quarter turn.
    pub quarter_turns: u8,
}

/// Whether the product is allowed to talk to a discovered device at all.
#[derive(Debug, Clone, PartialEq, Eq)]
pub enum SupportState {
    Supported,
    /// Discovered but outside the allowlist. Nothing is opened.
    Unsupported { reason: String },
}

/// Everything the probe established about one device.
#[derive(Debug, Clone, PartialEq, Eq)]
pub struct DeviceRecord {
    pub support: SupportState,
    pub usb: UsbIdentity,
    pub interfaces: Vec<UsbInterface>,
    pub hwmon: Option<HwmonCapabilities>,
    /// Present only on the RGB controller, and only once its probe has run.
    pub rgb: Option<RgbTopology>,
    /// Present only on the Kraken, and only once its LCD probe has run.
    pub lcd: Option<LcdTopology>,
    pub capabilities: Vec<Capability>,
}

impl DeviceRecord {
    /// The first entry of the record for this capability.
    pub open spec fn entry(self, id: CapabilityId) -> Option<Capability> {
        crate::lists::first_where(self.capabilities@, |entry: Capability| entry.id == id)
    }

    /// Whether this capability may be written on this device.
    pub open spec fn writes(self, id: CapabilityId) -> bool {
        self.support is Supported && (self.entry(id) matches Some(entry) && entry.state.writable())
    }

    pub fn id(&self) -> (id: DeviceId)
        ensures
            id == self.usb.id,
    {
        self.usb.id
    }

    pub fn is_supported(&self) -> (supported: bool)
        ensures
            supported == (self.support is Supported),
    {
        matches!(self.support, SupportState::Supported)
    }

    pub fn capability(&self, id: CapabilityId) -> (found: Option<&Capability>)
        ensures
            found == match self.entry(id) {
                Some(entry) => Some(&entry),
                None => None,
            },
    {
        let ghost wanted = |entry: Capability| entry.id == id;
        let mut index: usize = 0;
        while index < self.capabilities.len()
            invariant
                index <= self.capabilities@.len(),
                wanted == (|entry: Capability| entry.id == id),
                crate::lists::first_from(self.capabilities@, wanted, index as int)
                    == crate::lists::first_where(self.capabilities@, wanted),
            decreases self.capabilities@.len() - index,
        {
            if self.capabilities[index].id == id {
                return Some(&self.capabilities[index]);
            }
            index = index + 1;
        }
        None
    }

    /// True only when the capability is present, supported and writable.
    pub fn can_write(&self, id: CapabilityId) -> (can: bool)
        ensures
            can == self.writes(id),
            can ==> self.support is Supported && exists|i: int|
                0 <= i < self.capabilities@.len() && (#[trigger] self.capabilities@[i]).id == id
                    && (self.capabilities@[i].state matches CapabilityState::Available {
                    writable: true,
                    ..
                }),
    {
        if !self.is_supported() {
            return false;
        }
        proof {
            if self.writes(id) {
                let at = the_first_entry_decides_what_is_written(*self, id);
                assert(self.capabilities@[at].id == id);
            }
        }
        match self.capability(id) {
            Some(entry) => entry.state.is_writable(),
            None => false,
        }
    }
}

/// Context of the machine the probe ran on.
#[derive(Debug, Clone, PartialEq, Eq)]
pub struct ProbeContext {
    pub kernel_release: Evidenced<String>,
    /// Milliseconds since the Unix epoch.
    pub probed_at_unix_ms: u64,
}

/// A versioned, evidence-backed capability record for the whole machine.
#[derive(Debug, Clone, PartialEq, Eq)]
pub struct CapabilityRecord {
    pub schema_version: u32,
    pub context: ProbeContext,
    /// Allowlisted devices found on the machine.
    pub devices: Vec<DeviceRecord>,
    /// Devices discovered on the bus that the allowlist rejects.
    pub rejected: Vec<RejectedDevice>,
}

/// A device seen during enumeration and deliberately left untouched.
#[derive(Debug, Clone, PartialEq, Eq)]
pub struct RejectedDevice {
    pub id: DeviceId,
    pub sysfs_path: String,
    pub reason: String,
}

/// Whether `after` is `before` with its serial number taken out and nothing
/// else touched.
pub open spec fn serial_redacted(before: DeviceRecord, after: DeviceRecord) -> bool {
    &&& after.usb.serial.is_unknown_for("redacted"@, "policy:redact-serials"@)
    &&& after == (DeviceRecord {
        usb: (UsbIdentity { serial: after.usb.serial, ..before.usb }),
        ..before
    })
}

impl CapabilityRecord {
    /// The first device of this id.
    pub fn device(&self, id: DeviceId) -> (found: Option<&DeviceRecord>)
        ensures
            found == match crate::lists::first_where(
                self.devices@,
                |device: DeviceRecord| device.usb.id == id,
            ) {
                Some(device) => Some(&device),
                None => None,
            },
    {
        let ghost wanted = |device: DeviceRecord| device.usb.id == id;
        let mut index: usize = 0;
        while index < self.devices.len()
            invariant
                index <= self.devices@.len(),
                wanted == (|device: DeviceRecord| device.usb.id == id),
                crate::lists::first_from(self.devices@, wanted, index as int)
                    == crate::lists::first_where(self.devices@, wanted),
            decreases self.devices@.len() - index,
        {
            if self.devices[index].id() == id {
                return Some(&self.devices[index]);
            }
            index = index + 1;
        }
        None
    }

    /// Supported devices only, in probe order.
    pub fn supported(&self) -> (devices: Vec<&DeviceRecord>)
        ensures
            devices@.map_values(|device: &DeviceRecord| *device) == crate::lists::all_where(
                self.devices@,
                |device: DeviceRecord| device.support is Supported,
            ),
    {
        let ghost wanted = |device: DeviceRecord| device.support is Supported;
        let ghost plain = |device: &DeviceRecord| *device;
        let mut devices: Vec<&DeviceRecord> = Vec::new();
        let mut index: usize = 0;
        assert(devices@.map_values(plain) =~= Seq::empty());
        while index < self.devices.len()
            invariant
                index <= self.devices@.len(),
                wanted == (|device: DeviceRecord| device.support is Supported),
                plain == (|device: &DeviceRecord| *device),
                devices@.map_values(plain) == crate::lists::all_where(
                    self.devices@.take(index as int),
                    wanted,
                ),
            decreases self.devices@.len() - index,
        {
            let ghost before = devices@;
            assert(self.devices@.take(index + 1).drop_last() =~= self.devices@.take(index as int));
            if self.devices[index].is_supported() {
                devices.push(&self.devices[index]);
                assert(devices@.map_values(plain) =~= before.map_values(plain).push(
                    self.devices@[index as int],
                ));
            }
            index = index + 1;
        }
        assert(self.devices@.take(index as int) =~= self.devices@);
        devices
    }

    /// Redact every USB serial number in place.
    ///
    /// Applied before a record leaves the daemon for diagnostics export.
    pub fn redact_serials(&mut self)
        ensures
            final(self).schema_version == old(self).schema_version,
            final(self).context == old(self).context,
            final(self).rejected == old(self).rejected,
            final(self).devices@.len() == old(self).devices@.len(),
            forall|i: int|
                0 <= i < old(self).devices@.len() ==> serial_redacted(
                    old(self).devices@[i],
                    #[trigger] final(self).devices@[i],
                ),
    {
        let ghost before = self.devices@;
        let ghost start = *self;
        let mut index: usize = 0;
        while index < self.devices.len()
            invariant
                index <= self.devices@.len(),
                self.devices@.len() == before.len(),
                self.schema_version == start.schema_version,
                self.context == start.context,
                self.rejected == start.rejected,
                forall|i: int|
                    0 <= i < index ==> serial_redacted(before[i], #[trigger] self.devices@[i]),
                forall|i: int| index <= i < before.len() ==> #[trigger] self.devices@[i] == before[i],
            decreases self.devices@.len() - index,
        {
            self.devices[index].usb.serial = Evidenced::unknown("redacted", "policy:redact-serials");
            index = index + 1;
        }
    }
}

/// A capability that is not validated, or not exposed, or exposed read-only, is
/// never written: a write needs a supported device and a writable entry.
pub proof fn only_a_writable_entry_is_written(device: DeviceRecord, id: CapabilityId)
    requires
        device.writes(id),
    ensures
        device.support is Supported,
        device.entry(id) matches Some(entry) && entry.id == id && device.capabilities@.contains(entry)
            && entry.state is Available,
{
    crate::lists::first_where_is_wanted(
        device.capabilities@,
        |entry: Capability| entry.id == id,
    );
}

/// What a control says of a capability it may not write: the reason the device
/// gave, or the place it may only be read from.
pub proof fn a_blocked_capability_says_why(state: CapabilityState)
    ensures
        state.writable() <==> (state matches CapabilityState::Available { writable, .. }
            && writable),
        state matches CapabilityState::Unvalidated { reason } ==> state.blocked_text() == reason@,
        state matches CapabilityState::Unavailable { reason } ==> state.blocked_text() == reason@,
        state matches CapabilityState::Available { source, .. } ==> exists|from: int|
            0 <= from && from + source@.len() <= state.blocked_text().len()
                && #[trigger] state.blocked_text().subrange(from, from + source@.len()) == source@,
{
    if let CapabilityState::Available { source, .. } = state {
        let lead = "Read-only: no write permission on "@;
        let from = lead.len() as int;
        assert(state.blocked_text().subrange(from, from + source@.len()) =~= source@);
    }
}

/// A capability is written exactly when the device is supported and the first
/// entry it has for that capability is available and writable.
pub proof fn the_first_entry_decides_what_is_written(device: DeviceRecord, id: CapabilityId) -> (
at: int)
    ensures
        match device.entry(id) {
            Some(entry) => {
                &&& 0 <= at < device.capabilities@.len()
                &&& device.capabilities@[at] == entry
                &&& entry.id == id
                &&& forall|i: int|
                    0 <= i < at ==> (#[trigger] device.capabilities@[i]).id != id
            },
            None => forall|i: int|
                0 <= i < device.capabilities@.len() ==> (#[trigger] device.capabilities@[i]).id
                    != id,
        },
        device.writes(id) <==> device.support is Supported && (device.entry(id) matches Some(entry)
            && (entry.state matches CapabilityState::Available { writable, .. } && writable)),
{
    let wanted = |entry: Capability| entry.id == id;
    let at = crate::lists::first_where_comes_first(device.capabilities@, wanted);
    assert(forall|i: int|
        0 <= i < device.capabilities@.len() ==> wanted(#[trigger] device.capabilities@[i]) == (
        device.capabilities@[i].id == id));
    at
}

/// Taking a serial number out changes the serial number and nothing else, and
/// leaves none behind.
pub proof fn only_the_serial_number_is_taken_out(before: DeviceRecord, after: DeviceRecord)
    requires
        serial_redacted(before, after),
    ensures
        after.usb.serial is Unknown,
        after.usb.serial->Unknown_reason@ == "redacted"@,
        after.support == before.support,
        after.interfaces == before.interfaces,
        after.hwmon == before.hwmon,
        after.rgb == before.rgb,
        after.lcd == before.lcd,
        after.capabilities == before.capabilities,
        after.usb.id == before.usb.id,
        after.usb.manufacturer == before.usb.manufacturer,
        after.usb.product == before.usb.product,
        after.usb.firmware == before.usb.firmware,
        after.usb.sysfs_path == before.usb.sysfs_path,
{
}

/// What is unknown for a reason holds no value, and carries that reason and
/// where it was looked for.
pub proof fn what_is_unknown_says_why<T>(
    evidenced: Evidenced<T>,
    reason: Seq<char>,
    source: Seq<char>,
)
    ensures
        evidenced.is_unknown_for(reason, source) <==> (evidenced matches Evidenced::Unknown {
            reason: held,
            source: from,
        } && held@ == reason && from@ == source),
{
}

} // verus!
