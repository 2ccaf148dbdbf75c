//! Named cooling profiles and the validation every value passes before it can
//! reach the daemon.
//!
//! Validation lives here, next to the types, so the client can disable Apply
//! for the same reason the daemon would reject the command. The daemon still
//! revalidates: the client is not a trusted input.

use vstd::prelude::*;

pub mod curve;

pub use curve::{CurveNodes, TemperatureCurve, CURVE_NODE_COUNT, CURVE_NODE_STEP_C};

use crate::capability::{CapabilityId, DeviceRecord};
use crate::display::DisplayPreset;
use crate::lighting::LightingCommand;
use crate::text;
use crate::DeviceId;

verus! {

/// Bumped whenever the on-disk configuration shape changes.
pub const CONFIG_SCHEMA_VERSION: u32 = 4;

/// Name of the built-in profile that is always available and always safe.
pub const SAFE_PROFILE_NAME: &'static str = "Onboard safe";

pub const PROFILE_NAME_MIN_LEN: usize = 1;

pub const PROFILE_NAME_MAX_LEN: usize = 48;

/// Lowest duty the product will command on a liquid cooler pump: 20% of 255.
///
/// The kernel accepts 0, which stops the pump. Nothing in this product has a
/// reason to command it.
pub const MIN_PUMP_DUTY: u8 = 51;

/// Lowest duty commanded on a fan channel.
pub const MIN_FAN_DUTY: u8 = 0;

pub const MAX_DUTY: u8 = 255;

/// Highest duty the device actually distinguishes, as a percentage.
///
/// The hwmon ABI takes 0-255, but the driver stores a percentage and converts
/// in both directions, so the device has 101 distinct settings.
pub const MAX_DUTY_PERCENT: u8 = 100;

/// Kernel curve points exposed by `kraken2023`, one per degree Celsius.
pub const CURVE_POINT_COUNT: usize = 40;

/// Temperature of the first curve point, in degrees Celsius.
pub const CURVE_FIRST_TEMP_C: u8 = 20;

/// Temperature of the last curve point, in degrees Celsius.
pub const CURVE_LAST_TEMP_C: u8 = 59;

/// Shortest interval the daemon leaves between two writes to the thermal path.
pub const MIN_PROGRAM_INTERVAL_MS: u64 = 200;

/// The 0-255 duty that means a percentage, to the nearest one; percentages
/// above a hundred mean a hundred.
pub open spec fn duty_of_percent(percent: int) -> int {
    let held = if percent <= MAX_DUTY_PERCENT {
        percent
    } else {
        MAX_DUTY_PERCENT as int
    };
    (held * MAX_DUTY + 50) / 100
}

/// The percentage a 0-255 duty becomes on the device, to the nearest one.
pub open spec fn percent_of_duty(duty: int) -> int {
    (duty * 100 + 127) / 255
}

/// The 0-255 duty that means `percent`: the driver's own conversion.
pub fn duty_from_percent(percent: u8) -> (duty: u8)
    ensures
        duty == duty_of_percent(percent as int),
        percent <= 100 ==> -100 <= 2 * (100 * duty - 255 * percent) <= 100,
        percent > 100 ==> duty == 255,
{
    let held: u16 = if percent <= MAX_DUTY_PERCENT {
        percent as u16
    } else {
        MAX_DUTY_PERCENT as u16
    };
    ((held * 255 + 50) / 100) as u8
}

/// The percentage a 0-255 duty becomes on the device: the driver's own
/// conversion.
pub fn duty_to_percent(duty: u8) -> (percent: u8)
    ensures
        percent == percent_of_duty(duty as int),
        -255 <= 2 * (255 * percent - 100 * duty) <= 255,
        percent <= MAX_DUTY_PERCENT,
{
    ((duty as u16 * 100 + 127) / 255) as u8
}

/// Every percentage survives the trip through a duty.
pub proof fn a_percentage_survives_its_duty(percent: int)
    requires
        0 <= percent <= MAX_DUTY_PERCENT,
    ensures
        percent_of_duty(duty_of_percent(percent)) == percent,
        0 <= duty_of_percent(percent) <= MAX_DUTY,
{
}

/// No two percentages share a duty, and a higher one never means a lower duty.
pub proof fn a_higher_percentage_is_a_higher_duty(low: int, high: int)
    requires
        0 <= low < high <= MAX_DUTY_PERCENT,
    ensures
        duty_of_percent(low) < duty_of_percent(high),
{
}

/// The pump floor is a whole percentage, so clamping to it lands on the grid.
pub proof fn the_pump_floor_sits_on_the_grid(percent: int)
    requires
        0 <= percent <= MAX_DUTY_PERCENT,
    ensures
        percent_of_duty(MIN_PUMP_DUTY as int) == 20,
        duty_of_percent(20) == MIN_PUMP_DUTY,
        percent >= 20 <==> duty_of_percent(percent) >= MIN_PUMP_DUTY,
{
}

/// A controllable cooling channel.
#[derive(Debug, Clone, Copy, Eq, PartialOrd, Ord, Hash)]
pub enum Channel {
    Pump,
    Fan,
}

impl PartialEq for Channel {
    fn eq(&self, other: &Self) -> (same: bool) {
        matches!((self, other), (Self::Pump, Self::Pump) | (Self::Fan, Self::Fan))
    }
}

impl vstd::std_specs::cmp::PartialEqSpecImpl for Channel {
    open spec fn obeys_eq_spec() -> bool {
        true
    }

    open spec fn eq_spec(&self, other: &Self) -> bool {
        *self == *other
    }
}

impl Channel {
    pub open spec fn label_text(self) -> Seq<char> {
        match self {
            Self::Pump => "Pump"@,
            Self::Fan => "Fan"@,
        }
    }

    pub fn label(self) -> (label: &'static str)
        ensures
            label@ == self.label_text(),
            self is Pump ==> label@ == "Pump"@,
            self is Fan ==> label@ == "Fan"@,
    {
        match self {
            Self::Pump => "Pump",
            Self::Fan => "Fan",
        }
    }

    /// Lowest duty accepted on this channel.
    pub open spec fn floor(self) -> u8 {
        match self {
            Self::Pump => MIN_PUMP_DUTY,
            Self::Fan => MIN_FAN_DUTY,
        }
    }

    /// Lowest duty accepted on this channel.
    pub fn min_duty(self) -> (floor: u8)
        ensures
            floor == self.floor(),
            floor == match self {
                Self::Pump => 51u8,
                Self::Fan => 0u8,
            },
    {
        match self {
            Self::Pump => MIN_PUMP_DUTY,
            Self::Fan => MIN_FAN_DUTY,
        }
    }

    /// Capability required to set a fixed duty on this channel.
    pub open spec fn duty_needs(self) -> CapabilityId {
        match self {
            Self::Pump => CapabilityId::PumpDuty,
            Self::Fan => CapabilityId::FanDuty,
        }
    }

    /// Capability required to write an onboard curve on this channel.
    pub open spec fn curve_needs(self) -> CapabilityId {
        match self {
            Self::Pump => CapabilityId::PumpCurve,
            Self::Fan => CapabilityId::FanCurve,
        }
    }

    /// Capability required to set a fixed duty on this channel.
    pub fn duty_capability(self) -> (capability: CapabilityId)
        ensures
            capability == self.duty_needs(),
            self is Pump ==> capability is PumpDuty,
            self is Fan ==> capability is FanDuty,
    {
        match self {
            Self::Pump => CapabilityId::PumpDuty,
            Self::Fan => CapabilityId::FanDuty,
        }
    }

    /// Capability required to write an onboard curve on this channel.
    pub fn curve_capability(self) -> (capability: CapabilityId)
        ensures
            capability == self.curve_needs(),
            self is Pump ==> capability is PumpCurve,
            self is Fan ==> capability is FanCurve,
    {
        match self {
            Self::Pump => CapabilityId::PumpCurve,
            Self::Fan => CapabilityId::FanCurve,
        }
    }
}

/// What a profile asks the hardware to do.
#[derive(Debug, PartialEq, Eq)]
pub enum CoolingProgram {
    /// Leave the device on its own firmware program.
    Onboard,
    /// A constant duty per channel.
    Fixed { pump: u8, fan: u8 },
    /// A liquid-temperature curve per channel.
    Curve { pump: TemperatureCurve, fan: TemperatureCurve },
}

impl Clone for CoolingProgram {
    fn clone(&self) -> (copy: Self)
        ensures
            copy == *self,
    {
        match self {
            Self::Onboard => Self::Onboard,
            Self::Fixed { pump, fan } => Self::Fixed { pump: *pump, fan: *fan },
            Self::Curve { pump, fan } => Self::Curve { pump: *pump, fan: *fan },
        }
    }
}

impl CoolingProgram {
    /// Capabilities that must be writable before this program can be applied.
    pub open spec fn needs(self) -> Seq<CapabilityId> {
        match self {
            Self::Onboard => Seq::empty(),
            Self::Fixed { .. } => seq![Channel::Pump.duty_needs(), Channel::Fan.duty_needs()],
            Self::Curve { .. } => seq![Channel::Pump.curve_needs(), Channel::Fan.curve_needs()],
        }
    }

    /// Whether every value of the program is one its channel accepts.
    pub open spec fn valid(self) -> bool {
        match self {
            Self::Onboard => true,
            Self::Fixed { pump, fan } => pump >= Channel::Pump.floor() && fan
                >= Channel::Fan.floor(),
            Self::Curve { pump, fan } => curve_valid(Channel::Pump, pump@) && curve_valid(
                Channel::Fan,
                fan@,
            ),
        }
    }

    /// Whether two programs command the same thing.
    pub open spec fn means(self, other: Self) -> bool {
        match (self, other) {
            (Self::Onboard, Self::Onboard) => true,
            (Self::Fixed { pump: a, fan: b }, Self::Fixed { pump: c, fan: d }) => a == c && b == d,
            (Self::Curve { pump: a, fan: b }, Self::Curve { pump: c, fan: d }) => a@ == c@ && b@
                == d@,
            _ => false,
        }
    }

    /// Capabilities that must be writable before this program can be applied.
    pub fn required_capabilities(&self) -> (needs: Vec<CapabilityId>)
        ensures
            needs@ == self.needs(),
    {
        let mut needs: Vec<CapabilityId> = Vec::new();
        match self {
            Self::Onboard => {},
            Self::Fixed { .. } => {
                needs.push(CapabilityId::PumpDuty);
                needs.push(CapabilityId::FanDuty);
            },
            Self::Curve { .. } => {
                needs.push(CapabilityId::PumpCurve);
                needs.push(CapabilityId::FanCurve);
            },
        }
        assert(needs@ =~= self.needs());
        needs
    }

    /// Whether two programs command the same thing.
    pub fn same(&self, other: &Self) -> (same: bool)
        ensures
            same == self.means(*other),
    {
        match (self, other) {
            (Self::Onboard, Self::Onboard) => true,
            (Self::Fixed { pump: a, fan: b }, Self::Fixed { pump: c, fan: d }) => {
                *a == *c && *b == *d
            },
            (Self::Curve { pump: a, fan: b }, Self::Curve { pump: c, fan: d }) => {
                a.same(c) && b.same(d)
            },
            _ => false,
        }
    }
}

/// A named local profile.
#[derive(Debug, Clone, PartialEq, Eq)]
pub struct Profile {
    pub name: String,
    pub program: CoolingProgram,
    /// Device the profile was created for, when it is device-specific.
    pub device: Option<DeviceId>,
    /// What each lighting channel should show, when the profile sets any.
    pub lighting: Vec<LightingCommand>,
    /// What the panel should show, when the profile sets anything.
    pub display: Option<DisplayPreset>,
}

impl Profile {
    /// Whether this is the built-in safe profile.
    pub open spec fn is_safe(self) -> bool {
        &&& self.name@ == SAFE_PROFILE_NAME@
        &&& self.program is Onboard
        &&& self.lighting@.len() == 0
        &&& self.display is None
    }

    /// Whether the profile may be saved.
    pub open spec fn valid(self) -> bool {
        &&& name_valid(self.name@)
        &&& self.program.valid()
        &&& forall|i: int|
            0 <= i < self.lighting@.len() ==> (#[trigger] self.lighting@[i]).program.valid()
        &&& self.display matches Some(preset) ==> preset.valid()
    }

    /// The built-in profile selected whenever configuration cannot be trusted.
    pub fn safe() -> (profile: Self)
        ensures
            profile.is_safe(),
            profile.device is None,
    {
        Self {
            name: SAFE_PROFILE_NAME.to_owned(),
            program: CoolingProgram::Onboard,
            device: None,
            lighting: Vec::new(),
            display: None,
        }
    }

    pub fn is_safe_builtin(&self) -> (safe: bool)
        ensures
            safe == self.is_safe(),
            safe <==> self.name@ == "Onboard safe"@ && self.program is Onboard
                && self.lighting@.len() == 0 && self.display is None,
    {
        text::same(self.name.as_str(), SAFE_PROFILE_NAME) && matches!(
            self.program,
            CoolingProgram::Onboard
        ) && self.lighting.len() == 0 && self.display.is_none()
    }
}

/// Why a value or profile was refused, with the accepted range.
#[derive(Debug, Clone, PartialEq, Eq)]
pub enum ValidationError {
    NameLength { min: usize, max: usize },
    NameBlank,
    DutyOutOfRange { channel: Channel, value: u8, min: u8, max: u8 },
    CurvePointCount { expected: usize, actual: usize },
    CurveDutyOutOfRange { channel: Channel, temperature_c: u8, value: u8, min: u8, max: u8 },
    Lighting { channel: u8, detail: String },
    Display { detail: String },
    CurveNotMonotonic {
        channel: Channel,
        previous: u8,
        previous_temperature_c: u8,
        value: u8,
        temperature_c: u8,
    },
}

impl ValidationError {
    /// The sentence shown for this refusal.
    pub open spec fn text(self) -> Seq<char> {
        match self {
            Self::NameLength { min, max } => "Profile name must be "@ + text::decimal(min as nat)
                + "-"@ + text::decimal(max as nat) + " characters."@,
            Self::NameBlank => "Profile name must not be blank or padded with whitespace."@,
            Self::DutyOutOfRange { channel, value, min, max } => channel.label_text() + " duty "@
                + text::decimal(value as nat) + " is outside the accepted range "@ + text::decimal(
                min as nat,
            ) + "-"@ + text::decimal(max as nat) + "."@,
            Self::CurvePointCount { expected, actual } => "A curve must contain exactly "@
                + text::decimal(expected as nat) + " points, got "@ + text::decimal(actual as nat)
                + "."@,
            Self::CurveDutyOutOfRange { channel, temperature_c, value, min, max } =>
                channel.label_text() + " curve duty at "@ + text::decimal(temperature_c as nat)
                + " C is "@ + text::decimal(value as nat) + ", outside the accepted range "@
                + text::decimal(min as nat) + "-"@ + text::decimal(max as nat) + "."@,
            Self::Lighting { channel, detail } => "Lighting on channel "@ + text::decimal(
                channel as nat,
            ) + " is invalid: "@ + detail@,
            Self::Display { detail } => "The panel preset is invalid: "@ + detail@,
            Self::CurveNotMonotonic {
                channel,
                previous,
                previous_temperature_c,
                value,
                temperature_c,
            } => channel.label_text() + " curve duty must never decrease as temperature rises: "@
                + text::decimal(previous as nat) + " at "@ + text::decimal(
                previous_temperature_c as nat,
            ) + " C then "@ + text::decimal(value as nat) + " at "@ + text::decimal(
                temperature_c as nat,
            ) + " C."@,
        }
    }

    /// The sentence shown for this refusal.
    pub fn to_text(&self) -> (message: String)
        ensures
            message@ == self.text(),
    {
        let mut message: String = String::new();
        match self {
            Self::NameLength { min, max } => {
                message.append("Profile name must be ");
                text::push_decimal(&mut message, *min as u64);
                message.append("-");
                text::push_decimal(&mut message, *max as u64);
                message.append(" characters.");
            },
            Self::NameBlank => {
                message.append("Profile name must not be blank or padded with whitespace.");
            },
            Self::DutyOutOfRange { channel, value, min, max } => {
                message.append(channel.label());
                message.append(" duty ");
                text::push_decimal(&mut message, *value as u64);
                message.append(" is outside the accepted range ");
                text::push_decimal(&mut message, *min as u64);
                message.append("-");
                text::push_decimal(&mut message, *max as u64);
                message.append(".");
            },
            Self::CurvePointCount { expected, actual } => {
                message.append("A curve must contain exactly ");
                text::push_decimal(&mut message, *expected as u64);
                message.append(" points, got ");
                text::push_decimal(&mut message, *actual as u64);
                message.append(".");
            },
            Self::CurveDutyOutOfRange { channel, temperature_c, value, min, max } => {
                message.append(channel.label());
                message.append(" curve duty at ");
                text::push_decimal(&mut message, *temperature_c as u64);
                message.append(" C is ");
                text::push_decimal(&mut message, *value as u64);
                message.append(", outside the accepted range ");
                text::push_decimal(&mut message, *min as u64);
                message.append("-");
                text::push_decimal(&mut message, *max as u64);
                message.append(".");
            },
            Self::Lighting { channel, detail } => {
                message.append("Lighting on channel ");
                text::push_decimal(&mut message, *channel as u64);
                message.append(" is invalid: ");
                message.append(detail.as_str());
            },
            Self::Display { detail } => {
                message.append("The panel preset is invalid: ");
                message.append(detail.as_str());
            },
            Self::CurveNotMonotonic {
                channel,
                previous,
                previous_temperature_c,
                value,
                temperature_c,
            } => {
                message.append(channel.label());
                message.append(" curve duty must never decrease as temperature rises: ");
                text::push_decimal(&mut message, *previous as u64);
                message.append(" at ");
                text::push_decimal(&mut message, *previous_temperature_c as u64);
                message.append(" C then ");
                text::push_decimal(&mut message, *value as u64);
                message.append(" at ");
                text::push_decimal(&mut message, *temperature_c as u64);
                message.append(" C.");
            },
        }
        assert(message@ =~= self.text());
        message
    }

    /// The channel the error points at, when it points at a specific input.
    pub fn channel(&self) -> (channel: Option<Channel>)
        ensures
            channel == match *self {
                Self::DutyOutOfRange { channel, .. } => Some(channel),
                Self::CurveDutyOutOfRange { channel, .. } => Some(channel),
                Self::CurveNotMonotonic { channel, .. } => Some(channel),
                _ => None,
            },
    {
        match self {
            Self::DutyOutOfRange { channel, .. } => Some(*channel),
            Self::CurveDutyOutOfRange { channel, .. } => Some(*channel),
            Self::CurveNotMonotonic { channel, .. } => Some(*channel),
            _ => None,
        }
    }
}

/// The refusal of a duty below the floor of its channel.
pub open spec fn duty_error(channel: Channel, value: u8) -> ValidationError {
    ValidationError::DutyOutOfRange { channel, value, min: channel.floor(), max: MAX_DUTY }
}

/// Validate a fixed duty for one channel.
pub fn validate_duty(channel: Channel, value: u8) -> (result: Result<(), ValidationError>)
    ensures
        result is Ok <==> value >= channel.floor(),
        result matches Err(error) ==> error == duty_error(channel, value),
        result is Ok <==> channel is Fan || value >= 51,
        result matches Err(error) ==> error == (ValidationError::DutyOutOfRange {
            channel,
            value,
            min: 51,
            max: 255,
        }),
{
    let min: u8 = channel.min_duty();
    if value < min {
        return Err(ValidationError::DutyOutOfRange { channel, value, min, max: MAX_DUTY });
    }
    Ok(())
}

/// Whether the point at `index` is the reason to refuse a curve: below the
/// floor of its channel, or below the point before it.
pub open spec fn curve_fault_at(channel: Channel, points: Seq<u8>, index: int) -> bool {
    points[index] < channel.floor() || (index > 0 && points[index] < points[index - 1])
}

/// Whether no point of a curve is a reason to refuse it.
pub open spec fn curve_valid(channel: Channel, points: Seq<u8>) -> bool {
    forall|index: int| 0 <= index < points.len() ==> !#[trigger] curve_fault_at(channel, points, index)
}

/// The refusal a point meets: the floor first, then the order.
pub open spec fn curve_error(channel: Channel, points: Seq<u8>, index: int) -> ValidationError {
    if points[index] < channel.floor() {
        ValidationError::CurveDutyOutOfRange {
            channel,
            temperature_c: (CURVE_FIRST_TEMP_C + index) as u8,
            value: points[index],
            min: channel.floor(),
            max: MAX_DUTY,
        }
    } else {
        ValidationError::CurveNotMonotonic {
            channel,
            previous: points[index - 1],
            previous_temperature_c: (CURVE_FIRST_TEMP_C + index - 1) as u8,
            value: points[index],
            temperature_c: (CURVE_FIRST_TEMP_C + index) as u8,
        }
    }
}

/// Whether `error` is what the first point at fault is refused with.
pub open spec fn refuses_curve(
    channel: Channel,
    points: Seq<u8>,
    error: ValidationError,
) -> bool {
    exists|index: int|
        {
            &&& 0 <= index < points.len()
            &&& #[trigger] curve_fault_at(channel, points, index)
            &&& forall|earlier: int|
                0 <= earlier < index ==> !#[trigger] curve_fault_at(channel, points, earlier)
            &&& error == curve_error(channel, points, index)
        }
}

/// Validate a complete curve before any point is written.
///
/// Every point is checked. A curve is never written partially, so a single
/// invalid point rejects the whole transaction.
pub fn validate_curve(channel: Channel, curve: &TemperatureCurve) -> (result: Result<
    (),
    ValidationError,
>)
    ensures
        result is Ok <==> curve_valid(channel, curve@),
        result matches Err(error) ==> refuses_curve(channel, curve@, error),
{
    let min: u8 = channel.min_duty();
    let points: &[u8; CURVE_POINT_COUNT] = curve.points();
    let mut index: usize = 0;
    while index < CURVE_POINT_COUNT
        invariant
            index <= CURVE_POINT_COUNT,
            points@ == curve@,
            min == channel.floor(),
            forall|earlier: int|
                0 <= earlier < index ==> !#[trigger] curve_fault_at(channel, curve@, earlier),
        decreases CURVE_POINT_COUNT - index,
    {
        let value: u8 = points[index];
        let temperature_c: u8 = TemperatureCurve::temperature_at(index);
        if value < min {
            assert(curve_fault_at(channel, curve@, index as int));
            return Err(
                ValidationError::CurveDutyOutOfRange {
                    channel,
                    temperature_c,
                    value,
                    min,
                    max: MAX_DUTY,
                },
            );
        }
        if index > 0 && value < points[index - 1] {
            assert(curve_fault_at(channel, curve@, index as int));
            return Err(
                ValidationError::CurveNotMonotonic {
                    channel,
                    previous: points[index - 1],
                    previous_temperature_c: TemperatureCurve::temperature_at(index - 1),
                    value,
                    temperature_c,
                },
            );
        }
        index = index + 1;
    }
    Ok(())
}

/// A curve is accepted exactly when it never decreases and every point of it
/// clears the floor of its channel.
pub proof fn an_accepted_curve_never_decreases(channel: Channel, points: Seq<u8>)
    ensures
        curve_valid(channel, points) <==> curve::non_decreasing(points) && (forall|i: int|
            0 <= i < points.len() ==> #[trigger] points[i] >= channel.floor()),
{
    if curve_valid(channel, points) {
        assert forall|i: int, j: int| 0 <= i <= j < points.len() implies points[i] <= points[j] by {
            lemma_rising(channel, points, i, j);
        }
        assert forall|i: int| 0 <= i < points.len() implies #[trigger] points[i]
            >= channel.floor() by {
            assert(!curve_fault_at(channel, points, i));
        }
    }
}

proof fn lemma_rising(channel: Channel, points: Seq<u8>, i: int, j: int)
    requires
        curve_valid(channel, points),
        0 <= i <= j < points.len(),
    ensures
        points[i] <= points[j],
    decreases j - i,
{
    if i < j {
        lemma_rising(channel, points, i, j - 1);
        assert(!curve_fault_at(channel, points, j));
    }
}

/// A node set that is in order and clears the floor describes a curve that is
/// accepted, so an edited node set always validates.
pub proof fn nodes_in_order_are_accepted(channel: Channel, duty: Seq<u8>)
    requires
        duty.len() == CURVE_NODE_COUNT,
        curve::non_decreasing(duty),
        duty[0] >= channel.floor(),
    ensures
        curve_valid(channel, curve::expanded(duty)),
{
    curve::expanded_keeps_the_order(duty);
    curve::expanded_passes_through_its_nodes(duty, 0);
    let points = curve::expanded(duty);
    assert forall|index: int| 0 <= index < points.len() implies !#[trigger] curve_fault_at(
        channel,
        points,
        index,
    ) by {
        assert(points[0] <= points[index]);
        if index > 0 {
            assert(points[index - 1] <= points[index]);
        }
    }
}

/// The curve the editor starts from is accepted on both channels, ends at the
/// full duty and sits on the grid of whole percentages.
pub proof fn the_starting_ramp_is_accepted(duty: Seq<u8>, channel: Channel)
    requires
        duty.len() == CURVE_NODE_COUNT,
        forall|index: int|
            0 <= index < CURVE_NODE_COUNT ==> #[trigger] duty[index] == duty_of_percent(
                curve::ramp_percent(index),
            ),
    ensures
        curve_valid(channel, curve::expanded(duty)),
        duty[CURVE_NODE_COUNT - 1] == MAX_DUTY,
        forall|index: int|
            0 <= index < CURVE_NODE_COUNT ==> duty_of_percent(
                percent_of_duty(#[trigger] duty[index] as int),
            ) == duty[index],
{
    assert forall|i: int, j: int| 0 <= i <= j < duty.len() implies duty[i] <= duty[j] by {
        assert(duty[i] == duty_of_percent(curve::ramp_percent(i)));
        assert(duty[j] == duty_of_percent(curve::ramp_percent(j)));
    }
    assert(duty[0] == duty_of_percent(curve::ramp_percent(0)));
    assert(duty[CURVE_NODE_COUNT - 1] == duty_of_percent(curve::ramp_percent(8)));
    assert forall|index: int| 0 <= index < CURVE_NODE_COUNT implies duty_of_percent(
        percent_of_duty(#[trigger] duty[index] as int),
    ) == duty[index] by {
        assert(duty[index] == duty_of_percent(curve::ramp_percent(index)));
        a_percentage_survives_its_duty(curve::ramp_percent(index));
    }
    nodes_in_order_are_accepted(channel, duty);
}

/// Whether a profile name is not blank, not padded and not too long.
pub open spec fn name_valid(name: Seq<char>) -> bool {
    &&& text::trimmed(name) == name
    &&& PROFILE_NAME_MIN_LEN <= name.len() <= PROFILE_NAME_MAX_LEN
}

/// The refusal of a name that is not valid.
pub open spec fn name_error(name: Seq<char>) -> ValidationError {
    if text::trimmed(name) != name || name.len() == 0 {
        ValidationError::NameBlank
    } else {
        ValidationError::NameLength { min: PROFILE_NAME_MIN_LEN, max: PROFILE_NAME_MAX_LEN }
    }
}

/// Validate a profile name.
pub fn validate_name(name: &str) -> (result: Result<(), ValidationError>)
    ensures
        result is Ok <==> name_valid(name@),
        result matches Err(error) ==> error == name_error(name@),
{
    let inner: String = text::trim(name);
    if !text::same(inner.as_str(), name) || inner.as_str().is_empty() {
        return Err(ValidationError::NameBlank);
    }
    let len: usize = text::char_count(name);
    if len < PROFILE_NAME_MIN_LEN || len > PROFILE_NAME_MAX_LEN {
        return Err(
            ValidationError::NameLength { min: PROFILE_NAME_MIN_LEN, max: PROFILE_NAME_MAX_LEN },
        );
    }
    Ok(())
}

/// Whether `error` is what a program that is not valid is refused with: the
/// pump first, then the fan.
pub open spec fn refuses_program(program: CoolingProgram, error: ValidationError) -> bool {
    match program {
        CoolingProgram::Onboard => false,
        CoolingProgram::Fixed { pump, fan } => if pump < Channel::Pump.floor() {
            error == duty_error(Channel::Pump, pump)
        } else {
            error == duty_error(Channel::Fan, fan)
        },
        CoolingProgram::Curve { pump, fan } => if !curve_valid(Channel::Pump, pump@) {
            refuses_curve(Channel::Pump, pump@, error)
        } else {
            refuses_curve(Channel::Fan, fan@, error)
        },
    }
}

/// Validate every value a program carries, before any of it can be written.
pub fn validate_program(program: &CoolingProgram) -> (result: Result<(), ValidationError>)
    ensures
        result is Ok <==> program.valid(),
        result matches Err(error) ==> refuses_program(*program, error),
{
    match program {
        CoolingProgram::Onboard => Ok(()),
        CoolingProgram::Fixed { pump, fan } => match validate_duty(Channel::Pump, *pump) {
            Err(error) => Err(error),
            Ok(()) => validate_duty(Channel::Fan, *fan),
        },
        CoolingProgram::Curve { pump, fan } => match validate_curve(Channel::Pump, pump) {
            Err(error) => Err(error),
            Ok(()) => validate_curve(Channel::Fan, fan),
        },
    }
}

/// Whether `error` is what a list of lighting commands is refused with: the
/// first program that is not valid, in the words of its own refusal.
pub open spec fn refuses_lighting(
    commands: Seq<LightingCommand>,
    error: ValidationError,
) -> bool {
    exists|index: int|
        {
            &&& 0 <= index < commands.len()
            &&& !(#[trigger] commands[index]).program.valid()
            &&& forall|earlier: int|
                0 <= earlier < index ==> (#[trigger] commands[earlier]).program.valid()
            &&& error matches ValidationError::Lighting { channel, detail }
            &&& channel == commands[index].channel
            &&& exists|source: crate::lighting::LightingError|
                crate::lighting::refuses(commands[index].program, source) && detail@
                    == #[trigger] source.text()
        }
}

/// Whether `error` is what a profile that is not valid is refused with: its
/// name first, then its program, then its lighting, then its preset.
pub open spec fn refuses_profile(profile: Profile, error: ValidationError) -> bool {
    if !name_valid(profile.name@) {
        error == name_error(profile.name@)
    } else if !profile.program.valid() {
        refuses_program(profile.program, error)
    } else if exists|i: int|
        0 <= i < profile.lighting@.len() && !(#[trigger] profile.lighting@[i]).program.valid() {
        refuses_lighting(profile.lighting@, error)
    } else {
        &&& profile.display matches Some(preset)
        &&& !preset.valid()
        &&& error matches ValidationError::Display { detail }
        &&& detail@ == match preset.image {
            Some(path) => if path@.len() == 0 {
                crate::display::DisplayError::ImagePathMissing.text()
            } else {
                (crate::display::DisplayError::ImagePathTooLong {
                    bytes: text::byte_len(path@) as usize,
                    max_bytes: crate::display::MAX_IMAGE_PATH_BYTES,
                }).text()
            },
            None => crate::display::DisplayError::ImagePathMissing.text(),
        }
    }
}

/// Validate a whole profile: name, then every value it carries.
///
/// Lighting and the panel preset are validated for shape only. Whether a
/// channel exists, and whether a panel is there to draw on, are checked at
/// activation against what the devices reported.
pub fn validate_profile(profile: &Profile) -> (result: Result<(), ValidationError>)
    ensures
        result is Ok <==> profile.valid(),
        result matches Err(error) ==> refuses_profile(*profile, error),
{
    match validate_name(profile.name.as_str()) {
        Err(error) => return Err(error),
        Ok(()) => {},
    }
    match validate_program(&profile.program) {
        Err(error) => return Err(error),
        Ok(()) => {},
    }
    let mut index: usize = 0;
    while index < profile.lighting.len()
        invariant
            index <= profile.lighting@.len(),
            name_valid(profile.name@),
            profile.program.valid(),
            forall|earlier: int|
                0 <= earlier < index ==> (#[trigger] profile.lighting@[earlier]).program.valid(),
        decreases profile.lighting@.len() - index,
    {
        let command: &LightingCommand = &profile.lighting[index];
        match crate::lighting::validate_program(&command.program) {
            Ok(()) => {},
            Err(source) => {
                let detail: String = source.to_text();
                assert(detail@ == source.text());
                let error = ValidationError::Lighting { channel: command.channel, detail };
                assert(refuses_lighting(profile.lighting@, error));
                return Err(error);
            },
        }
        index = index + 1;
    }
    match &profile.display {
        None => Ok(()),
        Some(preset) => match preset.validate() {
            Ok(()) => Ok(()),
            Err(source) => Err(ValidationError::Display { detail: source.to_text() }),
        },
    }
}

/// A capability a profile needs that the device cannot provide.
#[derive(Debug, Clone, PartialEq, Eq)]
pub struct Incompatibility {
    pub capability: CapabilityId,
    pub reason: String,
}

/// A list of incompatibilities as what it says.
pub open spec fn said(found: Seq<Incompatibility>) -> Seq<(CapabilityId, Seq<char>)> {
    found.map_values(|entry: Incompatibility| (entry.capability, entry.reason@))
}

/// What stands in the way of one capability on a device: nothing, its blocked
/// reason, or its absence from the record.
pub open spec fn gap(device: DeviceRecord, capability: CapabilityId) -> Seq<
    (CapabilityId, Seq<char>),
> {
    match device.entry(capability) {
        Some(entry) => if entry.state.writable() {
            Seq::empty()
        } else {
            seq![(capability, entry.state.blocked_text())]
        },
        None => seq![
            (capability, capability.label_text() + " is absent from the capability record."@),
        ],
    }
}

/// What stands in the way of a list of capabilities on a device, in order.
pub open spec fn gaps(device: DeviceRecord, needs: Seq<CapabilityId>) -> Seq<
    (CapabilityId, Seq<char>),
>
    decreases needs.len(),
{
    if needs.len() == 0 {
        Seq::empty()
    } else {
        gaps(device, needs.drop_last()) + gap(device, needs.last())
    }
}

/// What stands in the way of a profile that targets another device.
pub open spec fn mismatch(profile: Profile, device: DeviceRecord) -> Seq<
    (CapabilityId, Seq<char>),
> {
    match profile.device {
        Some(expected) => if expected != device.usb.id {
            seq![
                (
                    CapabilityId::LiquidTemperature,
                    "Profile targets "@ + expected.text() + " but the connected device is "@
                        + device.usb.id.text() + "."@,
                ),
            ]
        } else {
            Seq::empty()
        },
        None => Seq::empty(),
    }
}

/// List everything that prevents `profile` from being applied to `device`.
///
/// An empty result means activation may proceed. A non-empty result must stop
/// activation before any write.
pub fn incompatibilities(profile: &Profile, device: &DeviceRecord) -> (found: Vec<
    Incompatibility,
>)
    ensures
        said(found@) == mismatch(*profile, *device) + gaps(*device, profile.program.needs()),
{
    let mut found: Vec<Incompatibility> = Vec::new();
    if let Some(expected) = profile.device {
        if expected != device.id() {
            let mut reason: String = "Profile targets ".to_owned();
            reason.append(expected.to_text().as_str());
            reason.append(" but the connected device is ");
            reason.append(device.id().to_text().as_str());
            reason.append(".");
            found.push(Incompatibility { capability: CapabilityId::LiquidTemperature, reason });
        }
    }
    assert(said(found@) =~= mismatch(*profile, *device));
    let ghost before = found@;
    let mut rest: Vec<Incompatibility> = program_incompatibilities(&profile.program, device);
    let ghost added = rest@;
    found.append(&mut rest);
    assert(said(found@) =~= said(before) + said(added));
    found
}

/// Everything that prevents `program` from being written to `device`.
pub fn program_incompatibilities(program: &CoolingProgram, device: &DeviceRecord) -> (found: Vec<
    Incompatibility,
>)
    ensures
        said(found@) == gaps(*device, program.needs()),
{
    let needs: Vec<CapabilityId> = program.required_capabilities();
    let mut found: Vec<Incompatibility> = Vec::new();
    let mut index: usize = 0;
    assert(said(found@) =~= Seq::empty());
    while index < needs.len()
        invariant
            index <= needs@.len(),
            needs@ == program.needs(),
            said(found@) == gaps(*device, needs@.take(index as int)),
        decreases needs@.len() - index,
    {
        let capability: CapabilityId = needs[index];
        let ghost before = found@;
        assert(needs@.take(index + 1).drop_last() =~= needs@.take(index as int));
        match device.capability(capability) {
            Some(entry) => {
                match entry.state.blocked_reason() {
                    None => {},
                    Some(reason) => {
                        found.push(Incompatibility { capability, reason });
                    },
                }
            },
            None => {
                let mut reason: String = capability.label().to_owned();
                reason.append(" is absent from the capability record.");
                found.push(Incompatibility { capability, reason });
            },
        }
        assert(said(found@) =~= said(before) + gap(*device, capability));
        index = index + 1;
    }
    assert(needs@.take(index as int) =~= needs@);
    found
}

proof fn lemma_gaps(device: DeviceRecord, needs: Seq<CapabilityId>)
    ensures
        gaps(device, needs).len() == 0 <==> (forall|i: int|
            0 <= i < needs.len() ==> gap(device, #[trigger] needs[i]).len() == 0),
    decreases needs.len(),
{
    if needs.len() > 0 {
        lemma_gaps(device, needs.drop_last());
        if gaps(device, needs).len() == 0 {
            assert forall|i: int| 0 <= i < needs.len() implies gap(device, #[trigger] needs[i]).len()
                == 0 by {
                if i < needs.len() - 1 {
                    assert(needs.drop_last()[i] == needs[i]);
                }
            }
        }
        if forall|i: int| 0 <= i < needs.len() ==> gap(device, #[trigger] needs[i]).len() == 0 {
            assert forall|i: int| 0 <= i < needs.drop_last().len() implies gap(
                device,
                #[trigger] needs.drop_last()[i],
            ).len() == 0 by {
                assert(needs[i] == needs.drop_last()[i]);
            }
            assert(gap(device, needs[needs.len() - 1]).len() == 0);
        }
    }
}

/// Nothing stands in the way of a profile exactly when it targets this device
/// or none, and every capability its program needs has a writable entry.
pub proof fn compatible_means_every_need_is_writable(profile: Profile, device: DeviceRecord)
    ensures
        (mismatch(profile, device) + gaps(device, profile.program.needs())).len() == 0 <==> {
            &&& profile.device is None || profile.device == Some(device.usb.id)
            &&& forall|i: int|
                0 <= i < profile.program.needs().len() ==> (device.entry(
                    #[trigger] profile.program.needs()[i],
                ) matches Some(entry) && entry.state.writable())
        },
{
    lemma_gaps(device, profile.program.needs());
    let needs = profile.program.needs();
    if forall|i: int|
        0 <= i < needs.len() ==> (device.entry(#[trigger] needs[i]) matches Some(entry)
            && entry.state.writable()) {
        assert forall|i: int| 0 <= i < needs.len() implies gap(device, #[trigger] needs[i]).len()
            == 0 by {}
    }
    if forall|i: int| 0 <= i < needs.len() ==> gap(device, #[trigger] needs[i]).len() == 0 {
        assert forall|i: int| 0 <= i < needs.len() implies (device.entry(#[trigger] needs[i]) matches Some(
            entry,
        ) && entry.state.writable()) by {
            assert(gap(device, needs[i]).len() == 0);
        }
    }
}

/// The safe profile is valid, writes nothing, and suits any device.
pub proof fn the_safe_profile_is_always_usable(profile: Profile, device: DeviceRecord)
    requires
        profile.is_safe(),
        profile.device is None,
    ensures
        profile.valid(),
        profile.program.needs().len() == 0,
        (mismatch(profile, device) + gaps(device, profile.program.needs())).len() == 0,
{
    reveal_strlit("Onboard safe");
    let name = SAFE_PROFILE_NAME@;
    assert(name.len() == 12);
    assert(name[0] == 'O' && name.last() == 'e');
    assert(text::trimmed_start(name) == name);
    assert(text::trimmed_end(name) == name);
}

/// A percentage becomes the nearest duty, and a percentage beyond a hundred the
/// full one.
pub proof fn a_percentage_becomes_the_nearest_duty(percent: int)
    requires
        0 <= percent <= 255,
    ensures
        percent <= 100 ==> -100 <= 2 * (100 * duty_of_percent(percent) - 255 * percent) <= 100,
        percent >= 100 ==> duty_of_percent(percent) == 255,
        duty_of_percent(0) == 0,
{
}

/// A duty becomes the nearest percentage.
pub proof fn a_duty_becomes_the_nearest_percentage(duty: int)
    requires
        0 <= duty <= 255,
    ensures
        -255 <= 2 * (255 * percent_of_duty(duty) - 100 * duty) <= 255,
        percent_of_duty(0) == 0,
        percent_of_duty(255) == 100,
{
}

/// The pump is never told to run below a fifth of its full duty; a fan may be
/// told to stop.
pub proof fn the_floors_of_the_channels()
    ensures
        Channel::Pump.floor() == 51,
        Channel::Fan.floor() == 0,
{
}

/// A program is accepted exactly when every duty in it clears the floor of its
/// channel and no curve in it ever decreases.
pub proof fn a_program_is_accepted_for_what_it_commands(program: CoolingProgram)
    ensures
        match program {
            CoolingProgram::Onboard => program.valid(),
            CoolingProgram::Fixed { pump, fan } => program.valid() <==> pump >= 51,
            CoolingProgram::Curve { pump, fan } => program.valid() <==> {
                &&& forall|i: int| 0 <= i < pump@.len() ==> #[trigger] pump@[i] >= 51
                &&& forall|i: int, j: int| 0 <= i <= j < pump@.len() ==> pump@[i] <= pump@[j]
                &&& forall|i: int, j: int| 0 <= i <= j < fan@.len() ==> fan@[i] <= fan@[j]
            },
        },
{
    if let CoolingProgram::Curve { pump, fan } = program {
        an_accepted_curve_never_decreases(Channel::Pump, pump@);
        an_accepted_curve_never_decreases(Channel::Fan, fan@);
    }
}

/// A curve is refused for its first point at fault: the first that is below the
/// floor, or below the point before it.
pub proof fn a_curve_is_refused_for_its_first_fault(
    channel: Channel,
    points: Seq<u8>,
    error: ValidationError,
) -> (at: int)
    requires
        refuses_curve(channel, points, error),
    ensures
        0 <= at < points.len(),
        points[at] < channel.floor() || (at > 0 && points[at] < points[at - 1]),
        forall|i: int| 0 <= i < at ==> #[trigger] points[i] >= channel.floor(),
        forall|i: int| 0 < i < at ==> #[trigger] points[i] >= points[i - 1],
        points[at] < channel.floor() ==> error == (ValidationError::CurveDutyOutOfRange {
            channel,
            temperature_c: (20 + at) as u8,
            value: points[at],
            min: channel.floor(),
            max: 255,
        }),
        points[at] >= channel.floor() ==> error == (ValidationError::CurveNotMonotonic {
            channel,
            previous: points[at - 1],
            previous_temperature_c: (19 + at) as u8,
            value: points[at],
            temperature_c: (20 + at) as u8,
        }),
{
    let at = choose|index: int|
        {
            &&& 0 <= index < points.len()
            &&& #[trigger] curve_fault_at(channel, points, index)
            &&& forall|earlier: int|
                0 <= earlier < index ==> !#[trigger] curve_fault_at(channel, points, earlier)
            &&& error == curve_error(channel, points, index)
        };
    assert forall|i: int| 0 <= i < at implies #[trigger] points[i] >= channel.floor() by {
        assert(!curve_fault_at(channel, points, i));
    }
    assert forall|i: int| 0 < i < at implies #[trigger] points[i] >= points[i - 1] by {
        assert(!curve_fault_at(channel, points, i));
    }
    at
}

/// A name is accepted exactly when it holds one to forty-eight characters and
/// neither end of it is white space.
pub proof fn a_name_is_accepted_without_space_at_its_ends(name: Seq<char>)
    ensures
        name_valid(name) <==> {
            &&& 1 <= name.len() <= 48
            &&& !text::is_space(name[0])
            &&& !text::is_space(name[name.len() - 1])
        },
        !name_valid(name) ==> name_error(name) == if name.len() > 48 && !text::is_space(name[0])
            && !text::is_space(name[name.len() - 1]) {
            ValidationError::NameLength { min: 1, max: 48 }
        } else {
            ValidationError::NameBlank
        },
{
    text::a_trimmed_text_has_no_space_at_its_ends(name);
}

/// What a program needs before it can be applied: nothing when it leaves the
/// device to itself, the duties when it fixes them, the curves when it draws
/// them.
pub proof fn a_program_needs_what_it_writes(program: CoolingProgram)
    ensures
        match program {
            CoolingProgram::Onboard => program.needs() == Seq::<CapabilityId>::empty(),
            CoolingProgram::Fixed { .. } => program.needs() == seq![
                CapabilityId::PumpDuty,
                CapabilityId::FanDuty,
            ],
            CoolingProgram::Curve { .. } => program.needs() == seq![
                CapabilityId::PumpCurve,
                CapabilityId::FanCurve,
            ],
        },
{
}

/// Two programs are the same exactly when they command the same duty at every
/// place; being the same is symmetric, and every program is the same as itself.
pub proof fn the_same_program_commands_the_same(one: CoolingProgram, other: CoolingProgram)
    ensures
        one.means(one),
        one.means(other) <==> other.means(one),
        one.means(other) ==> one.needs() == other.needs() && one.valid() == other.valid(),
        one.means(other) ==> match (one, other) {
            (CoolingProgram::Onboard, CoolingProgram::Onboard) => true,
            (
                CoolingProgram::Fixed { pump, fan },
                CoolingProgram::Fixed { pump: other_pump, fan: other_fan },
            ) => pump == other_pump && fan == other_fan,
            (
                CoolingProgram::Curve { pump, fan },
                CoolingProgram::Curve { pump: other_pump, fan: other_fan },
            ) => (forall|i: int| 0 <= i < pump@.len() ==> #[trigger] pump@[i] == other_pump@[i])
                && (forall|i: int| 0 <= i < fan@.len() ==> #[trigger] fan@[i] == other_fan@[i]),
            _ => false,
        },
        one == other ==> one.means(other),
{
}

/// A profile is accepted exactly when its name, its program, every lighting
/// program in it and its preset are.
pub proof fn a_profile_is_accepted_for_everything_it_carries(profile: Profile)
    ensures
        profile.valid() <==> {
            &&& 1 <= profile.name@.len() <= 48
            &&& !text::is_space(profile.name@[0])
            &&& !text::is_space(profile.name@[profile.name@.len() - 1])
            &&& profile.program.valid()
            &&& forall|i: int|
                0 <= i < profile.lighting@.len() ==> (#[trigger] profile.lighting@[i]).program.valid()
            &&& profile.display matches Some(preset) ==> preset.valid()
        },
{
    a_name_is_accepted_without_space_at_its_ends(profile.name@);
}

proof fn lemma_gaps_name_needs(device: DeviceRecord, needs: Seq<CapabilityId>, need: CapabilityId)
    ensures
        (exists|i: int| 0 <= i < gaps(device, needs).len() && (#[trigger] gaps(device, needs)[i]).0 == need)
            <==> needs.contains(need) && !(device.entry(need) matches Some(entry)
            && entry.state.writable()),
    decreases needs.len(),
{
    let found = gaps(device, needs);
    if needs.len() > 0 {
        let fewer = needs.drop_last();
        let last = needs.last();
        let before = gaps(device, fewer);
        lemma_gaps_name_needs(device, fewer, need);
        assert(needs[needs.len() - 1] == last);
        if fewer.contains(need) {
            let i = choose|i: int| 0 <= i < fewer.len() && fewer[i] == need;
            assert(needs[i] == need);
        }
        if needs.contains(need) && need != last {
            let i = choose|i: int| 0 <= i < needs.len() && needs[i] == need;
            assert(fewer[i] == need);
        }
        if exists|i: int| 0 <= i < before.len() && (#[trigger] before[i]).0 == need {
            let i = choose|i: int| 0 <= i < before.len() && (#[trigger] before[i]).0 == need;
            assert(found[i] == before[i]);
        }
        if exists|i: int| 0 <= i < found.len() && (#[trigger] found[i]).0 == need {
            let i = choose|i: int| 0 <= i < found.len() && (#[trigger] found[i]).0 == need;
            if i < before.len() {
                assert(before[i] == found[i]);
            } else {
                assert(found[i] == gap(device, last)[i - before.len()]);
            }
        }
        if need == last && gap(device, last).len() > 0 {
            assert(found[before.len() as int] == gap(device, last)[0]);
        }
    }
}

/// What stands in the way of a program names exactly the capabilities it needs
/// that have no writable entry on the device.
pub proof fn what_is_in_the_way_is_what_cannot_be_written(
    device: DeviceRecord,
    program: CoolingProgram,
    need: CapabilityId,
)
    ensures
        (exists|i: int|
            0 <= i < gaps(device, program.needs()).len() && (#[trigger] gaps(device, program.needs())[i]).0 == need)
            <==> program.needs().contains(need) && !(device.entry(need) matches Some(entry)
            && entry.state.writable()),
{
    lemma_gaps_name_needs(device, program.needs(), need);
}

/// A program is refused for its pump before its fan: a fixed one only ever for
/// its pump, a curve for the first channel whose curve is not accepted.
pub proof fn a_program_is_refused_for_its_pump_first(
    program: CoolingProgram,
    error: ValidationError,
)
    requires
        !program.valid(),
        refuses_program(program, error),
    ensures
        !(program is Onboard),
        program matches CoolingProgram::Fixed { pump, fan } ==> error == (
        ValidationError::DutyOutOfRange { channel: Channel::Pump, value: pump, min: 51, max: 255 }),
        program matches CoolingProgram::Curve { pump, fan } ==> {
            &&& !curve_valid(Channel::Pump, pump@) ==> refuses_curve(Channel::Pump, pump@, error)
            &&& curve_valid(Channel::Pump, pump@) ==> refuses_curve(Channel::Fan, fan@, error)
        },
{
}

/// A profile is refused for the first thing in it that is not accepted: its
/// name, then its program, then its lighting, then its preset.
pub proof fn a_profile_is_refused_for_its_first_fault(profile: Profile, error: ValidationError)
    requires
        !profile.valid(),
        refuses_profile(profile, error),
    ensures
        !name_valid(profile.name@) ==> error is NameBlank || error is NameLength,
        name_valid(profile.name@) && !profile.program.valid() ==> refuses_program(
            profile.program,
            error,
        ),
        name_valid(profile.name@) && profile.program.valid() ==> (error is Lighting || error
            is Display),
        name_valid(profile.name@) && profile.program.valid() ==> (error is Lighting <==> exists|
            i: int,
        |
            0 <= i < profile.lighting@.len()
                && !(#[trigger] profile.lighting@[i]).program.valid()),
{
}

/// The lighting of a profile is refused for the first program in it that is not
/// accepted, by its channel.
pub proof fn lighting_is_refused_for_its_first_fault(
    commands: Seq<LightingCommand>,
    error: ValidationError,
) -> (at: int)
    requires
        refuses_lighting(commands, error),
    ensures
        0 <= at < commands.len(),
        !commands[at].program.valid(),
        forall|i: int| 0 <= i < at ==> (#[trigger] commands[i]).program.valid(),
        error matches ValidationError::Lighting { channel, .. } && channel == commands[at].channel,
{
    choose|index: int|
        {
            &&& 0 <= index < commands.len()
            &&& !(#[trigger] commands[index]).program.valid()
            &&& forall|earlier: int|
                0 <= earlier < index ==> (#[trigger] commands[earlier]).program.valid()
            &&& error matches ValidationError::Lighting { channel, detail }
            &&& channel == commands[index].channel
        }
}

/// What stands in the way is listed need by need, in the order of the needs:
/// nothing for a need with a writable entry, and otherwise the need with the
/// reason its entry gives or that it has none.
pub proof fn what_is_in_the_way_is_listed_need_by_need(
    device: DeviceRecord,
    needs: Seq<CapabilityId>,
    need: CapabilityId,
)
    ensures
        gaps(device, Seq::empty()).len() == 0,
        match device.entry(need) {
            Some(entry) => if entry.state.writable() {
                gaps(device, needs.push(need)) == gaps(device, needs)
            } else {
                gaps(device, needs.push(need)) == gaps(device, needs).push(
                    (need, entry.state.blocked_text()),
                )
            },
            None => {
                let all = gaps(device, needs.push(need));
                &&& all.len() == gaps(device, needs).len() + 1
                &&& all.drop_last() == gaps(device, needs)
                &&& all.last().0 == need
                &&& need.label_text().is_prefix_of(all.last().1)
            },
        },
{
    let more = needs.push(need);
    assert(more.drop_last() =~= needs);
    let before = gaps(device, needs);
    assert(before + Seq::<(CapabilityId, Seq<char>)>::empty() =~= before);
    match device.entry(need) {
        Some(entry) => {
            if !entry.state.writable() {
                assert(gaps(device, more) =~= before.push((need, entry.state.blocked_text())));
            }
        },
        None => {
            assert(gaps(device, more).drop_last() =~= before);
        },
    }
}

/// A profile made for another device meets one objection, which names the device
/// it was made for and then the one that is connected; one made for this device,
/// or for none, meets none.
pub proof fn a_profile_for_another_device_is_objected_to(profile: Profile, device: DeviceRecord)
    ensures
        profile.device is None ==> mismatch(profile, device).len() == 0,
        profile.device matches Some(expected) ==> (mismatch(profile, device).len() == 0 <==> expected
            == device.usb.id),
        profile.device matches Some(expected) ==> (expected != device.usb.id ==> {
            let reason = mismatch(profile, device)[0].1;
            &&& mismatch(profile, device).len() == 1
            &&& text::stands_at(reason, expected.text(), 16)
            &&& text::stands_at(
                reason,
                device.usb.id.text(),
                reason.len() - 1 - device.usb.id.text().len(),
            )
        }),
{
    if let Some(expected) = profile.device {
        if expected != device.usb.id {
            reveal_strlit("Profile targets ");
            reveal_strlit(".");
            let reason = mismatch(profile, device)[0].1;
            let own = device.usb.id.text();
            assert(reason.subrange(16, 16 + expected.text().len() as int) =~= expected.text());
            let at = reason.len() - 1 - own.len();
            assert(reason.subrange(at, at + own.len()) =~= own);
        }
    }
}

proof fn lemma_duty_out_of_range_told(error: ValidationError)
    ensures
        error matches ValidationError::DutyOutOfRange { channel, value, min, max } ==> text::tells(error.text(), seq![channel.label_text(), text::decimal(value as nat), text::decimal(min as nat), text::decimal(max as nat)]),
{
    if let ValidationError::DutyOutOfRange { channel, value, min, max } = error {
        let rest = "."@;
        let parts = Seq::<Seq<char>>::empty();
        text::lemma_tells("-"@, text::decimal(max as nat), rest, parts);
        let rest = "-"@ + text::decimal(max as nat) + rest;
        let parts = seq![text::decimal(max as nat)] + parts;
        text::lemma_tells(" is outside the accepted range "@, text::decimal(min as nat), rest, parts);
        let rest = " is outside the accepted range "@ + text::decimal(min as nat) + rest;
        let parts = seq![text::decimal(min as nat)] + parts;
        text::lemma_tells(" duty "@, text::decimal(value as nat), rest, parts);
        let rest = " duty "@ + text::decimal(value as nat) + rest;
        let parts = seq![text::decimal(value as nat)] + parts;
        text::lemma_tells(Seq::<char>::empty(), channel.label_text(), rest, parts);
        let rest = Seq::<char>::empty() + channel.label_text() + rest;
        let parts = seq![channel.label_text()] + parts;
        assert(error.text() =~= rest);
        assert(parts =~= seq![channel.label_text(), text::decimal(value as nat), text::decimal(min as nat), text::decimal(max as nat)]);
    }
}

proof fn lemma_curve_duty_out_of_range_told(error: ValidationError)
    ensures
        error matches ValidationError::CurveDutyOutOfRange { channel, temperature_c, value, min, max } ==> text::tells(error.text(), seq![channel.label_text(), text::decimal(temperature_c as nat), text::decimal(value as nat), text::decimal(min as nat), text::decimal(max as nat)]),
{
    if let ValidationError::CurveDutyOutOfRange { channel, temperature_c, value, min, max } = error {
        let rest = "."@;
        let parts = Seq::<Seq<char>>::empty();
        text::lemma_tells("-"@, text::decimal(max as nat), rest, parts);
        let rest = "-"@ + text::decimal(max as nat) + rest;
        let parts = seq![text::decimal(max as nat)] + parts;
        text::lemma_tells(", outside the accepted range "@, text::decimal(min as nat), rest, parts);
        let rest = ", outside the accepted range "@ + text::decimal(min as nat) + rest;
        let parts = seq![text::decimal(min as nat)] + parts;
        text::lemma_tells(" C is "@, text::decimal(value as nat), rest, parts);
        let rest = " C is "@ + text::decimal(value as nat) + rest;
        let parts = seq![text::decimal(value as nat)] + parts;
        text::lemma_tells(" curve duty at "@, text::decimal(temperature_c as nat), rest, parts);
        let rest = " curve duty at "@ + text::decimal(temperature_c as nat) + rest;
        let parts = seq![text::decimal(temperature_c as nat)] + parts;
        text::lemma_tells(Seq::<char>::empty(), channel.label_text(), rest, parts);
        let rest = Seq::<char>::empty() + channel.label_text() + rest;
        let parts = seq![channel.label_text()] + parts;
        assert(error.text() =~= rest);
        assert(parts =~= seq![channel.label_text(), text::decimal(temperature_c as nat), text::decimal(value as nat), text::decimal(min as nat), text::decimal(max as nat)]);
    }
}

proof fn lemma_curve_not_monotonic_told(error: ValidationError)
    ensures
        error matches ValidationError::CurveNotMonotonic { channel, previous, previous_temperature_c, value, temperature_c } ==> text::tells(error.text(), seq![channel.label_text(), text::decimal(previous as nat), text::decimal(previous_temperature_c as nat), text::decimal(value as nat), text::decimal(temperature_c as nat)]),
{
    if let ValidationError::CurveNotMonotonic { channel, previous, previous_temperature_c, value, temperature_c } = error {
        let rest = " C."@;
        let parts = Seq::<Seq<char>>::empty();
        text::lemma_tells(" at "@, text::decimal(temperature_c as nat), rest, parts);
        let rest = " at "@ + text::decimal(temperature_c as nat) + rest;
        let parts = seq![text::decimal(temperature_c as nat)] + parts;
        text::lemma_tells(" C then "@, text::decimal(value as nat), rest, parts);
        let rest = " C then "@ + text::decimal(value as nat) + rest;
        let parts = seq![text::decimal(value as nat)] + parts;
        text::lemma_tells(" at "@, text::decimal(previous_temperature_c as nat), rest, parts);
        let rest = " at "@ + text::decimal(previous_temperature_c as nat) + rest;
        let parts = seq![text::decimal(previous_temperature_c as nat)] + parts;
        text::lemma_tells(" curve duty must never decrease as temperature rises: "@, text::decimal(previous as nat), rest, parts);
        let rest = " curve duty must never decrease as temperature rises: "@ + text::decimal(previous as nat) + rest;
        let parts = seq![text::decimal(previous as nat)] + parts;
        text::lemma_tells(Seq::<char>::empty(), channel.label_text(), rest, parts);
        let rest = Seq::<char>::empty() + channel.label_text() + rest;
        let parts = seq![channel.label_text()] + parts;
        assert(error.text() =~= rest);
        assert(parts =~= seq![channel.label_text(), text::decimal(previous as nat), text::decimal(previous_temperature_c as nat), text::decimal(value as nat), text::decimal(temperature_c as nat)]);
    }
}

/// A refusal names every value it carries, each in its own place.
#[verifier::rlimit(60)]
pub proof fn a_refusal_names_what_it_carries(error: ValidationError)
    ensures
        match error {
            ValidationError::NameLength { min, max } => text::tells(
                error.text(),
                seq![text::decimal(min as nat), text::decimal(max as nat)],
            ),
            ValidationError::DutyOutOfRange { channel, value, min, max } => text::tells(
                error.text(),
                seq![channel.label_text(), text::decimal(value as nat), text::decimal(min as nat), text::decimal(max as nat)],
            ),
            ValidationError::CurvePointCount { expected, actual } => text::tells(
                error.text(),
                seq![text::decimal(expected as nat), text::decimal(actual as nat)],
            ),
            ValidationError::CurveDutyOutOfRange { channel, temperature_c, value, min, max } => text::tells(
                error.text(),
                seq![channel.label_text(), text::decimal(temperature_c as nat), text::decimal(value as nat), text::decimal(min as nat), text::decimal(max as nat)],
            ),
            ValidationError::Lighting { channel, detail } => text::tells(
                error.text(),
                seq![text::decimal(channel as nat), detail@],
            ),
            ValidationError::Display { detail } => text::tells(
                error.text(),
                seq![detail@],
            ),
            ValidationError::CurveNotMonotonic { channel, previous, previous_temperature_c, value, temperature_c } => text::tells(
                error.text(),
                seq![channel.label_text(), text::decimal(previous as nat), text::decimal(previous_temperature_c as nat), text::decimal(value as nat), text::decimal(temperature_c as nat)],
            ),
            _ => true,
        },
{
    match error {
        ValidationError::NameLength { min, max } => {
            let rest = " characters."@;
            let parts = Seq::<Seq<char>>::empty();
            text::lemma_tells("-"@, text::decimal(max as nat), rest, parts);
            let rest = "-"@ + text::decimal(max as nat) + rest;
            let parts = seq![text::decimal(max as nat)] + parts;
            text::lemma_tells("Profile name must be "@, text::decimal(min as nat), rest, parts);
            let rest = "Profile name must be "@ + text::decimal(min as nat) + rest;
            let parts = seq![text::decimal(min as nat)] + parts;
            assert(error.text() =~= rest);
            assert(parts =~= seq![text::decimal(min as nat), text::decimal(max as nat)]);
        },
        ValidationError::DutyOutOfRange { .. } => {
            lemma_duty_out_of_range_told(error);
        },
        ValidationError::CurvePointCount { expected, actual } => {
            let rest = "."@;
            let parts = Seq::<Seq<char>>::empty();
            text::lemma_tells(" points, got "@, text::decimal(actual as nat), rest, parts);
            let rest = " points, got "@ + text::decimal(actual as nat) + rest;
            let parts = seq![text::decimal(actual as nat)] + parts;
            text::lemma_tells("A curve must contain exactly "@, text::decimal(expected as nat), rest, parts);
            let rest = "A curve must contain exactly "@ + text::decimal(expected as nat) + rest;
            let parts = seq![text::decimal(expected as nat)] + parts;
            assert(error.text() =~= rest);
            assert(parts =~= seq![text::decimal(expected as nat), text::decimal(actual as nat)]);
        },
        ValidationError::CurveDutyOutOfRange { .. } => {
            lemma_curve_duty_out_of_range_told(error);
        },
        ValidationError::Lighting { channel, detail } => {
            let rest = Seq::<char>::empty();
            let parts = Seq::<Seq<char>>::empty();
            text::lemma_tells(" is invalid: "@, detail@, rest, parts);
            let rest = " is invalid: "@ + detail@ + rest;
            let parts = seq![detail@] + parts;
            text::lemma_tells("Lighting on channel "@, text::decimal(channel as nat), rest, parts);
            let rest = "Lighting on channel "@ + text::decimal(channel as nat) + rest;
            let parts = seq![text::decimal(channel as nat)] + parts;
            assert(error.text() =~= rest);
            assert(parts =~= seq![text::decimal(channel as nat), detail@]);
        },
        ValidationError::Display { detail } => {
            let rest = Seq::<char>::empty();
            let parts = Seq::<Seq<char>>::empty();
            text::lemma_tells("The panel preset is invalid: "@, detail@, rest, parts);
            let rest = "The panel preset is invalid: "@ + detail@ + rest;
            let parts = seq![detail@] + parts;
            assert(error.text() =~= rest);
            assert(parts =~= seq![detail@]);
        },
        ValidationError::CurveNotMonotonic { .. } => {
            lemma_curve_not_monotonic_told(error);
        },
        _ => {},
    }
}

} // verus!
