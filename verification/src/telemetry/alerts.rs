//! Conditions the Cooling screen must surface immediately.
//!
//! A state machine over the sample stream: it consumes [`KrakenTelemetry`] and
//! decides what an operator has to be told right now.

use vstd::prelude::*;

use super::{ChannelTelemetry, KrakenTelemetry, PwmMode, Reading};
use crate::measure::Measured;
use crate::profile::Channel;
use crate::text;

verus! {

/// Liquid temperature at which the firmware failsafe owns the cooler, in
/// thousandths of a degree Celsius.
///
/// What the firmware does from here up is only documented for the pump, so the
/// alert does not claim it for the fan.
pub const LIQUID_CRITICAL_THOUSANDTHS_C: i32 = 60_000;

/// Consecutive zero-RPM samples that turn a commanded channel into an alert.
pub const STALL_SAMPLE_COUNT: u8 = 3;

/// The failsafe threshold as a measured temperature.
pub open spec fn critical_temperature() -> Measured {
    Measured::Finite { thousandths: LIQUID_CRITICAL_THOUSANDTHS_C }
}

/// The failsafe threshold as a measured temperature.
pub fn liquid_critical() -> (threshold_c: Measured)
    ensures
        threshold_c == critical_temperature(),
{
    Measured::Finite { thousandths: LIQUID_CRITICAL_THOUSANDTHS_C }
}

/// A condition the Cooling screen must surface immediately.
#[derive(Debug, Clone, PartialEq)]
pub enum SafetyAlert {
    /// The coolant is at or above the failsafe threshold.
    LiquidCritical { temperature_c: Measured, threshold_c: Measured },
    /// A commanded channel has reported zero RPM for several samples.
    ChannelStalled { channel: Channel, commanded_duty: u8, samples: u8, rpm: u32 },
}

impl SafetyAlert {
    /// The channel this alert is about, when it names one.
    pub fn channel(&self) -> (channel: Option<Channel>)
        ensures
            channel == match *self {
                Self::LiquidCritical { .. } => None,
                Self::ChannelStalled { channel, .. } => Some(channel),
            },
    {
        match self {
            Self::LiquidCritical { .. } => None,
            Self::ChannelStalled { channel, .. } => Some(*channel),
        }
    }

    /// One sentence naming the affected channel and the current readback.
    pub open spec fn message_text(self) -> Seq<char> {
        match self {
            Self::LiquidCritical { temperature_c, threshold_c } => "Liquid temperature is "@
                + temperature_c.one_decimal_text() + " C, at or above the "@
                + threshold_c.whole_text()
                + " C failsafe threshold. The firmware forces the pump to 100% from here up. Whether it does the same for the fan is not established, so treat the fan as still running the curve. This application overrides neither."@,
            Self::ChannelStalled { channel, commanded_duty, samples, rpm } => channel.label_text()
                + " reports "@ + text::decimal(rpm as nat) + " RPM for "@ + text::decimal(
                samples as nat,
            ) + " consecutive samples while a duty of "@ + text::decimal(commanded_duty as nat)
                + "/255 is commanded. Readback shows the channel is not turning."@,
        }
    }

    /// One sentence naming the affected channel and the current readback.
    pub fn message(&self) -> (message: String)
        ensures
            message@ == self.message_text(),
    {
        let mut message: String = String::new();
        match self {
            Self::LiquidCritical { temperature_c, threshold_c } => {
                message.append("Liquid temperature is ");
                message.append(super::format_temperature(*temperature_c).as_str());
                message.append(" C, at or above the ");
                message.append(threshold_c.whole().as_str());
                message.append(
                    " C failsafe threshold. The firmware forces the pump to 100% from here up. Whether it does the same for the fan is not established, so treat the fan as still running the curve. This application overrides neither.",
                );
            },
            Self::ChannelStalled { channel, commanded_duty, samples, rpm } => {
                message.append(channel.label());
                message.append(" reports ");
                text::push_decimal(&mut message, *rpm as u64);
                message.append(" RPM for ");
                text::push_decimal(&mut message, *samples as u64);
                message.append(" consecutive samples while a duty of ");
                text::push_decimal(&mut message, *commanded_duty as u64);
                message.append(
                    "/255 is commanded. Readback shows the channel is not turning.",
                );
            },
        }
        assert(message@ =~= self.message_text());
        message
    }
}

/// The duty a channel is currently being told to run at: the full duty in the
/// firmware failsafe whatever `pwmN` holds, the reported duty otherwise, and
/// nothing when the mode or the duty could not be read.
pub open spec fn commanded(entry: ChannelTelemetry) -> Option<u8> {
    match entry.mode.held() {
        None => None,
        Some(PwmMode::FullSpeed) => Some(255),
        Some(_) => entry.duty.held(),
    }
}

fn commanded_duty(entry: &ChannelTelemetry) -> (duty: Option<u8>)
    ensures
        duty == commanded(*entry),
{
    match entry.mode.copied() {
        None => None,
        Some(PwmMode::FullSpeed) => Some(255),
        Some(_) => entry.duty.copied(),
    }
}

/// How many zero samples in a row a channel has after one more sample.
///
/// A sample that could not be read proves nothing either way and leaves the
/// streak as it is. The streak stops counting at the end of a byte.
pub open spec fn next_streak(streak: u8, entry: ChannelTelemetry) -> u8 {
    match (commanded(entry), entry.rpm.held()) {
        (Some(duty), Some(rpm)) => if duty > 0 && rpm == 0 {
            if streak < 255 {
                (streak + 1) as u8
            } else {
                255
            }
        } else {
            0
        },
        _ => streak,
    }
}

/// The stall alert one sample raises, if it raises one.
pub open spec fn stall_alert(
    channel: Channel,
    streak: u8,
    entry: ChannelTelemetry,
) -> Seq<SafetyAlert> {
    match (commanded(entry), entry.rpm.held()) {
        (Some(duty), Some(rpm)) => if duty > 0 && rpm == 0 && next_streak(streak, entry)
            >= STALL_SAMPLE_COUNT {
            seq![
                SafetyAlert::ChannelStalled {
                    channel,
                    commanded_duty: duty,
                    samples: next_streak(streak, entry),
                    rpm: 0,
                },
            ]
        } else {
            Seq::empty()
        },
        _ => Seq::empty(),
    }
}

/// Whether a temperature is 60 degrees Celsius or more.
pub open spec fn is_critical(temperature_c: Measured) -> bool {
    match temperature_c {
        Measured::Finite { thousandths } => thousandths >= 60_000,
        Measured::Binary { significand, shift } => significand >= 60 * crate::measure::power(
            shift as nat,
        ),
        Measured::Whole { negative, magnitude } => !negative && magnitude >= 60,
        Measured::PositiveInfinity => true,
        Measured::NegativeInfinity => false,
        Measured::NotANumber => false,
    }
}

/// The temperature alert one sample raises, if it raises one.
pub open spec fn liquid_alert(telemetry: KrakenTelemetry) -> Seq<SafetyAlert> {
    match telemetry.liquid_temperature_c.held() {
        Some(temperature_c) => if temperature_c.reaches(LIQUID_CRITICAL_THOUSANDTHS_C) {
            seq![
                SafetyAlert::LiquidCritical { temperature_c, threshold_c: critical_temperature() },
            ]
        } else {
            Seq::empty()
        },
        None => Seq::empty(),
    }
}

/// Turns a stream of Kraken samples into the alerts the Cooling screen shows.
///
/// A single zero-RPM reading is not a fault: a tachometer misses a pulse now
/// and then. [`STALL_SAMPLE_COUNT`] consecutive zero readings on a channel that
/// is being commanded to turn is.
#[derive(Debug, Clone, PartialEq, Eq)]
pub struct AlertTracker {
    pump_zero_samples: u8,
    fan_zero_samples: u8,
}

impl Default for AlertTracker {
    fn default() -> (tracker: Self)
        ensures
            forall|channel: Channel| tracker.streak(channel) == 0,
    {
        Self { pump_zero_samples: 0, fan_zero_samples: 0 }
    }
}

impl AlertTracker {
    /// How many zero samples in a row a channel has.
    pub closed spec fn streak(self, channel: Channel) -> u8 {
        match channel {
            Channel::Pump => self.pump_zero_samples,
            Channel::Fan => self.fan_zero_samples,
        }
    }

    pub fn new() -> (tracker: Self)
        ensures
            forall|channel: Channel| tracker.streak(channel) == 0,
    {
        Self { pump_zero_samples: 0, fan_zero_samples: 0 }
    }

    /// Fold one sample in and return every alert currently active.
    pub fn observe(&mut self, telemetry: &KrakenTelemetry) -> (alerts: Vec<SafetyAlert>)
        ensures
            forall|channel: Channel|
                #[trigger] final(self).streak(channel) == next_streak(
                    old(self).streak(channel),
                    telemetry.of(channel),
                ),
            alerts@ == liquid_alert(*telemetry) + stall_alert(
                Channel::Pump,
                old(self).streak(Channel::Pump),
                telemetry.pump,
            ) + stall_alert(Channel::Fan, old(self).streak(Channel::Fan), telemetry.fan),
            match telemetry.liquid_temperature_c {
                Reading::Valid { value } => if is_critical(value) {
                    alerts@.len() > 0 && alerts@[0] == (SafetyAlert::LiquidCritical {
                        temperature_c: value,
                        threshold_c: Measured::Finite { thousandths: 60_000 },
                    })
                } else {
                    forall|i: int| 0 <= i < alerts@.len() ==> !(#[trigger] alerts@[i] is LiquidCritical)
                },
                Reading::Unavailable { .. } => forall|i: int|
                    0 <= i < alerts@.len() ==> !(#[trigger] alerts@[i] is LiquidCritical),
            },
    {
        let mut alerts: Vec<SafetyAlert> = Vec::new();
        if let Some(temperature_c) = telemetry.liquid_temperature_c.copied() {
            if temperature_c.at_least(LIQUID_CRITICAL_THOUSANDTHS_C) {
                alerts.push(
                    SafetyAlert::LiquidCritical { temperature_c, threshold_c: liquid_critical() },
                );
            }
        }
        assert(alerts@ =~= liquid_alert(*telemetry));
        self.pump_zero_samples = fold(
            Channel::Pump,
            self.pump_zero_samples,
            &telemetry.pump,
            &mut alerts,
        );
        self.fan_zero_samples = fold(
            Channel::Fan,
            self.fan_zero_samples,
            &telemetry.fan,
            &mut alerts,
        );
        proof {
            if let Reading::Valid { value } = telemetry.liquid_temperature_c {
                the_coolant_alert_is_raised_from_sixty_degrees_up(*telemetry, value);
            }
        }
        alerts
    }
}

/// Fold one channel's sample into its streak, adding the alert it raises.
fn fold(
    channel: Channel,
    streak: u8,
    entry: &ChannelTelemetry,
    alerts: &mut Vec<SafetyAlert>,
) -> (next: u8)
    ensures
        next == next_streak(streak, *entry),
        final(alerts)@ == old(alerts)@ + stall_alert(channel, streak, *entry),
{
    let ghost before = alerts@;
    assert(before + Seq::<SafetyAlert>::empty() =~= before);
    match (commanded_duty(entry), entry.rpm.copied()) {
        (Some(duty), Some(rpm)) => {
            if duty > 0 && rpm == 0 {
                let next: u8 = if streak < 255 {
                    streak + 1
                } else {
                    255
                };
                if next >= STALL_SAMPLE_COUNT {
                    alerts.push(
                        SafetyAlert::ChannelStalled {
                            channel,
                            commanded_duty: duty,
                            samples: next,
                            rpm: 0,
                        },
                    );
                    assert(alerts@ =~= before + stall_alert(channel, streak, *entry));
                }
                next
            } else {
                0
            }
        },
        _ => streak,
    }
}

/// A temperature that was read raises the coolant alert, carrying that
/// temperature, exactly when it is 60 degrees Celsius or more.
pub proof fn the_coolant_alert_is_raised_from_sixty_degrees_up(
    telemetry: KrakenTelemetry,
    value: Measured,
)
    requires
        telemetry.liquid_temperature_c == (Reading::Valid { value }),
    ensures
        liquid_alert(telemetry) == if is_critical(value) {
            seq![
                SafetyAlert::LiquidCritical {
                    temperature_c: value,
                    threshold_c: Measured::Finite { thousandths: 60_000 },
                },
            ]
        } else {
            Seq::<SafetyAlert>::empty()
        },
{
    if let Measured::Binary { significand, shift } = value {
        let unit = crate::measure::power(shift as nat) as int;
        assert(1000 * significand < 60_000 * unit <==> significand < 60 * unit) by (nonlinear_arith);
    }
}

/// A temperature that could not be read raises none.
pub proof fn an_unread_temperature_raises_no_alert(telemetry: KrakenTelemetry)
    requires
        telemetry.liquid_temperature_c is Unavailable,
    ensures
        liquid_alert(telemetry).len() == 0,
{
}

/// A temperature above one that raises the coolant alert raises it too.
pub proof fn a_hotter_coolant_is_no_less_critical(
    cooler: KrakenTelemetry,
    hotter: KrakenTelemetry,
    low: i32,
    high: i32,
)
    requires
        cooler.liquid_temperature_c == (Reading::Valid {
            value: Measured::Finite { thousandths: low },
        }),
        hotter.liquid_temperature_c == (Reading::Valid {
            value: Measured::Finite { thousandths: high },
        }),
        low <= high,
        liquid_alert(cooler).len() > 0,
    ensures
        liquid_alert(hotter).len() > 0,
        low >= 60_000,
{
}

/// What a channel is commanded is what it reports, once its mode is known, and
/// the full duty in the failsafe.
pub proof fn a_channel_is_commanded_what_it_reports(entry: ChannelTelemetry)
    ensures
        match (entry.mode, entry.duty) {
            (Reading::Valid { value: PwmMode::FullSpeed }, _) => commanded(entry) == Some(255u8),
            (Reading::Valid { .. }, Reading::Valid { value }) => commanded(entry) == Some(value),
            _ => commanded(entry) is None,
        },
{
}

/// The streak after a number of samples, each of them the same.
pub open spec fn streak_after(streak: u8, entry: ChannelTelemetry, samples: nat) -> u8
    decreases samples,
{
    if samples == 0 {
        streak
    } else {
        next_streak(streak_after(streak, entry, (samples - 1) as nat), entry)
    }
}

/// A commanded channel that stands still for sample after sample, from a fresh
/// start, alerts from the third sample on, with the number of samples it has
/// stood still for, and not before.
pub proof fn a_channel_alerts_from_the_third_zero_sample_on(
    channel: Channel,
    entry: ChannelTelemetry,
    duty: u8,
    samples: nat,
)
    requires
        entry.mode is Valid,
        entry.mode != (Reading::Valid { value: PwmMode::FullSpeed }),
        entry.duty == (Reading::Valid { value: duty }),
        duty > 0,
        entry.rpm == (Reading::Valid { value: 0u32 }),
        0 < samples <= 255,
    ensures
        streak_after(0, entry, samples) == samples,
        stall_alert(channel, streak_after(0, entry, (samples - 1) as nat), entry) == if samples >= 3 {
            seq![
                SafetyAlert::ChannelStalled {
                    channel,
                    commanded_duty: duty,
                    samples: samples as u8,
                    rpm: 0,
                },
            ]
        } else {
            Seq::<SafetyAlert>::empty()
        },
    decreases samples,
{
    if samples > 1 {
        a_channel_alerts_from_the_third_zero_sample_on(channel, entry, duty, (samples - 1) as nat);
    } else {
        assert(streak_after(0, entry, 0) == 0);
    }
}

/// A channel that turns, at whatever speed, raises no alert and starts over.
pub proof fn a_turning_channel_raises_no_alert(
    channel: Channel,
    streak: u8,
    entry: ChannelTelemetry,
    rpm: u32,
)
    requires
        entry.rpm == (Reading::Valid { value: rpm }),
        rpm > 0,
    ensures
        stall_alert(channel, streak, entry).len() == 0,
        commanded(entry) is Some ==> next_streak(streak, entry) == 0,
{
}

/// A channel alerts exactly when this sample is a zero on a channel told to
/// turn and the ones before it were at least [`STALL_SAMPLE_COUNT`] less one
/// such samples in a row.
pub proof fn a_stall_takes_a_full_streak(channel: Channel, streak: u8, entry: ChannelTelemetry)
    ensures
        stall_alert(channel, streak, entry).len() > 0 <==> {
            &&& commanded(entry) matches Some(duty)
            &&& duty > 0
            &&& entry.rpm.held() == Some(0u32)
            &&& streak >= STALL_SAMPLE_COUNT - 1
        },
        stall_alert(channel, streak, entry).len() <= 1,
{
}

/// A sample that could not be read neither raises nor clears a stall.
pub proof fn an_unreadable_sample_changes_nothing(
    channel: Channel,
    streak: u8,
    entry: ChannelTelemetry,
)
    requires
        entry.rpm.held() is None || commanded(entry) is None,
    ensures
        next_streak(streak, entry) == streak,
        stall_alert(channel, streak, entry).len() == 0,
{
}

/// A sample that turns, and a channel told to stand still, start the streak
/// over.
pub proof fn a_turning_or_idle_sample_clears_the_streak(streak: u8, entry: ChannelTelemetry)
    requires
        commanded(entry) is Some,
        entry.rpm.held() is Some,
        entry.rpm.held() != Some(0u32) || commanded(entry) == Some(0u8),
    ensures
        next_streak(streak, entry) == 0,
{
}

/// The firmware failsafe commands the full duty whatever the duty attribute
/// holds.
pub proof fn the_failsafe_commands_the_full_duty(entry: ChannelTelemetry)
    requires
        entry.mode.held() == Some(PwmMode::FullSpeed),
    ensures
        commanded(entry) == Some(255u8),
{
}

/// An alert names every value it carries, each in its own place.
pub proof fn an_alert_names_what_it_carries(alert: SafetyAlert)
    ensures
        match alert {
            SafetyAlert::LiquidCritical { temperature_c, threshold_c } => text::tells(
                alert.message_text(),
                seq![temperature_c.one_decimal_text(), threshold_c.whole_text()],
            ),
            SafetyAlert::ChannelStalled { channel, commanded_duty, samples, rpm } => text::tells(
                alert.message_text(),
                seq![channel.label_text(), text::decimal(rpm as nat), text::decimal(samples as nat), text::decimal(commanded_duty as nat)],
            ),
        },
{
    match alert {
        SafetyAlert::LiquidCritical { temperature_c, threshold_c } => {
            let rest = " C failsafe threshold. The firmware forces the pump to 100% from here up. Whether it does the same for the fan is not established, so treat the fan as still running the curve. This application overrides neither."@;
            let parts = Seq::<Seq<char>>::empty();
            text::lemma_tells(" C, at or above the "@, threshold_c.whole_text(), rest, parts);
            let rest = " C, at or above the "@ + threshold_c.whole_text() + rest;
            let parts = seq![threshold_c.whole_text()] + parts;
            text::lemma_tells("Liquid temperature is "@, temperature_c.one_decimal_text(), rest, parts);
            let rest = "Liquid temperature is "@ + temperature_c.one_decimal_text() + rest;
            let parts = seq![temperature_c.one_decimal_text()] + parts;
            assert(alert.message_text() =~= rest);
            assert(parts =~= seq![temperature_c.one_decimal_text(), threshold_c.whole_text()]);
        },
        SafetyAlert::ChannelStalled { channel, commanded_duty, samples, rpm } => {
            let rest = "/255 is commanded. Readback shows the channel is not turning."@;
            let parts = Seq::<Seq<char>>::empty();
            text::lemma_tells(" consecutive samples while a duty of "@, text::decimal(commanded_duty as nat), rest, parts);
            let rest = " consecutive samples while a duty of "@ + text::decimal(commanded_duty as nat) + rest;
            let parts = seq![text::decimal(commanded_duty as nat)] + parts;
            text::lemma_tells(" RPM for "@, text::decimal(samples as nat), rest, parts);
            let rest = " RPM for "@ + text::decimal(samples as nat) + rest;
            let parts = seq![text::decimal(samples as nat)] + parts;
            text::lemma_tells(" reports "@, text::decimal(rpm as nat), rest, parts);
            let rest = " reports "@ + text::decimal(rpm as nat) + rest;
            let parts = seq![text::decimal(rpm as nat)] + parts;
            text::lemma_tells(Seq::<char>::empty(), channel.label_text(), rest, parts);
            let rest = Seq::<char>::empty() + channel.label_text() + rest;
            let parts = seq![channel.label_text()] + parts;
            assert(alert.message_text() =~= rest);
            assert(parts =~= seq![channel.label_text(), text::decimal(rpm as nat), text::decimal(samples as nat), text::decimal(commanded_duty as nat)]);
        },
    }
}

} // verus!
