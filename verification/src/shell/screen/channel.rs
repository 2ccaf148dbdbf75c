//! One cooling channel as a line, with its controls one activation away.
//!
//! Every reading on the line comes from the hardware rather than from the
//! pending edit. A row that still names the previous program after a mode
//! change is a write that has not landed, and that is exactly what this line
//! has to be able to say.

use vstd::prelude::*;

use super::drag::Interaction;
use super::row::SliderField;
use super::tab::{cooling_row_tab, COOLING_OFFSET_CURVE, COOLING_OFFSET_DUTY};
use super::write::WriteTarget;
use super::Disclosure;
use crate::measure::Measured;
use crate::profile::curve::CurveNodes;
use crate::profile::{duty_to_percent, Channel, MAX_DUTY, MAX_DUTY_PERCENT};
use crate::shell::ControlState;
use crate::telemetry::view::MetricView;
use crate::telemetry::{PwmMode, SafetyAlert};
use crate::text;
use crate::theme::META_SEPARATOR;

verus! {

/// Width reserved for one readback on a channel row, in logical pixels.
pub const COOLING_READBACK_WIDTH: u32 = 124;

/// A compact labeled reading with its freshness qualifier.
#[derive(Debug)]
pub struct Readback {
    pub label: &'static str,
    pub value: String,
    pub qualifier: Option<&'static str>,
}

impl Readback {
    /// Whether this is how `view` reads, once a value on show is worded as
    /// `words`.
    pub open spec fn shows<T>(self, label: Seq<char>, view: MetricView<T>, words: spec_fn(T) -> Seq<char>) -> bool {
        &&& self.label@ == label
        &&& self.value@ == match view.held() {
            Some(value) => words(value),
            None => "--"@,
        }
        &&& match self.qualifier {
            Some(word) => view.qualifier_text() == Some(word@),
            None => view.qualifier_text() is None,
        }
    }
}

/// A compact labeled reading with its freshness qualifier.
fn readback<T, F: FnOnce(&T) -> String>(
    label: &'static str,
    view: &MetricView<T>,
    format: F,
    Ghost(words): Ghost<spec_fn(T) -> Seq<char>>,
) -> (shown: Readback)
    requires
        view.held() matches Some(value) ==> call_requires(format, (&value,)),
        forall|value: T, text: String| #[trigger]
            call_ensures(format, (&value,), text) ==> text@ == words(value),
    ensures
        shown.shows(label@, *view, words),
{
    let value: String = match view.value() {
        Some(value) => format(value),
        None => "--".to_owned(),
    };
    Readback { label, value, qualifier: view.qualifier() }
}

/// What the device says a channel is running, in the words of the mode select.
pub open spec fn reported(mode: Option<PwmMode>, percent: Option<Measured>) -> Seq<char> {
    match (mode, percent) {
        (None, _) => "Mode not reported"@,
        (Some(PwmMode::FullSpeed), _) => "Firmware failsafe"@,
        (Some(PwmMode::Fixed), Some(percent)) => "Fixed duty "@ + percent.whole_text() + "%"@,
        (Some(PwmMode::Fixed), None) => "Fixed duty"@,
        (Some(PwmMode::Curve), _) => "Onboard curve"@,
    }
}

/// What the device says a channel is running, in the words of the mode select.
///
/// The failsafe mode is named without a percentage on purpose: the duty read
/// back beside this line is whatever the firmware is actually running, and a
/// label claiming 100% next to a reading of 52% states a number the hardware is
/// not at.
pub fn reported_program(mode: Option<PwmMode>, percent: Option<Measured>) -> (words: String)
    ensures
        words@ == reported(mode, percent),
{
    match (mode, percent) {
        (None, _) => "Mode not reported".to_owned(),
        (Some(PwmMode::FullSpeed), _) => "Firmware failsafe".to_owned(),
        (Some(PwmMode::Fixed), Some(percent)) => {
            let mut words: String = "Fixed duty ".to_owned();
            words.append(percent.whole().as_str());
            words.append("%");
            words
        },
        (Some(PwmMode::Fixed), None) => "Fixed duty".to_owned(),
        (Some(PwmMode::Curve), _) => "Onboard curve".to_owned(),
    }
}

/// A duty as the channel row words it: the byte, and what it means in percent
/// when the channel reported one.
pub open spec fn duty_words(duty: u8, percent: Option<Measured>) -> Seq<char> {
    match percent {
        Some(percent) => text::decimal(duty as nat) + " ("@ + percent.whole_text() + "%)"@,
        None => text::decimal(duty as nat),
    }
}

/// The two words a critical condition gets on a channel row.
pub open spec fn alert_words(alert: SafetyAlert) -> Seq<char> {
    match alert {
        SafetyAlert::ChannelStalled { .. } => "Critical: not turning"@,
        SafetyAlert::LiquidCritical { .. } => "Critical: coolant"@,
    }
}

fn alert_labels(alerts: &Vec<SafetyAlert>) -> (labels: Vec<&'static str>)
    ensures
        labels@.len() == alerts@.len(),
        forall|i: int|
            0 <= i < labels@.len() ==> (#[trigger] labels@[i])@ == alert_words(alerts@[i]),
{
    let mut labels: Vec<&'static str> = Vec::new();
    for index in 0..alerts.len()
        invariant
            labels@.len() == index,
            forall|i: int|
                0 <= i < index ==> (#[trigger] labels@[i])@ == alert_words(alerts@[i]),
    {
        labels.push(
            match alerts[index] {
                SafetyAlert::ChannelStalled { .. } => "Critical: not turning",
                SafetyAlert::LiquidCritical { .. } => "Critical: coolant",
            },
        );
    }
    labels
}

/// Everything one channel row is drawn from, all of it reported by the device.
#[derive(Debug)]
pub struct ChannelInputs<'a> {
    pub rpm: &'a MetricView<Measured>,
    pub duty: &'a MetricView<u8>,
    pub mode: Option<PwmMode>,
    /// The duty the channel reported, in percent.
    pub percent: Option<Measured>,
    /// The alerts this channel has to show.
    pub alerts: &'a Vec<SafetyAlert>,
    pub open: bool,
}

/// One channel as a single line.
#[derive(Debug)]
pub struct ChannelRow {
    pub id: String,
    pub title: &'static str,
    pub program: String,
    pub rpm: Readback,
    pub pwm: Readback,
    pub alerts: Vec<&'static str>,
    pub open: bool,
    pub tab_index: isize,
}

/// One channel as a single line, with its controls one activation away.
///
/// Collapsed, the line is readback only: what the channel is doing, in what
/// mode. The percentage comes from the reported duty, not from the pending
/// edit.
pub fn channel_row(channel: Channel, inputs: ChannelInputs) -> (row: ChannelRow)
    ensures
        row.id@ == "cooling-row-"@ + text::ascii_lowered(channel.label_text()),
        row.title@ == channel.label_text(),
        row.program@ == reported(inputs.mode, inputs.percent),
        row.rpm.shows("RPM"@, *inputs.rpm, |rpm: Measured| rpm.whole_text()),
        row.pwm.shows("PWM"@, *inputs.duty, |duty: u8| duty_words(duty, inputs.percent)),
        row.alerts@.len() == inputs.alerts@.len(),
        forall|i: int|
            0 <= i < row.alerts@.len() ==> (#[trigger] row.alerts@[i])@ == alert_words(
                inputs.alerts@[i],
            ),
        row.open == inputs.open,
        row.tab_index == super::tab::cooling_row_stop(channel),
{
    let mut id: String = "cooling-row-".to_owned();
    id.append(text::lower_ascii(channel.label()).as_str());
    let percent: Option<Measured> = inputs.percent;
    let rpm_words = |rpm: &Measured| -> (words: String)
        ensures
            words@ == rpm.whole_text(),
    {
        rpm.whole()
    };
    let pwm_words = |duty: &u8| -> (words: String)
        ensures
            words@ == duty_words(*duty, percent),
    {
        let mut words: String = String::new();
        text::push_decimal(&mut words, *duty as u64);
        if let Some(percent) = percent {
            words.append(" (");
            words.append(percent.whole().as_str());
            words.append("%)");
        }
        assert(words@ =~= duty_words(*duty, percent));
        words
    };
    ChannelRow {
        id,
        title: channel.label(),
        program: reported_program(inputs.mode, inputs.percent),
        rpm: readback("RPM", inputs.rpm, rpm_words, Ghost(|rpm: Measured| rpm.whole_text())),
        pwm: readback("PWM", inputs.duty, pwm_words, Ghost(|duty: u8| duty_words(duty, percent))),
        alerts: alert_labels(inputs.alerts),
        open: inputs.open,
        tab_index: cooling_row_tab(channel),
    }
}

/// The fixed duty of one channel, and what its caption cannot hold.
#[derive(Debug)]
pub struct DutyField {
    pub slider: SliderField,
    /// The byte the device is actually being told, and the range this channel
    /// accepts.
    pub note: String,
}

/// The line under a duty track.
pub open spec fn duty_note(channel: Channel, target: u8) -> Seq<char> {
    text::decimal(target as nat) + "/"@ + text::decimal(MAX_DUTY as nat) + " "@ + META_SEPARATOR@
        + " accepted "@ + text::decimal(
        crate::profile::percent_of_duty(channel.floor() as int) as nat,
    ) + " to "@ + text::decimal(MAX_DUTY_PERCENT as nat) + "%"@
}

impl DutyField {
    /// Whether this is the slider of a channel whose duty is `target`.
    pub open spec fn shows(self, channel: Channel, target: u8, write: ControlState, tab_index: int) -> bool {
        &&& self.slider.id@ == text::ascii_lowered(channel.label_text()) + "-duty"@
        &&& self.slider.caption@ == "Fixed duty"@
        &&& self.slider.caption_shown
        &&& self.slider.value == crate::profile::percent_of_duty(target as int)
        &&& self.slider.low == crate::profile::percent_of_duty(channel.floor() as int)
        &&& self.slider.high == MAX_DUTY_PERCENT
        &&& self.slider.unit@ == "%"@
        &&& self.slider.state == write
        &&& self.slider.tab_index == tab_index
        &&& self.note@ == duty_note(channel, target)
    }
}

/// The fixed duty of one channel, as a slider the pointer drags.
///
/// In percent, not in raw duty: the driver stores a percentage, so a track over
/// the raw range would offer positions that change nothing.
pub fn duty_slider(channel: Channel, target: u8, write: &ControlState, tab_index: isize) -> (field:
    DutyField)
    ensures
        field.shows(channel, target, *write, tab_index as int),
{
    let floor: u8 = duty_to_percent(channel.min_duty());
    let mut id: String = text::lower_ascii(channel.label());
    id.append("-duty");
    let mut note: String = String::new();
    text::push_decimal(&mut note, target as u64);
    note.append("/");
    text::push_decimal(&mut note, MAX_DUTY as u64);
    note.append(" ");
    note.append(META_SEPARATOR);
    note.append(" accepted ");
    text::push_decimal(&mut note, floor as u64);
    note.append(" to ");
    text::push_decimal(&mut note, MAX_DUTY_PERCENT as u64);
    note.append("%");
    assert(note@ =~= duty_note(channel, target));
    DutyField {
        slider: SliderField {
            id,
            caption: "Fixed duty",
            caption_shown: true,
            value: duty_to_percent(target),
            low: floor,
            high: MAX_DUTY_PERCENT,
            unit: "%",
            state: write.clone(),
            tab_index,
        },
        note,
    }
}

/// How many percentage points a key press moves a duty.
pub open spec fn duty_steps(channel: Channel, target: u8, key: Seq<char>) -> Option<int> {
    let percent = crate::profile::percent_of_duty(target as int);
    if key == "left"@ || key == "down"@ {
        Some(-1int)
    } else if key == "right"@ || key == "up"@ {
        Some(1int)
    } else if key == "home"@ {
        Some(crate::profile::percent_of_duty(channel.floor() as int) - percent)
    } else if key == "end"@ {
        Some(MAX_DUTY_PERCENT - percent)
    } else {
        None
    }
}

/// How many percentage points a key press moves a duty: one, which is exactly
/// one setting on the device, or all the way to an end of what the channel
/// accepts.
pub fn duty_key(channel: Channel, target: u8, key: &str) -> (steps: Option<i16>)
    ensures
        steps is Some <==> duty_steps(channel, target, key@) is Some,
        steps matches Some(steps) ==> steps == duty_steps(channel, target, key@)->0,
{
    let percent: i16 = duty_to_percent(target) as i16;
    if text::same(key, "left") || text::same(key, "down") {
        Some(-1)
    } else if text::same(key, "right") || text::same(key, "up") {
        Some(1)
    } else if text::same(key, "home") {
        Some(duty_to_percent(channel.min_duty()) as i16 - percent)
    } else if text::same(key, "end") {
        Some(MAX_DUTY_PERCENT as i16 - percent)
    } else {
        None
    }
}

/// What a key press on a duty slider leads to: how many percentage points the
/// duty moves, and the target whose quiet period begins. A slider that cannot
/// be operated, and a key it does not answer to, lead to nothing.
pub fn press_duty_key(channel: Channel, target: u8, state: &ControlState, key: &str) -> (change:
    Option<(i16, WriteTarget)>)
    ensures
        match duty_steps(channel, target, key@) {
            Some(steps) if *state is Enabled => change == Some(
                (steps as i16, WriteTarget::Cooling),
            ),
            _ => change is None,
        },
{
    if !state.is_enabled() {
        return None;
    }
    match duty_key(channel, target, key) {
        Some(steps) => Some((steps, WriteTarget::Cooling)),
        None => None,
    }
}

/// Home and End reach the ends of the accepted range in one press.
pub proof fn home_and_end_reach_the_ends(channel: Channel, target: u8)
    ensures
        ({
            let percent = crate::profile::percent_of_duty(target as int);
            &&& percent + duty_steps(channel, target, "home"@)->0
                == crate::profile::percent_of_duty(channel.floor() as int)
            &&& percent + duty_steps(channel, target, "end"@)->0 == MAX_DUTY_PERCENT
        }),
{
    reveal_strlit("left");
    reveal_strlit("down");
    reveal_strlit("right");
    reveal_strlit("up");
    reveal_strlit("home");
    reveal_strlit("end");
    assert("home"@[0] == 'h' && "left"@[0] == 'l' && "down"@[0] == 'd');
    assert("home"@.len() == 4 && "end"@.len() == 3 && "right"@.len() == 5 && "up"@.len() == 2);
    assert("left"@.len() == 4 && "down"@.len() == 4);
}

/// The curve of one channel and everything that drives it.
#[derive(Debug)]
pub struct CurveField {
    pub nodes: CurveNodes,
    pub selected: usize,
    pub state: ControlState,
    pub tab_index: isize,
    /// Why the curve cannot be edited, when it cannot.
    pub refusal: Option<String>,
    /// The coolant temperature marked on the plot.
    pub liquid: Option<Measured>,
}

/// The curve of one channel and everything that drives it.
pub fn curve_editor(
    nodes: CurveNodes,
    selected: usize,
    state: ControlState,
    tab_index: isize,
    liquid: Option<Measured>,
) -> (field: CurveField)
    ensures
        field.nodes == nodes,
        field.selected == selected,
        field.state == state,
        field.tab_index == tab_index,
        field.liquid == liquid,
        match state.says() {
            Some(words) => field.refusal matches Some(refusal) && refusal@ == words,
            None => field.refusal is None,
        },
{
    let refusal: Option<String> = match state.message() {
        Some(words) => Some(words.to_owned()),
        None => None,
    };
    CurveField { nodes, selected, state, tab_index, refusal, liquid }
}

/// What a key press does to a plot.
#[derive(Debug, Clone, Copy, PartialEq, Eq, Structural)]
pub enum CurveKey {
    /// Select the node before.
    Back,
    /// Select the node after.
    Forward,
    /// Raise the selected node by one setting, which is an edit.
    Raise,
    /// Lower the selected node by one setting, which is an edit.
    Lower,
}

/// What a key press does to a plot.
pub fn curve_key(key: &str) -> (action: Option<CurveKey>)
    ensures
        action == if key@ == "left"@ {
            Some(CurveKey::Back)
        } else if key@ == "right"@ {
            Some(CurveKey::Forward)
        } else if key@ == "up"@ {
            Some(CurveKey::Raise)
        } else if key@ == "down"@ {
            Some(CurveKey::Lower)
        } else {
            None
        },
{
    if text::same(key, "left") {
        Some(CurveKey::Back)
    } else if text::same(key, "right") {
        Some(CurveKey::Forward)
    } else if text::same(key, "up") {
        Some(CurveKey::Raise)
    } else if text::same(key, "down") {
        Some(CurveKey::Lower)
    } else {
        None
    }
}

/// Press a channel's row: it opens, or closes, with the keyboard back on the
/// first node of the plot it reveals, and whatever list is open closes. A list
/// anchored to the row that just moved would be left pointing at nothing.
pub fn press_row(channel: Channel, rows: &mut Disclosure, interaction: &mut Interaction)
    ensures
        final(rows).cooling@ == if super::keyed::keeps(old(rows).cooling@, channel) {
            super::keyed::without(old(rows).cooling@, channel)
        } else {
            old(rows).cooling@.push((channel, ()))
        },
        final(rows).lighting == old(rows).lighting,
        final(rows).nodes@ == super::keyed::with(old(rows).nodes@, channel, 0),
        final(interaction)@ == (super::drag::Pointer { popover: None, ..old(interaction)@ }),
{
    rows.toggle_cooling(channel);
    interaction.dismiss();
}

/// What a key press on a plot does: what it asks for, the target whose quiet
/// period begins when it is an edit, and the node the keyboard is on afterwards.
/// Moving the selection is no edit, and an edit moves no selection. A plot that
/// cannot be edited answers to no key.
pub fn press_curve_key(
    channel: Channel,
    state: &ControlState,
    key: &str,
    rows: &mut Disclosure,
) -> (change: Option<(CurveKey, Option<WriteTarget>)>)
    ensures
        change == if !(*state is Enabled) {
            None
        } else if key@ == "left"@ {
            Some((CurveKey::Back, None))
        } else if key@ == "right"@ {
            Some((CurveKey::Forward, None))
        } else if key@ == "up"@ {
            Some((CurveKey::Raise, Some(WriteTarget::Cooling)))
        } else if key@ == "down"@ {
            Some((CurveKey::Lower, Some(WriteTarget::Cooling)))
        } else {
            None
        },
        final(rows).nodes@ == match change {
            Some((CurveKey::Back, _)) => super::keyed::with(
                old(rows).nodes@,
                channel,
                super::on_plot(super::selected_node(old(rows).nodes@, channel) - 1) as usize,
            ),
            Some((CurveKey::Forward, _)) => super::keyed::with(
                old(rows).nodes@,
                channel,
                super::on_plot(super::selected_node(old(rows).nodes@, channel) + 1) as usize,
            ),
            _ => old(rows).nodes@,
        },
        final(rows).cooling == old(rows).cooling,
        final(rows).lighting == old(rows).lighting,
{
    if !state.is_enabled() {
        return None;
    }
    match curve_key(key) {
        Some(CurveKey::Back) => {
            rows.step_node(channel, -1);
            Some((CurveKey::Back, None))
        },
        Some(CurveKey::Forward) => {
            rows.step_node(channel, 1);
            Some((CurveKey::Forward, None))
        },
        Some(CurveKey::Raise) => Some((CurveKey::Raise, Some(WriteTarget::Cooling))),
        Some(CurveKey::Lower) => Some((CurveKey::Lower, Some(WriteTarget::Cooling))),
        None => None,
    }
}

/// What an open channel row reveals.
#[derive(Debug)]
pub struct ChannelDetail {
    /// The duty slider, which only the fixed mode uses.
    pub duty: Option<DutyField>,
    pub curve: CurveField,
}

/// What the open row reveals: the curve, plus the slider the mode uses.
///
/// The curve is editable whenever the hardware accepts one, not only while the
/// curve mode is selected: what gates it is the channel's own curve capability.
pub fn channel_detail(
    channel: Channel,
    fixed_mode: bool,
    target: u8,
    write: &ControlState,
    nodes: CurveNodes,
    selected: usize,
    curve_state: ControlState,
    liquid: Option<Measured>,
) -> (detail: ChannelDetail)
    ensures
        detail.duty is Some <==> fixed_mode,
        detail.duty matches Some(field) ==> field.shows(
            channel,
            target,
            *write,
            super::tab::cooling_row_stop(channel) + COOLING_OFFSET_DUTY,
        ),
        detail.curve.nodes == nodes,
        detail.curve.selected == selected,
        detail.curve.state == curve_state,
        detail.curve.tab_index == super::tab::cooling_row_stop(channel) + COOLING_OFFSET_CURVE,
        detail.curve.liquid == liquid,
        match curve_state.says() {
            Some(words) => detail.curve.refusal matches Some(refusal) && refusal@ == words,
            None => detail.curve.refusal is None,
        },
{
    let base: isize = cooling_row_tab(channel);
    let duty: Option<DutyField> = if fixed_mode {
        Some(duty_slider(channel, target, write, base + COOLING_OFFSET_DUTY))
    } else {
        None
    };
    ChannelDetail {
        duty,
        curve: curve_editor(nodes, selected, curve_state, base + COOLING_OFFSET_CURVE, liquid),
    }
}

/// An arrow key moves a duty by one percentage point, Home to the least the
/// channel accepts (a fifth for the pump, nothing for a fan), End to all of it,
/// and no other key moves it.
pub proof fn a_key_moves_a_duty_by_one_or_to_an_end(channel: Channel, target: u8, key: Seq<char>)
    ensures
        key == "left"@ || key == "down"@ ==> duty_steps(channel, target, key) == Some(-1int),
        key == "right"@ || key == "up"@ ==> duty_steps(channel, target, key) == Some(1int),
        key == "home"@ ==> (duty_steps(channel, target, key) matches Some(steps)
            && crate::profile::percent_of_duty(target as int) + steps == match channel {
            Channel::Pump => 20int,
            Channel::Fan => 0,
        }),
        key == "end"@ ==> (duty_steps(channel, target, key) matches Some(steps)
            && crate::profile::percent_of_duty(target as int) + steps == 100),
        duty_steps(channel, target, key) is Some ==> key == "left"@ || key == "down"@ || key
            == "right"@ || key == "up"@ || key == "home"@ || key == "end"@,
{
    reveal_strlit("left");
    reveal_strlit("down");
    reveal_strlit("right");
    reveal_strlit("up");
    reveal_strlit("home");
    reveal_strlit("end");
    assert("left"@[0] == 'l' && "down"@[0] == 'd' && "right"@[0] == 'r' && "up"@[0] == 'u'
        && "home"@[0] == 'h' && "end"@[0] == 'e');
    crate::profile::the_floors_of_the_channels();
}

/// A duty slider shows the percentage nearest to the duty, between the least the
/// channel accepts and all of it.
pub proof fn a_duty_slider_shows_the_nearest_percentage(
    field: DutyField,
    channel: Channel,
    target: u8,
    write: ControlState,
    tab_index: int,
)
    requires
        field.shows(channel, target, write, tab_index),
    ensures
        -255 <= 2 * (255 * field.slider.value - 100 * target) <= 255,
        field.slider.low == match channel {
            Channel::Pump => 20int,
            Channel::Fan => 0,
        },
        field.slider.high == 100,
        field.slider.state == write,
        field.slider.tab_index == tab_index,
        text::decimal(target as nat).is_prefix_of(field.note@),
{
    crate::profile::a_duty_becomes_the_nearest_percentage(target as int);
    crate::profile::the_floors_of_the_channels();
}

/// What is on show is read as its own words, and marked when it is aging; what
/// is not available is read as nothing.
pub proof fn a_readback_says_what_is_on_show<T>(
    shown: Readback,
    label: Seq<char>,
    view: MetricView<T>,
    words: spec_fn(T) -> Seq<char>,
)
    requires
        shown.shows(label, view, words),
    ensures
        shown.label@ == label,
        view matches MetricView::Fresh { value } ==> shown.value@ == words(value)
            && shown.qualifier is None,
        view matches MetricView::Stale { value, .. } ==> shown.value@ == words(value) && (
        shown.qualifier matches Some(word) && word@ == "Stale"@),
        view is Unavailable ==> shown.value@ == "--"@ && (shown.qualifier matches Some(word)
            && word@ == "N/A"@),
{
}

/// A channel is said to run what it reports: its duty only in the fixed mode,
/// and nothing it did not report.
pub proof fn a_channel_is_said_to_run_what_it_reports(percent: Measured, other: Option<Measured>)
    ensures
        reported(Some(PwmMode::Fixed), Some(percent)) == "Fixed duty "@ + percent.whole_text()
            + "%"@,
        reported(Some(PwmMode::Fixed), None) == "Fixed duty"@,
        reported(Some(PwmMode::Curve), other) == "Onboard curve"@,
        reported(Some(PwmMode::FullSpeed), other) == "Firmware failsafe"@,
        reported(None, other) == "Mode not reported"@,
{
}

/// The line under a duty track tells the duty out of 255, and then the range the
/// channel accepts, in percent.
pub proof fn a_duty_note_tells_the_duty_and_the_range(channel: Channel, target: u8)
    ensures
        text::tells(
            duty_note(channel, target),
            seq![
                text::decimal(target as nat),
                text::decimal(255),
                text::decimal(
                    match channel {
                        Channel::Pump => 20,
                        Channel::Fan => 0,
                    },
                ),
                text::decimal(100),
            ],
        ),
{
    let low = text::decimal(
        match channel {
            Channel::Pump => 20,
            Channel::Fan => 0,
        },
    );
    crate::profile::the_floors_of_the_channels();
    let rest = "%"@;
    let parts = Seq::<Seq<char>>::empty();
    text::lemma_tells(" to "@, text::decimal(100), rest, parts);
    let rest = " to "@ + text::decimal(100) + rest;
    let parts = seq![text::decimal(100)] + parts;
    text::lemma_tells(" "@ + META_SEPARATOR@ + " accepted "@, low, rest, parts);
    let rest = " "@ + META_SEPARATOR@ + " accepted "@ + low + rest;
    let parts = seq![low] + parts;
    text::lemma_tells("/"@, text::decimal(255), rest, parts);
    let rest = "/"@ + text::decimal(255) + rest;
    let parts = seq![text::decimal(255)] + parts;
    text::lemma_tells(Seq::<char>::empty(), text::decimal(target as nat), rest, parts);
    let rest = Seq::<char>::empty() + text::decimal(target as nat) + rest;
    let parts = seq![text::decimal(target as nat)] + parts;
    assert(duty_note(channel, target) =~= rest);
    assert(parts =~= seq![text::decimal(target as nat), text::decimal(255), low, text::decimal(100)]);
}

/// A duty is worded by its byte, with its percentage behind it when the channel
/// reported one.
pub proof fn a_duty_is_worded_by_its_byte(duty: u8, percent: Measured)
    ensures
        duty_words(duty, None) == text::decimal(duty as nat),
        text::tells(
            duty_words(duty, Some(percent)),
            seq![text::decimal(duty as nat), percent.whole_text()],
        ),
{
    let rest = "%)"@;
    let parts = Seq::<Seq<char>>::empty();
    text::lemma_tells(" ("@, percent.whole_text(), rest, parts);
    let rest = " ("@ + percent.whole_text() + rest;
    let parts = seq![percent.whole_text()] + parts;
    text::lemma_tells(Seq::<char>::empty(), text::decimal(duty as nat), rest, parts);
    assert(Seq::<char>::empty() + text::decimal(duty as nat) + rest =~= duty_words(
        duty,
        Some(percent),
    ));
    assert(seq![text::decimal(duty as nat)] + parts =~= seq![
        text::decimal(duty as nat),
        percent.whole_text(),
    ]);
}

/// An alert on a row says whether the channel or the coolant is critical.
pub proof fn an_alert_on_a_row_says_what_is_critical(alert: SafetyAlert)
    ensures
        alert is ChannelStalled ==> alert_words(alert) == "Critical: not turning"@,
        alert is LiquidCritical ==> alert_words(alert) == "Critical: coolant"@,
{
}

} // verus!
