//! The Lighting screen: one card per device, one row per addressable thing.
//!
//! The controller card lists its channels, the Kraken card carries its panel,
//! and each row opens the controls that belong to it alone.

use vstd::prelude::*;

use super::cooling::outcome_note;
use super::drag::Interaction;
use super::row::{device_row, row_thumbnail, DeviceRow, LightingRow, RowGlyph, RowLine, RowNote};
use super::swatch::{color_picker, ColorField, ColorPicker};
use super::tab::{
    lcd_row_tab, lighting_row_tab, CHANNEL_OFFSET_COLOR, CHANNEL_OFFSET_DIRECTION,
    CHANNEL_OFFSET_SPEED, LCD_OFFSET_RESUME, ROW_OFFSET_MODE,
};
use super::write::WriteTarget;
use super::{SelectField, SelectId, SelectOption};
use crate::ipc::ChannelState;
use crate::lighting::{
    EffectDirection, EffectSpeed, LightingCommand, LightingError, LightingProgram, Rgb,
};
use crate::lists;
use crate::shell::{Command, CommandOutcome, ControlState, DeviceSummary, Note, NoteLevel};
use crate::text;
use crate::theme::Color;
use crate::DeviceId;

verus! {

/// What the controller's card is headed with.
///
/// What the device does rather than the product string it reports, which is a
/// vendor wordmark.
pub const RGB_CONTROLLER_NAME: &'static str = "RGB & Fan Controller";

/// What the controller's card says when nothing else explains the silence.
pub const NO_CONTROLLER: &'static str =
    "No lighting controller answered. Lighting is read-only until it does.";

/// A channel by its number.
pub open spec fn channel_words(channel: u8) -> Seq<char> {
    "Channel "@ + text::decimal(channel as nat)
}

fn channel_name(channel: u8) -> (words: String)
    ensures
        words@ == channel_words(channel),
{
    let mut words: String = "Channel ".to_owned();
    text::push_decimal(&mut words, channel as u64);
    words
}

/// What a channel row leads with.
pub open spec fn headline(state: ChannelState) -> Seq<char> {
    if state.accessories@.len() == 0 {
        channel_words(state.channel)
    } else if state.accessories@.len() == 1 {
        state.accessories@[0]@
    } else {
        text::decimal(state.accessories@.len()) + " accessories"@
    }
}

/// What a channel row leads with: what the controller says is plugged in.
///
/// The channel number is not repeated here. It follows as a qualifier, where a
/// row that has nothing plugged in carries it as the heading instead.
pub fn channel_headline(state: &ChannelState) -> (words: String)
    ensures
        words@ == headline(*state),
{
    let count: usize = state.accessories.len();
    if count == 0 {
        channel_name(state.channel)
    } else if count == 1 {
        state.accessories[0].clone()
    } else {
        let mut words: String = String::new();
        text::push_decimal(&mut words, count as u64);
        words.append(" accessories");
        assert(words@ =~= headline(*state));
        words
    }
}

/// What the daemon knows of one channel.
pub open spec fn state_of(states: Seq<ChannelState>, channel: u8) -> Option<ChannelState> {
    lists::first_where(states, |state: ChannelState| state.channel == channel)
}

fn find_state(states: &Vec<ChannelState>, channel: u8) -> (found: Option<&ChannelState>)
    ensures
        found == match state_of(states@, channel) {
            Some(state) => Some(&state),
            None => None,
        },
{
    let ghost wanted = |state: ChannelState| state.channel == channel;
    let mut index: usize = 0;
    while index < states.len()
        invariant
            index <= states@.len(),
            wanted == (|state: ChannelState| state.channel == channel),
            lists::first_from(states@, wanted, index as int) == lists::first_where(states@, wanted),
        decreases states@.len() - index,
    {
        if states[index].channel == channel {
            return Some(&states[index]);
        }
        index = index + 1;
    }
    None
}

/// What one channel is pending, as its editor holds it.
#[derive(Debug)]
pub struct ChannelEditor<'a> {
    pub channel: u8,
    /// Every mode offered, by value and label.
    pub modes: Vec<SelectOption>,
    /// The value of the mode that is pending.
    pub mode: String,
    /// Whether the pending mode is an effect.
    pub effect: bool,
    pub brightness: u8,
    /// The digits of the color, for a mode that has one.
    pub color: Option<&'a str>,
}

/// The color a field's digits name, when they name one.
pub open spec fn named_color(digits: Seq<char>) -> Option<Color> {
    let six = crate::lighting::color_digits(digits);
    if text::byte_len(six) == crate::lighting::HEX_COLOR_DIGITS && crate::lighting::all_hex_digits(
        six,
    ) {
        Some(Color::packed(crate::lighting::color_of(six)))
    } else {
        None
    }
}

/// The color a field's digits name, when they name one.
pub fn parse_color(digits: &str) -> (color: Option<Color>)
    ensures
        color == named_color(digits@),
{
    match Rgb::parse_hex(digits) {
        Ok(color) => Some(Color::from(color)),
        Err(_) => None,
    }
}

/// What the controller answered for a channel, when it answered that something
/// is plugged into it.
pub open spec fn detected(states: Seq<ChannelState>, channel: u8) -> Option<ChannelState> {
    match state_of(states, channel) {
        Some(state) => if state.accessories@.len() > 0 {
            Some(state)
        } else {
            None
        },
        None => None,
    }
}

/// One lighting channel as a single line, with its controls one press away.
///
/// Every control on the row writes by itself, so every one of them carries the
/// state of the capability the pending mode needs. What is plugged in leads,
/// and the channel follows it as a qualifier: it is what the controller
/// answered, never a label this product chose. The thumbnail is what the
/// channel is pending.
pub fn channel_row_lighting(
    editor: ChannelEditor,
    states: &Vec<ChannelState>,
    fixed: &ControlState,
    effects: &ControlState,
    index: usize,
    open: bool,
) -> (row: DeviceRow)
    requires
        super::tab::lighting_row_stop(index as int) + ROW_OFFSET_MODE <= isize::MAX,
    ensures
        ({
            let base = super::tab::lighting_row_stop(index as int);
            let write = if editor.effect {
                *effects
            } else {
                *fixed
            };
            let own = LightingRow::Channel(editor.channel);
            let found = detected(states@, editor.channel);
            let shown = match editor.color {
                Some(digits) => named_color(digits@),
                None => None,
            };
            &&& row.head.id@ == "lighting-row-"@ + own.key_text()
            &&& row.head.tab_index == base
            &&& row.head.open == open
            &&& row.head.title@ == match found {
                Some(state) => headline(state),
                None => channel_words(editor.channel),
            }
            &&& match row.head.fragment {
                Some(words) => found is Some && words@ == channel_words(editor.channel),
                None => found is None,
            }
            &&& row.head.sentence is None
            &&& row.thumbnail.glyph == if found is Some {
                RowGlyph::Windmill
            } else {
                RowGlyph::CircleDashed
            }
            &&& !row.thumbnail.round
            &&& match shown {
                Some(color) => row.thumbnail.fill == color && row.thumbnail.ink
                    == super::row::Ink::ReadableOn(color),
                None => row.thumbnail.fill == Color(crate::theme::color::SURFACE)
                    && row.thumbnail.ink == super::row::Ink::Fixed(
                    Color(crate::theme::color::TEXT_DISABLED),
                ),
            }
            &&& row.brightness.shows_brightness(
                own,
                editor.brightness,
                write,
                base + super::tab::ROW_OFFSET_BRIGHTNESS,
            )
            &&& row.mode.id == SelectId::ChannelMode(editor.channel)
            &&& row.mode.options == editor.modes
            &&& row.mode.selected == editor.mode
            &&& row.mode.state == write
            &&& row.mode.tab_index == base + ROW_OFFSET_MODE
        }),
{
    let base: isize = lighting_row_tab(index);
    let write: ControlState = if editor.effect {
        effects.clone()
    } else {
        fixed.clone()
    };
    let found: Option<&ChannelState> = match find_state(states, editor.channel) {
        Some(state) => {
            if state.accessories.len() > 0 {
                Some(state)
            } else {
                None
            }
        },
        None => None,
    };
    let (title, note, glyph): (String, Option<RowNote>, RowGlyph) = match found {
        Some(state) => (
            channel_headline(state),
            Some(RowNote::Fragment(channel_name(editor.channel))),
            RowGlyph::Windmill,
        ),
        None => (channel_name(editor.channel), None, RowGlyph::CircleDashed),
    };
    let shown: Option<Color> = match editor.color {
        Some(digits) => parse_color(digits),
        None => None,
    };
    device_row(
        LightingRow::Channel(editor.channel),
        RowLine {
            thumbnail: row_thumbnail(shown, glyph, false),
            title,
            note,
            brightness: editor.brightness,
            write: write.clone(),
            mode: SelectField {
                id: SelectId::ChannelMode(editor.channel),
                options: editor.modes,
                selected: editor.mode,
                state: write,
                tab_index: base + ROW_OFFSET_MODE,
            },
            tab_index: base,
        },
        open,
    )
}

/// What an open channel row reveals.
#[derive(Debug)]
pub struct LightingDetail {
    /// What the controller was last told to show.
    pub sent: String,
    pub color: Option<ColorField>,
    pub speed: Option<SelectField>,
    pub direction: Option<SelectField>,
    /// What is wrong with the combination, when no single field can say it.
    pub problem: Option<Note>,
}

/// What a channel last had sent to it.
pub open spec fn sent_words(states: Seq<ChannelState>, channel: u8) -> Seq<char> {
    match state_of(states, channel) {
        Some(ChannelState { committed: Some(program), .. }) => "Last sent: "@
            + program.summary_text(),
        _ => "Nothing sent to this channel yet"@,
    }
}

/// What a channel last had sent to it.
///
/// The channel answers no report that reads its program back, so this record is
/// the only evidence there is, and saying "sent" rather than "showing" is what
/// keeps it honest.
pub fn last_sent(states: &Vec<ChannelState>, channel: u8) -> (words: String)
    ensures
        words@ == sent_words(states@, channel),
{
    if let Some(state) = find_state(states, channel) {
        if let Some(program) = &state.committed {
            let mut words: String = "Last sent: ".to_owned();
            words.append(program.summary().as_str());
            return words;
        }
    }
    "Nothing sent to this channel yet".to_owned()
}

/// The speeds a control offers, slowest first.
pub open spec fn speed_pairs() -> Seq<(Seq<char>, Seq<char>)> {
    seq![
        EffectSpeed::Slowest,
        EffectSpeed::Slower,
        EffectSpeed::Normal,
        EffectSpeed::Faster,
        EffectSpeed::Fastest,
    ].map_values(|speed: EffectSpeed| (speed.key_text(), speed.label_text()))
}

fn speed_options() -> (options: Vec<SelectOption>)
    ensures
        super::pairs(options@) == speed_pairs(),
{
    let all: [EffectSpeed; 5] = EffectSpeed::all();
    let mut options: Vec<SelectOption> = Vec::new();
    for index in 0..5usize
        invariant
            options@.len() == index,
            forall|i: int|
                0 <= i < index ==> (#[trigger] options@[i]).pair() == (
                    all@[i].key_text(),
                    all@[i].label_text(),
                ),
    {
        options.push(SelectOption::new(all[index].key(), all[index].label()));
    }
    assert(super::pairs(options@) =~= speed_pairs());
    options
}

/// The directions a control offers.
pub open spec fn direction_pairs() -> Seq<(Seq<char>, Seq<char>)> {
    seq![EffectDirection::Forward, EffectDirection::Backward].map_values(
        |direction: EffectDirection| (direction.key_text(), direction.label_text()),
    )
}

fn direction_options() -> (options: Vec<SelectOption>)
    ensures
        super::pairs(options@) == direction_pairs(),
{
    let all: [EffectDirection; 2] = EffectDirection::all();
    let mut options: Vec<SelectOption> = Vec::new();
    for index in 0..2usize
        invariant
            options@.len() == index,
            forall|i: int|
                0 <= i < index ==> (#[trigger] options@[i]).pair() == (
                    all@[i].key_text(),
                    all@[i].label_text(),
                ),
    {
        options.push(SelectOption::new(all[index].key(), all[index].label()));
    }
    assert(super::pairs(options@) =~= direction_pairs());
    options
}

/// The parameters a channel's pending mode uses: each `None` when the mode has
/// no such parameter.
#[derive(Debug)]
pub struct ModeParameters<'a> {
    pub color: Option<&'a str>,
    pub speed: Option<EffectSpeed>,
    pub direction: Option<EffectDirection>,
}

/// What an open channel row reveals: its color and its effect parameters.
///
/// No action. Every control here writes on its own once the row goes quiet.
pub fn channel_detail_lighting(
    channel: u8,
    parameters: ModeParameters,
    problem: Option<&LightingError>,
    states: &Vec<ChannelState>,
    write: &ControlState,
    base: isize,
    interaction: &Interaction,
) -> (detail: LightingDetail)
    requires
        base + CHANNEL_OFFSET_DIRECTION <= isize::MAX,
    ensures
        detail.sent@ == sent_words(states@, channel),
        match (parameters.color, detail.color) {
            (Some(digits), Some(field)) => field.shows(
                ColorPicker::Channel(channel),
                digits@,
                *write,
                base + CHANNEL_OFFSET_COLOR,
                interaction@,
            ),
            (None, None) => true,
            _ => false,
        },
        match (parameters.speed, detail.speed) {
            (Some(speed), Some(field)) => {
                &&& field.id == SelectId::ChannelSpeed(channel)
                &&& super::pairs(field.options@) == speed_pairs()
                &&& field.selected@ == speed.key_text()
                &&& field.state == *write
                &&& field.tab_index == base + CHANNEL_OFFSET_SPEED
            },
            (None, None) => true,
            _ => false,
        },
        match (parameters.direction, detail.direction) {
            (Some(direction), Some(field)) => {
                &&& field.id == SelectId::ChannelDirection(channel)
                &&& super::pairs(field.options@) == direction_pairs()
                &&& field.selected@ == direction.key_text()
                &&& field.state == *write
                &&& field.tab_index == base + CHANNEL_OFFSET_DIRECTION
            },
            (None, None) => true,
            _ => false,
        },
        match (problem, detail.problem) {
            (Some(error), Some(note)) => note.level is Warning && note.message@ == error.text(),
            (None, None) => true,
            _ => false,
        },
{
    LightingDetail {
        sent: last_sent(states, channel),
        color: match parameters.color {
            Some(digits) => Some(
                color_picker(
                    ColorPicker::Channel(channel),
                    digits,
                    write.clone(),
                    base + CHANNEL_OFFSET_COLOR,
                    interaction,
                ),
            ),
            None => None,
        },
        speed: match parameters.speed {
            Some(speed) => Some(
                SelectField {
                    id: SelectId::ChannelSpeed(channel),
                    options: speed_options(),
                    selected: speed.key().to_owned(),
                    state: write.clone(),
                    tab_index: base + CHANNEL_OFFSET_SPEED,
                },
            ),
            None => None,
        },
        direction: match parameters.direction {
            Some(direction) => Some(
                SelectField {
                    id: SelectId::ChannelDirection(channel),
                    options: direction_options(),
                    selected: direction.key().to_owned(),
                    state: write.clone(),
                    tab_index: base + CHANNEL_OFFSET_DIRECTION,
                },
            ),
            None => None,
        },
        problem: match problem {
            Some(error) => Some(Note::new(NoteLevel::Warning, error.to_text().as_str())),
            None => None,
        },
    }
}

/// What choosing a speed leads to: the speed the value names, and the row that
/// is due a write. A value that names none leads to nothing.
pub fn choose_speed(channel: u8, value: &str) -> (choice: Option<(EffectSpeed, WriteTarget)>)
    ensures
        forall|speed: EffectSpeed|
            (choice == Some((speed, WriteTarget::Lighting(LightingRow::Channel(channel)))))
                <==> value@ == #[trigger] speed.key_text(),
        choice matches Some((speed, target)) ==> value@ == speed.key_text() && target
            == WriteTarget::Lighting(LightingRow::Channel(channel)),
{
    match EffectSpeed::from_key(value) {
        Some(speed) => {
            assert(value@ == speed.key_text());
            Some((speed, WriteTarget::Lighting(LightingRow::Channel(channel))))
        },
        None => None,
    }
}

/// What choosing a direction leads to: the direction the value names, and the
/// row that is due a write. A value that names none leads to nothing.
pub fn choose_direction(channel: u8, value: &str) -> (choice: Option<(EffectDirection, WriteTarget)>)
    ensures
        forall|direction: EffectDirection|
            (choice == Some((direction, WriteTarget::Lighting(LightingRow::Channel(channel)))))
                <==> value@ == #[trigger] direction.key_text(),
        choice matches Some((direction, target)) ==> value@ == direction.key_text() && target
            == WriteTarget::Lighting(LightingRow::Channel(channel)),
{
    match EffectDirection::from_key(value) {
        Some(direction) => {
            assert(value@ == direction.key_text());
            Some((direction, WriteTarget::Lighting(LightingRow::Channel(channel))))
        },
        None => None,
    }
}

/// Whether a channel was already sent this program.
pub open spec fn already_sent(states: Seq<ChannelState>, channel: u8, program: LightingProgram) -> bool {
    state_of(states, channel) matches Some(ChannelState { committed: Some(committed), .. })
        && committed.means(program)
}

/// The command that sends one channel's pending program, unless it is already
/// showing it or no program can be built.
pub fn send_lighting(channel: u8, program: Option<LightingProgram>, states: &Vec<ChannelState>) -> (command:
    Option<Command>)
    ensures
        command == match program {
            Some(program) => if already_sent(states@, channel, program) {
                None
            } else {
                Some(Command::ApplyLighting(LightingCommand { channel, program }))
            },
            None => None,
        },
{
    let program: LightingProgram = program?;
    if let Some(state) = find_state(states, channel) {
        if let Some(committed) = &state.committed {
            if committed.same(&program) {
                return None;
            }
        }
    }
    Some(Command::ApplyLighting(LightingCommand { channel, program }))
}

/// The product string a device reported, if it answered at all.
pub open spec fn name_of(devices: Seq<DeviceSummary>, device: DeviceId) -> Option<Seq<char>> {
    match lists::first_where(devices, |summary: DeviceSummary| summary.id == device) {
        Some(summary) => Some(summary.name@),
        None => None,
    }
}

/// The product string a device reported, if it answered at all.
pub fn reported_name(devices: &Vec<DeviceSummary>, device: DeviceId) -> (name: Option<&str>)
    ensures
        match name {
            Some(name) => name_of(devices@, device) == Some(name@),
            None => name_of(devices@, device) is None,
        },
{
    let ghost wanted = |summary: DeviceSummary| summary.id == device;
    let mut index: usize = 0;
    while index < devices.len()
        invariant
            index <= devices@.len(),
            wanted == (|summary: DeviceSummary| summary.id == device),
            lists::first_from(devices@, wanted, index as int) == lists::first_where(
                devices@,
                wanted,
            ),
        decreases devices@.len() - index,
    {
        if devices[index].id == device {
            return Some(devices[index].name.as_str());
        }
        index = index + 1;
    }
    None
}

/// The Lighting screen around its rows.
#[derive(Debug)]
pub struct LightingView {
    pub title: &'static str,
    pub subtitle: &'static str,
    /// What the controller's card is headed with.
    pub controller: &'static str,
    /// What the controller's card says in place of its rows.
    pub warning: Option<Note>,
    /// The channels that get a row, in order.
    pub channels: Vec<u8>,
    /// What the Kraken's card is headed with.
    pub panel: String,
    /// First stop of the panel row's block.
    pub panel_tab: isize,
    pub outcome: Option<Note>,
}

/// The Lighting screen around its rows.
///
/// No channel means the controller has not told this daemon what it is, and the
/// reason the capability record carries is the whole content of its card. The
/// Kraken's card is headed with what the cooler reported: there is one panel,
/// so the exact model is what tells the operator which cooler answered.
pub fn lighting(
    states: &Vec<ChannelState>,
    fixed: &ControlState,
    devices: &Vec<DeviceSummary>,
    outcome: Option<&CommandOutcome>,
) -> (view: LightingView)
    requires
        super::tab::lighting_row_stop(states@.len() as int) + LCD_OFFSET_RESUME <= isize::MAX,
    ensures
        view.title@ == "Lighting"@,
        view.subtitle@
            == "What each device shows: the controller's channels, and the panel on the Kraken."@,
        view.controller@ == RGB_CONTROLLER_NAME@,
        view.channels@ == states@.map_values(|state: ChannelState| state.channel),
        match view.warning {
            Some(note) => states@.len() == 0 && note.level is Warning && note.message@
                == match fixed.says() {
                Some(words) => words,
                None => NO_CONTROLLER@,
            },
            None => states@.len() > 0,
        },
        view.panel@ == match name_of(devices@, crate::kraken_base()) {
            Some(name) => name,
            None => "Kraken"@,
        },
        view.panel_tab == super::tab::lighting_row_stop(states@.len() as int),
        match outcome {
            None => view.outcome is None,
            Some(outcome) => match super::cooling::outcome_level(outcome.severity) {
                None => view.outcome is None,
                Some(level) => view.outcome matches Some(note) && note.level == level
                    && note.message@ == outcome.message@,
            },
        },
{
    let mut channels: Vec<u8> = Vec::new();
    for index in 0..states.len()
        invariant
            channels@ == states@.take(index as int).map_values(|state: ChannelState| state.channel),
    {
        channels.push(states[index].channel);
        assert(channels@ =~= states@.take(index + 1).map_values(
            |state: ChannelState| state.channel,
        ));
    }
    assert(states@.take(states@.len() as int) =~= states@);
    let warning: Option<Note> = if states.len() == 0 {
        let words: &str = match fixed.message() {
            Some(words) => words,
            None => NO_CONTROLLER,
        };
        Some(Note::new(NoteLevel::Warning, words))
    } else {
        None
    };
    let panel: &str = match reported_name(devices, crate::kraken_base()) {
        Some(name) => name,
        None => "Kraken",
    };
    LightingView {
        title: "Lighting",
        subtitle: "What each device shows: the controller's channels, and the panel on the Kraken.",
        controller: RGB_CONTROLLER_NAME,
        warning,
        channels,
        panel: panel.to_owned(),
        panel_tab: lcd_row_tab(states.len()),
        outcome: outcome_note(outcome),
    }
}

/// A row leads with what is plugged in: its name when it is one thing, how many
/// when there are more, and the channel's number when there is nothing.
pub proof fn a_row_leads_with_what_is_plugged_in(state: ChannelState)
    ensures
        state.accessories@.len() == 0 ==> headline(state) == "Channel "@ + text::decimal(
            state.channel as nat,
        ),
        state.accessories@.len() == 1 ==> headline(state) == state.accessories@[0]@,
        state.accessories@.len() >= 2 ==> text::decimal(state.accessories@.len()).is_prefix_of(
            headline(state),
        ),
{
}

/// What is known of a channel is the first state of that channel, and something
/// is plugged in exactly when that state names an accessory.
pub proof fn a_channel_is_known_by_its_first_state(states: Seq<ChannelState>, channel: u8) -> (at:
    int)
    ensures
        match state_of(states, channel) {
            Some(state) => {
                &&& 0 <= at < states.len()
                &&& states[at] == state
                &&& state.channel == channel
                &&& forall|i: int| 0 <= i < at ==> (#[trigger] states[i]).channel != channel
            },
            None => forall|i: int|
                0 <= i < states.len() ==> (#[trigger] states[i]).channel != channel,
        },
        detected(states, channel) is Some <==> (state_of(states, channel) matches Some(state)
            && state.accessories@.len() > 0),
        detected(states, channel) is Some ==> detected(states, channel) == state_of(
            states,
            channel,
        ),
{
    let wanted = |state: ChannelState| state.channel == channel;
    let at = lists::first_where_comes_first(states, wanted);
    assert(forall|i: int|
        0 <= i < states.len() ==> wanted(#[trigger] states[i]) == (states[i].channel == channel));
    at
}

/// A program counts as sent only when the channel is known to have been told to
/// show the same; a channel that is not known, or was told nothing, is sent it.
pub proof fn a_program_counts_as_sent_when_it_is_committed(
    states: Seq<ChannelState>,
    channel: u8,
    program: LightingProgram,
)
    ensures
        state_of(states, channel) is None ==> !already_sent(states, channel, program),
        state_of(states, channel) matches Some(state) ==> match state.committed {
            None => !already_sent(states, channel, program),
            Some(committed) => already_sent(states, channel, program) <==> committed.means(program),
        },
{
}

/// A field names a color exactly when six hexadecimal digits are left of it
/// without the space around it and the sign before it, and then it is the color
/// of those digits.
pub proof fn a_field_names_the_color_of_its_digits(digits: Seq<char>)
    ensures
        ({
            let six = crate::lighting::color_digits(digits);
            &&& named_color(digits) is Some <==> text::byte_len(six) == 6
                && crate::lighting::all_hex_digits(six)
            &&& named_color(digits) matches Some(color) ==> color.0 == 65536
                * crate::lighting::color_of(six).r + 256 * crate::lighting::color_of(six).g
                + crate::lighting::color_of(six).b
        }),
{
    let six = crate::lighting::color_digits(digits);
    crate::theme::a_color_is_packed_byte_by_byte(crate::lighting::color_of(six), Color(0));
}

/// Every speed and both directions are offered, each under its own key, from the
/// slowest and from forward on.
pub proof fn every_speed_and_direction_is_offered(speed: EffectSpeed, direction: EffectDirection)
    ensures
        speed_pairs().len() == 5,
        speed_pairs().contains((speed.key_text(), speed.label_text())),
        direction_pairs().len() == 2,
        direction_pairs().contains((direction.key_text(), direction.label_text())),
{
    let at = match speed {
        EffectSpeed::Slowest => 0int,
        EffectSpeed::Slower => 1int,
        EffectSpeed::Normal => 2int,
        EffectSpeed::Faster => 3int,
        EffectSpeed::Fastest => 4int,
    };
    assert(speed_pairs()[at] == (speed.key_text(), speed.label_text()));
    let turn = match direction {
        EffectDirection::Forward => 0int,
        EffectDirection::Backward => 1int,
    };
    assert(direction_pairs()[turn] == (direction.key_text(), direction.label_text()));
}

/// A channel that was told something says what, and one that was told nothing
/// says so.
pub proof fn a_channel_says_what_it_was_told(states: Seq<ChannelState>, channel: u8)
    ensures
        match state_of(states, channel) {
            Some(state) => match state.committed {
                Some(program) => text::tells(
                    sent_words(states, channel),
                    seq![program.summary_text()],
                ),
                None => sent_words(states, channel) == "Nothing sent to this channel yet"@,
            },
            None => sent_words(states, channel) == "Nothing sent to this channel yet"@,
        },
{
    if let Some(ChannelState { committed: Some(program), .. }) = state_of(states, channel) {
        let rest = Seq::<char>::empty();
        let parts = Seq::<Seq<char>>::empty();
        text::lemma_tells("Last sent: "@, program.summary_text(), rest, parts);
        let rest = "Last sent: "@ + program.summary_text() + rest;
        let parts = seq![program.summary_text()] + parts;
        assert(sent_words(states, channel) =~= rest);
        assert(parts =~= seq![program.summary_text()]);
    }
}

/// A device is called what the first device of its id reports.
pub proof fn a_device_is_called_what_it_reports(
    devices: Seq<DeviceSummary>,
    device: DeviceId,
) -> (at: int)
    ensures
        match name_of(devices, device) {
            Some(name) => {
                &&& 0 <= at < devices.len()
                &&& devices[at].id == device
                &&& devices[at].name@ == name
                &&& forall|i: int| 0 <= i < at ==> (#[trigger] devices[i]).id != device
            },
            None => forall|i: int| 0 <= i < devices.len() ==> (#[trigger] devices[i]).id != device,
        },
{
    let wanted = |summary: DeviceSummary| summary.id == device;
    let at = lists::first_where_comes_first(devices, wanted);
    assert(forall|i: int|
        0 <= i < devices.len() ==> wanted(#[trigger] devices[i]) == (devices[i].id == device));
    at
}

} // verus!
