//! One openable row, and what it opens.
//!
//! Every list of rows in this interface is the same object with different
//! contents: the lighting channels, the panel, and the two cooling channels.

use vstd::prelude::*;

use super::drag::Interaction;
use super::tab::ROW_OFFSET_BRIGHTNESS;
use super::write::WriteTarget;
use super::SelectField;
use crate::lighting::MAX_BRIGHTNESS;
use crate::shell::ControlState;
use crate::text;
use crate::theme::color::{SURFACE, TEXT_DISABLED};
use crate::theme::Color;

verus! {

/// Percentage one press of an arrow key moves a brightness slider.
pub const BRIGHTNESS_STEP: u8 = 5;

/// Width of the brightness slider a device row carries, in logical pixels.
pub const ROW_BRIGHTNESS_WIDTH: u32 = 176;

/// Width of the mode select a device row carries.
pub const ROW_MODE_WIDTH: u32 = 156;

/// Smallest the head of a row may become before the line wraps.
pub const ROW_HEAD_MIN_WIDTH: u32 = 180;

/// Left inset of an open row's detail, level with what follows the chevron.
pub const ROW_DETAIL_INDENT: u32 = 32;

/// Side of the appearance thumbnail at the head of a device row.
pub const ROW_THUMBNAIL: u32 = 34;

/// Side of the glyph drawn inside that thumbnail.
pub const ROW_THUMBNAIL_GLYPH: u32 = 20;

/// One openable row of the Lighting screen.
///
/// The panel is a row here rather than a destination of its own: it is one
/// device's appearance, configured next to the controller's channels.
#[derive(Debug, Clone, Copy, Eq)]
pub enum LightingRow {
    Channel(u8),
    Lcd,
}

impl PartialEq for LightingRow {
    fn eq(&self, other: &Self) -> (same: bool) {
        match (self, other) {
            (Self::Channel(own), Self::Channel(their)) => *own == *their,
            (Self::Lcd, Self::Lcd) => true,
            _ => false,
        }
    }
}

impl vstd::std_specs::cmp::PartialEqSpecImpl for LightingRow {
    open spec fn obeys_eq_spec() -> bool {
        true
    }

    open spec fn eq_spec(&self, other: &Self) -> bool {
        *self == *other
    }
}

impl LightingRow {
    pub open spec fn key_text(self) -> Seq<char> {
        match self {
            Self::Channel(channel) => "channel-"@ + text::decimal(channel as nat),
            Self::Lcd => "lcd"@,
        }
    }

    /// Stable fragment for the element ids this row's controls carry.
    pub fn key(self) -> (key: String)
        ensures
            key@ == self.key_text(),
    {
        match self {
            Self::Channel(channel) => {
                let mut key: String = "channel-".to_owned();
                text::push_decimal(&mut key, channel as u64);
                key
            },
            Self::Lcd => "lcd".to_owned(),
        }
    }
}

/// No two rows answer to one key.
pub proof fn row_keys_are_distinct(a: LightingRow, b: LightingRow)
    requires
        a.key_text() == b.key_text(),
    ensures
        a == b,
{
    reveal_strlit("channel-");
    reveal_strlit("lcd");
    match (a, b) {
        (LightingRow::Channel(m), LightingRow::Channel(n)) => {
            let (left, right) = (text::decimal(m as nat), text::decimal(n as nat));
            assert(a.key_text().skip(8) =~= left);
            assert(b.key_text().skip(8) =~= right);
            text::decimal_is_read_back(m as nat);
            text::decimal_is_read_back(n as nat);
        },
        (LightingRow::Channel(_), LightingRow::Lcd) => {
            assert(a.key_text().len() >= 8 && b.key_text().len() == 3);
        },
        (LightingRow::Lcd, LightingRow::Channel(_)) => {
            assert(b.key_text().len() >= 8 && a.key_text().len() == 3);
        },
        _ => {},
    }
}

/// The second fact a device row carries, if it has one.
///
/// A fragment rides on the name's own line and leaves the row one line tall. A
/// sentence takes a line of its own. One value rather than two optional
/// strings, so a row cannot ask for both.
#[derive(Debug, Clone, PartialEq, Eq)]
pub enum RowNote {
    Fragment(String),
    Sentence(String),
}

/// The mark on a row's thumbnail.
#[derive(Debug, Clone, Copy, PartialEq, Eq, Structural)]
pub enum RowGlyph {
    /// Something answered on the channel.
    Windmill,
    /// Nothing answered on the channel.
    CircleDashed,
    /// The panel.
    Photo,
}

/// How the mark on a thumbnail is inked.
#[derive(Debug, Clone, Copy, PartialEq, Eq, Structural)]
pub enum Ink {
    /// Whichever end of the palette reads better on this fill.
    ReadableOn(Color),
    /// This color, whatever is under it.
    Fixed(Color),
}

/// The appearance thumbnail at the head of a device row.
#[derive(Debug, Clone, Copy, PartialEq, Eq, Structural)]
pub struct Thumbnail {
    pub fill: Color,
    pub ink: Ink,
    pub glyph: RowGlyph,
    pub round: bool,
}

/// The appearance thumbnail at the head of a device row.
///
/// `None` is a color the row cannot show: a channel that is off, or an entry
/// the operator has not finished typing. It paints the empty surface rather
/// than a black swatch, because black is also a color a channel can be set to,
/// and dims the glyph to match.
pub fn row_thumbnail(color_value: Option<Color>, glyph: RowGlyph, round: bool) -> (thumbnail:
    Thumbnail)
    ensures
        thumbnail.glyph == glyph,
        thumbnail.round == round,
        match color_value {
            Some(value) => thumbnail.fill == value && thumbnail.ink == Ink::ReadableOn(value),
            None => thumbnail.fill == Color(SURFACE) && thumbnail.ink == Ink::Fixed(
                Color(TEXT_DISABLED),
            ),
        },
{
    match color_value {
        Some(value) => Thumbnail { fill: value, ink: Ink::ReadableOn(value), glyph, round },
        None => Thumbnail {
            fill: Color::rgb(SURFACE),
            ink: Ink::Fixed(Color::rgb(TEXT_DISABLED)),
            glyph,
            round,
        },
    }
}

/// Everything one device row's line carries.
#[derive(Debug)]
pub struct RowLine {
    pub thumbnail: Thumbnail,
    pub title: String,
    pub note: Option<RowNote>,
    pub brightness: u8,
    /// Gate carried by the brightness slider: what the row writes with.
    pub write: ControlState,
    /// The row's own mode select.
    pub mode: SelectField,
    /// First stop of this row's reserved block.
    pub tab_index: isize,
}

/// A value on a track, in whole units of it.
#[derive(Debug)]
pub struct SliderField {
    pub id: String,
    pub caption: &'static str,
    /// Whether the caption is drawn, rather than only named by an error.
    pub caption_shown: bool,
    pub value: u8,
    pub low: u8,
    pub high: u8,
    pub unit: &'static str,
    pub state: ControlState,
    pub tab_index: isize,
}

impl SliderField {
    /// Whether this is the brightness slider of a row.
    pub open spec fn shows_brightness(
        self,
        row: LightingRow,
        value: u8,
        state: ControlState,
        tab_index: int,
    ) -> bool {
        &&& self.id@ == "brightness-"@ + row.key_text()
        &&& self.caption@ == "Brightness"@
        &&& !self.caption_shown
        &&& self.value == value
        &&& self.low == 0
        &&& self.high == MAX_BRIGHTNESS
        &&& self.unit@ == "%"@
        &&& self.state == state
        &&& self.tab_index == tab_index
    }

    /// Whether the track publishes where it was painted, so that a press can
    /// grab it.
    pub fn publishes(&self) -> (publishes: bool)
        ensures
            publishes == (self.state is Enabled),
    {
        self.state.is_enabled()
    }
}

/// The head of a device row: the one target that opens it.
#[derive(Debug)]
pub struct RowHead {
    pub id: String,
    pub tab_index: isize,
    pub open: bool,
    pub title: String,
    /// What rides on the name's own line.
    pub fragment: Option<String>,
    /// What takes a line of its own.
    pub sentence: Option<String>,
}

/// The head of a device row.
pub fn row_disclosure(
    row: LightingRow,
    open: bool,
    tab_index: isize,
    title: String,
    note: Option<RowNote>,
) -> (head: RowHead)
    ensures
        head.id@ == "lighting-row-"@ + row.key_text(),
        head.tab_index == tab_index,
        head.open == open,
        head.title == title,
        head.fragment == (match note {
            Some(RowNote::Fragment(text)) => Some(text),
            _ => None,
        }),
        head.sentence == (match note {
            Some(RowNote::Sentence(text)) => Some(text),
            _ => None,
        }),
{
    let (fragment, sentence): (Option<String>, Option<String>) = match note {
        Some(RowNote::Fragment(text)) => (Some(text), None),
        Some(RowNote::Sentence(text)) => (None, Some(text)),
        None => (None, None),
    };
    let mut id: String = "lighting-row-".to_owned();
    id.append(row.key().as_str());
    RowHead { id, tab_index, open, title, fragment, sentence }
}

/// The brightness a row carries on its line.
///
/// The row names the device and the two glyphs name the axis, so the caption
/// is hidden.
pub fn brightness_slider(row: LightingRow, value: u8, state: ControlState, tab_index: isize) -> (slider:
    SliderField)
    ensures
        slider.shows_brightness(row, value, state, tab_index as int),
{
    let mut id: String = "brightness-".to_owned();
    id.append(row.key().as_str());
    SliderField {
        id,
        caption: "Brightness",
        caption_shown: false,
        value,
        low: 0,
        high: MAX_BRIGHTNESS,
        unit: "%",
        state,
        tab_index,
    }
}

/// One device row of the Lighting screen.
#[derive(Debug)]
pub struct DeviceRow {
    pub thumbnail: Thumbnail,
    pub head: RowHead,
    pub brightness: SliderField,
    pub mode: SelectField,
}

/// One device row of the Lighting screen: the head that opens it, then the two
/// controls an operator reaches for most.
pub fn device_row(row: LightingRow, line: RowLine, open: bool) -> (shown: DeviceRow)
    requires
        line.tab_index + ROW_OFFSET_BRIGHTNESS <= isize::MAX,
    ensures
        shown.thumbnail == line.thumbnail,
        shown.mode == line.mode,
        shown.head.id@ == "lighting-row-"@ + row.key_text(),
        shown.head.tab_index == line.tab_index,
        shown.head.open == open,
        shown.head.title == line.title,
        shown.head.fragment == (match line.note {
            Some(RowNote::Fragment(text)) => Some(text),
            _ => None,
        }),
        shown.head.sentence == (match line.note {
            Some(RowNote::Sentence(text)) => Some(text),
            _ => None,
        }),
        shown.brightness.shows_brightness(
            row,
            line.brightness,
            line.write,
            line.tab_index + ROW_OFFSET_BRIGHTNESS,
        ),
{
    DeviceRow {
        thumbnail: line.thumbnail,
        head: row_disclosure(row, open, line.tab_index, line.title, line.note),
        brightness: brightness_slider(
            row,
            line.brightness,
            line.write,
            line.tab_index + ROW_OFFSET_BRIGHTNESS,
        ),
        mode: line.mode,
    }
}

/// What a key press asks of a brightness slider.
pub open spec fn brightness_asked(value: u8, key: Seq<char>) -> Option<int> {
    if key == "left"@ || key == "down"@ {
        Some(value - BRIGHTNESS_STEP)
    } else if key == "right"@ || key == "up"@ {
        Some(value + BRIGHTNESS_STEP)
    } else if key == "home"@ {
        Some(0int)
    } else if key == "end"@ {
        Some(MAX_BRIGHTNESS as int)
    } else {
        None
    }
}

/// What a key press asks of a brightness slider: one step, or an end.
///
/// Signed, so a step past either end arrives at [`held_brightness`] to be
/// clamped rather than wrapping around here.
pub fn brightness_key(value: u8, key: &str) -> (asked: Option<i16>)
    ensures
        asked is Some <==> brightness_asked(value, key@) is Some,
        asked matches Some(percent) ==> percent == brightness_asked(value, key@)->0,
{
    if text::same(key, "left") || text::same(key, "down") {
        Some(value as i16 - BRIGHTNESS_STEP as i16)
    } else if text::same(key, "right") || text::same(key, "up") {
        Some(value as i16 + BRIGHTNESS_STEP as i16)
    } else if text::same(key, "home") {
        Some(0)
    } else if text::same(key, "end") {
        Some(MAX_BRIGHTNESS as i16)
    } else {
        None
    }
}

/// What a key press on a brightness slider leads to: the brightness the row
/// is to hold, and the target whose quiet period begins. A press also
/// closes whatever list is open. A slider that cannot be operated, and a key it
/// does not answer to, lead to nothing.
pub fn press_brightness_key(
    row: LightingRow,
    value: u8,
    state: &ControlState,
    key: &str,
    interaction: &mut Interaction,
) -> (change: Option<(u8, WriteTarget)>)
    ensures
        match brightness_asked(value, key@) {
            Some(percent) if *state is Enabled => {
                &&& change == Some((brightness_held(percent) as u8, WriteTarget::Lighting(row)))
                &&& final(interaction)@ == (super::drag::Pointer {
                    popover: None,
                    ..old(interaction)@
                })
            },
            _ => change is None && final(interaction)@ == old(interaction)@,
        },
{
    if !state.is_enabled() {
        return None;
    }
    match brightness_key(value, key) {
        Some(percent) => {
            interaction.dismiss();
            Some((held_brightness(percent), WriteTarget::Lighting(row)))
        },
        None => None,
    }
}

/// A brightness held to what the daemon accepts.
pub open spec fn brightness_held(percent: int) -> int {
    if percent < 0 {
        0
    } else if percent > MAX_BRIGHTNESS {
        MAX_BRIGHTNESS as int
    } else {
        percent
    }
}

/// A row's pending brightness, clamped to what the daemon accepts.
pub fn held_brightness(percent: i16) -> (held: u8)
    ensures
        held == brightness_held(percent as int),
        0 <= percent <= 100 ==> held == percent,
        percent < 0 ==> held == 0,
        percent > 100 ==> held == 100,
{
    if percent < 0 {
        0
    } else if percent > MAX_BRIGHTNESS as i16 {
        MAX_BRIGHTNESS
    } else {
        percent as u8
    }
}

/// A step one way and a step back leave the value alone, unless the first ran
/// into an end of the track.
pub proof fn a_brightness_step_is_undone_by_its_opposite(value: u8)
    requires
        value <= MAX_BRIGHTNESS - BRIGHTNESS_STEP,
    ensures
        ({
            let up = brightness_held(brightness_asked(value, "right"@)->0);
            brightness_held(brightness_asked(up as u8, "left"@)->0) == value
        }),
{
    reveal_strlit("left");
    reveal_strlit("right");
    reveal_strlit("down");
    assert("right"@.len() == 5 && "left"@.len() == 4 && "down"@.len() == 4);
}

/// An arrow key moves a brightness by five points, Home and End to an end of
/// the track, and no other key moves it.
pub proof fn a_key_moves_a_brightness_by_five_or_to_an_end(value: u8, key: Seq<char>)
    ensures
        key == "left"@ || key == "down"@ ==> brightness_asked(value, key) == Some(value - 5),
        key == "right"@ || key == "up"@ ==> brightness_asked(value, key) == Some(value + 5),
        key == "home"@ ==> brightness_asked(value, key) == Some(0int),
        key == "end"@ ==> brightness_asked(value, key) == Some(100int),
        brightness_asked(value, key) is Some ==> key == "left"@ || key == "down"@ || key
            == "right"@ || key == "up"@ || key == "home"@ || key == "end"@,
{
    reveal_strlit("left");
    reveal_strlit("down");
    reveal_strlit("right");
    reveal_strlit("up");
    reveal_strlit("home");
    reveal_strlit("end");
    assert("left"@[0] == 'l' && "down"@[0] == 'd' && "right"@[0] == 'r' && "up"@[0] == 'u'
        && "home"@[0] == 'h' && "end"@[0] == 'e');
}

/// A brightness in range is kept; one beyond an end is held at that end.
pub proof fn a_brightness_is_held_from_none_to_a_hundred(percent: int)
    ensures
        0 <= percent <= 100 ==> brightness_held(percent) == percent,
        percent < 0 ==> brightness_held(percent) == 0,
        percent > 100 ==> brightness_held(percent) == 100,
{
}

/// A brightness slider runs from none to a hundred and holds its row's own
/// brightness, at its own stop.
pub proof fn a_brightness_slider_runs_to_a_hundred(
    slider: SliderField,
    row: LightingRow,
    value: u8,
    state: ControlState,
    tab_index: int,
)
    requires
        slider.shows_brightness(row, value, state, tab_index),
    ensures
        slider.value == value,
        slider.low == 0,
        slider.high == 100,
        slider.state == state,
        slider.tab_index == tab_index,
        !slider.caption_shown,
        text::tells(slider.id@, seq![row.key_text()]),
{
    let rest = Seq::<char>::empty();
    let parts = Seq::<Seq<char>>::empty();
    text::lemma_tells("brightness-"@, row.key_text(), rest, parts);
    assert("brightness-"@ + row.key_text() + rest =~= slider.id@);
    assert(seq![row.key_text()] + parts =~= seq![row.key_text()]);
}

} // verus!
