//! The panel row of the Lighting screen, and everything its editor needs.
//!
//! The glass reads nothing back, so the daemon's record of the last preset it
//! committed is the only evidence of what is on it.

use vstd::prelude::*;

use super::cooling::{Button, ButtonKind};
use super::drag::{Interaction, Pointer};
use super::lighting::parse_color;
use super::row::{device_row, row_thumbnail, DeviceRow, LightingRow, RowGlyph, RowLine, RowNote};
use super::swatch::{color_picker, ColorField, ColorPicker};
use super::tab::{
    LCD_OFFSET_COLOR_BASE, LCD_OFFSET_IMAGE, LCD_OFFSET_METRIC_ONE, LCD_OFFSET_RESUME,
    ROW_OFFSET_MODE,
};
use super::write::WriteTarget;
use super::{SelectField, SelectId, SelectOption};
use crate::capability::LcdPanel;
use crate::display::{DisplayError, DisplayMode, DisplayPreset, LcdMetric, MetricSample};
use crate::measure::Measured;
use crate::shell::{Command, ControlState, Note, NoteLevel};
use crate::telemetry::TelemetrySnapshot;
use crate::text;
use crate::theme::Color;

verus! {

/// One color the panel is painted with.
#[derive(Debug, Clone, Copy, PartialEq, Eq, Structural)]
pub enum DisplayColorField {
    BandOne,
    BandTwo,
    FadeOne,
    FadeTwo,
    TextOne,
    TextTwo,
    Background,
}

impl DisplayColorField {
    pub open spec fn every() -> Seq<Self> {
        seq![
            Self::BandOne,
            Self::BandTwo,
            Self::FadeOne,
            Self::FadeTwo,
            Self::TextOne,
            Self::TextTwo,
            Self::Background,
        ]
    }

    /// Every field, in the order the editor lays them out.
    pub fn all() -> (fields: [Self; 7])
        ensures
            fields@ == Self::every(),
    {
        let fields: [Self; 7] = [
            Self::BandOne,
            Self::BandTwo,
            Self::FadeOne,
            Self::FadeTwo,
            Self::TextOne,
            Self::TextTwo,
            Self::Background,
        ];
        assert(fields@ =~= Self::every());
        fields
    }

    /// Where the field stands in that order.
    pub open spec fn place(self) -> int {
        match self {
            Self::BandOne => 0,
            Self::BandTwo => 1,
            Self::FadeOne => 2,
            Self::FadeTwo => 3,
            Self::TextOne => 4,
            Self::TextTwo => 5,
            Self::Background => 6,
        }
    }

    /// Where the field stands in that order.
    pub fn index(self) -> (index: usize)
        ensures
            index == self.place(),
            index < 7,
            Self::every()[index as int] == self,
    {
        match self {
            Self::BandOne => 0,
            Self::BandTwo => 1,
            Self::FadeOne => 2,
            Self::FadeTwo => 3,
            Self::TextOne => 4,
            Self::TextTwo => 5,
            Self::Background => 6,
        }
    }

    pub open spec fn key_text(self) -> Seq<char> {
        match self {
            Self::BandOne => "band-1"@,
            Self::BandTwo => "band-2"@,
            Self::FadeOne => "fade-1"@,
            Self::FadeTwo => "fade-2"@,
            Self::TextOne => "text-1"@,
            Self::TextTwo => "text-2"@,
            Self::Background => "background"@,
        }
    }

    /// Stable fragment for the element id of the field.
    pub fn key(self) -> (key: &'static str)
        ensures
            key@ == self.key_text(),
            self is BandOne ==> key@ == "band-1"@,
            self is BandTwo ==> key@ == "band-2"@,
            self is FadeOne ==> key@ == "fade-1"@,
            self is FadeTwo ==> key@ == "fade-2"@,
            self is TextOne ==> key@ == "text-1"@,
            self is TextTwo ==> key@ == "text-2"@,
            self is Background ==> key@ == "background"@,
    {
        match self {
            Self::BandOne => "band-1",
            Self::BandTwo => "band-2",
            Self::FadeOne => "fade-1",
            Self::FadeTwo => "fade-2",
            Self::TextOne => "text-1",
            Self::TextTwo => "text-2",
            Self::Background => "background",
        }
    }

    pub open spec fn label_text(self) -> Seq<char> {
        match self {
            Self::BandOne => "Band 1"@,
            Self::BandTwo => "Band 2"@,
            Self::FadeOne => "Fade 1"@,
            Self::FadeTwo => "Fade 2"@,
            Self::TextOne => "Text 1"@,
            Self::TextTwo => "Text 2"@,
            Self::Background => "Background"@,
        }
    }

    /// The caption above the field.
    pub fn label(self) -> (label: &'static str)
        ensures
            label@ == self.label_text(),
            self is BandOne ==> label@ == "Band 1"@,
            self is BandTwo ==> label@ == "Band 2"@,
            self is FadeOne ==> label@ == "Fade 1"@,
            self is FadeTwo ==> label@ == "Fade 2"@,
            self is TextOne ==> label@ == "Text 1"@,
            self is TextTwo ==> label@ == "Text 2"@,
            self is Background ==> label@ == "Background"@,
    {
        match self {
            Self::BandOne => "Band 1",
            Self::BandTwo => "Band 2",
            Self::FadeOne => "Fade 1",
            Self::FadeTwo => "Fade 2",
            Self::TextOne => "Text 1",
            Self::TextTwo => "Text 2",
            Self::Background => "Background",
        }
    }
}

/// Width of the preview column, in logical pixels.
pub const PREVIEW_COLUMN_WIDTH: u32 = 276;

/// No two fields share a caption.
pub proof fn field_labels_are_distinct(a: DisplayColorField, b: DisplayColorField)
    requires
        a.label_text() == b.label_text(),
    ensures
        a == b,
{
    reveal_strlit("Band 1");
    reveal_strlit("Band 2");
    reveal_strlit("Fade 1");
    reveal_strlit("Fade 2");
    reveal_strlit("Text 1");
    reveal_strlit("Text 2");
    reveal_strlit("Background");
    assert("Band 1"@[5] == '1' && "Band 2"@[5] == '2' && "Fade 1"@[5] == '1' && "Fade 2"@[5] == '2');
    assert("Text 1"@[5] == '1' && "Text 2"@[5] == '2' && "Background"@.len() == 10);
    assert("Band 1"@[0] == 'B' && "Band 2"@[0] == 'B' && "Fade 1"@[0] == 'F' && "Fade 2"@[0] == 'F');
    assert("Text 1"@[0] == 'T' && "Text 2"@[0] == 'T');
    assert("Band 1"@.len() == 6 && "Band 2"@.len() == 6 && "Fade 1"@.len() == 6);
    assert("Fade 2"@.len() == 6 && "Text 1"@.len() == 6 && "Text 2"@.len() == 6);
}

/// The modes the panel's select offers: every one there is.
pub open spec fn mode_pairs() -> Seq<(Seq<char>, Seq<char>)> {
    seq![
        DisplayMode::DualInfographic,
        DisplayMode::SingleReading,
        DisplayMode::Solid,
        DisplayMode::Image,
    ].map_values(|mode: DisplayMode| (mode.key_text(), mode.label_text()))
}

/// The modes the panel's select offers: every one there is.
pub fn screen_modes() -> (options: Vec<SelectOption>)
    ensures
        super::pairs(options@) == mode_pairs(),
{
    let all: [DisplayMode; 4] = DisplayMode::all();
    let mut options: Vec<SelectOption> = Vec::new();
    for index in 0..4usize
        invariant
            options@.len() == index,
            forall|i: int|
                0 <= i < index ==> (#[trigger] options@[i]).pair() == (
                    all@[i].key_text(),
                    all@[i].label_text(),
                ),
    {
        options.push(SelectOption::new(all[index].key(), all[index].label()));
    }
    assert(super::pairs(options@) =~= mode_pairs());
    options
}

/// What the panel row says the panel is showing.
pub open spec fn panel_words(committed: Option<&DisplayPreset>, panel: Option<&LcdPanel>) -> Seq<
    char,
> {
    match (committed, panel) {
        (Some(preset), _) => preset.mode.label_text() + " at "@ + preset.orientation.label_text()
            + ", "@ + text::decimal(preset.brightness@ as nat) + "%"@,
        (None, Some(panel)) => text::decimal(panel.width as nat) + "x"@ + text::decimal(
            panel.height as nat,
        ) + " panel, nothing sent yet"@,
        (None, None) => "no panel has answered"@,
    }
}

/// What the panel row says the panel is showing.
pub fn panel_subtitle(committed: Option<&DisplayPreset>, panel: Option<&LcdPanel>) -> (words: String)
    ensures
        words@ == panel_words(committed, panel),
{
    let mut words: String = String::new();
    match (committed, panel) {
        (Some(preset), _) => {
            words.append(preset.mode.label());
            words.append(" at ");
            words.append(preset.orientation.label().as_str());
            words.append(", ");
            text::push_decimal(&mut words, preset.brightness.percent() as u64);
            words.append("%");
        },
        (None, Some(panel)) => {
            text::push_decimal(&mut words, panel.width as u64);
            words.append("x");
            text::push_decimal(&mut words, panel.height as u64);
            words.append(" panel, nothing sent yet");
        },
        (None, None) => {
            words.append("no panel has answered");
        },
    }
    assert(words@ =~= panel_words(committed, panel));
    words
}

/// The panel as a single line, with its editor one press away.
///
/// Moving the slider is what sends the brightness, so the panel's own refusal
/// belongs on it. The panel keeps a second line where a channel does not: what
/// it is showing is a sentence rather than a fragment.
pub fn lcd_row(
    mode: DisplayMode,
    brightness: u8,
    background: &str,
    committed: Option<&DisplayPreset>,
    panel: Option<&LcdPanel>,
    frame: &ControlState,
    base: isize,
    open: bool,
) -> (row: DeviceRow)
    requires
        base + ROW_OFFSET_MODE <= isize::MAX,
    ensures
        row.head.id@ == "lighting-row-"@ + LightingRow::Lcd.key_text(),
        row.head.tab_index == base,
        row.head.open == open,
        row.head.title@ == "LCD display"@,
        row.head.fragment is None,
        row.head.sentence matches Some(words) && words@ == panel_words(committed, panel),
        row.thumbnail.glyph == RowGlyph::Photo,
        row.thumbnail.round,
        match super::lighting::named_color(background@) {
            Some(color) => row.thumbnail.fill == color && row.thumbnail.ink
                == super::row::Ink::ReadableOn(color),
            None => row.thumbnail.fill == Color(crate::theme::color::SURFACE) && row.thumbnail.ink
                == super::row::Ink::Fixed(Color(crate::theme::color::TEXT_DISABLED)),
        },
        row.brightness.shows_brightness(
            LightingRow::Lcd,
            brightness,
            *frame,
            base + super::tab::ROW_OFFSET_BRIGHTNESS,
        ),
        row.mode.id == SelectId::LcdMode,
        super::pairs(row.mode.options@) == mode_pairs(),
        row.mode.selected@ == mode.key_text(),
        row.mode.state == *frame,
        row.mode.tab_index == base + ROW_OFFSET_MODE,
{
    device_row(
        LightingRow::Lcd,
        RowLine {
            thumbnail: row_thumbnail(parse_color(background), RowGlyph::Photo, true),
            title: "LCD display".to_owned(),
            note: Some(RowNote::Sentence(panel_subtitle(committed, panel))),
            brightness,
            write: frame.clone(),
            mode: SelectField {
                id: SelectId::LcdMode,
                options: screen_modes(),
                selected: mode.key().to_owned(),
                state: frame.clone(),
                tab_index: base + ROW_OFFSET_MODE,
            },
            tab_index: base,
        },
        open,
    )
}

/// One thing the panel editor lets an operator choose.
#[derive(Debug, Clone, Copy, PartialEq, Eq, Structural)]
pub enum PanelField {
    /// What one reading slot shows.
    Reading(usize),
    Color(DisplayColorField),
    Image,
}

/// A field of the panel editor and the stop it keeps.
#[derive(Debug, Clone, Copy, PartialEq, Eq, Structural)]
pub struct FieldStop {
    pub field: PanelField,
    pub tab_index: isize,
}

/// The line of reading selects: one for each slot the mode draws.
pub open spec fn reading_line(mode: DisplayMode, base: int) -> Seq<FieldStop> {
    Seq::new(
        mode.slots(),
        |slot: int|
            FieldStop {
                field: PanelField::Reading(slot as usize),
                tab_index: (base + LCD_OFFSET_METRIC_ONE + slot) as isize,
            },
    )
}

/// One color field, if the mode paints with it.
pub open spec fn color_cell(used: Seq<bool>, base: int, index: int) -> Seq<FieldStop> {
    if 0 <= index < DisplayColorField::every().len() && used[index] {
        seq![
            FieldStop {
                field: PanelField::Color(DisplayColorField::every()[index]),
                tab_index: (base + LCD_OFFSET_COLOR_BASE + index) as isize,
            },
        ]
    } else {
        Seq::empty()
    }
}

/// One line of color fields, two by role.
pub open spec fn color_line(used: Seq<bool>, base: int, line: int) -> Seq<FieldStop> {
    color_cell(used, base, 2 * line) + color_cell(used, base, 2 * line + 1)
}

/// The first `count` lines of color fields, without the ones that are empty.
pub open spec fn color_lines(used: Seq<bool>, base: int, count: int) -> Seq<Seq<FieldStop>>
    decreases count,
{
    if count <= 0 {
        Seq::empty()
    } else {
        let before = color_lines(used, base, count - 1);
        let line = color_line(used, base, count - 1);
        if line.len() > 0 {
            before.push(line)
        } else {
            before
        }
    }
}

/// The lines of the panel editor, from the top.
pub open spec fn editor_lines(mode: DisplayMode, used: Seq<bool>, base: int) -> Seq<Seq<FieldStop>> {
    (if mode.slots() > 0 {
        seq![reading_line(mode, base)]
    } else {
        Seq::empty()
    }) + color_lines(used, base, 4) + (if mode is Image {
        seq![
            seq![
                FieldStop {
                    field: PanelField::Image,
                    tab_index: (base + LCD_OFFSET_IMAGE) as isize,
                },
            ],
        ]
    } else {
        Seq::empty()
    })
}

/// The lines of the panel editor, from the top: the readings, then the colors
/// paired by role, then the picture. A line the mode draws nothing for is
/// absent rather than empty, and every field keeps its own stop whichever of
/// them are drawn.
///
/// `used` says of each color field, in the order of [`DisplayColorField::all`],
/// whether the mode paints with it.
pub fn lcd_lines(mode: DisplayMode, used: [bool; 7], base: isize) -> (lines: Vec<Vec<FieldStop>>)
    requires
        base + LCD_OFFSET_RESUME <= isize::MAX,
    ensures
        lines@.map_values(|line: Vec<FieldStop>| line@) == editor_lines(mode, used@, base as int),
{
    let ghost shown = |line: Vec<FieldStop>| line@;
    let mut lines: Vec<Vec<FieldStop>> = Vec::new();
    let ghost head = if mode.slots() > 0 {
        seq![reading_line(mode, base as int)]
    } else {
        Seq::empty()
    };
    if mode.uses_readings() {
        let mut readings: Vec<FieldStop> = Vec::new();
        let slots: usize = mode.reading_slots();
        for slot in 0..slots
            invariant
                slots == mode.slots(),
                slots <= 2,
                base + LCD_OFFSET_RESUME <= isize::MAX,
                readings@ == reading_line(mode, base as int).take(slot as int),
        {
            readings.push(
                FieldStop {
                    field: PanelField::Reading(slot),
                    tab_index: base + LCD_OFFSET_METRIC_ONE + slot as isize,
                },
            );
            assert(readings@ =~= reading_line(mode, base as int).take(slot + 1));
        }
        assert(readings@ =~= reading_line(mode, base as int));
        lines.push(readings);
    }
    assert(lines@.map_values(shown) =~= head + color_lines(used@, base as int, 0));
    let fields: [DisplayColorField; 7] = DisplayColorField::all();
    for line in 0..4usize
        invariant
            base + LCD_OFFSET_RESUME <= isize::MAX,
            fields@ == DisplayColorField::every(),
            shown == (|line: Vec<FieldStop>| line@),
            lines@.map_values(shown) == head + color_lines(used@, base as int, line as int),
    {
        let ghost before = lines@.map_values(shown);
        let mut controls: Vec<FieldStop> = Vec::new();
        let left: usize = 2 * line;
        if used[left] {
            controls.push(
                FieldStop {
                    field: PanelField::Color(fields[left]),
                    tab_index: base + LCD_OFFSET_COLOR_BASE + left as isize,
                },
            );
        }
        let right: usize = left + 1;
        if right < 7 && used[right] {
            controls.push(
                FieldStop {
                    field: PanelField::Color(fields[right]),
                    tab_index: base + LCD_OFFSET_COLOR_BASE + right as isize,
                },
            );
        }
        assert(controls@ =~= color_line(used@, base as int, line as int));
        if controls.len() > 0 {
            lines.push(controls);
            assert(lines@.map_values(shown) =~= before.push(color_line(
                used@,
                base as int,
                line as int,
            )));
            assert(before.push(color_line(used@, base as int, line as int)) =~= head + color_lines(
                used@,
                base as int,
                line + 1,
            ));
        }
    }
    if mode.uses_image() {
        let ghost before = lines@.map_values(shown);
        let mut picture: Vec<FieldStop> = Vec::new();
        picture.push(FieldStop { field: PanelField::Image, tab_index: base + LCD_OFFSET_IMAGE });
        lines.push(picture);
        assert(picture@ =~= seq![
            FieldStop { field: PanelField::Image, tab_index: (base + LCD_OFFSET_IMAGE) as isize },
        ]);
        assert(lines@.map_values(shown) =~= before.push(picture@));
    }
    assert(lines@.map_values(shown) =~= editor_lines(mode, used@, base as int));
    lines
}

/// No line of the editor is empty, whatever the mode paints with.
pub proof fn no_editor_line_is_empty(mode: DisplayMode, used: Seq<bool>, base: int, line: int)
    requires
        0 <= line < editor_lines(mode, used, base).len(),
    ensures
        editor_lines(mode, used, base)[line].len() > 0,
{
    let head: Seq<Seq<FieldStop>> = if mode.slots() > 0 {
        seq![reading_line(mode, base)]
    } else {
        Seq::empty()
    };
    let colors = color_lines(used, base, 4);
    assert forall|i: int| 0 <= i < colors.len() implies (#[trigger] colors[i]).len() > 0 by {
        lemma_color_line(used, base, 4, i);
    }
    if line < head.len() {
        assert(editor_lines(mode, used, base)[line] == head[line]);
    } else if line < head.len() + colors.len() {
        assert(editor_lines(mode, used, base)[line] == colors[line - head.len()]);
    }
}

proof fn lemma_color_line(used: Seq<bool>, base: int, count: int, line: int)
    requires
        0 <= line < color_lines(used, base, count).len(),
    ensures
        color_lines(used, base, count)[line].len() > 0,
    decreases count,
{
    if count > 0 {
        let before = color_lines(used, base, count - 1);
        if line < before.len() {
            lemma_color_line(used, base, count - 1, line);
        }
    }
}

/// The metrics a reading slot can be pointed at.
pub open spec fn metric_pairs() -> Seq<(Seq<char>, Seq<char>)> {
    seq![
        LcdMetric::CpuTemperature,
        LcdMetric::GpuTemperature,
        LcdMetric::LiquidTemperature,
        LcdMetric::CpuLoad,
        LcdMetric::GpuLoad,
    ].map_values(|metric: LcdMetric| (metric.key_text(), metric.label_text()))
}

/// The metric select for one reading slot.
pub fn metric_select(slot: usize, selected: LcdMetric, state: ControlState, tab_index: isize) -> (field:
    SelectField)
    ensures
        field.id == SelectId::LcdMetric(slot),
        super::pairs(field.options@) == metric_pairs(),
        field.selected@ == selected.key_text(),
        field.state == state,
        field.tab_index == tab_index,
{
    let all: [LcdMetric; 5] = LcdMetric::all();
    let mut options: Vec<SelectOption> = Vec::new();
    for index in 0..5usize
        invariant
            options@.len() == index,
            forall|i: int|
                0 <= i < index ==> (#[trigger] options@[i]).pair() == (
                    all@[i].key_text(),
                    all@[i].label_text(),
                ),
    {
        options.push(SelectOption::new(all[index].key(), all[index].label()));
    }
    assert(super::pairs(options@) =~= metric_pairs());
    SelectField {
        id: SelectId::LcdMetric(slot),
        options,
        selected: selected.key().to_owned(),
        state,
        tab_index,
    }
}

/// What the preview draws: the same samples the daemon renders against, or
/// nothing readable while there is no telemetry.
pub fn preview_samples(
    preset: &DisplayPreset,
    metrics: [LcdMetric; 2],
    telemetry: Option<&TelemetrySnapshot>,
) -> (samples: [MetricSample; 2])
    ensures
        forall|i: int|
            0 <= i < 2 ==> #[trigger] samples@[i] == match telemetry {
                Some(snapshot) => MetricSample {
                    metric: preset.readings@[i].metric,
                    value: preset.readings@[i].metric.sampled(*snapshot),
                },
                None => MetricSample { metric: metrics@[i], value: None },
            },
{
    match telemetry {
        Some(snapshot) => preset.samples(snapshot),
        None => [MetricSample::unavailable(metrics[0]), MetricSample::unavailable(metrics[1])],
    }
}

/// What an open panel row says under its fields.
#[derive(Debug)]
pub struct PanelNotes {
    /// What stops the picture.
    pub problem: Option<Note>,
    /// The way back from a stopped stream, and why it stopped.
    pub resume: Option<(Button, String)>,
    /// Why nothing can be written to the panel.
    pub refusal: Option<String>,
}

impl PanelNotes {
    /// Whether this is what stands under the fields of a row whose block of
    /// stops begins at `base`.
    pub open spec fn shows(
        self,
        preset_error: Option<&DisplayError>,
        film_error: Option<&DisplayError>,
        faulted: Option<&str>,
        frame: ControlState,
        base: int,
    ) -> bool {
        &&& match (preset_error, film_error) {
            (Some(error), _) => self.problem matches Some(note) && note.level is Warning
                && note.message@ == error.text(),
            (None, Some(error)) => self.problem matches Some(note) && note.level is Warning
                && note.message@ == error.text(),
            (None, None) => self.problem is None,
        }
        &&& match self.resume {
            Some((button, words)) => {
                &&& faulted is Some
                &&& frame is Enabled
                &&& button.id@ == "lcd-resume"@
                &&& button.label@ == "Resume display"@
                &&& button.kind is Primary
                &&& button.state is Enabled
                &&& button.tab_index == base + LCD_OFFSET_RESUME
                &&& words@ == "The panel stopped updating: "@ + faulted->0@
            },
            None => faulted is None || !(frame is Enabled),
        }
        &&& match frame.says() {
            Some(words) => self.refusal matches Some(refusal) && refusal@ == words,
            None => self.refusal is None,
        }
    }
}

/// What an open panel row says under its fields.
///
/// The preset's own error comes first: it is the one that stops the frame
/// before the picture is even looked for. A stopped stream is the one state an
/// edit cannot clear, so it takes a deliberate activation, offered only while
/// the panel can be written to.
pub fn panel_notes(
    preset_error: Option<&DisplayError>,
    film_error: Option<&DisplayError>,
    faulted: Option<&str>,
    frame: &ControlState,
    base: isize,
) -> (notes: PanelNotes)
    requires
        base + LCD_OFFSET_RESUME <= isize::MAX,
    ensures
        notes.shows(preset_error, film_error, faulted, *frame, base as int),
{
    let problem: Option<Note> = match (preset_error, film_error) {
        (Some(error), _) => Some(Note::new(NoteLevel::Warning, error.to_text().as_str())),
        (None, Some(error)) => Some(Note::new(NoteLevel::Warning, error.to_text().as_str())),
        (None, None) => None,
    };
    let resume: Option<(Button, String)> = match faulted {
        Some(reason) => {
            if frame.is_enabled() {
                let mut words: String = "The panel stopped updating: ".to_owned();
                words.append(reason);
                Some(
                    (
                        Button {
                            id: "lcd-resume",
                            label: "Resume display",
                            kind: ButtonKind::Primary,
                            state: ControlState::Enabled,
                            tab_index: base + LCD_OFFSET_RESUME,
                        },
                        words,
                    ),
                )
            } else {
                None
            }
        },
        None => None,
    };
    let refusal: Option<String> = match frame.message() {
        Some(words) => Some(words.to_owned()),
        None => None,
    };
    PanelNotes { problem, resume, refusal }
}

/// Where the part of a path that ends before `end` begins.
pub open spec fn part_start(path: Seq<char>, end: int) -> int
    decreases end,
{
    if end <= 0 || end > path.len() {
        0
    } else if path[end - 1] == '/' {
        end
    } else {
        part_start(path, end - 1)
    }
}

proof fn lemma_part_start(path: Seq<char>, end: int)
    requires
        0 <= end <= path.len(),
    ensures
        0 <= part_start(path, end) <= end,
    decreases end,
{
    if end > 0 && path[end - 1] != '/' {
        lemma_part_start(path, end - 1);
    }
}

/// The last named part of the first `end` characters of a path: slashes and
/// parts that stand for the directory they are in are passed over, and a path
/// that ends in its parent directory has none.
pub open spec fn last_part(path: Seq<char>, end: int) -> Option<Seq<char>>
    decreases end,
{
    if end <= 0 || end > path.len() {
        None
    } else if path[end - 1] == '/' {
        last_part(path, end - 1)
    } else {
        let start = part_start(path, end);
        let part = path.subrange(start, end);
        if part == seq!['.'] {
            if start <= 0 || start >= end {
                None
            } else {
                last_part(path, start)
            }
        } else if part == seq!['.', '.'] {
            None
        } else {
            Some(part)
        }
    }
}

/// The file a path names, if it names one.
pub fn file_name(path: &str) -> (name: Option<String>)
    ensures
        match name {
            Some(name) => last_part(path@, path@.len() as int) == Some(name@),
            None => last_part(path@, path@.len() as int) is None,
        },
{
    let letters: Vec<char> = text::chars_of(path);
    let mut end: usize = letters.len();
    while end > 0
        invariant
            end <= letters@.len(),
            letters@ == path@,
            last_part(path@, path@.len() as int) == last_part(path@, end as int),
        decreases end,
    {
        if letters[end - 1] == '/' {
            end = end - 1;
        } else {
            let mut start: usize = end;
            proof {
                lemma_part_start(path@, end as int);
            }
            while start > 0 && letters[start - 1] != '/'
                invariant
                    start <= end <= letters@.len(),
                    letters@ == path@,
                    part_start(path@, end as int) == part_start(path@, start as int),
                decreases start,
            {
                start = start - 1;
            }
            assert(start == part_start(path@, end as int));
            assert(start < end);
            let ghost part = path@.subrange(start as int, end as int);
            if end - start == 1 && letters[start] == '.' {
                assert(part =~= seq!['.']);
                if start == 0 {
                    return None;
                }
                end = start;
            } else if end - start == 2 && letters[start] == '.' && letters[start + 1] == '.' {
                assert(part =~= seq!['.', '.']);
                return None;
            } else {
                assert(part != seq!['.']) by {
                    if part == seq!['.'] {
                        assert(part.len() == 1 && part[0] == '.');
                    }
                }
                assert(part != seq!['.', '.']) by {
                    if part == seq!['.', '.'] {
                        assert(part.len() == 2 && part[0] == '.' && part[1] == '.');
                    }
                }
                return Some(text::text_of(&letters, start, end));
            }
        }
    }
    None
}

/// An animation, as far as the picture field speaks of one.
#[derive(Debug, Clone, Copy, PartialEq, Eq, Structural)]
pub struct Animation {
    pub frames: usize,
    /// How long one pass takes, in seconds.
    pub duration_s: Measured,
}

/// What the panel will do with a chosen file.
pub open spec fn image_words(path: Seq<char>, animation: Option<Animation>) -> Seq<char> {
    let inner = text::trimmed(path);
    match (last_part(inner, inner.len() as int), animation) {
        (None, _) => "No file chosen"@,
        (Some(name), Some(animation)) => name + ", "@ + text::decimal(animation.frames as nat)
            + " frames over "@ + animation.duration_s.one_decimal_text() + " s"@,
        (Some(name), None) => name + ", one still picture"@,
    }
}

/// What the panel will do with a chosen file, measured rather than guessed from
/// its extension. `animation` is `None` for a file that holds still.
pub fn image_note(path: &str, animation: Option<Animation>) -> (words: String)
    ensures
        words@ == image_words(path@, animation),
{
    let inner: String = text::trim(path);
    match (file_name(inner.as_str()), animation) {
        (None, _) => "No file chosen".to_owned(),
        (Some(name), Some(animation)) => {
            let mut words: String = name;
            words.append(", ");
            text::push_decimal(&mut words, animation.frames as u64);
            words.append(" frames over ");
            words.append(animation.duration_s.one_decimal().as_str());
            words.append(" s");
            assert(words@ =~= image_words(path@, Some(animation)));
            words
        },
        (Some(name), None) => {
            let mut words: String = name;
            words.append(", one still picture");
            words
        },
    }
}

/// What choosing a display mode leads to: the mode the value names, and the
/// row that is due a write. A value that names none leads to nothing.
pub fn choose_mode(value: &str) -> (choice: Option<(DisplayMode, WriteTarget)>)
    ensures
        forall|mode: DisplayMode|
            (choice == Some((mode, WriteTarget::Lighting(LightingRow::Lcd)))) <==> value@
                == #[trigger] mode.key_text(),
        choice matches Some((mode, target)) ==> value@ == mode.key_text() && target
            == WriteTarget::Lighting(LightingRow::Lcd),
{
    match DisplayMode::from_key(value) {
        Some(mode) => {
            assert(value@ == mode.key_text());
            Some((mode, WriteTarget::Lighting(LightingRow::Lcd)))
        },
        None => None,
    }
}

/// What choosing a metric for a reading slot leads to: the metrics with that
/// slot replaced, and the row that is due a write. A value that names no metric
/// leads to nothing.
pub fn choose_metric(metrics: [LcdMetric; 2], slot: usize, value: &str) -> (choice:
    Option<([LcdMetric; 2], WriteTarget)>)
    requires
        slot < 2,
    ensures
        choice is Some <==> exists|metric: LcdMetric| value@ == #[trigger] metric.key_text(),
        choice matches Some((chosen, target)) ==> {
            &&& value@ == chosen@[slot as int].key_text()
            &&& chosen@[1 - slot] == metrics@[1 - slot]
            &&& target == WriteTarget::Lighting(LightingRow::Lcd)
        },
{
    match LcdMetric::from_key(value) {
        Some(metric) => {
            assert(value@ == metric.key_text());
            let mut chosen: [LcdMetric; 2] = metrics;
            chosen[slot] = metric;
            Some((chosen, WriteTarget::Lighting(LightingRow::Lcd)))
        },
        None => {
            assert(forall|metric: LcdMetric| value@ != #[trigger] metric.key_text());
            None
        },
    }
}

/// What a file dialog leads to: the first path it handed back goes to the
/// editor, and the panel row is due a write. A dialog that was cancelled, or
/// that handed back nothing, leads to nothing.
pub fn choose_image(chosen: Option<Vec<String>>) -> (choice: Option<(String, WriteTarget)>)
    ensures
        choice == match chosen {
            Some(paths) if paths@.len() > 0 => Some(
                (paths@[0], WriteTarget::Lighting(LightingRow::Lcd)),
            ),
            _ => None,
        },
{
    match chosen {
        Some(paths) => {
            let mut paths: Vec<String> = paths;
            if paths.len() == 0 {
                None
            } else {
                Some((paths.remove(0), WriteTarget::Lighting(LightingRow::Lcd)))
            }
        },
        None => None,
    }
}

/// Press "Choose a picture": whatever list is open closes, and the file dialog
/// is asked. What it hands back goes to [`choose_image`].
pub fn press_image(interaction: &mut Interaction)
    ensures
        final(interaction)@ == (Pointer { popover: None, ..old(interaction)@ }),
{
    interaction.dismiss();
}

/// The file picker, and what it currently holds.
pub fn image_field(path: &str, animation: Option<Animation>, state: ControlState, tab_index: isize) -> (field:
    (Button, String))
    ensures
        field.0.id@ == "lcd-image"@,
        field.0.label@ == "Choose a picture"@,
        field.0.kind is Plain,
        field.0.state == state,
        field.0.tab_index == tab_index,
        field.1@ == image_words(path@, animation),
{
    (
        Button {
            id: "lcd-image",
            label: "Choose a picture",
            kind: ButtonKind::Plain,
            state,
            tab_index,
        },
        image_note(path, animation),
    )
}

/// One control of the panel editor.
#[derive(Debug)]
pub enum PanelControl {
    Reading(SelectField),
    Color(ColorField),
    /// The file picker, and what it currently holds.
    Image(Button, String),
}

/// Everything an open panel row is drawn from.
#[derive(Debug)]
pub struct PanelInputs<'a> {
    pub mode: DisplayMode,
    /// What each reading slot shows.
    pub metrics: [LcdMetric; 2],
    /// The digits of each color field, in the order of
    /// [`DisplayColorField::all`].
    pub digits: [&'a str; 7],
    /// Whether the mode paints with each color field, in the same order.
    pub used: [bool; 7],
    pub image_path: &'a str,
    /// The chosen file, when it is one that moves.
    pub animation: Option<Animation>,
    /// The preset the preview draws.
    pub preview: &'a DisplayPreset,
    pub preset_error: Option<&'a DisplayError>,
    pub film_error: Option<&'a DisplayError>,
    pub telemetry: Option<&'a TelemetrySnapshot>,
    /// Why the stream stopped, if it did.
    pub faulted: Option<&'a str>,
    pub frame: &'a ControlState,
}

impl PanelControl {
    /// Whether this is the control that stands at a stop of the editor.
    pub open spec fn stands_at(self, stop: FieldStop, inputs: PanelInputs, pointer: Pointer) -> bool {
        match (self, stop.field) {
            (Self::Reading(field), PanelField::Reading(slot)) => {
                &&& field.id == SelectId::LcdMetric(slot)
                &&& super::pairs(field.options@) == metric_pairs()
                &&& field.selected@ == inputs.metrics@[slot as int].key_text()
                &&& field.state == *inputs.frame
                &&& field.tab_index == stop.tab_index
            },
            (Self::Color(field), PanelField::Color(own)) => field.shows(
                ColorPicker::Panel(own),
                inputs.digits@[own.place()]@,
                *inputs.frame,
                stop.tab_index as int,
                pointer,
            ),
            (Self::Image(button, words), PanelField::Image) => {
                &&& button.id@ == "lcd-image"@
                &&& button.label@ == "Choose a picture"@
                &&& button.kind is Plain
                &&& button.state == *inputs.frame
                &&& button.tab_index == stop.tab_index
                &&& words@ == image_words(inputs.image_path@, inputs.animation)
            },
            _ => false,
        }
    }
}

fn panel_control(stop: FieldStop, inputs: &PanelInputs, interaction: &Interaction) -> (control:
    PanelControl)
    requires
        stop.field matches PanelField::Reading(slot) ==> slot < 2,
    ensures
        control.stands_at(stop, *inputs, interaction@),
{
    match stop.field {
        PanelField::Reading(slot) => PanelControl::Reading(
            metric_select(slot, inputs.metrics[slot], inputs.frame.clone(), stop.tab_index),
        ),
        PanelField::Color(own) => PanelControl::Color(
            color_picker(
                ColorPicker::Panel(own),
                inputs.digits[own.index()],
                inputs.frame.clone(),
                stop.tab_index,
                interaction,
            ),
        ),
        PanelField::Image => {
            let (button, words): (Button, String) = image_field(
                inputs.image_path,
                inputs.animation,
                inputs.frame.clone(),
                stop.tab_index,
            );
            PanelControl::Image(button, words)
        },
    }
}

/// What an open panel row reveals.
#[derive(Debug)]
pub struct LcdDetail {
    pub lines: Vec<Vec<PanelControl>>,
    pub notes: PanelNotes,
    /// Whether the preview plays the chosen file rather than drawing samples.
    pub plays_image: bool,
    pub samples: [MetricSample; 2],
}

proof fn lemma_reading_slots(mode: DisplayMode, used: Seq<bool>, base: int, line: int, column: int)
    requires
        0 <= line < editor_lines(mode, used, base).len(),
        0 <= column < editor_lines(mode, used, base)[line].len(),
    ensures
        editor_lines(mode, used, base)[line][column].field matches PanelField::Reading(slot)
            ==> slot < 2,
{
    let head: Seq<Seq<FieldStop>> = if mode.slots() > 0 {
        seq![reading_line(mode, base)]
    } else {
        Seq::empty()
    };
    let colors = color_lines(used, base, 4);
    let lines = editor_lines(mode, used, base);
    if line < head.len() {
        assert(lines[line] == head[line]);
    } else if line < head.len() + colors.len() {
        let at = line - head.len();
        assert(lines[line] == colors[at]);
        lemma_color_fields(used, base, 4, at, column);
    } else {
        assert(lines[line][column].field == PanelField::Image);
    }
}

proof fn lemma_color_fields(used: Seq<bool>, base: int, count: int, line: int, column: int)
    requires
        0 <= line < color_lines(used, base, count).len(),
        0 <= column < color_lines(used, base, count)[line].len(),
    ensures
        color_lines(used, base, count)[line][column].field is Color,
    decreases count,
{
    if count > 0 {
        let before = color_lines(used, base, count - 1);
        if line < before.len() {
            lemma_color_fields(used, base, count - 1, line, column);
        }
    }
}

/// What the open panel row reveals: the fields, what is wrong with them, and
/// what the preview beside them draws.
///
/// The preview ages with telemetry exactly as the panel does, from the same
/// samples the daemon renders against. Image mode plays its own compiled
/// frames instead.
pub fn lcd_detail(inputs: PanelInputs, base: isize, interaction: &Interaction) -> (detail: LcdDetail)
    requires
        base + LCD_OFFSET_RESUME <= isize::MAX,
    ensures
        ({
            let expected = editor_lines(inputs.mode, inputs.used@, base as int);
            &&& detail.lines@.len() == expected.len()
            &&& forall|i: int|
                0 <= i < expected.len() ==> (#[trigger] detail.lines@[i])@.len()
                    == expected[i].len()
            &&& forall|i: int, j: int|
                0 <= i < expected.len() && 0 <= j < expected[i].len() ==> (
                #[trigger] detail.lines@[i]@[j]).stands_at(expected[i][j], inputs, interaction@)
        }),
        detail.plays_image == (inputs.mode is Image),
        forall|i: int|
            0 <= i < 2 ==> #[trigger] detail.samples@[i] == match inputs.telemetry {
                Some(snapshot) => MetricSample {
                    metric: inputs.preview.readings@[i].metric,
                    value: inputs.preview.readings@[i].metric.sampled(*snapshot),
                },
                None => MetricSample { metric: inputs.metrics@[i], value: None },
            },
        detail.notes.shows(
            inputs.preset_error,
            inputs.film_error,
            inputs.faulted,
            *inputs.frame,
            base as int,
        ),
{
    let stops: Vec<Vec<FieldStop>> = lcd_lines(inputs.mode, inputs.used, base);
    let ghost expected = editor_lines(inputs.mode, inputs.used@, base as int);
    let ghost shown = |line: Vec<FieldStop>| line@;
    assert(stops@.map_values(shown) == expected);
    let mut lines: Vec<Vec<PanelControl>> = Vec::new();
    for row in 0..stops.len()
        invariant
            expected == editor_lines(inputs.mode, inputs.used@, base as int),
            shown == (|line: Vec<FieldStop>| line@),
            stops@.map_values(shown) == expected,
            lines@.len() == row,
            forall|i: int|
                0 <= i < row ==> (#[trigger] lines@[i])@.len() == expected[i].len(),
            forall|i: int, j: int|
                0 <= i < row && 0 <= j < expected[i].len() ==> (
                #[trigger] lines@[i]@[j]).stands_at(expected[i][j], inputs, interaction@),
    {
        let stop_line: &Vec<FieldStop> = &stops[row];
        assert(stops@.map_values(shown)[row as int] == stop_line@);
        let mut controls: Vec<PanelControl> = Vec::new();
        for column in 0..stop_line.len()
            invariant
                expected == editor_lines(inputs.mode, inputs.used@, base as int),
                0 <= row < expected.len(),
                stop_line@ == expected[row as int],
                controls@.len() == column,
                forall|j: int|
                    0 <= j < column ==> (#[trigger] controls@[j]).stands_at(
                        expected[row as int][j],
                        inputs,
                        interaction@,
                    ),
        {
            proof {
                lemma_reading_slots(
                    inputs.mode,
                    inputs.used@,
                    base as int,
                    row as int,
                    column as int,
                );
            }
            controls.push(panel_control(stop_line[column], &inputs, interaction));
        }
        lines.push(controls);
    }
    LcdDetail {
        lines,
        notes: panel_notes(
            inputs.preset_error,
            inputs.film_error,
            inputs.faulted,
            inputs.frame,
            base,
        ),
        plays_image: inputs.mode.uses_image(),
        samples: preview_samples(inputs.preview, inputs.metrics, inputs.telemetry),
    }
}

/// The command that sends the panel's pending preset, unless it is already
/// showing it or no preset can be built.
///
/// An unchanged preset still costs the daemon a full render before it can
/// compare the picture it produced.
pub fn send_display(preset: Option<DisplayPreset>, committed: Option<&DisplayPreset>) -> (command:
    Option<Command>)
    ensures
        command == match (preset, committed) {
            (Some(preset), Some(committed)) => if committed.means(preset) {
                None
            } else {
                Some(Command::ApplyDisplay(preset))
            },
            (Some(preset), None) => Some(Command::ApplyDisplay(preset)),
            (None, _) => None,
        },
{
    let preset: DisplayPreset = preset?;
    if let Some(committed) = committed {
        if committed.same(&preset) {
            return None;
        }
    }
    Some(Command::ApplyDisplay(preset))
}

/// The command that sends the panel's preset whatever it is showing, to restart
/// a stopped stream.
pub fn resume_display(preset: Option<DisplayPreset>) -> (command: Option<Command>)
    ensures
        command == match preset {
            Some(preset) => Some(Command::ApplyDisplay(preset)),
            None => None,
        },
{
    match preset {
        Some(preset) => Some(Command::ApplyDisplay(preset)),
        None => None,
    }
}

/// Press "Resume display": whatever list is open closes, so that none hides the
/// result, and the panel's preset is sent whatever it is showing.
pub fn press_resume(preset: Option<DisplayPreset>, interaction: &mut Interaction) -> (command:
    Option<Command>)
    ensures
        command == match preset {
            Some(preset) => Some(Command::ApplyDisplay(preset)),
            None => None,
        },
        final(interaction)@ == (Pointer { popover: None, ..old(interaction)@ }),
{
    interaction.dismiss();
    resume_display(preset)
}

/// Which timer is allowed to advance the animation.
///
/// Every arrangement takes a fresh generation and every timer carries the one
/// it was spawned under, so a picture that has been replaced leaves timers that
/// fire into nothing.
#[derive(Debug, Clone, Copy, PartialEq, Eq, Structural)]
pub struct FilmClock {
    pub generation: u64,
}

impl FilmClock {
    /// Arrange for the next frame, if one is playing where it can be seen:
    /// the delay to wait and the generation to carry.
    ///
    /// `delay` is `None` for a picture that holds still.
    pub fn play(&mut self, open: bool, delay: Option<u64>) -> (timer: Option<(u64, u64)>)
        ensures
            timer is Some <==> open && delay is Some,
            timer matches Some((wait, generation)) ==> wait == delay->0 && generation
                == final(self).generation && generation == (old(self).generation + 1)
                % 0x1_0000_0000_0000_0000,
            timer is None ==> *final(self) == *old(self),
    {
        if !open {
            return None;
        }
        match delay {
            Some(wait) => {
                self.generation = self.generation.wrapping_add(1);
                Some((wait, self.generation))
            },
            None => None,
        }
    }

    /// Whether a timer that fires still speaks for the picture on show.
    pub fn accepts(&self, generation: u64) -> (accepts: bool)
        ensures
            accepts == (self.generation == generation),
    {
        self.generation == generation
    }
}

proof fn lemma_color_stop(used: Seq<bool>, base: int, count: int, index: int) -> (at: (int, int))
    requires
        0 <= index < 7,
        index < 2 * count,
        used[index],
    ensures
        0 <= at.0 < color_lines(used, base, count).len(),
        0 <= at.1 < color_lines(used, base, count)[at.0].len(),
        color_lines(used, base, count)[at.0][at.1] == (FieldStop {
            field: PanelField::Color(DisplayColorField::every()[index]),
            tab_index: (base + 5 + index) as isize,
        }),
    decreases count,
{
    let before = color_lines(used, base, count - 1);
    let line = color_line(used, base, count - 1);
    if index < 2 * (count - 1) {
        let at = lemma_color_stop(used, base, count - 1, index);
        assert(color_lines(used, base, count)[at.0] == before[at.0]);
        at
    } else {
        let first = color_cell(used, base, 2 * (count - 1));
        let column = if index == 2 * (count - 1) {
            0
        } else {
            first.len() as int
        };
        assert(color_cell(used, base, index).len() == 1);
        assert(line[column] == color_cell(used, base, index)[0]);
        (before.len() as int, column)
    }
}

proof fn lemma_used_colors(used: Seq<bool>, base: int, count: int, line: int, column: int) -> (index:
    int)
    requires
        0 <= line < color_lines(used, base, count).len(),
        0 <= column < color_lines(used, base, count)[line].len(),
    ensures
        0 <= index < 7,
        used[index],
        color_lines(used, base, count)[line][column] == (FieldStop {
            field: PanelField::Color(DisplayColorField::every()[index]),
            tab_index: (base + 5 + index) as isize,
        }),
    decreases count,
{
    let before = color_lines(used, base, count - 1);
    if line < before.len() {
        assert(color_lines(used, base, count)[line] == before[line]);
        lemma_used_colors(used, base, count - 1, line, column)
    } else {
        let first = color_cell(used, base, 2 * (count - 1));
        let second = color_cell(used, base, 2 * (count - 1) + 1);
        if column < first.len() {
            assert(color_line(used, base, count - 1)[column] == first[column]);
            2 * (count - 1)
        } else {
            assert(color_line(used, base, count - 1)[column] == second[column - first.len()]);
            2 * (count - 1) + 1
        }
    }
}

/// Every color the mode paints with has its field in the editor, at the stop it
/// keeps whatever else is drawn.
pub proof fn a_color_in_use_has_its_field(
    mode: DisplayMode,
    used: Seq<bool>,
    base: int,
    field: DisplayColorField,
) -> (at: (int, int))
    requires
        used.len() == 7,
        used[field.place()],
        0 <= base,
        base + 13 <= isize::MAX,
    ensures
        0 <= at.0 < editor_lines(mode, used, base).len(),
        0 <= at.1 < editor_lines(mode, used, base)[at.0].len(),
        editor_lines(mode, used, base)[at.0][at.1].field == PanelField::Color(field),
        editor_lines(mode, used, base)[at.0][at.1].tab_index == base + 5 + field.place(),
{
    let at = lemma_color_stop(used, base, 4, field.place());
    let lead = if mode.slots() > 0 {
        1int
    } else {
        0
    };
    assert(DisplayColorField::every()[field.place()] == field);
    assert(editor_lines(mode, used, base)[lead + at.0] == color_lines(used, base, 4)[at.0]);
    (lead + at.0, at.1)
}

/// Nothing stands in the editor that the mode has no use for: a reading for each
/// slot it draws, the colors it paints with, and a picture in image mode, each at
/// its own stop.
pub proof fn every_field_of_the_editor_is_in_use(
    mode: DisplayMode,
    used: Seq<bool>,
    base: int,
    line: int,
    column: int,
)
    requires
        used.len() == 7,
        0 <= base,
        base + 13 <= isize::MAX,
        0 <= line < editor_lines(mode, used, base).len(),
        0 <= column < editor_lines(mode, used, base)[line].len(),
    ensures
        ({
            let stop = editor_lines(mode, used, base)[line][column];
            match stop.field {
                PanelField::Reading(slot) => {
                    &&& line == 0
                    &&& slot == column
                    &&& slot < 2
                    &&& mode is DualInfographic || (mode is SingleReading && slot == 0)
                    &&& stop.tab_index == base + 3 + slot
                },
                PanelField::Color(field) => {
                    &&& used[field.place()]
                    &&& stop.tab_index == base + 5 + field.place()
                },
                PanelField::Image => mode is Image && stop.tab_index == base + 12,
            }
        }),
{
    let lead = if mode.slots() > 0 {
        1int
    } else {
        0
    };
    let colors = color_lines(used, base, 4);
    let lines = editor_lines(mode, used, base);
    if line < lead {
        assert(lines[line] == reading_line(mode, base));
    } else if line < lead + colors.len() {
        assert(lines[line] == colors[line - lead]);
        let index = lemma_used_colors(used, base, 4, line - lead, column);
        let field = DisplayColorField::every()[index];
        assert(field.place() == index);
    } else {
        assert(mode is Image);
    }
}

/// The readings come first: two in the dual layout, one in the single one, none
/// in the others; in image mode the picture comes last.
pub proof fn the_editor_begins_with_the_readings(mode: DisplayMode, used: Seq<bool>, base: int)
    ensures
        mode is DualInfographic ==> editor_lines(mode, used, base)[0].len() == 2,
        mode is SingleReading ==> editor_lines(mode, used, base)[0].len() == 1,
        mode is DualInfographic || mode is SingleReading ==> editor_lines(mode, used, base).len()
            == 1 + color_lines(used, base, 4).len() && editor_lines(mode, used, base)[0][0].field
            == PanelField::Reading(0),
        mode is Solid ==> editor_lines(mode, used, base).len() == color_lines(used, base, 4).len(),
        mode is Image ==> editor_lines(mode, used, base).len() == color_lines(used, base, 4).len()
            + 1 && editor_lines(mode, used, base).last().len() == 1 && editor_lines(
            mode,
            used,
            base,
        ).last()[0].field == PanelField::Image,
{
}

/// The preset's own error is told before the picture's; a stopped stream offers
/// its way back only while the panel can be written to; and what cannot be
/// written says why.
pub proof fn the_notes_tell_what_stops_the_picture(
    notes: PanelNotes,
    preset_error: Option<&DisplayError>,
    film_error: Option<&DisplayError>,
    faulted: Option<&str>,
    frame: ControlState,
    base: int,
)
    requires
        notes.shows(preset_error, film_error, faulted, frame, base),
    ensures
        preset_error matches Some(error) ==> (notes.problem matches Some(note) && note.message@
            == error.text()),
        preset_error is None ==> (film_error matches Some(error) ==> (notes.problem matches Some(
            note,
        ) && note.message@ == error.text())),
        preset_error is None && film_error is None ==> notes.problem is None,
        notes.problem matches Some(note) ==> note.level is Warning,
        notes.resume is Some <==> faulted is Some && frame is Enabled,
        notes.resume matches Some((button, words)) ==> button.state is Enabled && button.tab_index
            == base + 13,
        notes.refusal is None <==> frame is Enabled,
        frame matches ControlState::Disabled { reason } ==> (notes.refusal matches Some(words)
            && words@ == reason@),
        frame matches ControlState::Error { message } ==> (notes.refusal matches Some(words)
            && words@ == message@),
{
}

proof fn lemma_part_starts_at(path: Seq<char>, end: int, start: int)
    requires
        0 <= start <= end <= path.len(),
        forall|i: int| start <= i < end ==> #[trigger] path[i] != '/',
        start == 0 || path[start - 1] == '/',
    ensures
        part_start(path, end) == start,
    decreases end,
{
    if end > start {
        lemma_part_starts_at(path, end - 1, start);
    }
}

/// What a path names up to a place depends on nothing behind it.
proof fn lemma_last_part_before(path: Seq<char>, other: Seq<char>, end: int)
    requires
        0 <= end <= path.len(),
        end <= other.len(),
        forall|i: int| 0 <= i < end ==> #[trigger] path[i] == other[i],
    ensures
        last_part(path, end) == last_part(other, end),
        part_start(path, end) == part_start(other, end),
    decreases end,
{
    if end > 0 {
        lemma_last_part_before(path, other, end - 1);
        let start = part_start(path, end);
        lemma_part_start(path, end);
        assert(path.subrange(start, end) =~= other.subrange(start, end));
        if 0 < start < end {
            lemma_last_part_before(path, other, start);
        }
    }
}

/// The file a path names is what stands behind its last slash, when that is a
/// name; a slash or a dot at the end makes no difference, and the parent
/// directory is no file.
pub proof fn a_file_is_named_behind_the_last_slash(directory: Seq<char>, name: Seq<char>)
    requires
        name.len() > 0,
        forall|i: int| 0 <= i < name.len() ==> #[trigger] name[i] != '/',
    ensures
        ({
            let path = directory + seq!['/'] + name;
            &&& name != seq!['.'] && name != seq!['.', '.'] ==> {
                &&& last_part(path, path.len() as int) == Some(name)
                &&& last_part(name, name.len() as int) == Some(name)
            }
            &&& name == seq!['.'] ==> {
                &&& last_part(path, path.len() as int) == last_part(
                    directory,
                    directory.len() as int,
                )
                &&& last_part(name, name.len() as int) is None
            }
            &&& name == seq!['.', '.'] ==> {
                &&& last_part(path, path.len() as int) is None
                &&& last_part(name, name.len() as int) is None
            }
        }),
        last_part(directory + seq!['/'], directory.len() as int + 1) == last_part(
            directory,
            directory.len() as int,
        ),
        last_part(Seq::empty(), 0) is None,
{
    let path = directory + seq!['/'] + name;
    let start = directory.len() + 1;
    let end = path.len() as int;
    assert(path[start - 1] == '/');
    assert forall|i: int| start <= i < end implies #[trigger] path[i] != '/' by {
        assert(path[i] == name[i - start]);
    }
    assert(path[end - 1] == name[name.len() - 1]);
    lemma_part_starts_at(path, end, start as int);
    lemma_part_starts_at(name, name.len() as int, 0);
    assert(path.subrange(start as int, end) =~= name);
    assert(name.subrange(0, name.len() as int) =~= name);
    assert(seq!['.', '.'].len() == 2);
    if name == seq!['.'] {
        assert(name.len() == 1);
        assert(last_part(path, end) == last_part(path, start as int));
        assert(last_part(path, start as int) == last_part(path, start - 1));
        lemma_last_part_before(path, directory, directory.len() as int);
    }
    let closed = directory + seq!['/'];
    assert(closed[directory.len() as int] == '/');
    lemma_last_part_before(closed, directory, directory.len() as int);
}

/// Nothing is chosen while the path names no file; a file that moves is told by
/// how many frames it has and how long they take.
pub proof fn a_chosen_file_is_told_by_its_name(path: Seq<char>, animation: Animation)
    ensures
        ({
            let inner = text::trimmed(path);
            match last_part(inner, inner.len() as int) {
                Some(name) => {
                    &&& name.is_prefix_of(image_words(path, None))
                    &&& image_words(path, Some(animation)) == name + ", "@ + text::decimal(
                        animation.frames as nat,
                    ) + " frames over "@ + animation.duration_s.one_decimal_text() + " s"@
                },
                None => image_words(path, None) == "No file chosen"@ && image_words(
                    path,
                    Some(animation),
                ) == "No file chosen"@,
            }
        }),
{
}

/// Every mode and every metric is offered once, each under its own key.
pub proof fn every_mode_and_metric_is_offered(mode: DisplayMode, metric: LcdMetric)
    ensures
        mode_pairs().len() == 4,
        mode_pairs().contains((mode.key_text(), mode.label_text())),
        metric_pairs().len() == 5,
        metric_pairs().contains((metric.key_text(), metric.label_text())),
{
    let at = match mode {
        DisplayMode::DualInfographic => 0int,
        DisplayMode::SingleReading => 1int,
        DisplayMode::Solid => 2int,
        DisplayMode::Image => 3int,
    };
    assert(mode_pairs()[at] == (mode.key_text(), mode.label_text()));
    let place = match metric {
        LcdMetric::CpuTemperature => 0int,
        LcdMetric::GpuTemperature => 1int,
        LcdMetric::LiquidTemperature => 2int,
        LcdMetric::CpuLoad => 3int,
        LcdMetric::GpuLoad => 4int,
    };
    assert(metric_pairs()[place] == (metric.key_text(), metric.label_text()));
}

/// The control at a stop of the editor is the one its field asks for, showing
/// that field's own slot, color or file.
pub proof fn a_control_shows_its_own_field(
    control: PanelControl,
    stop: FieldStop,
    inputs: PanelInputs,
    pointer: Pointer,
)
    requires
        control.stands_at(stop, inputs, pointer),
    ensures
        stop.field matches PanelField::Reading(slot) ==> (control matches PanelControl::Reading(
            field,
        ) && field.id == SelectId::LcdMetric(slot) && field.selected@
            == inputs.metrics@[slot as int].key_text() && field.tab_index == stop.tab_index),
        stop.field matches PanelField::Color(own) ==> (control matches PanelControl::Color(field)
            && field.digits@ == inputs.digits@[own.place()]@ && field.tab_index == stop.tab_index
            && field.caption@ == own.label_text()),
        stop.field is Image ==> (control matches PanelControl::Image(button, words)
            && button.tab_index == stop.tab_index),
{
}

/// The panel row names what was last sent: its mode, its turn and its
/// brightness; before that the size of the panel, and nothing when none
/// answered.
pub proof fn the_panel_row_names_what_was_sent(
    preset: DisplayPreset,
    panel: LcdPanel,
    other: Option<&LcdPanel>,
)
    ensures
        text::tells(
            panel_words(Some(&preset), other),
            seq![
                preset.mode.label_text(),
                preset.orientation.label_text(),
                text::decimal(preset.brightness@ as nat),
            ],
        ),
        text::tells(
            panel_words(None, Some(&panel)),
            seq![text::decimal(panel.width as nat), text::decimal(panel.height as nat)],
        ),
{
    assert(text::tells(
        panel_words(Some(&preset), other),
        seq![
            preset.mode.label_text(),
            preset.orientation.label_text(),
            text::decimal(preset.brightness@ as nat),
        ],
    )) by {
        let rest = "%"@;
        let parts = Seq::<Seq<char>>::empty();
        text::lemma_tells(", "@, text::decimal(preset.brightness@ as nat), rest, parts);
        let rest = ", "@ + text::decimal(preset.brightness@ as nat) + rest;
        let parts = seq![text::decimal(preset.brightness@ as nat)] + parts;
        text::lemma_tells(" at "@, preset.orientation.label_text(), rest, parts);
        let rest = " at "@ + preset.orientation.label_text() + rest;
        let parts = seq![preset.orientation.label_text()] + parts;
        text::lemma_tells(Seq::<char>::empty(), preset.mode.label_text(), rest, parts);
        let rest = Seq::<char>::empty() + preset.mode.label_text() + rest;
        let parts = seq![preset.mode.label_text()] + parts;
        assert(panel_words(Some(&preset), other) =~= rest);
        assert(parts =~= seq![preset.mode.label_text(), preset.orientation.label_text(), text::decimal(preset.brightness@ as nat)]);
    }
    let rest = " panel, nothing sent yet"@;
    let parts = Seq::<Seq<char>>::empty();
    text::lemma_tells("x"@, text::decimal(panel.height as nat), rest, parts);
    let rest = "x"@ + text::decimal(panel.height as nat) + rest;
    let parts = seq![text::decimal(panel.height as nat)] + parts;
    text::lemma_tells(Seq::<char>::empty(), text::decimal(panel.width as nat), rest, parts);
    let rest = Seq::<char>::empty() + text::decimal(panel.width as nat) + rest;
    let parts = seq![text::decimal(panel.width as nat)] + parts;
    assert(panel_words(None, Some(&panel)) =~= rest);
    assert(parts =~= seq![text::decimal(panel.width as nat), text::decimal(panel.height as nat)]);
}

} // verus!
