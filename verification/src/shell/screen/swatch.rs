//! Choosing a color, wherever the interface offers one.
//!
//! The panel's colors and a channel's differ in what choosing one writes and in
//! nothing else: the field, the swatch list, the enabled gate and the popover
//! are one control offered in two places.

use vstd::prelude::*;

use super::drag::Interaction;
use super::panel::DisplayColorField;
use super::row::LightingRow;
use super::write::WriteTarget;
use super::Popover;
use crate::lighting::Rgb;
use crate::shell::ControlState;
use crate::text;
use crate::theme::Color;

verus! {

/// How many swatches a color list puts on one line.
pub const SWATCH_COLUMNS: usize = 3;

/// Which color a field edits.
#[derive(Debug, Clone, Copy, PartialEq, Eq, Structural)]
pub enum ColorPicker {
    /// One of the panel's colors.
    Panel(DisplayColorField),
    /// One lighting channel's fixed color.
    Channel(u8),
}

impl ColorPicker {
    pub open spec fn id_text(self) -> Seq<char> {
        match self {
            Self::Panel(field) => "lcd-color-"@ + field.key_text(),
            Self::Channel(channel) => "lighting-color-"@ + text::decimal(channel as nat),
        }
    }

    /// Stable identifier for the control and the swatches under it.
    pub fn id(self) -> (id: String)
        ensures
            id@ == self.id_text(),
    {
        match self {
            Self::Panel(field) => {
                let mut id: String = "lcd-color-".to_owned();
                id.append(field.key());
                id
            },
            Self::Channel(channel) => {
                let mut id: String = "lighting-color-".to_owned();
                text::push_decimal(&mut id, channel as u64);
                id
            },
        }
    }

    pub open spec fn label_text(self) -> Seq<char> {
        match self {
            Self::Panel(field) => field.label_text(),
            Self::Channel(_) => "Color"@,
        }
    }

    /// The caption above the field.
    ///
    /// The panel's fields carry their whole name because nothing beside them
    /// says which slot they belong to; a channel's field sits under a row that
    /// already names the device.
    pub fn label(self) -> (label: &'static str)
        ensures
            label@ == self.label_text(),
    {
        match self {
            Self::Panel(field) => field.label(),
            Self::Channel(_) => "Color",
        }
    }

    pub open spec fn row_of(self) -> LightingRow {
        match self {
            Self::Panel(_) => LightingRow::Lcd,
            Self::Channel(channel) => LightingRow::Channel(channel),
        }
    }

    /// The row whose quiet period a choice here waits out.
    pub fn row(self) -> (row: LightingRow)
        ensures
            row == self.row_of(),
    {
        match self {
            Self::Panel(_) => LightingRow::Lcd,
            Self::Channel(channel) => LightingRow::Channel(channel),
        }
    }
}

/// The colors a popover offers, in order.
pub open spec fn offered() -> Seq<Color> {
    seq![
        Color(0x6f4ef2),
        Color(0x30c8a0),
        Color(0xf5c451),
        Color(0xff8a8a),
        Color(0xe8eaee),
        Color(0x14161a),
    ]
}

/// Swatches offered by a color popover.
pub fn swatches() -> (colors: [Color; 6])
    ensures
        colors@ == offered(),
{
    let colors: [Color; 6] = [
        Color::rgb(0x6f4ef2),
        Color::rgb(0x30c8a0),
        Color::rgb(0xf5c451),
        Color::rgb(0xff8a8a),
        Color::rgb(0xe8eaee),
        Color::rgb(0x14161a),
    ];
    assert(colors@ =~= offered());
    colors
}

/// No color is offered twice.
pub proof fn swatches_are_distinct(i: int, j: int)
    requires
        0 <= i < j < offered().len(),
    ensures
        offered()[i] != offered()[j],
{
    assert(offered().len() == 6);
}

/// `items` cut into lines of [`SWATCH_COLUMNS`], the last one shorter when they
/// do not fill it.
pub open spec fn lines_of<T>(items: Seq<T>) -> Seq<Seq<T>>
    decreases items.len(),
{
    if items.len() == 0 {
        Seq::empty()
    } else if items.len() <= SWATCH_COLUMNS {
        seq![items]
    } else {
        seq![items.take(SWATCH_COLUMNS as int)] + lines_of(items.skip(SWATCH_COLUMNS as int))
    }
}

/// The offered colors, [`SWATCH_COLUMNS`] to a line.
///
/// Laid out in fixed rows rather than wrapped on the available width, so the
/// shape of the list is the same wherever it opens.
pub fn swatch_grid<T>(swatches: Vec<T>) -> (rows: Vec<Vec<T>>)
    ensures
        rows@.map_values(|row: Vec<T>| row@) == lines_of(swatches@),
{
    let ghost items = swatches@;
    let mut left: Vec<T> = swatches;
    let mut rows: Vec<Vec<T>> = Vec::new();
    assert(rows@.map_values(|row: Vec<T>| row@) + lines_of(items) =~= lines_of(items));
    while left.len() > 0
        invariant
            rows@.map_values(|row: Vec<T>| row@) + lines_of(left@) == lines_of(items),
        decreases left.len(),
    {
        let ghost before = left@;
        let ghost known = rows@.map_values(|row: Vec<T>| row@);
        let taken: usize = if SWATCH_COLUMNS < left.len() {
            SWATCH_COLUMNS
        } else {
            left.len()
        };
        let rest: Vec<T> = left.split_off(taken);
        rows.push(left);
        left = rest;
        proof {
            let line = before.take(taken as int);
            let shown = rows@.map_values(|row: Vec<T>| row@);
            assert(shown =~= known.push(line));
            assert(left@ =~= before.skip(taken as int));
            if before.len() <= SWATCH_COLUMNS {
                assert(line =~= before);
                assert(lines_of(left@) =~= Seq::empty());
            }
            assert(lines_of(before) =~= seq![line] + lines_of(left@));
            assert(shown + lines_of(left@) =~= known + lines_of(before));
        }
    }
    assert(lines_of(left@) =~= Seq::<Seq<T>>::empty());
    assert(rows@.map_values(|row: Vec<T>| row@) + lines_of(left@) =~= rows@.map_values(
        |row: Vec<T>| row@,
    ));
    rows
}

/// A grid shows every item once, in order, and no line is empty or too long.
pub proof fn a_grid_shows_every_item<T>(items: Seq<T>)
    ensures
        lines_of(items).flatten() == items,
        forall|i: int|
            0 <= i < lines_of(items).len() ==> 0 < (#[trigger] lines_of(items)[i]).len()
                <= SWATCH_COLUMNS,
    decreases items.len(),
{
    let lines = lines_of(items);
    if items.len() == 0 {
        assert(lines.flatten() =~= items);
    } else if items.len() <= SWATCH_COLUMNS {
        lines.lemma_flatten_one_element();
    } else {
        let first = items.take(SWATCH_COLUMNS as int);
        let rest = items.skip(SWATCH_COLUMNS as int);
        a_grid_shows_every_item(rest);
        assert(lines.drop_first() =~= lines_of(rest));
        assert(lines[0] == first);
        assert(lines.flatten() =~= first + rest);
        assert(first + rest =~= items);
        assert forall|i: int| 0 <= i < lines.len() implies 0 < (#[trigger] lines[i]).len()
            <= SWATCH_COLUMNS by {
            if i > 0 {
                assert(lines[i] == lines_of(rest)[i - 1]);
            }
        }
    }
}

/// The digits a color field holds for a swatch: at least six, upper case.
pub open spec fn swatch_digits(swatch: Color) -> Seq<char> {
    let above = (swatch.0 as int / 16777216) as u8;
    let six = swatch.channels().hex_text();
    if above == 0 {
        six
    } else if above < 16 {
        crate::lighting::hex_pair(above).skip(1) + six
    } else {
        crate::lighting::hex_pair(above) + six
    }
}

/// What choosing a swatch changes: the digits its field holds from now on, and
/// the target whose quiet period begins.
#[derive(Debug)]
pub struct ColorChoice {
    pub digits: String,
    pub target: WriteTarget,
}

/// Whether a picker has a field to put a color in: the panel always does, and a
/// channel while it is being edited.
pub open spec fn has_field(picker: ColorPicker, edited: Seq<u8>) -> bool {
    picker matches ColorPicker::Channel(channel) ==> edited.contains(channel)
}

/// Put a chosen color in one picker's field and say what that schedules.
///
/// `edited` are the channels that have an editor. A picker of any other channel
/// leads to nothing, and leaves the list as it is. Closing the list is part of
/// choosing: leaving it open over the control it just changed would hide the
/// result of the press.
pub fn choose_color(
    picker: ColorPicker,
    swatch: Color,
    edited: &Vec<u8>,
    interaction: &mut Interaction,
) -> (choice: Option<ColorChoice>)
    ensures
        choice is Some <==> has_field(picker, edited@),
        choice matches Some(choice) ==> choice.digits@ == swatch_digits(swatch) && choice.target
            == WriteTarget::Lighting(picker.row_of()),
        final(interaction)@ == if has_field(picker, edited@) {
            super::drag::Pointer { popover: None, ..old(interaction)@ }
        } else {
            old(interaction)@
        },
{
    if let ColorPicker::Channel(channel) = picker {
        let mut found: bool = false;
        for index in 0..edited.len()
            invariant
                found == exists|i: int| 0 <= i < index && edited@[i] == channel,
        {
            if edited[index] == channel {
                found = true;
            }
        }
        if !found {
            return None;
        }
    }
    interaction.dismiss();
    let above: u8 = (swatch.0 / 16777216) as u8;
    let six: String = swatch.to_rgb().to_hex();
    let digits: String = if above == 0 {
        six
    } else {
        let pair: String = Rgb { r: above, g: 0, b: 0 }.to_hex();
        let letters: Vec<char> = text::chars_of(pair.as_str());
        assert(letters@.len() == 6);
        let from: usize = if above < 16 {
            1
        } else {
            0
        };
        let mut digits: String = text::text_of(&letters, from, 2);
        digits.append(six.as_str());
        assert(digits@ =~= swatch_digits(swatch));
        digits
    };
    Some(ColorChoice { digits, target: WriteTarget::Lighting(picker.row()) })
}

/// A color field and the swatch list it opens.
#[derive(Debug)]
pub struct ColorField {
    pub id: String,
    pub caption: &'static str,
    /// The digits as typed, so an entry the operator has not finished keeps its
    /// own error rather than being replaced by a value it never held.
    pub digits: String,
    pub state: ControlState,
    pub tab_index: isize,
    /// Whether the swatch list is showing.
    pub open: bool,
    /// The element id of each offered color, in order.
    pub swatch_ids: Vec<String>,
}

/// The element id of one offered color.
pub open spec fn swatch_id(picker: ColorPicker, index: int) -> Seq<char> {
    picker.id_text() + "-swatch-"@ + text::decimal(index as nat)
}

impl ColorField {
    /// Whether this is the field of `picker`, holding `digits`.
    pub open spec fn shows(
        self,
        picker: ColorPicker,
        digits: Seq<char>,
        state: ControlState,
        tab_index: int,
        pointer: super::drag::Pointer,
    ) -> bool {
        &&& self.id@ == picker.id_text()
        &&& self.caption@ == picker.label_text()
        &&& self.digits@ == digits
        &&& self.state == state
        &&& self.tab_index == tab_index
        &&& self.open == (state is Enabled && pointer.popover == Some(Popover::Swatches { picker }))
        &&& self.swatch_ids@.len() == offered().len()
        &&& forall|i: int|
            0 <= i < offered().len() ==> (#[trigger] self.swatch_ids@[i])@ == swatch_id(picker, i)
    }
}

/// A color field plus the swatch list it opens.
///
/// It carries the device's refusal: choosing a swatch is what sends the
/// command, so a picker never opens over hardware nothing can be written to.
pub fn color_picker(
    picker: ColorPicker,
    digits: &str,
    state: ControlState,
    tab_index: isize,
    interaction: &Interaction,
) -> (field: ColorField)
    ensures
        field.shows(picker, digits@, state, tab_index as int, interaction@),
{
    let open: bool = state.is_enabled() && interaction.showing(&Popover::Swatches { picker });
    let mut swatch_ids: Vec<String> = Vec::new();
    assert(offered().len() == 6);
    for index in 0..6usize
        invariant
            swatch_ids@.len() == index,
            forall|i: int|
                0 <= i < index ==> (#[trigger] swatch_ids@[i])@ == swatch_id(picker, i),
    {
        let mut id: String = picker.id();
        id.append("-swatch-");
        text::push_decimal(&mut id, index as u64);
        assert(id@ =~= swatch_id(picker, index as int));
        swatch_ids.push(id);
    }
    ColorField {
        id: picker.id(),
        caption: picker.label(),
        digits: digits.to_owned(),
        state,
        tab_index,
        open,
        swatch_ids,
    }
}

/// Every line of a grid but the last is full, with three to a line.
pub proof fn only_the_last_line_is_short<T>(items: Seq<T>, line: int)
    requires
        0 <= line < lines_of(items).len() - 1,
    ensures
        lines_of(items)[line].len() == 3,
        lines_of(items)[line] == items.subrange(3 * line, 3 * line + 3),
        3 * line + 3 < items.len(),
    decreases items.len(),
{
    let rest = items.skip(3);
    if items.len() > 3 {
        assert(lines_of(items) == seq![items.take(3)] + lines_of(rest));
        if line > 0 {
            only_the_last_line_is_short(rest, line - 1);
            assert(lines_of(items)[line] == lines_of(rest)[line - 1]);
            assert(rest.subrange(3 * (line - 1), 3 * (line - 1) + 3) =~= items.subrange(
                3 * line,
                3 * line + 3,
            ));
        } else {
            assert(items.take(3) =~= items.subrange(0, 3));
        }
    }
}

/// A choice is written with the row it belongs to: the panel's, or its own
/// channel's.
pub proof fn a_choice_belongs_to_its_row(field: DisplayColorField, channel: u8, edited: Seq<u8>)
    ensures
        ColorPicker::Panel(field).row_of() == LightingRow::Lcd,
        ColorPicker::Channel(channel).row_of() == LightingRow::Channel(channel),
        has_field(ColorPicker::Panel(field), edited),
        has_field(ColorPicker::Channel(channel), edited) <==> exists|i: int|
            0 <= i < edited.len() && #[trigger] edited[i] == channel,
{
}

/// A field holds the digits of the color that was chosen: six for any color
/// offered, and reading them gives its red, green and blue.
pub proof fn a_field_holds_the_digits_of_its_color(swatch: Color)
    requires
        swatch.0 <= 0xff_ffff,
    ensures
        swatch_digits(swatch).len() == 6,
        crate::lighting::all_hex_digits(swatch_digits(swatch)),
        65536 * crate::lighting::color_of(swatch_digits(swatch)).r + 256
            * crate::lighting::color_of(swatch_digits(swatch)).g + crate::lighting::color_of(
            swatch_digits(swatch),
        ).b == swatch.0,
{
    let color = swatch.channels();
    crate::theme::a_color_is_packed_byte_by_byte(color, swatch);
    crate::lighting::hex_form_is_read_back(color);
    assert(swatch_digits(swatch) == color.hex_text());
}

/// A color field is its picker's own: it holds the digits typed, opens only
/// where it can be operated and was asked to, and has a swatch for each color
/// offered, numbered in order.
pub proof fn a_color_field_is_its_pickers_own(
    field: ColorField,
    picker: ColorPicker,
    digits: Seq<char>,
    state: ControlState,
    tab_index: int,
    pointer: super::drag::Pointer,
    swatch: int,
)
    requires
        field.shows(picker, digits, state, tab_index, pointer),
        0 <= swatch < 6,
    ensures
        field.digits@ == digits,
        field.state == state,
        field.tab_index == tab_index,
        field.open <==> state is Enabled && pointer.popover == Some(Popover::Swatches { picker }),
        field.swatch_ids@.len() == 6,
        text::tells(
            field.swatch_ids@[swatch]@,
            seq![picker.id_text(), text::decimal(swatch as nat)],
        ),
{
    let number = text::decimal(swatch as nat);
    let rest = Seq::<char>::empty();
    let parts = Seq::<Seq<char>>::empty();
    text::lemma_tells("-swatch-"@, number, rest, parts);
    let rest = "-swatch-"@ + number + rest;
    let parts = seq![number] + parts;
    text::lemma_tells(Seq::<char>::empty(), picker.id_text(), rest, parts);
    assert(Seq::<char>::empty() + picker.id_text() + rest =~= field.swatch_ids@[swatch]@);
    assert(seq![picker.id_text()] + parts =~= seq![picker.id_text(), number]);
}

/// The six colors offered, from violet to near black.
pub proof fn the_colors_that_are_offered()
    ensures
        offered() == seq![
            Color(7_294_706),
            Color(3_197_088),
            Color(16_106_577),
            Color(16_747_146),
            Color(15_264_494),
            Color(1_316_378),
        ],
{
}

/// What stands above the three channels of a color is written before them, in
/// as many digits as it takes.
pub proof fn what_stands_above_the_channels_is_written_first(swatch: Color)
    requires
        swatch.0 > 0xff_ffff,
    ensures
        ({
            let digits = swatch_digits(swatch);
            let above = swatch.0 / 0x100_0000;
            &&& above < 16 ==> digits.len() == 7 && crate::lighting::hex_digit_value(digits[0])
                == above && digits.skip(1) == swatch.channels().hex_text()
            &&& above >= 16 ==> digits.len() == 8 && 16 * crate::lighting::hex_digit_value(
                digits[0],
            ) + crate::lighting::hex_digit_value(digits[1]) == above && digits.skip(2)
                == swatch.channels().hex_text()
        }),
{
    let digits = swatch_digits(swatch);
    let six = swatch.channels().hex_text();
    if swatch.0 / 0x100_0000 < 16 {
        assert(digits.skip(1) =~= six);
    } else {
        assert(digits.skip(2) =~= six);
    }
}

} // verus!
