//! The four destinations, and the vocabulary they share.
//!
//! What lives here is what more than one screen needs: which popover is open,
//! which rows each screen has open, and the select that is the only control all
//! of them use.

use vstd::laws_eq::obeys_concrete_eq;
use vstd::prelude::*;

pub mod channel;
pub mod cooling;
pub mod drag;
pub mod keyed;
pub mod lighting;
pub mod monitoring;
pub mod panel;
pub mod row;
pub mod settings;
pub mod swatch;
pub mod tab;
pub mod write;

use crate::profile::curve::CURVE_NODE_COUNT;
use crate::profile::Channel;
use crate::shell::ControlState;
use crate::text;
use drag::Interaction;
use keyed::{KeySet, Keyed};
use row::LightingRow;
use swatch::ColorPicker;

verus! {

/// Width of one field in an open row's detail, in logical pixels.
pub const FIELD_WIDTH: u32 = 168;

/// Which popover is open.
#[derive(Debug, Clone, Copy, PartialEq, Eq, Structural)]
pub enum Popover {
    /// A color swatch list anchored to one color field.
    Swatches { picker: ColorPicker },
    /// An option list anchored to one select.
    Options { select: SelectId },
}

/// Which select a control and the list it opens are.
///
/// It carries the caption rule too: the two selects that sit on a device row
/// are named by the row they are on, and every other one names itself.
#[derive(Debug, Clone, Copy, PartialEq, Eq, Structural)]
pub enum SelectId {
    CoolingMode,
    Profile,
    ChannelMode(u8),
    ChannelSpeed(u8),
    ChannelDirection(u8),
    LcdMode,
    /// One of the panel's reading slots, by index.
    LcdMetric(usize),
}

impl SelectId {
    /// Whether the slot of a reading select can be numbered from one.
    pub open spec fn numbered(self) -> bool {
        self matches Self::LcdMetric(slot) ==> slot < usize::MAX
    }

    pub open spec fn key_text(self) -> Seq<char> {
        match self {
            Self::CoolingMode => "cooling-mode"@,
            Self::Profile => "profile"@,
            Self::ChannelMode(channel) => "lighting-mode-"@ + text::decimal(channel as nat),
            Self::ChannelSpeed(channel) => "lighting-speed-"@ + text::decimal(channel as nat),
            Self::ChannelDirection(channel) => "lighting-direction-"@ + text::decimal(
                channel as nat,
            ),
            Self::LcdMode => "lcd-mode"@,
            Self::LcdMetric(slot) => "lcd-metric-"@ + text::decimal((slot + 1) as nat),
        }
    }

    /// Stable fragment for the element ids this control and its rows carry.
    pub fn key(self) -> (key: String)
        requires
            self.numbered(),
        ensures
            key@ == self.key_text(),
    {
        let (stem, number): (&'static str, Option<u64>) = match self {
            Self::CoolingMode => ("cooling-mode", None),
            Self::Profile => ("profile", None),
            Self::ChannelMode(channel) => ("lighting-mode-", Some(channel as u64)),
            Self::ChannelSpeed(channel) => ("lighting-speed-", Some(channel as u64)),
            Self::ChannelDirection(channel) => ("lighting-direction-", Some(channel as u64)),
            Self::LcdMode => ("lcd-mode", None),
            Self::LcdMetric(slot) => ("lcd-metric-", Some((slot + 1) as u64)),
        };
        let mut key: String = stem.to_owned();
        if let Some(number) = number {
            text::push_decimal(&mut key, number);
        }
        key
    }

    pub open spec fn label_text(self) -> Seq<char> {
        match self {
            Self::CoolingMode | Self::ChannelMode(_) => "Mode"@,
            Self::Profile => "Active profile"@,
            Self::ChannelSpeed(_) => "Speed"@,
            Self::ChannelDirection(_) => "Direction"@,
            Self::LcdMode => "Display mode"@,
            Self::LcdMetric(slot) => "Reading "@ + text::decimal((slot + 1) as nat),
        }
    }

    /// The caption above the control, which an error message also names.
    pub fn label(self) -> (label: String)
        requires
            self.numbered(),
        ensures
            label@ == self.label_text(),
    {
        match self {
            Self::CoolingMode | Self::ChannelMode(_) => "Mode".to_owned(),
            Self::Profile => "Active profile".to_owned(),
            Self::ChannelSpeed(_) => "Speed".to_owned(),
            Self::ChannelDirection(_) => "Direction".to_owned(),
            Self::LcdMode => "Display mode".to_owned(),
            Self::LcdMetric(slot) => {
                let mut label: String = "Reading ".to_owned();
                text::push_decimal(&mut label, (slot + 1) as u64);
                label
            },
        }
    }

    /// Whether the caption is drawn above the control.
    ///
    /// A control in an open detail carries its own name, because nothing else
    /// around it does. A control on a device row does not: the row already
    /// names the device.
    pub fn shows_label(self) -> (shows: bool)
        ensures
            shows == !(self is ChannelMode || self is LcdMode),
    {
        !matches!(self, Self::ChannelMode(_) | Self::LcdMode)
    }
}

/// No two selects answer to one key, so a popover never opens under another
/// control than its own.
pub proof fn select_keys_are_distinct(a: SelectId, b: SelectId)
    requires
        a.key_text() == b.key_text(),
    ensures
        a == b,
{
    reveal_strlit("cooling-mode");
    reveal_strlit("profile");
    reveal_strlit("lighting-mode-");
    reveal_strlit("lighting-speed-");
    reveal_strlit("lighting-direction-");
    reveal_strlit("lcd-mode");
    reveal_strlit("lcd-metric-");
    lemma_key_starts(a);
    lemma_key_starts(b);
    let key = a.key_text();
    match (a, b) {
        (SelectId::ChannelMode(m), SelectId::ChannelMode(n)) => {
            assert(key.skip(14) =~= text::decimal(m as nat));
            assert(b.key_text().skip(14) =~= text::decimal(n as nat));
            text::decimal_is_read_back(m as nat);
            text::decimal_is_read_back(n as nat);
        },
        (SelectId::ChannelSpeed(m), SelectId::ChannelSpeed(n)) => {
            assert(key.skip(15) =~= text::decimal(m as nat));
            assert(b.key_text().skip(15) =~= text::decimal(n as nat));
            text::decimal_is_read_back(m as nat);
            text::decimal_is_read_back(n as nat);
        },
        (SelectId::ChannelDirection(m), SelectId::ChannelDirection(n)) => {
            assert(key.skip(19) =~= text::decimal(m as nat));
            assert(b.key_text().skip(19) =~= text::decimal(n as nat));
            text::decimal_is_read_back(m as nat);
            text::decimal_is_read_back(n as nat);
        },
        (SelectId::LcdMetric(m), SelectId::LcdMetric(n)) => {
            assert(key.skip(11) =~= text::decimal((m + 1) as nat));
            assert(b.key_text().skip(11) =~= text::decimal((n + 1) as nat));
            text::decimal_is_read_back((m + 1) as nat);
            text::decimal_is_read_back((n + 1) as nat);
        },
        _ => {},
    }
}

/// The letters that tell one kind of select key from another.
proof fn lemma_key_starts(id: SelectId)
    ensures
        ({
            let key = id.key_text();
            &&& key.len() >= 7
            &&& id is CoolingMode <==> key[0] == 'c'
            &&& id is Profile <==> key[0] == 'p'
            &&& id is LcdMode || id is LcdMetric <==> key[0] == 'l' && key[1] == 'c'
            &&& id is LcdMode ==> key[5] == 'o'
            &&& id is LcdMetric ==> key[5] == 'e'
            &&& id is ChannelMode ==> key[9] == 'm'
            &&& id is ChannelSpeed ==> key[9] == 's'
            &&& id is ChannelDirection ==> key[9] == 'd'
        }),
{
    reveal_strlit("cooling-mode");
    reveal_strlit("profile");
    reveal_strlit("lighting-mode-");
    reveal_strlit("lighting-speed-");
    reveal_strlit("lighting-direction-");
    reveal_strlit("lcd-mode");
    reveal_strlit("lcd-metric-");
}

/// One entry of a select.
#[derive(Debug, PartialEq, Eq)]
pub struct SelectOption {
    pub value: String,
    pub label: String,
}

impl SelectOption {
    pub fn new(value: &str, label: &str) -> (option: Self)
        ensures
            option.value@ == value@,
            option.label@ == label@,
    {
        Self { value: value.to_owned(), label: label.to_owned() }
    }

    /// The value and the label, as the text each holds.
    pub open spec fn pair(self) -> (Seq<char>, Seq<char>) {
        (self.value@, self.label@)
    }
}

/// What each of a list of options holds.
pub open spec fn pairs(options: Seq<SelectOption>) -> Seq<(Seq<char>, Seq<char>)> {
    options.map_values(|option: SelectOption| option.pair())
}

/// Everything one select needs beyond what its [`SelectId`] already says.
#[derive(Debug)]
pub struct SelectField {
    pub id: SelectId,
    pub options: Vec<SelectOption>,
    pub selected: String,
    pub state: ControlState,
    pub tab_index: isize,
}

/// One row of an open option list.
#[derive(Debug)]
pub struct MenuRow {
    pub id: String,
    pub value: String,
    pub label: String,
    /// Whether this is the value the control currently holds.
    pub chosen: bool,
    /// How strongly the row is highlighted at rest, in percent.
    pub resting: u8,
    /// How strongly the row is highlighted under the pointer, in percent.
    pub hovered: u8,
    /// The row's own stop in the range menus keep for themselves.
    pub tab_index: isize,
}

/// A select, and the list it shows while it is open.
#[derive(Debug)]
pub struct SelectView {
    pub key: String,
    pub label: String,
    pub label_shown: bool,
    /// What can be chosen, among it the label of what is held.
    pub options: Vec<SelectOption>,
    pub selected: String,
    pub state: ControlState,
    pub tab_index: isize,
    /// The list, while it is open.
    pub menu: Option<Vec<MenuRow>>,
}

impl MenuRow {
    /// Whether this row stands for `option` in the list of a select that holds
    /// `selected`.
    pub open spec fn stands_for(
        self,
        key: Seq<char>,
        option: SelectOption,
        selected: Seq<char>,
        tab_index: int,
    ) -> bool {
        let chosen = option.value@ == selected;
        &&& self.id@ == key + "-"@ + option.value@
        &&& self.value@ == option.value@
        &&& self.label@ == option.label@
        &&& self.chosen == chosen
        &&& self.resting == if chosen { 10int } else { 0 }
        &&& self.hovered == if chosen { 10int } else { 5 }
        &&& self.tab_index == tab_index
    }
}

/// Choose a row of an open list: its value is what the select hands on, and the
/// list closes.
pub fn choose_option(row: &MenuRow, interaction: &mut Interaction) -> (value: String)
    ensures
        value@ == row.value@,
        final(interaction)@ == (drag::Pointer { popover: None, ..old(interaction)@ }),
{
    interaction.dismiss();
    row.value.clone()
}

/// Press the control a list hangs from: its list opens, or closes when it is the
/// one already showing. A control that cannot be operated answers nothing.
pub fn press_trigger(popover: Popover, state: &ControlState, interaction: &mut Interaction)
    ensures
        final(interaction)@ == if *state is Enabled {
            drag::Pointer {
                popover: if old(interaction)@.popover == Some(popover) {
                    None
                } else {
                    Some(popover)
                },
                ..old(interaction)@
            }
        } else {
            old(interaction)@
        },
{
    if state.is_enabled() {
        interaction.toggle(popover);
    }
}

/// A select plus its popover.
///
/// A control that cannot be operated never opens its list: withholding the list
/// is what makes the refusal real rather than a matter of styling. The rows of
/// an open list take the stops from `menu_base` on, one each.
pub fn select(field: SelectField, menu_base: isize, interaction: &Interaction) -> (view: SelectView)
    requires
        field.id.numbered(),
        0 <= menu_base,
        menu_base + field.options@.len() <= isize::MAX,
    ensures
        view.key@ == field.id.key_text(),
        view.label@ == field.id.label_text(),
        view.label_shown == !(field.id is ChannelMode || field.id is LcdMode),
        view.options == field.options,
        view.selected == field.selected,
        view.state == field.state,
        view.tab_index == field.tab_index,
        view.menu is Some <==> field.state is Enabled && interaction@.popover == Some(
            Popover::Options { select: field.id },
        ),
        view.menu matches Some(menu) ==> {
            &&& menu@.len() == field.options@.len()
            &&& forall|i: int|
                0 <= i < menu@.len() ==> (#[trigger] menu@[i]).stands_for(
                    field.id.key_text(),
                    field.options@[i],
                    field.selected@,
                    menu_base + i,
                )
        },
{
    let key: String = field.id.key();
    let open: bool = field.state.is_enabled() && interaction.showing(
        &Popover::Options { select: field.id },
    );
    let menu: Option<Vec<MenuRow>> = if open {
        let mut menu: Vec<MenuRow> = Vec::new();
        for index in 0..field.options.len()
            invariant
                key@ == field.id.key_text(),
                0 <= menu_base,
                menu_base + field.options@.len() <= isize::MAX,
                menu@.len() == index,
                forall|i: int|
                    0 <= i < index ==> (#[trigger] menu@[i]).stands_for(
                        field.id.key_text(),
                        field.options@[i],
                        field.selected@,
                        menu_base + i,
                    ),
        {
            let option: &SelectOption = &field.options[index];
            let chosen: bool = text::same(option.value.as_str(), field.selected.as_str());
            let mut id: String = key.clone();
            id.append("-");
            id.append(option.value.as_str());
            let shown = MenuRow {
                id,
                value: option.value.clone(),
                label: option.label.clone(),
                chosen,
                resting: if chosen {
                    10
                } else {
                    0
                },
                hovered: if chosen {
                    10
                } else {
                    5
                },
                tab_index: menu_base + index as isize,
            };
            assert(shown.id@ =~= key@ + "-"@ + option.value@);
            menu.push(shown);
        }
        Some(menu)
    } else {
        None
    };
    SelectView {
        label: field.id.label(),
        label_shown: field.id.shows_label(),
        key,
        options: field.options,
        selected: field.selected,
        state: field.state,
        tab_index: field.tab_index,
        menu,
    }
}

/// The nearest node of a curve to an index along it.
pub open spec fn on_plot(index: int) -> int {
    if index < 0 {
        0
    } else if index > CURVE_NODE_COUNT - 1 {
        CURVE_NODE_COUNT - 1
    } else {
        index
    }
}

/// The node the keyboard is on: the first one until another was chosen.
pub open spec fn selected_node(nodes: Seq<(Channel, usize)>, channel: Channel) -> usize {
    match keyed::held(nodes, channel) {
        Some(node) => node,
        None => 0,
    }
}

/// Which rows each screen has open, and where the keyboard sits on each plot.
#[derive(Debug)]
pub struct Disclosure {
    /// Cooling channels whose rows are open, each editable on its own.
    pub cooling: KeySet<Channel>,
    /// Lighting rows whose controls are revealed, on the same terms.
    pub lighting: KeySet<LightingRow>,
    /// The curve node chosen on each plot.
    pub nodes: Keyed<Channel, usize>,
}

impl Default for Disclosure {
    fn default() -> (rows: Self)
        ensures
            rows.cooling@ == Seq::<(Channel, ())>::empty(),
            rows.lighting@ == Seq::<(LightingRow, ())>::empty(),
            rows.nodes@ == Seq::<(Channel, usize)>::empty(),
    {
        Self { cooling: Keyed::default(), lighting: Keyed::default(), nodes: Keyed::default() }
    }
}

impl Disclosure {
    /// The curve node the keyboard is on for `channel`.
    ///
    /// One per channel rather than one for the screen: with both rows open, a
    /// shared index would move a node on whichever plot was focused last.
    pub fn node(&self, channel: Channel) -> (node: usize)
        ensures
            node == selected_node(self.nodes@, channel),
    {
        proof {
            reveal(obeys_concrete_eq);
        }
        match self.nodes.get(channel) {
            Some(node) => *node,
            None => 0,
        }
    }

    pub fn select_node(&mut self, channel: Channel, index: usize)
        ensures
            final(self).nodes@ == keyed::with(
                old(self).nodes@,
                channel,
                on_plot(index as int) as usize,
            ),
            final(self).cooling == old(self).cooling,
            final(self).lighting == old(self).lighting,
    {
        proof {
            reveal(obeys_concrete_eq);
        }
        let held: usize = if index < CURVE_NODE_COUNT {
            index
        } else {
            CURVE_NODE_COUNT - 1
        };
        self.nodes.set(channel, held);
    }

    /// Move the selection along the curve, staying on the plot.
    pub fn step_node(&mut self, channel: Channel, delta: isize)
        ensures
            final(self).nodes@ == keyed::with(
                old(self).nodes@,
                channel,
                on_plot(selected_node(old(self).nodes@, channel) + delta) as usize,
            ),
            final(self).cooling == old(self).cooling,
            final(self).lighting == old(self).lighting,
    {
        let next: i128 = self.node(channel) as i128 + delta as i128;
        let index: usize = if next < 0 {
            0
        } else if next > CURVE_NODE_COUNT as i128 {
            CURVE_NODE_COUNT
        } else {
            next as usize
        };
        self.select_node(channel, index);
    }

    /// Open a cooling row, or close it, putting the keyboard back on the first
    /// node of the plot it reveals.
    pub fn toggle_cooling(&mut self, channel: Channel)
        ensures
            final(self).cooling@ == if keyed::keeps(old(self).cooling@, channel) {
                keyed::without(old(self).cooling@, channel)
            } else {
                old(self).cooling@.push((channel, ()))
            },
            final(self).lighting == old(self).lighting,
            final(self).nodes@ == keyed::with(old(self).nodes@, channel, 0),
    {
        proof {
            reveal(obeys_concrete_eq);
        }
        self.cooling.toggle(channel);
        self.select_node(channel, 0);
    }

    /// Whether one row of the Lighting screen is open.
    pub fn is_open(&self, row: LightingRow) -> (open: bool)
        ensures
            open == keyed::keeps(self.lighting@, row),
    {
        proof {
            reveal(obeys_concrete_eq);
        }
        self.lighting.contains(row)
    }
}

/// The selection never leaves the curve, and moving it on one plot moves it on
/// no other.
pub proof fn the_selection_stays_on_its_own_plot(
    nodes: Seq<(Channel, usize)>,
    channel: Channel,
    index: int,
    other: Channel,
)
    ensures
        ({
            let after = keyed::with(nodes, channel, on_plot(index) as usize);
            &&& selected_node(after, channel) < CURVE_NODE_COUNT
            &&& 0 <= index < CURVE_NODE_COUNT ==> selected_node(after, channel) == index
            &&& other != channel ==> selected_node(after, other) == selected_node(nodes, other)
        }),
{
    keyed::what_is_set_is_held(nodes, channel, on_plot(index) as usize, other);
}

/// A row of a list is its option's own: it hands on the option's value and is
/// marked, at rest as under the pointer, exactly when that is what is held.
pub proof fn a_menu_row_stands_for_its_option(
    row: MenuRow,
    key: Seq<char>,
    option: SelectOption,
    selected: Seq<char>,
    tab_index: int,
)
    requires
        row.stands_for(key, option, selected, tab_index),
    ensures
        row.value@ == option.value@,
        row.label@ == option.label@,
        row.chosen <==> option.value@ == selected,
        row.chosen ==> row.resting == 10 && row.hovered == 10,
        !row.chosen ==> row.resting == 0 && row.hovered == 5,
        row.tab_index == tab_index,
        key.is_prefix_of(row.id@),
        row.id@.len() == key.len() + 1 + option.value@.len(),
{
    reveal_strlit("-");
}

/// An index along a curve stays when there is such a node, of nine, and goes to
/// the nearest end otherwise.
pub proof fn an_index_goes_to_the_nearest_node(index: int)
    ensures
        0 <= index <= 8 ==> on_plot(index) == index,
        index < 0 ==> on_plot(index) == 0,
        index > 8 ==> on_plot(index) == 8,
{
}

} // verus!
