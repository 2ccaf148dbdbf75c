//! Where every screen control sits in keyboard traversal order.
//!
//! Each row of a screen reserves a whole block of stops rather than sharing one
//! detail range: an open row's controls sit above the next row, so a shared
//! range would make Tab jump past a row and come back to it. The offsets inside
//! a block are reserved whether or not the control renders, so a mode that
//! hides two of them cannot renumber the rest.

use vstd::prelude::*;

use crate::profile::Channel;

verus! {

/// First tab index available to a screen's own controls.
pub const SCREEN_TAB_BASE: isize = 10;

/// Tab stops of the Cooling screen, in traversal order.
pub const COOLING_TAB_MODE: isize = SCREEN_TAB_BASE;

pub const COOLING_TAB_PROFILE: isize = COOLING_TAB_MODE + 1;

pub const COOLING_TAB_ROW_BASE: isize = COOLING_TAB_PROFILE + 1;

/// Stops one row occupies: its header, the duty slider and the plot.
///
/// Wider than the controls an open row renders, and deliberately: the stops are
/// reserved per row whichever mode it is in.
pub const COOLING_ROW_STRIDE: isize = 4;

/// Offsets inside a channel's block.
pub const COOLING_OFFSET_DUTY: isize = 1;

pub const COOLING_OFFSET_CURVE: isize = 3;

/// There is no Apply stop: an edit reaches the hardware on its own.
pub const COOLING_TAB_REVERT: isize = COOLING_TAB_ROW_BASE + 2 * COOLING_ROW_STRIDE;

pub const COOLING_TAB_SAVE: isize = COOLING_TAB_REVERT + 1;

pub const COOLING_TAB_DELETE: isize = COOLING_TAB_SAVE + 1;

/// Tab stops of the Lighting screen, one block for each device row.
pub const LIGHTING_TAB_ROW_BASE: isize = SCREEN_TAB_BASE;

/// Stops one lighting channel occupies, open or closed.
pub const LIGHTING_ROW_STRIDE: isize = 10;

/// Offsets inside a channel's block.
pub const ROW_OFFSET_BRIGHTNESS: isize = 1;

pub const ROW_OFFSET_MODE: isize = 2;

pub const CHANNEL_OFFSET_COLOR: isize = 3;

pub const CHANNEL_OFFSET_SPEED: isize = 4;

pub const CHANNEL_OFFSET_DIRECTION: isize = 5;

/// Offsets inside the panel's block, which is the last one on the screen and
/// may be wider than [`LIGHTING_ROW_STRIDE`]: nothing is allocated after it.
pub const LCD_OFFSET_METRIC_ONE: isize = 3;

pub const LCD_OFFSET_METRIC_TWO: isize = 4;

pub const LCD_OFFSET_COLOR_BASE: isize = 5;

/// How many color fields the panel's block keeps a stop for.
pub const LCD_COLOR_FIELDS: isize = 7;

/// The file picker, which only image mode renders.
pub const LCD_OFFSET_IMAGE: isize = LCD_OFFSET_COLOR_BASE + LCD_COLOR_FIELDS;

/// The one action the panel row still carries, and only while it is faulted.
pub const LCD_OFFSET_RESUME: isize = LCD_OFFSET_IMAGE + 1;

/// First tab stop of one channel row's block.
pub open spec fn cooling_row_stop(channel: Channel) -> int {
    COOLING_TAB_ROW_BASE + match channel {
        Channel::Pump => 0int,
        Channel::Fan => 1int,
    } * COOLING_ROW_STRIDE
}

/// First tab stop of one channel row's block.
pub fn cooling_row_tab(channel: Channel) -> (stop: isize)
    ensures
        stop == cooling_row_stop(channel),
        channel is Pump ==> stop == 12,
        channel is Fan ==> stop == 16,
{
    match channel {
        Channel::Pump => COOLING_TAB_ROW_BASE,
        Channel::Fan => COOLING_TAB_ROW_BASE + COOLING_ROW_STRIDE,
    }
}

/// First tab stop of the channel row at `index` in the rendered list.
pub open spec fn lighting_row_stop(index: int) -> int {
    LIGHTING_TAB_ROW_BASE + index * LIGHTING_ROW_STRIDE
}

/// First tab stop of the channel row at `index` in the rendered list.
pub fn lighting_row_tab(index: usize) -> (stop: isize)
    requires
        lighting_row_stop(index as int) <= isize::MAX,
    ensures
        stop == lighting_row_stop(index as int),
{
    LIGHTING_TAB_ROW_BASE + index as isize * LIGHTING_ROW_STRIDE
}

/// First tab stop of the panel row, which follows every channel row.
///
/// Derived from how many channels the controller reported rather than from a
/// fixed ceiling: a controller that answers with more channels than expected
/// pushes the panel's block down instead of colliding with it.
pub fn lcd_row_tab(channel_count: usize) -> (stop: isize)
    requires
        lighting_row_stop(channel_count as int) <= isize::MAX,
    ensures
        stop == lighting_row_stop(channel_count as int),
{
    lighting_row_tab(channel_count)
}

/// Every stop the Cooling screen can emit, in the order it draws them.
pub open spec fn cooling_stops() -> Seq<int> {
    let pump = cooling_row_stop(Channel::Pump);
    let fan = cooling_row_stop(Channel::Fan);
    seq![
        COOLING_TAB_MODE as int,
        COOLING_TAB_PROFILE as int,
        pump,
        pump + COOLING_OFFSET_DUTY,
        pump + COOLING_OFFSET_CURVE,
        fan,
        fan + COOLING_OFFSET_DUTY,
        fan + COOLING_OFFSET_CURVE,
        COOLING_TAB_REVERT as int,
        COOLING_TAB_SAVE as int,
        COOLING_TAB_DELETE as int,
    ]
}

/// Every stop a channel row can emit from its first one, in the order it draws
/// them.
pub open spec fn channel_row_offsets() -> Seq<int> {
    seq![
        0int,
        ROW_OFFSET_BRIGHTNESS as int,
        ROW_OFFSET_MODE as int,
        CHANNEL_OFFSET_COLOR as int,
        CHANNEL_OFFSET_SPEED as int,
        CHANNEL_OFFSET_DIRECTION as int,
    ]
}

/// Every stop the panel row can emit from its first one, in the order it draws
/// them.
pub open spec fn lcd_row_offsets() -> Seq<int> {
    seq![
        0int,
        ROW_OFFSET_BRIGHTNESS as int,
        ROW_OFFSET_MODE as int,
        LCD_OFFSET_METRIC_ONE as int,
        LCD_OFFSET_METRIC_TWO as int,
    ] + Seq::new(LCD_COLOR_FIELDS as nat, |index: int| LCD_OFFSET_COLOR_BASE + index) + seq![
        LCD_OFFSET_IMAGE as int,
        LCD_OFFSET_RESUME as int,
    ]
}

/// Keyboard traversal of the Cooling screen is its visual order: no two of its
/// controls share a stop, and every one comes after the rail.
pub proof fn cooling_traversal_is_visual_order(i: int, j: int)
    requires
        0 <= i < j < cooling_stops().len(),
    ensures
        SCREEN_TAB_BASE <= cooling_stops()[i] < cooling_stops()[j],
{
    assert(cooling_stops().len() == 11);
}

/// Keyboard traversal of the Lighting screen is its visual order, however many
/// channels the controller reported: inside a row its controls ascend, and
/// every control of a row comes before the row under it, the panel's last.
pub proof fn lighting_traversal_is_visual_order(above: int, below: int, i: int, j: int)
    requires
        0 <= above < below,
        0 <= i < channel_row_offsets().len(),
        0 <= j < channel_row_offsets().len(),
    ensures
        SCREEN_TAB_BASE <= lighting_row_stop(above) + channel_row_offsets()[i],
        i < j ==> channel_row_offsets()[i] < channel_row_offsets()[j],
        lighting_row_stop(above) + channel_row_offsets()[i] < lighting_row_stop(below),
{
    assert(channel_row_offsets().len() == 6);
    assert(LIGHTING_ROW_STRIDE == 10);
    assert(above * 10 + 10 <= below * 10);
}

/// The panel's controls ascend inside its block, wherever the block starts.
pub proof fn panel_traversal_is_visual_order(i: int, j: int)
    requires
        0 <= i < j < lcd_row_offsets().len(),
    ensures
        0 <= lcd_row_offsets()[i] < lcd_row_offsets()[j],
{
    assert(LCD_COLOR_FIELDS == 7);
    assert(lcd_row_offsets().len() == 14);
}

/// Every rail entry comes before every control of a screen, in the order the
/// rail draws them.
pub proof fn the_rail_precedes_every_screen_control(
    a: crate::shell::Destination,
    b: crate::shell::Destination,
)
    ensures
        0 <= a.stop() < SCREEN_TAB_BASE,
        a.stop() == b.stop() ==> a == b,
        a is Settings || a.stop() < crate::shell::Destination::Settings.stop(),
{
}

/// Where the rows of each screen begin: four stops to a cooling row, ten to a
/// lighting row.
pub proof fn where_the_rows_begin(index: int)
    ensures
        cooling_row_stop(Channel::Pump) == 12,
        cooling_row_stop(Channel::Fan) == 16,
        lighting_row_stop(index) == 10 + 10 * index,
{
}

} // verus!
