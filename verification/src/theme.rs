//! Centralized design tokens.
//!
//! Every color and size a component uses comes from here, so the interface can
//! be checked as a system. Sizes are whole logical pixels.

use vstd::prelude::*;

use crate::lighting::Rgb;

pub mod color;
pub mod space;

verus! {

/// The identifier the window hands to the compositor, and the one the desktop
/// entry declares as `StartupWMClass`.
pub const APP_ID: &'static str = "kori";

/// Shown wherever the product identifies itself.
pub const UNOFFICIAL_NOTICE: &'static str = "Unofficial. Not affiliated with or endorsed by NZXT.";

/// Glyph placed between two fragments of one metadata line: a middle dot, which
/// does not compete with the punctuation inside the fragments it separates.
pub const META_SEPARATOR: &'static str = "\u{00b7}";

/// Unit every temperature in the interface is written in.
pub const DEGREE_C: &'static str = " \u{00b0}C";

/// One color token, kept as packed RGB so contrast can be computed on it.
#[derive(Debug, Clone, Copy, PartialEq, Eq, Structural)]
pub struct Color(pub u32);

impl Color {
    pub fn rgb(value: u32) -> (color: Self)
        ensures
            color == Self(value),
    {
        Self(value)
    }

    /// The three channels of a packed color, without what stands above them.
    pub open spec fn channels(self) -> Rgb {
        Rgb {
            r: (self.0 as int / 65536 % 256) as u8,
            g: (self.0 as int / 256 % 256) as u8,
            b: (self.0 as int % 256) as u8,
        }
    }

    /// The packed form of an operator's color.
    pub open spec fn packed(color: Rgb) -> Self {
        Self((65536 * color.r + 256 * color.g + color.b) as u32)
    }

    /// The three channels this color is packed from.
    pub fn to_rgb(self) -> (color: Rgb)
        ensures
            color == self.channels(),
    {
        Rgb {
            r: (self.0 / 65536 % 256) as u8,
            g: (self.0 / 256 % 256) as u8,
            b: (self.0 % 256) as u8,
        }
    }
}

/// A color the operator sent to a channel or to the panel, as a theme token.
impl From<Rgb> for Color {
    fn from(color: Rgb) -> (token: Self) {
        Self(65536 * (color.r as u32) + 256 * (color.g as u32) + color.b as u32)
    }
}

impl vstd::std_specs::convert::FromSpecImpl<Rgb> for Color {
    open spec fn obeys_from_spec() -> bool {
        true
    }

    open spec fn from_spec(color: Rgb) -> Self {
        Self::packed(color)
    }
}

/// Packing a color loses nothing: no channel comes back as another.
pub proof fn packing_keeps_every_channel(color: Rgb)
    ensures
        Color::packed(color).channels() == color,
{
    let packed = 65536 * color.r + 256 * color.g + color.b;
    assert(packed / 65536 == color.r && packed / 256 % 256 == color.g && packed % 256 == color.b);
}

/// Minimum size of any pointer target.
pub const TARGET_MIN: u32 = 40;

/// Width of the fixed navigation rail.
pub const RAIL_WIDTH: u32 = 196;

/// Corner radius shared by controls and panels.
pub const RADIUS: u32 = 8;

/// Corner radius of a device row: one padding step outside [`RADIUS`], so the
/// row does not read as a second control of the same shape.
pub const ROW_RADIUS: u32 = 12;

/// Corner radius of a card: the navigation rail, and the window itself.
pub const CARD_RADIUS: u32 = 10;

/// Gap between the window edge and a card, and between two cards.
pub const CARD_INSET: u32 = 4;

/// Width of the visible focus ring.
pub const FOCUS_RING: u32 = 2;

/// Height of one line of the device strip, sized like a caption.
pub const DEVICE_LINE_HEIGHT: u32 = 22;

/// Height of a control pill: a select, a color field, a slider.
pub const CONTROL_HEIGHT: u32 = 34;

/// Side of a color swatch, wherever a color is shown as a square.
pub const SWATCH_SIZE: u32 = 22;

/// Corner radius of a color swatch.
pub const SWATCH_RADIUS: u32 = 4;

/// Corner radius of a floating menu.
pub const MENU_RADIUS: u32 = 10;

/// Narrowest a menu of short options gets.
pub const MENU_MIN_WIDTH: u32 = 200;

/// Widest a menu with a long option gets.
pub const MENU_MAX_WIDTH: u32 = 280;

/// Tallest a menu gets before it scrolls.
pub const MENU_MAX_HEIGHT: u32 = 320;

/// Side of the glyph on a menu trigger, smaller than a content icon.
pub const MENU_GLYPH_SIZE: u32 = 12;

/// Gap between the control a menu belongs to and the menu itself.
pub const MENU_OFFSET: u32 = 6;

/// Gap between two rows of a menu, so two highlights do not touch.
pub const MENU_ROW_GAP: u32 = 1;

/// Height of one menu row, below [`TARGET_MIN`] on purpose.
pub const MENU_ROW_HEIGHT: u32 = 28;

/// Width of the window the layout is designed for.
pub const WINDOW_WIDTH: u32 = 920;

/// Height of the window the layout is designed for.
pub const WINDOW_HEIGHT: u32 = 640;

/// Floor of the caption bar, which otherwise grows with the interface scale.
pub const TITLE_BAR_MIN_HEIGHT: u32 = 36;

/// Side of one window control button.
pub const TITLE_BAR_CONTROL: u32 = 20;

/// Gap between two window control buttons.
pub const TITLE_BAR_CONTROL_GAP: u32 = 6;

/// Inset between the window edge and the control group.
pub const TITLE_BAR_INSET: u32 = 6;

/// Corner radius of the window itself, dropped edge by edge when tiled.
pub const WINDOW_RADIUS: u32 = CARD_RADIUS;

/// Border the decorated surface draws around itself.
pub const WINDOW_BORDER: u32 = 1;

/// Invisible band around the window that starts a resize.
pub const RESIZE_BORDER: u32 = 10;

/// A packed color holds its channels one byte each, red above green above blue,
/// and unpacking gives those bytes back, whatever stands above them.
pub proof fn a_color_is_packed_byte_by_byte(color: Rgb, packed: Color)
    ensures
        Color::packed(color).0 == 65536 * color.r + 256 * color.g + color.b,
        65536 * packed.channels().r + 256 * packed.channels().g + packed.channels().b == packed.0
            % 0x100_0000,
{
    assert(65536 * color.r + 256 * color.g + color.b <= 0xff_ffff);
}

} // verus!
