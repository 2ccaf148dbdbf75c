//! The palette, as packed RGB.

use vstd::prelude::*;

verus! {

/// Fixed navigation rail, darkest surface.
pub const RAIL: u32 = 0x141414;

/// Charcoal work surface.
pub const SURFACE: u32 = 0x181818;

/// Raised panel on the work surface.
pub const PANEL: u32 = 0x212121;

/// Input and control fill.
pub const CONTROL: u32 = 0x2a2a2a;

/// The same fill under the pointer: a field sinks.
pub const CONTROL_HOVER: u32 = 0x202020;

/// The same fill under the pointer, on a button: a button lifts.
pub const CONTROL_RAISED: u32 = 0x343536;

/// Low-contrast separator.
pub const SEPARATOR: u32 = 0x252525;

/// Surface a floating menu is drawn on. A decision of its own, whatever
/// [`CONTROL`] becomes.
pub const MENU: u32 = 0x2a2a2a;

/// The single selection accent.
pub const ACCENT: u32 = 0x6f4ef2;

/// The accent under the pointer.
pub const ACCENT_HOVER: u32 = 0x7a5af0;

/// The accent while pressed.
pub const ACCENT_ACTIVE: u32 = 0x5f3fd8;

/// Focus ring, light enough to read on the accent it may sit against.
pub const FOCUS: u32 = 0xcdbcff;

/// Body text: a cool near-white rather than a neutral one.
pub const TEXT: u32 = 0xd5deea;

/// Secondary text.
pub const TEXT_MUTED: u32 = 0x96a2b3;

/// Text of a control that cannot be operated.
pub const TEXT_DISABLED: u32 = 0x6b7280;

/// Text drawn on top of the accent.
pub const TEXT_ON_ACCENT: u32 = 0xffffff;

/// A confirmed state.
pub const SUCCESS: u32 = 0x57d992;

/// A state that needs attention.
pub const WARNING: u32 = 0xffd166;

/// The word a failure is named in, held to the body-text bar.
pub const DANGER: u32 = 0xff6f6a;

/// Fill of a destructive action, at full opacity. Not [`DANGER`]: one is a
/// surface a word sits on, the other a word on a surface.
pub const DESTRUCTIVE: u32 = 0xff453a;

/// The same fill under the pointer, deepened so its label stays legible.
pub const DESTRUCTIVE_HOVER: u32 = 0xf03028;

/// The same fill while pressed.
pub const DESTRUCTIVE_ACTIVE: u32 = 0xcc2a22;

/// Text drawn on top of a destructive fill.
pub const TEXT_ON_DESTRUCTIVE: u32 = 0xffffff;

} // verus!
