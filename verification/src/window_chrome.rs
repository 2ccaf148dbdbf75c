//! The window's own decorations: a caption bar and a resizable frame.
//!
//! Two things stay the compositor's decision rather than this window's. Under
//! server-side decorations the caption buttons are not drawn at all, because the
//! compositor already drew them and two sets would double up. And every corner
//! is rounded only while the matching edges are free: a tiled or maximized
//! window has no gap to round into.

use vstd::prelude::*;

use crate::geometry::{Point, Size, PIXEL};
use crate::theme::{RESIZE_BORDER, TITLE_BAR_MIN_HEIGHT, WINDOW_BORDER, WINDOW_RADIUS};
use crate::theme::Color;

verus! {

/// Which edges of the window touch another window or the screen.
#[derive(Debug, Clone, Copy, PartialEq, Eq, Structural)]
pub struct Tiling {
    pub top: bool,
    pub left: bool,
    pub right: bool,
    pub bottom: bool,
}

impl Tiling {
    /// A window that floats.
    pub fn free() -> (tiling: Self)
        ensures
            tiling == (Self { top: false, left: false, right: false, bottom: false }),
    {
        Self { top: false, left: false, right: false, bottom: false }
    }

    /// A window with no free edge.
    pub fn tiled() -> (tiling: Self)
        ensures
            tiling == (Self { top: true, left: true, right: true, bottom: true }),
    {
        Self { top: true, left: true, right: true, bottom: true }
    }

    /// Whether any edge is held.
    pub open spec fn touches(self) -> bool {
        self.top || self.left || self.right || self.bottom
    }

    pub fn is_tiled(self) -> (tiled: bool)
        ensures
            tiled == self.touches(),
    {
        self.top || self.left || self.right || self.bottom
    }
}

/// Who draws the window's frame.
#[derive(Debug, Clone, Copy, PartialEq, Eq, Structural)]
pub enum Decorations {
    Server,
    Client { tiling: Tiling },
}

/// Whether the pointer is holding the bar, waiting for a move to start.
///
/// The move is not started on the press itself. A press that never moves is a
/// click, and a double click is how a window is maximized: handing the pointer
/// to the compositor on the way down would swallow both.
#[derive(Debug, Clone, Copy, PartialEq, Eq, Structural)]
pub struct DragLatch {
    pub held: bool,
}

impl DragLatch {
    /// A latch nothing holds.
    pub fn new() -> (latch: Self)
        ensures
            !latch.held,
    {
        Self { held: false }
    }

    /// The pointer pressed the bar.
    pub fn press(&mut self)
        ensures
            final(self).held,
    {
        self.held = true;
    }

    /// The pointer let go of the bar, or pressed somewhere else.
    pub fn release(&mut self)
        ensures
            !final(self).held,
    {
        self.held = false;
    }

    /// The pointer moved over the bar: whether that starts a window move.
    ///
    /// The latch is taken, not read: the compositor owns the pointer from here,
    /// and this window will not see the release that ends the gesture.
    pub fn moved(&mut self) -> (starts: bool)
        ensures
            starts == old(self).held,
            !final(self).held,
    {
        let starts: bool = self.held;
        self.held = false;
        starts
    }
}

/// Whether a click on the bar zooms the window.
pub fn click_zooms(click_count: usize) -> (zooms: bool)
    ensures
        zooms == (click_count == 2),
{
    click_count == 2
}

/// Height of the caption bar for a root font size, in thousandths of a pixel.
pub open spec fn bar_height(rem_size: int) -> int {
    let scaled = rem_size * 7 / 4;
    let floor = TITLE_BAR_MIN_HEIGHT * PIXEL;
    if scaled > floor {
        scaled
    } else {
        floor
    }
}

/// Height of the caption bar at the current interface scale.
///
/// Tied to the root font size so the bar grows with a 200% scale instead of
/// clipping the controls it carries, and floored. Both are thousandths of a
/// logical pixel, the result rounded down.
pub fn title_bar_height(rem_size: u32) -> (height: u64)
    ensures
        height == bar_height(rem_size as int),
{
    let scaled: u64 = rem_size as u64 * 7 / 4;
    let floor: u64 = TITLE_BAR_MIN_HEIGHT as u64 * PIXEL as u64;
    if scaled > floor {
        scaled
    } else {
        floor
    }
}

/// Which corners the window is rounding right now.
#[derive(Debug, Clone, Copy, PartialEq, Eq, Structural)]
pub struct Corners {
    pub top_left: bool,
    pub top_right: bool,
    pub bottom_left: bool,
    pub bottom_right: bool,
}

impl Corners {
    /// A corner is rounded only when both of its edges are free to float.
    pub open spec fn of(tiling: Tiling) -> Self {
        Self {
            top_left: !tiling.top && !tiling.left,
            top_right: !tiling.top && !tiling.right,
            bottom_left: !tiling.bottom && !tiling.left,
            bottom_right: !tiling.bottom && !tiling.right,
        }
    }

    /// A corner is rounded only when both of its edges are free to float.
    pub fn from_tiling(tiling: Tiling) -> (corners: Self)
        ensures
            corners == Self::of(tiling),
    {
        Self {
            top_left: !tiling.top && !tiling.left,
            top_right: !tiling.top && !tiling.right,
            bottom_left: !tiling.bottom && !tiling.left,
            bottom_right: !tiling.bottom && !tiling.right,
        }
    }
}

impl Default for Corners {
    /// No corner rounded.
    fn default() -> (corners: Self)
        ensures
            corners == (Self {
                top_left: false,
                top_right: false,
                bottom_left: false,
                bottom_right: false,
            }),
    {
        Self { top_left: false, top_right: false, bottom_left: false, bottom_right: false }
    }
}

/// What the platform lets a window's own buttons do.
#[derive(Debug, Clone, Copy, PartialEq, Eq, Structural)]
pub struct WindowControls {
    pub minimize: bool,
    pub maximize: bool,
    pub window_menu: bool,
}

/// One caption button.
#[derive(Debug, Clone, Copy, PartialEq, Eq, Structural)]
pub enum Control {
    Minimize,
    Maximize,
    Close,
}

/// The mark drawn on a caption button.
#[derive(Debug, Clone, Copy, PartialEq, Eq, Structural)]
pub enum ControlGlyph {
    Minimize,
    Maximize,
    Restore,
    Close,
}

impl Control {
    pub open spec fn id_text(self) -> Seq<char> {
        match self {
            Self::Minimize => "window-minimize"@,
            Self::Maximize => "window-maximize"@,
            Self::Close => "window-close"@,
        }
    }

    /// The element id the button carries.
    pub fn id(self) -> (id: &'static str)
        ensures
            id@ == self.id_text(),
            self is Minimize ==> id@ == "window-minimize"@,
            self is Maximize ==> id@ == "window-maximize"@,
            self is Close ==> id@ == "window-close"@,
    {
        match self {
            Self::Minimize => "window-minimize",
            Self::Maximize => "window-maximize",
            Self::Close => "window-close",
        }
    }

    pub open spec fn mark(self, maximized: bool) -> ControlGlyph {
        match self {
            Self::Minimize => ControlGlyph::Minimize,
            Self::Maximize => if maximized {
                ControlGlyph::Restore
            } else {
                ControlGlyph::Maximize
            },
            Self::Close => ControlGlyph::Close,
        }
    }

    /// The mark on the button: a maximized window offers to restore itself.
    pub fn glyph(self, maximized: bool) -> (glyph: ControlGlyph)
        ensures
            glyph == self.mark(maximized),
    {
        match self {
            Self::Minimize => ControlGlyph::Minimize,
            Self::Maximize => {
                if maximized {
                    ControlGlyph::Restore
                } else {
                    ControlGlyph::Maximize
                }
            },
            Self::Close => ControlGlyph::Close,
        }
    }
}

/// The caption buttons, from the leading edge.
pub open spec fn caption_buttons(supported: WindowControls) -> Seq<Control> {
    seq![Control::Close] + (if supported.minimize {
        seq![Control::Minimize]
    } else {
        Seq::empty()
    }) + (if supported.maximize {
        seq![Control::Maximize]
    } else {
        Seq::empty()
    })
}

/// The caption buttons the compositor says this platform has, from the leading
/// edge in close, minimize, maximize order.
///
/// Close is not conditional: a window that cannot be closed from its own
/// caption bar is one an operator has to reach the compositor to quit.
pub fn control_group(supported: WindowControls) -> (buttons: Vec<Control>)
    ensures
        buttons@ == caption_buttons(supported),
{
    let mut buttons: Vec<Control> = Vec::new();
    buttons.push(Control::Close);
    if supported.minimize {
        buttons.push(Control::Minimize);
    }
    if supported.maximize {
        buttons.push(Control::Maximize);
    }
    assert(buttons@ =~= caption_buttons(supported));
    buttons
}

/// What the caption bar consists of.
#[derive(Debug, Clone, PartialEq, Eq)]
pub struct TitleBar {
    /// In thousandths of a logical pixel.
    pub height: u64,
    /// Whether a secondary press opens the desktop's own window menu.
    pub window_menu: bool,
    /// The buttons from the leading edge, none when somebody else draws them.
    pub buttons: Vec<Control>,
}

/// The caption bar: the window's own controls, then a drag strip.
///
/// A fullscreen window has no caption buttons to offer, and under server-side
/// decorations the compositor already drew them.
pub fn title_bar(
    rem_size: u32,
    supported: WindowControls,
    decorations: Decorations,
    fullscreen: bool,
) -> (bar: TitleBar)
    ensures
        bar.height == bar_height(rem_size as int),
        bar.window_menu == supported.window_menu,
        bar.buttons@ == if !fullscreen && decorations is Client {
            caption_buttons(supported)
        } else {
            Seq::empty()
        },
{
    let drawn: bool = !fullscreen && matches!(decorations, Decorations::Client { .. });
    TitleBar {
        height: title_bar_height(rem_size),
        window_menu: supported.window_menu,
        buttons: if drawn {
            control_group(supported)
        } else {
            Vec::new()
        },
    }
}

/// One length for each side of a rectangle, in logical pixels.
#[derive(Debug, Clone, Copy, PartialEq, Eq, Structural)]
pub struct Sides {
    pub top: u32,
    pub left: u32,
    pub right: u32,
    pub bottom: u32,
}

impl Sides {
    /// `length` on every side of a window that is free.
    pub open spec fn on_free(tiling: Tiling, length: u32) -> Self {
        Self {
            top: if tiling.top { 0 } else { length },
            left: if tiling.left { 0 } else { length },
            right: if tiling.right { 0 } else { length },
            bottom: if tiling.bottom { 0 } else { length },
        }
    }

    /// `length` on every side of a window that is free.
    pub fn free(tiling: Tiling, length: u32) -> (sides: Self)
        ensures
            sides == Self::on_free(tiling, length),
    {
        Self {
            top: if tiling.top { 0 } else { length },
            left: if tiling.left { 0 } else { length },
            right: if tiling.right { 0 } else { length },
            bottom: if tiling.bottom { 0 } else { length },
        }
    }
}

/// A shadow around a rectangle, in logical pixels.
#[derive(Debug, Clone, Copy, PartialEq, Eq, Structural)]
pub struct Shadow {
    pub color: Color,
    /// How much of the color is drawn, in percent.
    pub opacity: u8,
    pub offset: Point,
    pub blur_radius: u32,
    pub spread_radius: u32,
}

/// The frame a window draws around its own surface, in logical pixels.
#[derive(Debug, Clone, Copy, PartialEq, Eq, Structural)]
pub struct Frame {
    /// The transparent band between the window and its surface.
    pub padding: Sides,
    pub border: Sides,
    pub border_color: Color,
    /// The radius of each corner that is rounded, and the corners that are.
    pub radius: u32,
    pub corners: Corners,
    /// Drawn only while no edge is held.
    pub shadow: Option<Shadow>,
}

/// The surface a window's content stands on.
#[derive(Debug, Clone, Copy, PartialEq, Eq, Structural)]
pub struct Surface {
    /// What the compositor leaves outside the surface for the resize band, in
    /// logical pixels.
    pub client_inset: u32,
    pub background: Color,
    /// `None` where the compositor draws its own.
    pub frame: Option<Frame>,
}

/// The frame a window with these held edges draws for itself.
pub open spec fn frame_of(tiling: Tiling) -> Frame {
    Frame {
        padding: Sides::on_free(tiling, RESIZE_BORDER),
        border: Sides::on_free(tiling, WINDOW_BORDER),
        border_color: Color(crate::theme::color::SEPARATOR),
        radius: WINDOW_RADIUS,
        corners: Corners::of(tiling),
        shadow: if tiling.touches() {
            None
        } else {
            Some(
                Shadow {
                    color: Color(0),
                    opacity: 40,
                    offset: Point { x: 0, y: 0 },
                    blur_radius: RESIZE_BORDER / 2,
                    spread_radius: 0,
                },
            )
        },
    }
}

/// The surface a window's content stands on.
pub open spec fn surface_of(decorations: Decorations, background: Color) -> Surface {
    match decorations {
        Decorations::Server => Surface { client_inset: 0, background, frame: None },
        Decorations::Client { tiling } => Surface {
            client_inset: RESIZE_BORDER,
            background,
            frame: Some(frame_of(tiling)),
        },
    }
}

/// The surface a window's content stands on, in the frame the compositor is not
/// drawing.
///
/// The outer inset is the compositor's shadow and the resize hitbox, so it stays
/// transparent. The surface drops its radius, its border and its inset edge by
/// edge as the window is tiled.
pub fn window_shell(decorations: Decorations, background: Color) -> (surface: Surface)
    ensures
        surface == surface_of(decorations, background),
{
    match decorations {
        Decorations::Server => Surface { client_inset: 0, background, frame: None },
        Decorations::Client { tiling } => Surface {
            client_inset: RESIZE_BORDER,
            background,
            frame: Some(
                Frame {
                    padding: Sides::free(tiling, RESIZE_BORDER),
                    border: Sides::free(tiling, WINDOW_BORDER),
                    border_color: Color(crate::theme::color::SEPARATOR),
                    radius: WINDOW_RADIUS,
                    corners: Corners::from_tiling(tiling),
                    shadow: if tiling.is_tiled() {
                        None
                    } else {
                        Some(
                            Shadow {
                                color: Color(0),
                                opacity: 40,
                                offset: Point { x: 0, y: 0 },
                                blur_radius: RESIZE_BORDER / 2,
                                spread_radius: 0,
                            },
                        )
                    },
                },
            ),
        },
    }
}

/// A direction the window can be resized in.
#[derive(Debug, Clone, Copy, PartialEq, Eq, Structural)]
pub enum ResizeEdge {
    Top,
    TopRight,
    Right,
    BottomRight,
    Bottom,
    BottomLeft,
    Left,
    TopLeft,
}

impl ResizeEdge {
    /// Whether resizing in this direction moves an edge that is held.
    pub open spec fn moves_a_held_edge(self, tiling: Tiling) -> bool {
        match self {
            Self::Top => tiling.top,
            Self::TopRight => tiling.top || tiling.right,
            Self::Right => tiling.right,
            Self::BottomRight => tiling.bottom || tiling.right,
            Self::Bottom => tiling.bottom,
            Self::BottomLeft => tiling.bottom || tiling.left,
            Self::Left => tiling.left,
            Self::TopLeft => tiling.top || tiling.left,
        }
    }
}

/// The shape of the pointer over a resize band.
#[derive(Debug, Clone, Copy, PartialEq, Eq, Structural)]
pub enum ResizeCursor {
    UpDown,
    LeftRight,
    UpLeftDownRight,
    UpRightDownLeft,
}

/// The shape the pointer takes over a band.
pub fn resize_cursor(edge: ResizeEdge) -> (cursor: ResizeCursor)
    ensures
        cursor == match edge {
            ResizeEdge::Top | ResizeEdge::Bottom => ResizeCursor::UpDown,
            ResizeEdge::Left | ResizeEdge::Right => ResizeCursor::LeftRight,
            ResizeEdge::TopLeft | ResizeEdge::BottomRight => ResizeCursor::UpLeftDownRight,
            ResizeEdge::TopRight | ResizeEdge::BottomLeft => ResizeCursor::UpRightDownLeft,
        },
{
    match edge {
        ResizeEdge::Top | ResizeEdge::Bottom => ResizeCursor::UpDown,
        ResizeEdge::Left | ResizeEdge::Right => ResizeCursor::LeftRight,
        ResizeEdge::TopLeft | ResizeEdge::BottomRight => ResizeCursor::UpLeftDownRight,
        ResizeEdge::TopRight | ResizeEdge::BottomLeft => ResizeCursor::UpRightDownLeft,
    }
}

/// Whether a place along one axis lies in the corner band at its start: half
/// again as wide as the border.
pub open spec fn in_first_corner(place: int, border: int) -> bool {
    0 <= 2 * place <= 3 * border
}

/// Whether a place along one axis lies in the corner band at its end.
pub open spec fn in_last_corner(place: int, border: int, length: int) -> bool {
    2 * length - 3 * border <= 2 * place <= 2 * length
}

/// Whether a place along one axis is clear of both corner bands.
pub open spec fn in_middle(place: int, border: int, length: int) -> bool {
    3 * border <= 2 * place <= 2 * length - 3 * border
}

/// The resize a pointer position starts.
pub open spec fn resize_at(position: Point, border: int, window: Size, tiling: Tiling) -> Option<
    ResizeEdge,
> {
    let (x, y) = (position.x as int, position.y as int);
    let (width, height) = (window.width as int, window.height as int);
    let left = in_first_corner(x, border);
    let right = in_last_corner(x, border, width);
    let top = in_first_corner(y, border);
    let bottom = in_last_corner(y, border, height);
    if in_middle(x, border, width) && in_middle(y, border, height) {
        None
    } else if !tiling.top && !tiling.left && top && left {
        Some(ResizeEdge::TopLeft)
    } else if !tiling.top && !tiling.right && top && right {
        Some(ResizeEdge::TopRight)
    } else if !tiling.bottom && !tiling.left && bottom && left {
        Some(ResizeEdge::BottomLeft)
    } else if !tiling.bottom && !tiling.right && bottom && right {
        Some(ResizeEdge::BottomRight)
    } else if !tiling.top && y <= border {
        Some(ResizeEdge::Top)
    } else if !tiling.bottom && y >= height - border {
        Some(ResizeEdge::Bottom)
    } else if !tiling.left && x <= border {
        Some(ResizeEdge::Left)
    } else if !tiling.right && x >= width - border {
        Some(ResizeEdge::Right)
    } else {
        None
    }
}

/// The resize the pointer is over, if any.
///
/// A tiled edge is not resizable, so it answers nothing there: dragging the
/// shared edge of a tiled window is the compositor's gesture, not this one.
/// Corners are tested first and are half again as wide as an edge, because a
/// corner an operator has to hit within ten pixels is a corner they miss.
pub fn resize_edge(position: Point, border: i32, window_size: Size, tiling: Tiling) -> (edge: Option<
    ResizeEdge,
>)
    ensures
        edge == resize_at(position, border as int, window_size, tiling),
{
    let x: i64 = position.x as i64;
    let y: i64 = position.y as i64;
    let border: i64 = border as i64;
    let width: i64 = window_size.width as i64;
    let height: i64 = window_size.height as i64;
    let near_x: i64 = 2 * width - 3 * border;
    let near_y: i64 = 2 * height - 3 * border;
    if 3 * border <= 2 * x && 2 * x <= near_x && 3 * border <= 2 * y && 2 * y <= near_y {
        return None;
    }
    let left: bool = 0 <= 2 * x && 2 * x <= 3 * border;
    let right: bool = near_x <= 2 * x && 2 * x <= 2 * width;
    let top: bool = 0 <= 2 * y && 2 * y <= 3 * border;
    let bottom: bool = near_y <= 2 * y && 2 * y <= 2 * height;
    if !tiling.top && !tiling.left && top && left {
        Some(ResizeEdge::TopLeft)
    } else if !tiling.top && !tiling.right && top && right {
        Some(ResizeEdge::TopRight)
    } else if !tiling.bottom && !tiling.left && bottom && left {
        Some(ResizeEdge::BottomLeft)
    } else if !tiling.bottom && !tiling.right && bottom && right {
        Some(ResizeEdge::BottomRight)
    } else if !tiling.top && y <= border {
        Some(ResizeEdge::Top)
    } else if !tiling.bottom && y >= height - border {
        Some(ResizeEdge::Bottom)
    } else if !tiling.left && x <= border {
        Some(ResizeEdge::Left)
    } else if !tiling.right && x >= width - border {
        Some(ResizeEdge::Right)
    } else {
        None
    }
}

/// A resize never moves an edge the compositor holds, so a window with no free
/// edge cannot be resized at all.
pub proof fn a_held_edge_is_never_resized(
    position: Point,
    border: int,
    window: Size,
    tiling: Tiling,
)
    ensures
        resize_at(position, border, window, tiling) matches Some(edge)
            ==> !edge.moves_a_held_edge(tiling),
        tiling == (Tiling { top: true, left: true, right: true, bottom: true }) ==> resize_at(
            position,
            border,
            window,
            tiling,
        ) is None,
{
}

/// A point further than the corner band from every edge starts no resize, and a
/// point further than the border from every edge starts one only in a corner.
pub proof fn the_inside_of_the_window_starts_no_resize(
    position: Point,
    border: int,
    window: Size,
    tiling: Tiling,
)
    requires
        border >= 0,
        border < position.x < window.width - border,
        border < position.y < window.height - border,
    ensures
        in_middle(position.x as int, border, window.width as int) && in_middle(
            position.y as int,
            border,
            window.height as int,
        ) ==> resize_at(position, border, window, tiling) is None,
        resize_at(position, border, window, tiling) matches Some(edge) ==> edge is TopLeft
            || edge is TopRight || edge is BottomLeft || edge is BottomRight,
{
}

/// A corner is rounded only while neither of its edges is held, so holding an
/// edge squares both of its corners.
pub proof fn a_held_edge_squares_both_of_its_corners(tiling: Tiling)
    ensures
        tiling.top ==> !Corners::of(tiling).top_left && !Corners::of(tiling).top_right,
        tiling.bottom ==> !Corners::of(tiling).bottom_left && !Corners::of(tiling).bottom_right,
        tiling.left ==> !Corners::of(tiling).top_left && !Corners::of(tiling).bottom_left,
        tiling.right ==> !Corners::of(tiling).top_right && !Corners::of(tiling).bottom_right,
        !tiling.touches() ==> Corners::of(tiling) == (Corners {
            top_left: true,
            top_right: true,
            bottom_left: true,
            bottom_right: true,
        }),
{
}

/// A caption bar is seven quarters of the root font size high, rounded down, and
/// never lower than thirty-six pixels.
pub proof fn a_bar_is_seven_quarters_of_the_text(rem_size: int)
    ensures
        bar_height(rem_size) >= 36_000,
        7 * rem_size < 144_004 ==> bar_height(rem_size) == 36_000,
        7 * rem_size >= 144_004 ==> 4 * bar_height(rem_size) <= 7 * rem_size < 4 * bar_height(
            rem_size,
        ) + 4,
{
}

/// A corner is rounded exactly when both of its edges are free, and a side is
/// drawn exactly when its own edge is.
pub proof fn each_edge_goes_by_itself(tiling: Tiling, length: u32)
    ensures
        Corners::of(tiling).top_left <==> !(tiling.top || tiling.left),
        Corners::of(tiling).top_right <==> !(tiling.top || tiling.right),
        Corners::of(tiling).bottom_left <==> !(tiling.bottom || tiling.left),
        Corners::of(tiling).bottom_right <==> !(tiling.bottom || tiling.right),
        Sides::on_free(tiling, length).top == if tiling.top { 0 } else { length },
        Sides::on_free(tiling, length).left == if tiling.left { 0 } else { length },
        Sides::on_free(tiling, length).right == if tiling.right { 0 } else { length },
        Sides::on_free(tiling, length).bottom == if tiling.bottom { 0 } else { length },
{
}

/// A window that draws its own frame leaves a band of ten pixels around it and
/// draws a border of one on every free edge, and casts a shadow only while every
/// edge is free; one whose frame the compositor draws has none of it.
pub proof fn a_frame_is_drawn_where_the_window_is_free(
    decorations: Decorations,
    background: Color,
)
    ensures
        surface_of(decorations, background).background == background,
        decorations is Server ==> surface_of(decorations, background).frame is None && surface_of(
            decorations,
            background,
        ).client_inset == 0,
        decorations matches Decorations::Client { tiling } ==> {
            let surface = surface_of(decorations, background);
            &&& surface.client_inset == 10
            &&& surface.frame matches Some(frame)
            &&& frame.padding == Sides::on_free(tiling, 10)
            &&& frame.border == Sides::on_free(tiling, 1)
            &&& frame.radius == 10
            &&& frame.corners == Corners::of(tiling)
            &&& frame.shadow is Some <==> !(tiling.top || tiling.left || tiling.right
                || tiling.bottom)
            &&& frame.shadow matches Some(shadow) ==> shadow.blur_radius == 5
                && shadow.spread_radius == 0 && shadow.opacity == 40 && shadow.offset == (Point {
                x: 0,
                y: 0,
            })
        },
{
}

/// A bar always offers to close the window, first; it offers to minimize and to
/// maximize where the platform does, in that order and once.
pub proof fn a_bar_offers_what_the_platform_does(supported: WindowControls)
    ensures
        caption_buttons(supported).len() == 1 + (if supported.minimize {
            1int
        } else {
            0
        }) + (if supported.maximize {
            1int
        } else {
            0
        }),
        caption_buttons(supported)[0] is Close,
        supported.minimize ==> caption_buttons(supported)[1] is Minimize,
        supported.maximize ==> caption_buttons(supported).last() is Maximize,
{
}

/// Only the maximize button changes its mark, to the one that restores.
pub proof fn a_maximized_window_offers_to_restore(control: Control, maximized: bool)
    ensures
        control is Minimize ==> control.mark(maximized) is Minimize,
        control is Close ==> control.mark(maximized) is Close,
        control is Maximize && maximized ==> control.mark(maximized) is Restore,
        control is Maximize && !maximized ==> control.mark(maximized) is Maximize,
{
}

/// Of a window large enough for its corners to lie apart, a corner is grabbed
/// within one and a half times the border of both of its edges, whatever the
/// other edges are.
pub proof fn a_corner_is_half_again_as_wide_as_the_border(
    position: Point,
    border: int,
    window: Size,
    tiling: Tiling,
)
    requires
        border > 0,
        window.width > 3 * border,
        window.height > 3 * border,
        0 <= position.x <= window.width,
        0 <= position.y <= window.height,
    ensures
        ({
            let at = resize_at(position, border, window, tiling);
            let left = 2 * position.x <= 3 * border;
            let right = 2 * (window.width - position.x) <= 3 * border;
            let top = 2 * position.y <= 3 * border;
            let bottom = 2 * (window.height - position.y) <= 3 * border;
            let inside = 2 * position.x >= 3 * border && 2 * (window.width - position.x) >= 3
                * border && 2 * position.y >= 3 * border && 2 * (window.height - position.y) >= 3
                * border;
            &&& at == Some(ResizeEdge::TopLeft) <==> !inside && top && left && !tiling.top
                && !tiling.left
            &&& at == Some(ResizeEdge::TopRight) <==> !inside && top && right && !tiling.top
                && !tiling.right
            &&& at == Some(ResizeEdge::BottomLeft) <==> !inside && bottom && left
                && !tiling.bottom && !tiling.left
            &&& at == Some(ResizeEdge::BottomRight) <==> !inside && bottom && right
                && !tiling.bottom && !tiling.right
        }),
{
}

/// Away from the corners an edge is grabbed within the border, and only while it
/// is free.
pub proof fn an_edge_is_grabbed_within_the_border(
    position: Point,
    border: int,
    window: Size,
    tiling: Tiling,
)
    requires
        border > 0,
        window.width > 3 * border,
        window.height > 3 * border,
        0 <= position.x <= window.width,
        0 <= position.y <= window.height,
    ensures
        3 * border < 2 * position.x < 2 * window.width - 3 * border ==> {
            let at = resize_at(position, border, window, tiling);
            &&& at == Some(ResizeEdge::Top) <==> position.y <= border && !tiling.top
            &&& at == Some(ResizeEdge::Bottom) <==> window.height - position.y <= border
                && !tiling.bottom
            &&& position.y > border && window.height - position.y > border ==> at is None
            &&& at is Some ==> at == Some(ResizeEdge::Top) || at == Some(ResizeEdge::Bottom)
        },
        3 * border < 2 * position.y < 2 * window.height - 3 * border ==> {
            let at = resize_at(position, border, window, tiling);
            &&& at == Some(ResizeEdge::Left) <==> position.x <= border && !tiling.left
            &&& at == Some(ResizeEdge::Right) <==> window.width - position.x <= border
                && !tiling.right
            &&& position.x > border && window.width - position.x > border ==> at is None
            &&& at is Some ==> at == Some(ResizeEdge::Left) || at == Some(ResizeEdge::Right)
        },
{
}

} // verus!
