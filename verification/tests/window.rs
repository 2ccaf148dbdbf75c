//! The window's frame and the theme.

use kori::geometry::{Point, Size};
use kori::lighting::Rgb;
use kori::theme::{Color, TARGET_MIN};
use kori::window_chrome::{
    click_zooms, control_group, resize_cursor, resize_edge, title_bar, title_bar_height,
    window_shell, Control, ControlGlyph, Corners, Decorations, DragLatch, ResizeCursor, ResizeEdge,
    Tiling, WindowControls,
};

fn px(pixels: f32) -> i32 {
    (pixels * 1000.0).round() as i32
}

fn point(x: f32, y: f32) -> Point {
    Point { x: px(x), y: px(y) }
}

fn window() -> Size {
    Size { width: px(900.0), height: px(600.0) }
}

#[test]
fn a_free_window_rounds_every_corner() {
    assert_eq!(
        Corners::from_tiling(Tiling::free()),
        Corners { top_left: true, top_right: true, bottom_left: true, bottom_right: true }
    );
}

#[test]
fn a_tiled_edge_squares_both_of_its_corners() {
    let corners = Corners::from_tiling(Tiling { top: true, ..Tiling::free() });
    assert!(!corners.top_left);
    assert!(!corners.top_right);
    assert!(corners.bottom_left);
    assert!(corners.bottom_right);
}

#[test]
fn a_maximized_window_rounds_nothing() {
    assert_eq!(Corners::from_tiling(Tiling::tiled()), Corners::default());
}

#[test]
fn the_middle_of_the_window_starts_no_resize() {
    assert_eq!(
        resize_edge(point(400.0, 300.0), px(10.0), window(), Tiling::free()),
        None
    );
}

#[test]
fn each_edge_and_corner_answers_with_its_own_direction() {
    let at = |x: f32, y: f32| resize_edge(point(x, y), px(10.0), window(), Tiling::free());

    assert_eq!(at(2.0, 2.0), Some(ResizeEdge::TopLeft));
    assert_eq!(at(898.0, 2.0), Some(ResizeEdge::TopRight));
    assert_eq!(at(2.0, 598.0), Some(ResizeEdge::BottomLeft));
    assert_eq!(at(898.0, 598.0), Some(ResizeEdge::BottomRight));
    assert_eq!(at(450.0, 2.0), Some(ResizeEdge::Top));
    assert_eq!(at(450.0, 598.0), Some(ResizeEdge::Bottom));
    assert_eq!(at(2.0, 300.0), Some(ResizeEdge::Left));
    assert_eq!(at(898.0, 300.0), Some(ResizeEdge::Right));
}

#[test]
fn a_tiled_edge_is_the_compositors_to_drag_not_this_windows() {
    let tiling = Tiling { left: true, ..Tiling::free() };
    assert_eq!(resize_edge(point(2.0, 300.0), px(10.0), window(), tiling), None);
    // The free side of the same window still resizes.
    assert_eq!(
        resize_edge(point(898.0, 300.0), px(10.0), window(), tiling),
        Some(ResizeEdge::Right)
    );
}

#[test]
fn opposite_edges_share_a_cursor() {
    assert_eq!(resize_cursor(ResizeEdge::Top), ResizeCursor::UpDown);
    assert_eq!(resize_cursor(ResizeEdge::Bottom), ResizeCursor::UpDown);
    assert_eq!(resize_cursor(ResizeEdge::Left), ResizeCursor::LeftRight);
    assert_eq!(resize_cursor(ResizeEdge::TopLeft), ResizeCursor::UpLeftDownRight);
    assert_eq!(resize_cursor(ResizeEdge::BottomLeft), ResizeCursor::UpRightDownLeft);
}

#[test]
fn a_press_has_to_move_before_the_window_does() {
    let mut latch = DragLatch::new();
    assert!(!latch.moved());
    latch.press();
    assert!(latch.moved());
    assert!(!latch.moved(), "one press starts one move");
    latch.press();
    latch.release();
    assert!(!latch.moved());
    assert!(click_zooms(2));
    assert!(!click_zooms(1));
}

#[test]
fn the_title_bar_offers_what_the_compositor_supports() {
    let all = WindowControls { minimize: true, maximize: true, window_menu: true };
    assert_eq!(
        control_group(all),
        vec![Control::Close, Control::Minimize, Control::Maximize]
    );
    let none = WindowControls { minimize: false, maximize: false, window_menu: false };
    assert_eq!(control_group(none), vec![Control::Close]);
    assert_eq!(Control::Maximize.glyph(true), ControlGlyph::Restore);
    assert_eq!(Control::Maximize.glyph(false), ControlGlyph::Maximize);

    let bar = title_bar(16_000, all, Decorations::Server, false);
    assert!(bar.buttons.is_empty());
    assert_eq!(bar.height, title_bar_height(16_000));
    let own = title_bar(16_000, all, Decorations::Client { tiling: Tiling::free() }, false);
    assert_eq!(own.buttons.len(), 3);
    assert_eq!(title_bar_height(16_000), 36_000);
    assert_eq!(title_bar_height(32_000), 56_000);
}

#[test]
fn a_decorated_window_draws_no_frame_of_its_own() {
    let background = Color::rgb(0x101418);
    let plain = window_shell(Decorations::Server, background);
    assert_eq!(plain.client_inset, 0);
    assert_eq!(plain.background, background);
    assert!(plain.frame.is_none());

    let free = window_shell(Decorations::Client { tiling: Tiling::free() }, background);
    assert_eq!(free.client_inset, 10);
    assert_eq!(free.background, background);
    let frame = free.frame.unwrap();
    let shadow = frame.shadow.unwrap();
    assert_eq!(shadow.color, Color::rgb(0));
    assert_eq!((shadow.opacity, shadow.blur_radius, shadow.spread_radius), (40, 5, 0));
    assert_eq!(shadow.offset, Point { x: 0, y: 0 });
    assert_eq!(frame.padding.top, 10);

    let held = window_shell(Decorations::Client { tiling: Tiling::tiled() }, background);
    assert_eq!(held.client_inset, 10);
    let frame = held.frame.unwrap();
    assert_eq!(frame.corners, Corners::default());
    assert_eq!(frame.padding.left, 0);
    assert!(frame.shadow.is_none());
}

#[test]
fn pointer_targets_are_at_least_forty_logical_pixels() {
    assert!(TARGET_MIN >= 40);
}

#[test]
fn a_core_color_packs_into_the_themes_own_form() {
    assert_eq!(Color::from(Rgb::new(0x6f, 0x4e, 0xf2)), Color::rgb(0x6f4ef2));
    assert_eq!(Color::from(Rgb::black()), Color::rgb(0x000000));
    assert_eq!(Color::from(Rgb::new(0xff, 0xff, 0xff)), Color::rgb(0xffffff));
    // The channel order is the whole risk: a red-only color must not come
    // back as a blue one.
    assert_eq!(Color::from(Rgb::new(0xff, 0x00, 0x00)), Color::rgb(0xff0000));
    assert_eq!(Color::rgb(0x123456).to_rgb(), Rgb::new(0x12, 0x34, 0x56));
}
