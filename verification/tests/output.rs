use std::rc::Rc;

use carbonyl::gfx::{Color, Point, Rect, Size};
use carbonyl::output::quad::binarize_with_mask;
use carbonyl::output::quantizer::{palette_color, quantize};
use carbonyl::output::renderer::Renderer;
use carbonyl::output::size::{browser_cells, terminal_cells, window_size};
use carbonyl::output::{Cell, Grapheme, Painter};
use carbonyl::utils::FourBits;

const HALF_BLOCK: &str = "\u{2584}";

fn bytes(parts: &[&str]) -> Vec<u8> {
    parts.concat().into_bytes()
}

#[test]
fn painter_true_color_from_colorterm() {
    assert!(Painter::new("truecolor").true_color());
    assert!(Painter::new("24bit").true_color());
    assert!(!Painter::new("xterm-256color").true_color());
    assert!(!Painter::new("").true_color());
    let mut p = Painter::new("");
    p.set_true_color(true);
    assert!(p.true_color());
}

#[test]
fn painter_frame_shows_cursor() {
    let mut p = Painter::new("");
    p.begin();
    let frame = p.end(Some(Point::new(2, 3)));
    assert_eq!(frame, bytes(&["\x1b[?25l\x1b[?12l", "\x1b[4;3H", "\x1b[?25h\x1b[?12h"]));
    assert!(p.end(None).is_empty());
}

#[test]
fn painter_writes_only_what_changed() {
    let mut p = Painter::new("");
    let mut cell = Cell::new(0, 0);
    cell.top = Color::new(255, 0, 0);
    cell.bottom = Color::new(0, 0, 255);
    p.paint(&cell);
    assert_eq!(
        p.flush(),
        bytes(&["\x1b[1;1H", "\x1b[48;5;196m", "\x1b[38;5;21m", HALF_BLOCK])
    );
    let mut next = Cell::new(1, 0);
    next.top = Color::new(255, 0, 0);
    next.bottom = Color::new(0, 0, 255);
    p.paint(&next);
    assert_eq!(p.flush(), bytes(&[HALF_BLOCK]));
}

#[test]
fn painter_true_color_sequences() {
    let mut p = Painter::new("24bit");
    let mut cell = Cell::new(4, 1);
    cell.top = Color::new(1, 2, 3);
    cell.bottom = Color::new(40, 50, 60);
    p.paint(&cell);
    assert_eq!(
        p.flush(),
        bytes(&["\x1b[2;5H", "\x1b[48;2;1;2;3m", "\x1b[38;2;40;50;60m", HALF_BLOCK])
    );
}

#[test]
fn painter_text_cells() {
    let mut p = Painter::new("truecolor");
    let mut cell = Cell::new(0, 0);
    cell.top = Color::new(10, 20, 30);
    cell.bottom = Color::new(30, 40, 50);
    cell.grapheme = Some(Rc::new(Grapheme {
        char: "x".to_string(),
        index: 0,
        width: 1,
        color: Color::new(7, 8, 9),
    }));
    p.paint(&cell);
    assert_eq!(p.flush(), bytes(&["\x1b[1;1H", "\x1b[48;2;25;35;45m", "\x1b[38;2;7;8;9m", "x"]));
    let mut tail = Cell::new(1, 0);
    tail.grapheme = Some(Rc::new(Grapheme {
        char: "\u{4e2d}".to_string(),
        index: 1,
        width: 2,
        color: Color::new(7, 8, 9),
    }));
    p.paint(&tail);
    assert!(p.flush().is_empty());
}

#[test]
fn cells_compare_by_look() {
    let a = Cell::new(1, 2);
    let mut b = Cell::new(1, 2);
    assert!(a.same(&b));
    b.bottom = Color::new(1, 1, 1);
    assert!(!a.same(&b));
    assert!(!a.same(&Cell::new(2, 2)));
}

fn two_cell_renderer(colorterm: &str) -> Renderer {
    let mut r = Renderer::new(colorterm);
    r.set_size(Size::new(7, 14), Size::new(2, 1));
    r
}

#[test]
fn background_is_drawn_then_settles() {
    let mut r = two_cell_renderer("");
    let mut pixels = [255u8, 0, 0, 255, 0, 0, 0, 255, 0, 0, 255, 255, 0, 0, 0, 255];
    let out = r.draw_background(&mut pixels, Rect::new(0, 0, 2, 2));
    assert_eq!(out, bytes(&["\x1b[1;1H", "\x1b[48;5;196m", "\x1b[38;5;21m", HALF_BLOCK]));
    assert!(r.render().is_empty());
    let again = r.draw_background(&mut pixels, Rect::new(0, 0, 2, 2));
    assert!(again.is_empty());
}

#[test]
fn background_in_true_color() {
    let mut r = two_cell_renderer("truecolor");
    let mut pixels = [0u8, 0, 0, 255, 1, 2, 3, 255, 0, 0, 0, 255, 4, 5, 6, 255];
    let out = r.draw_background(&mut pixels, Rect::new(0, 0, 2, 2));
    assert_eq!(out, bytes(&["\x1b[1;2H", "\x1b[48;2;1;2;3m", "\x1b[38;2;4;5;6m", HALF_BLOCK]));
}

#[test]
fn background_of_wrong_size_is_ignored() {
    let mut r = two_cell_renderer("");
    let mut pixels = [255u8; 12];
    assert!(r.draw_background(&mut pixels, Rect::new(0, 0, 2, 2)).is_empty());
    assert!(r.render().is_empty());
}

#[test]
fn text_is_drawn_and_cleared() {
    let mut r = Renderer::new("");
    r.set_size(Size::new(7, 14), Size::new(4, 1));
    r.draw_text("ab", Point::new(1, 0), Size::new(1, 1), Color::new(9, 9, 9));
    assert_eq!(r.render(), bytes(&["\x1b[1;2H", "\x1b[48;5;16m", "\x1b[38;5;16m", "ab"]));
    r.clear_text();
    assert_eq!(r.render(), bytes(&["\x1b[1;2H", HALF_BLOCK, HALF_BLOCK]));
    assert!(r.render().is_empty());
}

#[test]
fn text_box_clears_text_under_it() {
    let mut r = Renderer::new("");
    r.set_size(Size::new(7, 14), Size::new(4, 1));
    r.draw_text("abcd", Point::new(0, 0), Size::new(1, 1), Color::new(200, 0, 0));
    r.render();
    r.draw_text("", Point::new(1, 0), Size::new(3, 3), Color::new(0, 0, 0));
    assert_eq!(r.render(), bytes(&["\x1b[1;2H", "\x1b[38;5;16m", HALF_BLOCK, HALF_BLOCK, HALF_BLOCK]));
}

#[test]
fn wide_text_takes_two_cells() {
    let mut r = Renderer::new("");
    r.set_size(Size::new(7, 14), Size::new(4, 1));
    r.draw_text("\u{4e2d}x", Point::new(0, 0), Size::new(1, 1), Color::new(0, 0, 0));
    assert_eq!(r.render(), bytes(&["\x1b[1;1H", "\x1b[48;5;16m", "\x1b[38;5;16m", "\u{4e2d}", "x"]));
}

#[test]
fn titles() {
    let r = Renderer::new("");
    assert_eq!(r.set_title("hi"), bytes(&["\x1b]0;hi\x07", "\x1b]1;hi\x07", "\x1b]2;hi\x07"]));
}

#[test]
fn growing_keeps_cells_and_numbers_new_ones() {
    let mut r = two_cell_renderer("truecolor");
    let mut pixels = [9u8, 0, 0, 255, 0, 0, 0, 255, 0, 0, 0, 255, 0, 0, 0, 255];
    r.draw_background(&mut pixels, Rect::new(0, 0, 2, 2));
    r.set_size(Size::new(7, 14), Size::new(2, 2));
    assert!(r.render().is_empty());
}

#[test]
fn quadrants() {
    let x = Color::new(0, 0, 0);
    let y = Color::new(100, 100, 100);
    let z = Color::new(200, 200, 200);
    let w = Color::new(50, 50, 50);
    assert_eq!(binarize_with_mask(FourBits::B0101, (x, y, z, w)), ("\u{259e}", x.avg_with(z), y.avg_with(w)));
    assert_eq!(binarize_with_mask(FourBits::B1000, (x, y, z, w)), ("\u{2598}", y.avg_with(z).avg_with(w), x));
    assert_eq!(binarize_with_mask(FourBits::B0000, (x, x, z, z)), (HALF_BLOCK, x, z));
    assert_eq!(FourBits::new(true, false, true, false), FourBits::B1010);
    assert_eq!(FourBits::new(false, false, false, true), FourBits::B0001);
}

#[test]
fn quantized_palette_is_black() {
    let pixels = [10u8, 20, 30, 255, 200, 100, 50, 255];
    let palette = quantize(&pixels);
    assert!(palette.iter().all(|c| *c == Color::black()));
    palette_color(&palette, Color::new(1, 2, 3));
}

#[test]
fn window_size_falls_back_to_environment() {
    assert_eq!(window_size(120, 40, Some("1"), Some("2")), Size::new(120, 40));
    assert_eq!(window_size(0, 30, Some("100"), Some("x")), Size::new(100, 24));
    assert_eq!(window_size(10, 0, None, None), Size::new(80, 24));
    assert_eq!(window_size(0, 0, Some("+7"), Some("70000")), Size::new(7, 24));
    assert_eq!(window_size(0, 0, Some("65535"), Some(" 5")), Size::new(65535, 24));
}

#[test]
fn drawing_preconditions() {
    let r = two_cell_renderer("");
    assert!(r.can_render());
    assert!(r.can_draw_background(16, Rect::new(0, 0, 2, 2)));
    assert!(!r.can_draw_background(16, Rect::new(0, 0, 3, 2)));
    assert!(!r.can_draw_background(16, Rect::new(-1, 0, 1, 2)));
    assert!(r.can_draw_background(12, Rect::new(5, 5, 9, 9)));
    assert!(r.can_draw_text(Point::new(1, 0), Size::new(1, 1)));
    assert!(r.can_draw_text(Point::new(0, 0), Size::new(3, 3)));
    assert!(!r.can_draw_text(Point::new(i32::MAX, 2), Size::new(1, 1)));
}

#[test]
fn background_pixels_are_rgba() {
    let mut r = Renderer::new("truecolor");
    r.set_size(Size::new(7, 14), Size::new(1, 1));
    let mut pixels = [10u8, 20, 30, 255, 40, 50, 60, 255];
    let out = r.draw_background(&mut pixels, Rect::new(0, 0, 1, 2));
    assert_eq!(out, bytes(&["\x1b[1;1H", "\x1b[48;2;10;20;30m", "\x1b[38;2;40;50;60m", HALF_BLOCK]));
}

#[test]
fn continuation_columns_are_skipped_anywhere() {
    let mut p = Painter::new("");
    let mut tail = Cell::new(u32::MAX, u32::MAX);
    tail.grapheme = Some(Rc::new(Grapheme {
        char: "\u{4e2d}".to_string(),
        index: 1,
        width: 2,
        color: Color::new(1, 2, 3),
    }));
    p.paint(&tail);
    assert!(p.flush().is_empty());
}

#[test]
fn window_cells_fall_back_on_zero_too() {
    assert_eq!(terminal_cells(0, 30, Some("0"), Some("40")), Size::<u16>::new(80, 40));
    assert_eq!(terminal_cells(100, 30, Some("1"), Some("1")), Size::<u16>::new(100, 30));
    assert_eq!(terminal_cells(0, 0, None, Some("x")), Size::<u16>::new(80, 24));
}

#[test]
fn browser_keeps_a_row_for_the_bar() {
    assert_eq!(browser_cells(Size::<u16>::new(80, 24)), Size::new(80, 23));
    assert_eq!(browser_cells(Size::<u16>::new(0, 1)), Size::new(1, 1));
    assert_eq!(browser_cells(Size::<u16>::new(5, 0)), Size::new(5, 1));
}

#[test]
fn next_cell_in_same_colors_writes_only_its_text() {
    let mut p = Painter::new("");
    let mut first = Cell::new(0, 0);
    first.top = Color::new(255, 0, 0);
    let mut second = Cell::new(1, 0);
    second.top = Color::new(255, 0, 0);
    p.paint(&first);
    p.flush();
    p.paint(&second);
    assert_eq!(p.flush(), bytes(&[HALF_BLOCK]));
}
