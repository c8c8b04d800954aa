//! Tests of the canvas renderer.

use rsvim_core::coord::U16Rect;
use rsvim_core::text::{Glyph, Text, TextLine};
use rsvim_core::ui::canvas::{Canvas, Symbol};
use rsvim_core::ui::viewport::draw::draw;
use rsvim_core::ui::viewport::view;
use rsvim_core::ui::widget::window::WindowLocalOptionsBuilder;

fn line_of(chars: &[(char, u16)]) -> TextLine {
    let mut line = TextLine::new();
    for (c, w) in chars {
        line.push(Glyph::new(*c, *w));
    }
    line
}

fn ascii_line(s: &str) -> TextLine {
    TextLine::from_str_plain(s, 8)
}

fn row_symbols(canvas: &Canvas, y: u16, width: u16) -> Vec<Symbol> {
    let mut out = Vec::new();
    for x in 0..width {
        out.push(canvas.frame().cell_at(x, y).symbol);
    }
    out
}

#[test]
fn draw_pads_and_blank_fills() {
    let text = Text::from_line(ascii_line("hi"));
    let opts = WindowLocalOptionsBuilder::new().wrap(false).build();
    let shape = U16Rect::new(0, 0, 5, 2);
    let vp = view(&opts, &text, &shape, 0, 0);
    let mut canvas = Canvas::new(5, 2);
    draw(&vp, &text, &shape, &mut canvas);
    assert_eq!(
        row_symbols(&canvas, 0, 5),
        vec![
            Symbol::Char('h'),
            Symbol::Char('i'),
            Symbol::Char(' '),
            Symbol::Char(' '),
            Symbol::Char(' '),
        ]
    );
    // The text ran out before the target height: a fully blank row.
    assert_eq!(row_symbols(&canvas, 1, 5), vec![Symbol::Char(' '); 5]);
}

#[test]
fn wide_glyph_writes_symbol_then_empty_cells() {
    // A glyph of display width 3 occupies one cell with the symbol and
    // two cells with the empty symbol, and the row still covers exactly
    // the target width.
    let text = Text::from_line(line_of(&[('a', 1), ('T', 3), ('b', 1)]));
    let opts = WindowLocalOptionsBuilder::new().wrap(false).build();
    let shape = U16Rect::new(0, 0, 6, 1);
    let vp = view(&opts, &text, &shape, 0, 0);
    let mut canvas = Canvas::new(6, 1);
    draw(&vp, &text, &shape, &mut canvas);
    assert_eq!(
        row_symbols(&canvas, 0, 6),
        vec![
            Symbol::Char('a'),
            Symbol::Char('T'),
            Symbol::Empty,
            Symbol::Empty,
            Symbol::Char('b'),
            Symbol::Char(' '),
        ]
    );
}

#[test]
fn horizontal_scroll_draws_leading_markers() {
    let mut chars = Vec::new();
    for i in 0..30 {
        chars.push(((b'a' + (i % 26)) as char, 1));
    }
    let text = Text::from_line(line_of(&chars));
    let opts = WindowLocalOptionsBuilder::new().wrap(false).build();
    let shape = U16Rect::new(0, 0, 10, 1);
    let vp = view(&opts, &text, &shape, 0, 5);
    assert!(vp.lines[0].start_filled_cols > 0);
    let mut canvas = Canvas::new(10, 1);
    draw(&vp, &text, &shape, &mut canvas);
    // The rendered row begins with the marker cells, then buffer text.
    let fills = vp.lines[0].start_filled_cols;
    for x in 0..fills {
        assert_eq!(canvas.frame().cell_at(x, 0).symbol, Symbol::Char('>'));
    }
    assert_eq!(canvas.frame().cell_at(fills, 0).symbol, Symbol::Char('f'));
}

#[test]
fn clipped_wide_glyph_draws_trailing_marker() {
    let mut chars = Vec::new();
    for _ in 0..9 {
        chars.push(('a', 1));
    }
    chars.push(('\u{597d}', 2));
    let text = Text::from_line(line_of(&chars));
    let opts = WindowLocalOptionsBuilder::new().wrap(false).build();
    let shape = U16Rect::new(0, 0, 10, 1);
    let vp = view(&opts, &text, &shape, 0, 0);
    let mut canvas = Canvas::new(10, 1);
    draw(&vp, &text, &shape, &mut canvas);
    // The wide glyph is never drawn in part: its column becomes a
    // trailing marker instead.
    assert_eq!(canvas.frame().cell_at(9, 0).symbol, Symbol::Char('<'));
}

#[test]
fn drawing_twice_gives_identical_grids() {
    let text = Text::from_line(ascii_line("idempotent"));
    let opts = WindowLocalOptionsBuilder::new().wrap(true).build();
    let shape = U16Rect::new(1, 0, 7, 3);
    let vp = view(&opts, &text, &shape, 0, 0);
    let mut c1 = Canvas::new(8, 3);
    let mut c2 = Canvas::new(8, 3);
    draw(&vp, &text, &shape, &mut c1);
    draw(&vp, &text, &shape, &mut c2);
    for y in 0..3 {
        for x in 0..8 {
            assert_eq!(c1.frame().cell_at(x, y), c2.frame().cell_at(x, y));
        }
    }
}

#[test]
fn draw_leaves_cells_outside_the_target_alone() {
    let text = Text::from_line(ascii_line("abc"));
    let opts = WindowLocalOptionsBuilder::new().wrap(false).build();
    let shape = U16Rect::new(2, 1, 6, 2);
    let vp = view(&opts, &text, &shape, 0, 0);
    let mut canvas = Canvas::new(8, 3);
    draw(&vp, &text, &shape, &mut canvas);
    // Inside: the text.
    assert_eq!(canvas.frame().cell_at(2, 1).symbol, Symbol::Char('a'));
    // Outside: still the blank canvas.
    assert_eq!(canvas.frame().cell_at(0, 0).symbol, Symbol::Char(' '));
    assert_eq!(canvas.frame().cell_at(7, 2).symbol, Symbol::Char(' '));
}

#[test]
fn zero_size_draw_is_a_no_op() {
    let text = Text::from_line(ascii_line("abc"));
    let opts = WindowLocalOptionsBuilder::new().wrap(false).build();
    let shape = U16Rect::new(4, 2, 4, 2);
    let vp = view(&opts, &text, &shape, 0, 0);
    let mut canvas = Canvas::new(8, 3);
    draw(&vp, &text, &shape, &mut canvas);
    for y in 0..3 {
        for x in 0..8 {
            assert_eq!(canvas.frame().cell_at(x, y).symbol, Symbol::Char(' '));
        }
    }
}

#[test]
fn tab_expands_to_its_stored_width() {
    let text = Text::from_line(line_of(&[('\t', 8), ('x', 1)]));
    let opts = WindowLocalOptionsBuilder::new().wrap(false).build();
    let shape = U16Rect::new(0, 0, 10, 1);
    let vp = view(&opts, &text, &shape, 0, 0);
    let mut canvas = Canvas::new(10, 1);
    draw(&vp, &text, &shape, &mut canvas);
    assert_eq!(canvas.frame().cell_at(0, 0).symbol, Symbol::Char('\t'));
    for x in 1..8 {
        assert_eq!(canvas.frame().cell_at(x, 0).symbol, Symbol::Empty);
    }
    assert_eq!(canvas.frame().cell_at(8, 0).symbol, Symbol::Char('x'));
}
