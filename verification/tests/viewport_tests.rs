//! Tests of the viewport engine.

use rsvim_core::coord::U16Rect;
use rsvim_core::text::{Glyph, Text, TextLine};
use rsvim_core::ui::viewport::{view, CursorViewport};
use rsvim_core::ui::widget::window::WindowLocalOptionsBuilder;

fn line_of(chars: &[(char, u16)]) -> TextLine {
    let mut line = TextLine::new();
    for (c, w) in chars {
        line.push(Glyph::new(*c, *w));
    }
    line
}

fn ascii_line(s: &str) -> TextLine {
    TextLine::from_str_plain(s, 8)
}

#[test]
fn nowrap_horizontal_scroll_reports_start_fills() {
    // A line of 30 single-width characters, target width 10, anchored so
    // the line's first visible character is index 5: the viewport
    // reports leading fill columns.
    let mut chars = Vec::new();
    for _ in 0..30 {
        chars.push(('a', 1));
    }
    let text = Text::from_line(line_of(&chars));
    let opts = WindowLocalOptionsBuilder::new().wrap(false).build();
    let shape = U16Rect::new(0, 0, 10, 1);
    let vp = view(&opts, &text, &shape, 0, 5);
    assert_eq!(vp.start_line_idx, 0);
    assert_eq!(vp.end_line_idx, 1);
    assert!(vp.lines[0].start_filled_cols > 0);
    assert_eq!(vp.lines[0].start_filled_cols, 1);
    // One marker column, then 9 columns of content.
    assert_eq!(vp.lines[0].rows[0].start_char_idx, 5);
    assert_eq!(vp.lines[0].rows[0].end_char_idx, 14);
}

#[test]
fn wide_glyph_never_straddles_the_right_edge() {
    // A 2-column glyph placed as the last character that fits a
    // 10-column row with exactly 1 column remaining: it is excluded from
    // the row's character range and counted into the trailing fill.
    let mut chars = Vec::new();
    for _ in 0..9 {
        chars.push(('a', 1));
    }
    chars.push(('\u{597d}', 2));
    chars.push(('b', 1));
    let text = Text::from_line(line_of(&chars));
    let opts = WindowLocalOptionsBuilder::new().wrap(false).build();
    let shape = U16Rect::new(0, 0, 10, 1);
    let vp = view(&opts, &text, &shape, 0, 0);
    assert_eq!(vp.lines[0].rows[0].start_char_idx, 0);
    assert_eq!(vp.lines[0].rows[0].end_char_idx, 9);
    assert_eq!(vp.lines[0].start_filled_cols, 0);
    assert_eq!(vp.lines[0].end_filled_cols, 1);
}

#[test]
fn wrap_hard_cut_splits_into_maximal_rows() {
    let mut chars = Vec::new();
    for _ in 0..25 {
        chars.push(('x', 1));
    }
    let text = Text::from_line(line_of(&chars));
    let opts = WindowLocalOptionsBuilder::new().wrap(true).line_break(false).build();
    let shape = U16Rect::new(0, 0, 10, 5);
    let vp = view(&opts, &text, &shape, 0, 0);
    assert_eq!(vp.lines[0].rows.len(), 3);
    assert_eq!(
        (vp.lines[0].rows[0].start_char_idx, vp.lines[0].rows[0].end_char_idx),
        (0, 10)
    );
    assert_eq!(
        (vp.lines[0].rows[1].start_char_idx, vp.lines[0].rows[1].end_char_idx),
        (10, 20)
    );
    assert_eq!(
        (vp.lines[0].rows[2].start_char_idx, vp.lines[0].rows[2].end_char_idx),
        (20, 25)
    );
}

#[test]
fn wrap_line_break_pulls_back_to_word_gap() {
    // "hello world foo", width 8: the hard cut would fall inside
    // "world", so the boundary is pulled back to just after the gap.
    let text = Text::from_line(ascii_line("hello world foo"));
    let opts = WindowLocalOptionsBuilder::new().wrap(true).line_break(true).build();
    let shape = U16Rect::new(0, 0, 8, 5);
    let vp = view(&opts, &text, &shape, 0, 0);
    assert_eq!(
        (vp.lines[0].rows[0].start_char_idx, vp.lines[0].rows[0].end_char_idx),
        (0, 6)
    );
    assert_eq!(
        (vp.lines[0].rows[1].start_char_idx, vp.lines[0].rows[1].end_char_idx),
        (6, 12)
    );
    assert_eq!(
        (vp.lines[0].rows[2].start_char_idx, vp.lines[0].rows[2].end_char_idx),
        (12, 15)
    );
}

#[test]
fn wrap_stops_at_target_height() {
    let mut chars = Vec::new();
    for _ in 0..50 {
        chars.push(('x', 1));
    }
    let text = Text::from_line(line_of(&chars));
    let opts = WindowLocalOptionsBuilder::new().wrap(true).build();
    let shape = U16Rect::new(0, 0, 10, 3);
    let vp = view(&opts, &text, &shape, 0, 0);
    assert_eq!(vp.lines[0].rows.len(), 3);
    assert_eq!(vp.lines[0].rows[2].end_char_idx, 30);
}

#[test]
fn view_never_reads_past_the_line_count() {
    let text = Text::from_line(ascii_line("one line"));
    let opts = WindowLocalOptionsBuilder::new().wrap(false).build();
    let shape = U16Rect::new(0, 0, 10, 4);
    let vp = view(&opts, &text, &shape, 0, 0);
    assert_eq!(vp.end_line_idx, 1);
    let past = view(&opts, &text, &shape, 7, 0);
    assert_eq!(past.start_line_idx, 1);
    assert_eq!(past.end_line_idx, 1);
}

#[test]
fn zero_size_target_yields_empty_viewport() {
    let text = Text::from_line(ascii_line("abc"));
    let opts = WindowLocalOptionsBuilder::new().wrap(false).build();
    let shape = U16Rect::new(3, 3, 3, 3);
    let vp = view(&opts, &text, &shape, 0, 0);
    assert_eq!(vp.start_line_idx, vp.end_line_idx);
    assert_eq!(vp.lines.len(), 0);
}

#[test]
fn from_top_left_parks_on_first_renderable_position() {
    let text = Text::from_line(ascii_line("abc"));
    let opts = WindowLocalOptionsBuilder::new().wrap(false).build();
    let shape = U16Rect::new(0, 0, 10, 1);
    let vp = view(&opts, &text, &shape, 0, 0);
    let cv = CursorViewport::from_top_left(&vp, &text);
    assert_eq!((cv.line_idx, cv.char_idx, cv.row_idx, cv.column_idx), (0, 0, 0, 0));
}

#[test]
fn locate_fails_outside_the_rendered_ranges() {
    let mut chars = Vec::new();
    for _ in 0..30 {
        chars.push(('a', 1));
    }
    let text = Text::from_line(line_of(&chars));
    let opts = WindowLocalOptionsBuilder::new().wrap(false).build();
    let shape = U16Rect::new(0, 0, 10, 1);
    let vp = view(&opts, &text, &shape, 0, 0);
    // Character 3 renders at column 3.
    let hit = CursorViewport::locate(&vp, &text, 0, 3).unwrap();
    assert_eq!((hit.row_idx, hit.column_idx), (0, 3));
    // Character 25 is clipped away: not visible.
    assert!(CursorViewport::locate(&vp, &text, 0, 25).is_none());
}

#[test]
fn view_is_deterministic() {
    let text = Text::from_line(ascii_line("hello world"));
    let opts = WindowLocalOptionsBuilder::new().wrap(true).line_break(true).build();
    let shape = U16Rect::new(0, 0, 6, 4);
    let a = view(&opts, &text, &shape, 0, 0);
    let b = view(&opts, &text, &shape, 0, 0);
    assert_eq!(a.start_line_idx, b.start_line_idx);
    assert_eq!(a.end_line_idx, b.end_line_idx);
    assert_eq!(a.lines.len(), b.lines.len());
    for k in 0..a.lines.len() {
        assert_eq!(a.lines[k].rows, b.lines[k].rows);
        assert_eq!(a.lines[k].start_filled_cols, b.lines[k].start_filled_cols);
        assert_eq!(a.lines[k].end_filled_cols, b.lines[k].end_filled_cols);
    }
}
