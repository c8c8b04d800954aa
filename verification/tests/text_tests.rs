//! Tests of the text model and the small option/error carriers.

use rsvim_core::cli::CliOpt;
use rsvim_core::js::err::JsError;
use rsvim_core::text::{Glyph, Text, TextLine};

#[test]
fn lines_splice_and_delete_by_character_offset() {
    let mut text = Text::from_line(TextLine::from_str_plain("hello", 8));
    let payload = TextLine::from_str_plain("XY", 8);
    text.insert(0, 2, &payload);
    let chars: Vec<char> = text.lines[0].glyphs.iter().map(|g| g.ch).collect();
    assert_eq!(chars, vec!['h', 'e', 'X', 'Y', 'l', 'l', 'o']);
    text.delete(0, 1, 4);
    let chars: Vec<char> = text.lines[0].glyphs.iter().map(|g| g.ch).collect();
    assert_eq!(chars, vec!['h', 'l', 'l', 'o']);
}

#[test]
fn clear_leaves_one_empty_line() {
    let mut text = Text::from_line(TextLine::from_str_plain("stuff", 8));
    text.push_line(TextLine::from_str_plain("more", 8));
    assert_eq!(text.line_count(), 2);
    text.clear();
    assert_eq!(text.line_count(), 1);
    assert_eq!(text.line(0).char_count(), 0);
}

#[test]
fn width_between_sums_display_widths() {
    let mut line = TextLine::new();
    line.push(Glyph::new('a', 1));
    line.push(Glyph::new('\t', 8));
    line.push(Glyph::new('\u{597d}', 2));
    line.push(Glyph::new('\u{0}', 0));
    assert_eq!(line.width_between(0, 4), 11);
    assert_eq!(line.width_between(1, 3), 10);
    assert_eq!(line.width_between(2, 2), 0);
}

#[test]
fn plain_width_rule_distinguishes_tabs_and_controls() {
    let line = TextLine::from_str_plain("a\tb\u{1}", 8);
    assert_eq!(line.glyphs[0].width, 1);
    assert_eq!(line.glyphs[1].width, 8);
    assert_eq!(line.glyphs[2].width, 1);
    assert_eq!(line.glyphs[3].width, 0);
}

#[test]
fn trimmed_string_joins_lines_and_drops_blank_edges() {
    let mut text = Text::from_line(TextLine::from_str_plain("  first", 8));
    text.push_line(TextLine::from_str_plain("second  ", 8));
    assert_eq!(text.trimmed_string(), "first\nsecond".to_string());

    let all_blank = Text::from_line(TextLine::from_str_plain("  \t ", 8));
    assert_eq!(all_blank.trimmed_string(), String::new());

    let empty = Text::new();
    assert_eq!(empty.trimmed_string(), String::new());
}

#[test]
fn cli_opt_carries_its_parts() {
    let opt = CliOpt::new(true, vec!["a.txt".to_string(), "b.txt".to_string()]);
    assert!(opt.version());
    assert_eq!(opt.file().len(), 2);
    assert_eq!(opt.file()[0], "a.txt".to_string());
}

#[test]
fn js_error_getters_expose_the_decoded_fields() {
    let err = JsError {
        message: "boom".to_string(),
        resource_name: "init.js".to_string(),
        source_line: Some("let x =".to_string()),
        line_number: Some(3),
        start_column: Some(4),
        end_column: Some(7),
        stack: None,
    };
    assert_eq!(err.message(), &"boom".to_string());
    assert_eq!(err.resource_name(), &"init.js".to_string());
    assert_eq!(err.source_line(), &Some("let x =".to_string()));
    assert_eq!(err.line_number(), &Some(3));
    assert_eq!(err.start_column(), &Some(4));
    assert_eq!(err.end_column(), &Some(7));
    assert_eq!(err.stack(), &None);
}

#[test]
fn js_error_display_string_is_the_minified_form() {
    let err = JsError {
        message: "boom".to_string(),
        resource_name: "init.js".to_string(),
        source_line: None,
        line_number: Some(3),
        start_column: Some(14),
        end_column: Some(15),
        stack: None,
    };
    assert_eq!(err.display_string(), "Uncaught boom (init.js:3:14)".to_string());

    let bare = JsError {
        message: "oops".to_string(),
        resource_name: "(unknown)".to_string(),
        source_line: None,
        line_number: None,
        start_column: None,
        end_column: None,
        stack: None,
    };
    assert_eq!(bare.display_string(), "Uncaught oops ((unknown):0:0)".to_string());

    let negative = JsError {
        message: "m".to_string(),
        resource_name: "r".to_string(),
        source_line: None,
        line_number: Some(-7),
        start_column: Some(120),
        end_column: None,
        stack: None,
    };
    assert_eq!(negative.display_string(), "Uncaught m (r:-7:120)".to_string());
}

#[test]
fn js_error_debug_string_marks_the_offending_columns() {
    let err = JsError {
        message: "bad".to_string(),
        resource_name: "r.js".to_string(),
        source_line: Some("let x =".to_string()),
        line_number: Some(1),
        start_column: Some(4),
        end_column: Some(7),
        stack: Some("at r.js:1".to_string()),
    };
    assert_eq!(
        err.debug_string(),
        "Uncaught bad\nlet x =\n    ^^^\nat r.js:1".to_string()
    );

    let no_line = JsError {
        message: "bad".to_string(),
        resource_name: "r.js".to_string(),
        source_line: None,
        line_number: None,
        start_column: None,
        end_column: None,
        stack: None,
    };
    assert_eq!(no_line.debug_string(), "Uncaught bad".to_string());

    let empty_line = JsError {
        message: "bad".to_string(),
        resource_name: "r.js".to_string(),
        source_line: Some(String::new()),
        line_number: None,
        start_column: Some(2),
        end_column: Some(5),
        stack: Some("ignored".to_string()),
    };
    assert_eq!(empty_line.debug_string(), "Uncaught bad".to_string());
}

#[test]
fn trimming_drops_every_unicode_white_space_character() {
    // Vertical tab and form feed at the edges go the same way as
    // spaces, tabs and line breaks.
    let text = Text::from_line(TextLine::from_str_plain("\u{b}\u{c} kept \u{85}", 8));
    assert_eq!(text.trimmed_string(), "kept".to_string());

    let nbsp = Text::from_line(TextLine::from_str_plain("\u{a0}\u{3000}x\u{2028}", 8));
    assert_eq!(nbsp.trimmed_string(), "x".to_string());

    let only_vt = Text::from_line(TextLine::from_str_plain("\u{b}", 8));
    assert_eq!(only_vt.trimmed_string(), String::new());
}

#[test]
fn js_error_default_is_empty() {
    let err = JsError::default();
    assert_eq!(err.message(), &String::new());
    assert_eq!(err.resource_name(), &String::new());
    assert!(err.line_number().is_none());
    assert!(err.stack().is_none());
}
