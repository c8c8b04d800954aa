//! Tests of the command-line message mode and the cursor operations.

use rsvim_core::content::TextContents;
use rsvim_core::coord::{IRect, U16Rect};
use rsvim_core::event::{InputEvent, KeyCode, KeyEvent, KeyEventKind};
use rsvim_core::state::fsm::command_line_message::CommandLineMessageStateful;
use rsvim_core::state::fsm::StatefulValue;
use rsvim_core::state::ops::{cursor_ops, Operation};
use rsvim_core::text::TextLine;
use rsvim_core::ui::canvas::{Canvas, Symbol};
use rsvim_core::ui::tree::{IdAlloc, Tree};
use rsvim_core::ui::viewport::draw::draw;
use rsvim_core::ui::widget::command_line::builder::CommandLineBuilder;
use rsvim_core::ui::widget::command_line::CommandLineIndicatorSymbol;
use rsvim_core::ui::widget::window::{Window, WindowLocalOptionsBuilder};

fn press(code: KeyCode) -> InputEvent {
    InputEvent::Key(KeyEvent { kind: KeyEventKind::Press, code })
}

fn message_tree() -> (Tree, TextContents) {
    let contents = TextContents::new();
    let opts = WindowLocalOptionsBuilder::new().wrap(false).build();
    let tree = Tree::new(
        &contents,
        IRect::new(0, 0, 20, 5),
        opts,
        IRect::new(0, 5, 20, 6),
    );
    (tree, contents)
}

#[test]
fn with_message_relocates_cursor_and_shows_the_message() {
    // An empty 1-row, 20-column command line; the message fills its
    // content viewport's first row, right-padded with blanks.
    let (mut tree, mut contents) = message_tree();
    assert!(tree.window.cursor_id.is_some());
    let message = TextLine::from_str_plain("Error: bad syntax", 8);
    let _mode = CommandLineMessageStateful::with_message(&message, &mut tree, &mut contents);
    // The cursor moved into the command line, at row 0, column 0.
    assert!(tree.window.cursor_id.is_none());
    assert!(tree.command_line.cursor_id.is_some());
    let cv = tree.command_line.cursor_viewport();
    assert_eq!((cv.line_idx, cv.char_idx, cv.row_idx, cv.column_idx), (0, 0, 0, 0));
    // The indicator shows `Ex`.
    assert_eq!(
        tree.command_line.indicator_symbol(&contents.command_line),
        CommandLineIndicatorSymbol::Ex
    );
    // The content viewport's first row covers the full message text.
    let vp = &tree.command_line.viewport;
    assert_eq!(vp.lines[0].rows[0].start_char_idx, 0);
    assert_eq!(vp.lines[0].rows[0].end_char_idx, 17);
    // Rendered, the row holds the message and blank padding to the
    // right edge.
    let shape = tree.command_line.content_actual_shape(&contents.command_line);
    let mut canvas = Canvas::new(20, 6);
    draw(vp, &contents.command_line, &shape, &mut canvas);
    assert_eq!(canvas.frame().cell_at(0, 5).symbol, Symbol::Char('E'));
    assert_eq!(canvas.frame().cell_at(16, 5).symbol, Symbol::Char('x'));
    assert_eq!(canvas.frame().cell_at(17, 5).symbol, Symbol::Char(' '));
    assert_eq!(canvas.frame().cell_at(19, 5).symbol, Symbol::Char(' '));
}

#[test]
fn with_message_after_nonempty_indicator_reserves_a_column() {
    // Built with a non-empty symbol, the content region starts right
    // after the indicator column, and the cursor sits there.
    let contents = TextContents::new();
    let mut contents = contents;
    let opts = WindowLocalOptionsBuilder::new().wrap(false).build();
    let mut ids = IdAlloc::new();
    let window = Window::new(&mut ids, IRect::new(0, 0, 20, 5), opts, &contents.window);
    let command_line = CommandLineBuilder::new()
        .with_shape(IRect::new(0, 5, 20, 6))
        .with_text_contents(contents.command_line.duplicate())
        .with_command_line_indicator_symbol(CommandLineIndicatorSymbol::Ex)
        .build(&mut ids);
    let mut tree = Tree { window, command_line, ids };
    let shape = tree.command_line.content_actual_shape(&contents.command_line);
    assert_eq!((shape.min_x, shape.max_x), (1, 20));
    let message = TextLine::from_str_plain("Error: bad syntax", 8);
    let _mode = CommandLineMessageStateful::with_message(&message, &mut tree, &mut contents);
    let cv = tree.command_line.cursor_viewport();
    // Content-local column 0: the terminal column right after the
    // indicator.
    assert_eq!((cv.row_idx, cv.column_idx), (0, 0));
    assert_eq!(shape.min_x + cv.column_idx, 1);
}

#[test]
fn esc_goes_back_to_normal_and_returns_the_trimmed_message() {
    let (mut tree, mut contents) = message_tree();
    let window_cv = tree.window.cursor_viewport();
    let message = TextLine::from_str_plain("  Error: bad syntax  ", 8);
    let mode = CommandLineMessageStateful::with_message(&message, &mut tree, &mut contents);
    let text = mode.goto_normal_mode_impl(&mut tree, &mut contents);
    // The pre-clear content comes back, trimmed.
    assert_eq!(text, "Error: bad syntax".to_string());
    // The cursor went back to the window, at its previous position.
    assert!(tree.window.cursor_id.is_some());
    assert!(tree.command_line.cursor_id.is_none());
    assert_eq!(tree.window.cursor_viewport(), window_cv);
    // The command line reads as empty and its indicator is reset.
    assert_eq!(contents.command_line.lines.len(), 1);
    assert_eq!(contents.command_line.lines[0].glyphs.len(), 0);
    assert_eq!(
        tree.command_line.indicator_symbol(&contents.command_line),
        CommandLineIndicatorSymbol::Empty
    );
}

#[test]
fn esc_handled_as_event_transitions_to_normal() {
    let (mut tree, mut contents) = message_tree();
    let message = TextLine::from_str_plain("note", 8);
    let mode = CommandLineMessageStateful::with_message(&message, &mut tree, &mut contents);
    let next = mode.handle(&mut tree, &mut contents, &press(KeyCode::Esc));
    assert!(matches!(next, StatefulValue::NormalMode(_)));
    assert!(tree.window.cursor_id.is_some());
    assert!(tree.command_line.cursor_id.is_none());
}

#[test]
fn exactly_one_cursor_through_a_simulated_event_sequence() {
    let (mut tree, mut contents) = message_tree();
    let message = TextLine::from_str_plain("hello", 8);
    let mut mode = CommandLineMessageStateful::with_message(&message, &mut tree, &mut contents);
    let events = [
        press(KeyCode::Right),
        press(KeyCode::Char('j')),
        InputEvent::FocusLost,
        press(KeyCode::End),
        InputEvent::Resize(80, 24),
        press(KeyCode::Home),
        press(KeyCode::Char('q')),
    ];
    for event in events.iter() {
        let in_window = tree.window.cursor_id.is_some() as usize;
        let in_cmdline = tree.command_line.cursor_id.is_some() as usize;
        assert_eq!(in_window + in_cmdline, 1);
        match mode.handle(&mut tree, &mut contents, event) {
            StatefulValue::CommandLineMessageMode(m) => {
                mode = m;
            },
            StatefulValue::NormalMode(_) => unreachable!(),
        }
    }
    let next = mode.handle(&mut tree, &mut contents, &press(KeyCode::Esc));
    assert!(matches!(next, StatefulValue::NormalMode(_)));
    let in_window = tree.window.cursor_id.is_some() as usize;
    let in_cmdline = tree.command_line.cursor_id.is_some() as usize;
    assert_eq!(in_window + in_cmdline, 1);
}

#[test]
fn cursor_move_clamps_arbitrarily_large_offsets() {
    let (mut tree, mut contents) = message_tree();
    let message = TextLine::from_str_plain("hello", 8);
    let mode = CommandLineMessageStateful::with_message(&message, &mut tree, &mut contents);
    // Far right: clamped to the line.
    mode.cursor_move(&mut tree, &mut contents, &Operation::CursorMoveRightBy(usize::MAX));
    let cv = tree.command_line.cursor_viewport();
    assert!(cv.char_idx <= 5);
    assert_eq!(cv.char_idx, 4);
    // Far left: clamped to 0.
    mode.cursor_move(&mut tree, &mut contents, &Operation::CursorMoveLeftBy(usize::MAX));
    let cv = tree.command_line.cursor_viewport();
    assert_eq!(cv.char_idx, 0);
    // Far up and down: the line index stays in range.
    mode.cursor_move(&mut tree, &mut contents, &Operation::CursorMoveDownBy(usize::MAX));
    let cv = tree.command_line.cursor_viewport();
    assert!(cv.line_idx < contents.command_line.lines.len());
    mode.cursor_move(&mut tree, &mut contents, &Operation::CursorMoveUpBy(usize::MAX));
    let cv = tree.command_line.cursor_viewport();
    assert_eq!(cv.line_idx, 0);
    // Signed relative moves with extreme offsets.
    mode.cursor_move(
        &mut tree,
        &mut contents,
        &Operation::CursorMoveBy(isize::MAX, isize::MIN),
    );
    let cv = tree.command_line.cursor_viewport();
    assert!(cv.line_idx < contents.command_line.lines.len());
    assert!(cv.char_idx <= contents.command_line.lines[cv.line_idx].glyphs.len());
}

#[test]
fn get_operation_maps_keys_to_the_closed_vocabulary() {
    let mode = CommandLineMessageStateful {};
    assert_eq!(
        mode.get_operation(&press(KeyCode::Up)),
        Some(Operation::CursorMoveUpBy(1))
    );
    assert_eq!(
        mode.get_operation(&press(KeyCode::Char('k'))),
        Some(Operation::CursorMoveUpBy(1))
    );
    assert_eq!(
        mode.get_operation(&press(KeyCode::Char('j'))),
        Some(Operation::CursorMoveDownBy(1))
    );
    assert_eq!(
        mode.get_operation(&press(KeyCode::Home)),
        Some(Operation::CursorMoveLeftBy(usize::MAX))
    );
    assert_eq!(
        mode.get_operation(&press(KeyCode::End)),
        Some(Operation::CursorMoveRightBy(usize::MAX))
    );
    assert_eq!(mode.get_operation(&press(KeyCode::Esc)), Some(Operation::GotoNormalMode));
    assert_eq!(mode.get_operation(&press(KeyCode::Enter)), None);
    assert_eq!(mode.get_operation(&press(KeyCode::Char('x'))), None);
    assert_eq!(
        mode.get_operation(&InputEvent::Key(KeyEvent {
            kind: KeyEventKind::Release,
            code: KeyCode::Esc,
        })),
        None
    );
    assert_eq!(mode.get_operation(&InputEvent::FocusGained), None);
    assert_eq!(mode.get_operation(&InputEvent::Mouse), None);
    assert_eq!(mode.get_operation(&InputEvent::Paste("x".to_string())), None);
}

#[test]
fn cursor_insert_and_delete_edit_at_the_cursor() {
    let (mut tree, mut contents) = message_tree();
    let message = TextLine::from_str_plain("abc", 8);
    let _mode = CommandLineMessageStateful::with_message(&message, &mut tree, &mut contents);
    // Cursor parked at 0; insert there.
    let extra = TextLine::from_str_plain("xy", 8);
    cursor_ops::cursor_insert(&mut tree.command_line, &mut contents.command_line, &extra);
    let chars: Vec<char> = contents.command_line.lines[0]
        .glyphs
        .iter()
        .map(|g| g.ch)
        .collect();
    assert_eq!(chars, vec!['x', 'y', 'a', 'b', 'c']);
    assert_eq!(tree.command_line.cursor_viewport().char_idx, 2);
    // Delete one character to the left of the cursor.
    cursor_ops::cursor_delete(&mut tree.command_line, &mut contents.command_line, -1);
    let chars: Vec<char> = contents.command_line.lines[0]
        .glyphs
        .iter()
        .map(|g| g.ch)
        .collect();
    assert_eq!(chars, vec!['x', 'a', 'b', 'c']);
    assert_eq!(tree.command_line.cursor_viewport().char_idx, 1);
    // Delete two characters to the right of the cursor.
    cursor_ops::cursor_delete(&mut tree.command_line, &mut contents.command_line, 2);
    let chars: Vec<char> = contents.command_line.lines[0]
        .glyphs
        .iter()
        .map(|g| g.ch)
        .collect();
    assert_eq!(chars, vec!['x', 'c']);
}

#[test]
fn message_command_line_is_an_ex_command_line() {
    let mut ids = IdAlloc::new();
    let cl = CommandLineBuilder::message_command_line(&mut ids);
    assert!(cl.cursor_id().is_none());
}
