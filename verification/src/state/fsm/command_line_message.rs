//! The command-line message mode.
//!
//! The mode the editor sits in while a message is shown on the command
//! line.  It accepts only cursor-movement keys and `Esc`; `Esc` goes back
//! to normal mode, relocating the cursor into the window, restoring that
//! window's cursor position, clearing the command line and returning the
//! shown message to the caller.

use crate::content::TextContents;
use crate::coord::U16Rect;
use crate::event::{InputEvent, KeyCode, KeyEventKind};
use crate::state::fsm::{NormalStateful, StatefulValue};
use crate::state::ops::{cursor_ops, is_cursor_move_op, Operation};
use crate::text::{chars_from, spec_trimmed, TextLine, MAX_LINE_LEN};
use crate::ui::canvas::CursorStyle;
use crate::ui::tree::{contains_id, Node, NodeKind, Tree};
use crate::ui::viewport::{nowrap_line_matches, CursorViewport};
use crate::ui::widget::command_line::CommandLineIndicatorSymbol;
use vstd::prelude::*;

verus! {

/// The operation one input event means in this mode, or nothing when
/// the mode ignores the event.
pub open spec fn spec_get_operation(event: InputEvent) -> Option<Operation> {
    match event {
        InputEvent::Key(key_event) => {
            if key_event.kind == KeyEventKind::Press {
                match key_event.code {
                    KeyCode::Up => Some(Operation::CursorMoveUpBy(1)),
                    KeyCode::Char('k') => Some(Operation::CursorMoveUpBy(1)),
                    KeyCode::Down => Some(Operation::CursorMoveDownBy(1)),
                    KeyCode::Char('j') => Some(Operation::CursorMoveDownBy(1)),
                    KeyCode::Left => Some(Operation::CursorMoveLeftBy(1)),
                    KeyCode::Right => Some(Operation::CursorMoveRightBy(1)),
                    KeyCode::Home => Some(Operation::CursorMoveLeftBy(usize::MAX)),
                    KeyCode::End => Some(Operation::CursorMoveRightBy(usize::MAX)),
                    KeyCode::Esc => Some(Operation::GotoNormalMode),
                    _ => None,
                }
            } else {
                None
            }
        },
        _ => None,
    }
}

/// The operations this mode can carry out.
pub open spec fn recognized(op: Operation) -> bool {
    is_cursor_move_op(op) || op == Operation::GotoNormalMode
}

/// The command-line message mode.
#[derive(Clone, Copy, Debug, Default, PartialEq, Eq, Structural)]
pub struct CommandLineMessageStateful {}

impl CommandLineMessageStateful {
    /// Enter the message mode: relocate the cursor out of the window
    /// into the command line, show the `Ex` indicator, insert the
    /// message at character 0, and park the cursor on the first content
    /// cell.
    pub fn with_message(message: &TextLine, tree: &mut Tree, contents: &mut TextContents) -> (r:
        CommandLineMessageStateful)
        requires
            old(contents).wf(),
            message.wf(),
            old(tree).wf(*old(contents)),
            old(tree).window.cursor_id.is_some(),
            old(contents).command_line.lines@[0].glyphs@.len() + message.glyphs@.len()
                <= MAX_LINE_LEN,
        ensures
            final(contents).wf(),
            final(tree).wf(*final(contents)),
            final(tree).window.cursor_id.is_none(),
            final(tree).command_line.cursor_id.is_some(),
            final(contents).window == old(contents).window,
            // The indicator shows `Ex`.
            crate::ui::widget::command_line::spec_indicator_symbol(
                crate::ui::tree::node_of(
                    final(tree).command_line.base.entries@,
                    final(tree).command_line.indicator_id,
                ).kind,
            ) == CommandLineIndicatorSymbol::Ex,
            // The message stands at the head of the command-line content.
            final(contents).command_line.lines@[0].glyphs@ == message.glyphs@ + old(
                contents,
            ).command_line.lines@[0].glyphs@,
            // The cursor parks on the first content cell, and the
            // recomputed viewport is the content's layout anchored at
            // the very top left.
            final(tree).command_line.cursor_viewport == (CursorViewport {
                line_idx: 0,
                char_idx: 0,
                row_idx: 0u16,
                column_idx: 0u16,
            }),
            final(tree).command_line.viewport.start_line_idx == 0,
            (final(tree).command_line.viewport.width > 0 && final(tree).command_line.viewport.height
                > 0) ==> !final(tree).command_line.viewport.spec_is_empty(),
            forall|k: int|
                0 <= k < final(tree).command_line.viewport.lines.len() ==> nowrap_line_matches(
                    #[trigger] final(tree).command_line.viewport.lines[k],
                    final(contents).command_line.lines[k].glyphs@,
                    0,
                    final(tree).command_line.viewport.width as int,
                ),
            // The relocated cursor node carries the bar style.
            crate::ui::tree::node_of(
                final(tree).command_line.base.entries@,
                final(tree).command_line.cursor_id.unwrap(),
            ).kind == (NodeKind::Cursor { style: CursorStyle::SteadyBar }),
    {
        let cursor = tree.window.remove_cursor(&contents.window);
        let cursor = Node { kind: NodeKind::Cursor { style: CursorStyle::SteadyBar }, ..cursor };
        proof {
            assert(!contains_id(tree.command_line.base.entries@, cursor.id)) by {
                assert(contains_id(old(tree).window.base.entries@, cursor.id));
            }
        }
        tree.command_line.insert_cursor(&contents.command_line, cursor);
        tree.command_line.set_indicator_symbol(
            &contents.command_line,
            CommandLineIndicatorSymbol::Ex,
        );
        cursor_ops::cursor_move(
            &mut tree.command_line,
            &contents.command_line,
            &Operation::CursorMoveTo(0, 0),
            false,
        );
        cursor_ops::cursor_insert(&mut tree.command_line, &mut contents.command_line, message);
        cursor_ops::park_cursor_top_left(&mut tree.command_line, &contents.command_line);
        proof {
            assert forall|id: usize| #[trigger] contains_id(tree.window.base.entries@, id)
                implies !contains_id(tree.command_line.base.entries@, id) by {
                if contains_id(tree.command_line.base.entries@, id) {
                    assert(id != cursor.id);
                    assert(contains_id(old(tree).command_line.base.entries@, id));
                    assert(contains_id(old(tree).window.base.entries@, id));
                }
            }
        }
        CommandLineMessageStateful {  }
    }

    /// Classify one input event into an operation, or ignore it.
    pub fn get_operation(&self, event: &InputEvent) -> (r: Option<Operation>)
        ensures
            r == spec_get_operation(*event),
    {
        match event {
            InputEvent::Key(key_event) => {
                if key_event.kind == KeyEventKind::Press {
                    match key_event.code {
                        KeyCode::Up => Some(Operation::CursorMoveUpBy(1)),
                        KeyCode::Char(c) => {
                            if c == 'k' {
                                Some(Operation::CursorMoveUpBy(1))
                            } else if c == 'j' {
                                Some(Operation::CursorMoveDownBy(1))
                            } else {
                                None
                            }
                        },
                        KeyCode::Down => Some(Operation::CursorMoveDownBy(1)),
                        KeyCode::Left => Some(Operation::CursorMoveLeftBy(1)),
                        KeyCode::Right => Some(Operation::CursorMoveRightBy(1)),
                        KeyCode::Home => Some(Operation::CursorMoveLeftBy(usize::MAX)),
                        KeyCode::End => Some(Operation::CursorMoveRightBy(usize::MAX)),
                        KeyCode::Esc => Some(Operation::GotoNormalMode),
                        _ => None,
                    }
                } else {
                    None
                }
            },
            _ => None,
        }
    }

    /// Handle one input event: classify it and carry out the resulting
    /// operation; an ignored event leaves everything as it is and stays
    /// in this mode.
    pub fn handle(&self, tree: &mut Tree, contents: &mut TextContents, event: &InputEvent) -> (r:
        StatefulValue)
        requires
            old(contents).wf(),
            old(tree).wf(*old(contents)),
            old(tree).command_line.cursor_id.is_some(),
        ensures
            final(contents).wf(),
            final(tree).wf(*final(contents)),
            final(contents).window == old(contents).window,
            // `Esc` goes to normal mode and hands the cursor back to the
            // window; everything else stays here with the cursor on the
            // command line.
            spec_get_operation(*event) == Some(Operation::GotoNormalMode) ==> (r
                == StatefulValue::NormalMode(NormalStateful {  })
                && final(tree).window.cursor_id.is_some() && final(tree).command_line.cursor_id.is_none()),
            spec_get_operation(*event) != Some(Operation::GotoNormalMode) ==> (r
                == StatefulValue::CommandLineMessageMode(CommandLineMessageStateful {  })
                && final(tree).command_line.cursor_id.is_some()),
            // A recognized move lands the cursor on the clamped target
            // and touches nothing else.
            (spec_get_operation(*event).is_some() && spec_get_operation(*event) != Some(
                Operation::GotoNormalMode,
            )) ==> {
                &&& *final(contents) == *old(contents)
                &&& final(tree).window == old(tree).window
                &&& final(tree).command_line.cursor_viewport.line_idx == cursor_ops::target_line(
                    spec_get_operation(*event).unwrap(),
                    old(tree).command_line.cursor_viewport.line_idx as int,
                    old(contents).command_line.lines@.len() as int,
                )
                &&& final(tree).command_line.cursor_viewport.char_idx == cursor_ops::target_char(
                    spec_get_operation(*event).unwrap(),
                    old(tree).command_line.cursor_viewport.char_idx as int,
                    old(contents).command_line.lines@[final(tree).command_line.cursor_viewport.line_idx as int].glyphs@.len() as int,
                    true,
                )
            },
            // An ignored event has no side effect at all.
            spec_get_operation(*event).is_none() ==> (*final(tree) == *old(tree) && *final(contents)
                == *old(contents)),
    {
        let op = self.get_operation(event);
        match op {
            Some(op) => self.handle_op(tree, contents, &op),
            None => StatefulValue::CommandLineMessageMode(CommandLineMessageStateful {  }),
        }
    }

    /// Dispatch one recognized operation.  Handing this mode an
    /// operation it does not recognize is a wiring defect between the
    /// event interpreter and the dispatcher, not a reachable state.
    pub fn handle_op(&self, tree: &mut Tree, contents: &mut TextContents, op: &Operation) -> (r:
        StatefulValue)
        requires
            old(contents).wf(),
            old(tree).wf(*old(contents)),
            old(tree).command_line.cursor_id.is_some(),
            recognized(*op),
        ensures
            final(contents).wf(),
            final(tree).wf(*final(contents)),
            final(contents).window == old(contents).window,
            *op == Operation::GotoNormalMode ==> (r == StatefulValue::NormalMode(
                NormalStateful {  },
            ) && final(tree).window.cursor_id.is_some() && final(tree).command_line.cursor_id.is_none()),
            *op != Operation::GotoNormalMode ==> {
                &&& r == StatefulValue::CommandLineMessageMode(CommandLineMessageStateful {  })
                &&& final(tree).command_line.cursor_id.is_some()
                // A move leaves the stores untouched and lands the
                // cursor exactly on the clamped target.
                &&& *final(contents) == *old(contents)
                &&& final(tree).window == old(tree).window
                &&& final(tree).command_line.cursor_viewport.line_idx == cursor_ops::target_line(
                    *op,
                    old(tree).command_line.cursor_viewport.line_idx as int,
                    old(contents).command_line.lines@.len() as int,
                )
                &&& final(tree).command_line.cursor_viewport.char_idx == cursor_ops::target_char(
                    *op,
                    old(tree).command_line.cursor_viewport.char_idx as int,
                    old(contents).command_line.lines@[final(tree).command_line.cursor_viewport.line_idx as int].glyphs@.len() as int,
                    true,
                )
            },
    {
        match op {
            Operation::GotoNormalMode => self.goto_normal_mode(tree, contents),
            _ => self.cursor_move(tree, contents, op),
        }
    }

    /// Apply one cursor-movement operation to the command line and stay
    /// in this mode.
    pub fn cursor_move(&self, tree: &mut Tree, contents: &mut TextContents, op: &Operation) -> (r:
        StatefulValue)
        requires
            old(contents).wf(),
            old(tree).wf(*old(contents)),
            old(tree).command_line.cursor_id.is_some(),
            is_cursor_move_op(*op),
        ensures
            final(contents).wf(),
            final(tree).wf(*final(contents)),
            *final(contents) == *old(contents),
            final(tree).command_line.cursor_id.is_some(),
            final(tree).window == old(tree).window,
            r == StatefulValue::CommandLineMessageMode(CommandLineMessageStateful {  }),
            // The move lands exactly on the clamped target: line first,
            // then the character within it.
            final(tree).command_line.cursor_viewport.line_idx == cursor_ops::target_line(
                *op,
                old(tree).command_line.cursor_viewport.line_idx as int,
                old(contents).command_line.lines@.len() as int,
            ),
            final(tree).command_line.cursor_viewport.char_idx == cursor_ops::target_char(
                *op,
                old(tree).command_line.cursor_viewport.char_idx as int,
                old(contents).command_line.lines@[final(tree).command_line.cursor_viewport.line_idx as int].glyphs@.len() as int,
                true,
            ),
            // Clamping: the cursor lands inside the buffer whatever the
            // offset was.
            final(tree).command_line.cursor_viewport.line_idx
                < old(contents).command_line.lines@.len(),
            final(tree).command_line.cursor_viewport.char_idx <= old(
                contents,
            ).command_line.lines@[final(tree).command_line.cursor_viewport.line_idx as int].glyphs@.len(),
    {
        cursor_ops::cursor_move(&mut tree.command_line, &contents.command_line, op, true);
        proof {
            assert forall|id: usize| #[trigger] contains_id(tree.window.base.entries@, id)
                implies !contains_id(tree.command_line.base.entries@, id) by {
                if contains_id(tree.command_line.base.entries@, id) {
                    assert(contains_id(old(tree).command_line.base.entries@, id));
                }
            }
        }
        StatefulValue::CommandLineMessageMode(CommandLineMessageStateful {  })
    }

    /// Leave for normal mode, dropping the shown message.
    pub fn goto_normal_mode(&self, tree: &mut Tree, contents: &mut TextContents) -> (r:
        StatefulValue)
        requires
            old(contents).wf(),
            old(tree).wf(*old(contents)),
            old(tree).command_line.cursor_id.is_some(),
        ensures
            final(contents).wf(),
            final(tree).wf(*final(contents)),
            final(contents).window == old(contents).window,
            final(tree).window.cursor_id.is_some(),
            final(tree).command_line.cursor_id.is_none(),
            r == StatefulValue::NormalMode(NormalStateful {  }),
            // The window's cursor snapshot is the one it held before
            // focus moved away, and the cursor node carries the block
            // style again.
            final(tree).window.cursor_viewport == old(tree).window.cursor_viewport,
            crate::ui::tree::node_of(
                final(tree).window.base.entries@,
                final(tree).window.cursor_id.unwrap(),
            ).kind == (NodeKind::Cursor { style: CursorStyle::SteadyBlock }),
            // The command line reads as empty afterwards, its indicator
            // reset.
            final(contents).command_line.lines@.len() == 1,
            final(contents).command_line.lines@[0].glyphs@.len() == 0,
            crate::ui::widget::command_line::spec_indicator_symbol(
                crate::ui::tree::node_of(
                    final(tree).command_line.base.entries@,
                    final(tree).command_line.indicator_id,
                ).kind,
            ) == CommandLineIndicatorSymbol::Empty,
    {
        let _message = self.goto_normal_mode_impl(tree, contents);
        StatefulValue::NormalMode(NormalStateful::new())
    }

    /// Go back to normal mode: relocate the cursor from the command
    /// line into the window with its block style restored, restore the
    /// window's cursor position, clear the command-line content, reset
    /// the indicator, and return the message that was shown, trimmed of
    /// blank characters at both ends.
    pub fn goto_normal_mode_impl(&self, tree: &mut Tree, contents: &mut TextContents) -> (r:
        String)
        requires
            old(contents).wf(),
            old(tree).wf(*old(contents)),
            old(tree).command_line.cursor_id.is_some(),
        ensures
            final(contents).wf(),
            final(tree).wf(*final(contents)),
            final(contents).window == old(contents).window,
            final(tree).window.cursor_id.is_some(),
            final(tree).command_line.cursor_id.is_none(),
            // The window's cursor snapshot is the one it held before
            // focus moved away.
            final(tree).window.cursor_viewport == old(tree).window.cursor_viewport,
            // The command line reads as empty afterwards, its indicator
            // reset.
            final(contents).command_line.lines@.len() == 1,
            final(contents).command_line.lines@[0].glyphs@.len() == 0,
            crate::ui::widget::command_line::spec_indicator_symbol(
                crate::ui::tree::node_of(
                    final(tree).command_line.base.entries@,
                    final(tree).command_line.indicator_id,
                ).kind,
            ) == CommandLineIndicatorSymbol::Empty,
            // The relocated cursor node carries the block style again,
            // and — when the window shows any cell — sits on the cell
            // the restored snapshot names.
            crate::ui::tree::node_of(
                final(tree).window.base.entries@,
                final(tree).window.cursor_id.unwrap(),
            ).kind == (NodeKind::Cursor { style: CursorStyle::SteadyBlock }),
            final(tree).window.viewport == old(tree).window.viewport,
            !final(tree).window.viewport.spec_is_empty() ==> crate::ui::tree::node_of(
                final(tree).window.base.entries@,
                final(tree).window.cursor_id.unwrap(),
            ).actual_shape == crate::ui::tree::node_of(
                old(tree).window.base.entries@,
                old(tree).window.root_id,
            ).actual_shape.spec_intersect(
                U16Rect {
                    min_x: (crate::ui::tree::node_of(
                        old(tree).window.base.entries@,
                        old(tree).window.root_id,
                    ).actual_shape.min_x + old(tree).window.cursor_viewport.column_idx) as u16,
                    min_y: (crate::ui::tree::node_of(
                        old(tree).window.base.entries@,
                        old(tree).window.root_id,
                    ).actual_shape.min_y + old(tree).window.cursor_viewport.row_idx) as u16,
                    max_x: (crate::ui::tree::node_of(
                        old(tree).window.base.entries@,
                        old(tree).window.root_id,
                    ).actual_shape.min_x + old(tree).window.cursor_viewport.column_idx + 1) as u16,
                    max_y: (crate::ui::tree::node_of(
                        old(tree).window.base.entries@,
                        old(tree).window.root_id,
                    ).actual_shape.min_y + old(tree).window.cursor_viewport.row_idx + 1) as u16,
                },
            ),
            // The pre-clear content comes back to the caller, trimmed.
            r@ == spec_trimmed(chars_from(old(contents).command_line.lines@, 0)),
    {
        let cursor = tree.command_line.remove_cursor(&contents.command_line);
        let cursor = Node {
            kind: NodeKind::Cursor { style: CursorStyle::SteadyBlock },
            ..cursor
        };
        proof {
            assert(!contains_id(tree.window.base.entries@, cursor.id)) by {
                if contains_id(tree.window.base.entries@, cursor.id) {
                    assert(!contains_id(old(tree).command_line.base.entries@, cursor.id));
                }
            }
        }
        tree.window.insert_cursor(&contents.window, cursor);
        let cv = tree.window.cursor_viewport();
        if tree.window.viewport.end_line_idx() > tree.window.viewport.start_line_idx() {
            proof {
                let s = tree.window.base.entries@;
                let shape = crate::ui::tree::node_of(s, tree.window.root_id).actual_shape;
                assert((cv.column_idx as int) < tree.window.viewport.width);
                assert((cv.row_idx as int) < crate::ui::viewport::rows_of(
                    tree.window.viewport.lines@,
                ));
                assert(crate::ui::viewport::rows_of(tree.window.viewport.lines@)
                    <= tree.window.viewport.height);
                assert(shape.min_x + cv.column_idx < shape.max_x <= u16::MAX);
                assert(shape.min_y + cv.row_idx < shape.max_y <= u16::MAX);
            }
            tree.window.move_cursor_to(&contents.window, cv.column_idx, cv.row_idx);
        }
        let message = contents.command_line.trimmed_string();
        cursor_ops::cursor_clear(&mut tree.command_line, &mut contents.command_line);
        tree.command_line.set_indicator_symbol(
            &contents.command_line,
            CommandLineIndicatorSymbol::Empty,
        );
        proof {
            assert forall|id: usize| #[trigger] contains_id(tree.window.base.entries@, id)
                implies !contains_id(tree.command_line.base.entries@, id) by {
                if contains_id(tree.command_line.base.entries@, id) {
                    assert(id != cursor.id);
                    assert(contains_id(old(tree).command_line.base.entries@, id));
                    assert(!contains_id(old(tree).window.base.entries@, id));
                }
            }
        }
        message
    }
}

} // verus!
