//! Builder of the command-line widget.
//!
//! Assembles the root container, the indicator strip and the content
//! region into one tree, and computes the first viewport and cursor
//! snapshot anchored at the top left of the content region.  The
//! indicator's width reservation — zero or one column — is decided once,
//! at build time, by whether the configured symbol is empty.

use crate::coord::{spec_rect_as_u16, IRect};
use crate::text::Text;
use crate::ui::tree::{contains_id, node_of, IdAlloc, Itree, Node, NodeKind};
use crate::ui::viewport::{nowrap_line_matches, rows_of, view, CursorViewport};
use crate::ui::widget::command_line::{CommandLine, CommandLineIndicatorSymbol};
use crate::ui::widget::window::{WindowLocalOptionsBuilder, WindowOptions};
use vstd::prelude::*;

verus! {

/// The columns the indicator reserves: one when it shows a symbol.
pub open spec fn indicator_reservation(symbol: CommandLineIndicatorSymbol) -> int {
    if symbol == CommandLineIndicatorSymbol::Empty {
        0
    } else {
        1
    }
}

/// The pre-layout shape of the content region: the builder's shape with
/// the indicator's reservation taken off its left edge, as far as the
/// width allows.
pub open spec fn built_content_shape(shape: IRect, symbol: CommandLineIndicatorSymbol) -> IRect {
    let off = vstd::math::min(indicator_reservation(symbol), shape.max_x - shape.min_x);
    IRect { min_x: (shape.min_x + off) as i32, ..shape }
}

/// The pre-layout shape of the indicator strip: the reserved columns at
/// the left edge of the builder's shape — one column for a shown symbol,
/// none for an empty one.
pub open spec fn built_indicator_shape(shape: IRect, symbol: CommandLineIndicatorSymbol) -> IRect {
    IRect { max_x: built_content_shape(shape, symbol).min_x, ..shape }
}

/// Step-by-step construction of the command-line widget.
#[derive(Clone, Debug)]
pub struct CommandLineBuilder {
    pub shape: IRect,
    pub text_contents: Text,
    pub command_line_indicator_symbol: CommandLineIndicatorSymbol,
}

impl Default for CommandLineBuilder {
    /// The defaults: a one-cell shape at the origin, empty content, no
    /// indicator symbol.
    fn default() -> (r: CommandLineBuilder)
        ensures
            r.shape == (IRect { min_x: 0, min_y: 0, max_x: 1, max_y: 1 }),
            r.text_contents.wf(),
            r.text_contents.lines@.len() == 1,
            r.text_contents.lines@[0].glyphs@.len() == 0,
            r.command_line_indicator_symbol == CommandLineIndicatorSymbol::Empty,
            r.wf(),
    {
        CommandLineBuilder::new()
    }
}

impl CommandLineBuilder {
    /// Start from the defaults: a one-cell shape at the origin, empty
    /// content, no indicator symbol.
    pub fn new() -> (r: CommandLineBuilder)
        ensures
            r.shape == (IRect { min_x: 0, min_y: 0, max_x: 1, max_y: 1 }),
            r.text_contents.wf(),
            r.text_contents.lines@.len() == 1,
            r.text_contents.lines@[0].glyphs@.len() == 0,
            r.command_line_indicator_symbol == CommandLineIndicatorSymbol::Empty,
            r.wf(),
    {
        CommandLineBuilder {
            shape: IRect { min_x: 0, min_y: 0, max_x: 1, max_y: 1 },
            text_contents: Text::new(),
            command_line_indicator_symbol: CommandLineIndicatorSymbol::Empty,
        }
    }

    /// Well-formed: the shape is, and the content is.
    pub open spec fn wf(self) -> bool {
        self.shape.wf() && self.text_contents.wf()
    }

    /// Choose the widget's pre-layout shape.
    pub fn with_shape(self, shape: IRect) -> (r: CommandLineBuilder)
        ensures
            r == (CommandLineBuilder { shape, ..self }),
    {
        CommandLineBuilder { shape, ..self }
    }

    /// Choose the text content the widget is built against.
    pub fn with_text_contents(self, text_contents: Text) -> (r: CommandLineBuilder)
        ensures
            r == (CommandLineBuilder { text_contents, ..self }),
    {
        CommandLineBuilder { text_contents, ..self }
    }

    /// Choose the indicator symbol, and with it the indicator's width
    /// reservation.
    pub fn with_command_line_indicator_symbol(
        self,
        command_line_indicator_symbol: CommandLineIndicatorSymbol,
    ) -> (r: CommandLineBuilder)
        ensures
            r == (CommandLineBuilder { command_line_indicator_symbol, ..self }),
    {
        CommandLineBuilder { command_line_indicator_symbol, ..self }
    }

    /// Assemble the widget: root container, indicator child, content
    /// child, and the first viewport and cursor snapshot, anchored at
    /// the top left of the content region.
    pub fn build(&self, ids: &mut IdAlloc) -> (r: CommandLine)
        requires
            self.wf(),
            old(ids).next + 3 <= usize::MAX,
        ensures
            r.wf(self.text_contents),
            r.cursor_id.is_none(),
            r.options == (WindowOptions { wrap: false, line_break: false, scroll_off: 0u16 }),
            crate::ui::widget::command_line::spec_indicator_symbol(
                node_of(r.base.entries@, r.indicator_id).kind,
            ) == self.command_line_indicator_symbol,
            node_of(r.base.entries@, r.content_id).actual_shape == spec_rect_as_u16(
                self.shape,
            ).spec_intersect(spec_rect_as_u16(built_content_shape(
                self.shape,
                self.command_line_indicator_symbol,
            ))),
            // The indicator child is the reserved strip at the left
            // edge: one column wide for a shown symbol, zero for none.
            node_of(r.base.entries@, r.indicator_id).actual_shape == spec_rect_as_u16(
                self.shape,
            ).spec_intersect(spec_rect_as_u16(built_indicator_shape(
                self.shape,
                self.command_line_indicator_symbol,
            ))),
            // The built viewport is the content's layout anchored at
            // line 0, character 0.
            r.viewport.start_line_idx == 0,
            (r.viewport.width == 0 || r.viewport.height == 0) ==> r.viewport.spec_is_empty(),
            (r.viewport.width > 0 && r.viewport.height > 0) ==> (!r.viewport.spec_is_empty()
                && (r.viewport.end_line_idx == self.text_contents.lines@.len() || rows_of(
                r.viewport.lines@,
            ) == r.viewport.height)),
            forall|k: int|
                0 <= k < r.viewport.lines.len() ==> nowrap_line_matches(
                    #[trigger] r.viewport.lines[k],
                    self.text_contents.lines[k].glyphs@,
                    0,
                    r.viewport.width as int,
                ),
            final(ids).next == old(ids).next + 3,
            forall|id2: usize|
                #[trigger] contains_id(r.base.entries@, id2) ==> old(ids).next <= id2
                    < final(ids).next,
            // The fresh snapshot parks the cursor at the top left of the
            // content region.
            !r.viewport.spec_is_empty() ==> r.cursor_viewport == (CursorViewport {
                line_idx: 0,
                char_idx: r.viewport.lines[0].rows[0].start_char_idx,
                row_idx: 0u16,
                column_idx: r.viewport.lines[0].start_filled_cols,
            }),
            r.viewport.spec_is_empty() ==> r.cursor_viewport == (CursorViewport {
                line_idx: 0,
                char_idx: 0,
                row_idx: 0u16,
                column_idx: 0u16,
            }),
    {
        let options = WindowLocalOptionsBuilder::new().wrap(false).line_break(false).scroll_off(
            0,
        ).build();
        let root_id = ids.fresh();
        let root = Node::new(root_id, NodeKind::CommandLineRootContainer, self.shape);
        let mut base = Itree::new(root);
        let indicator_id = ids.fresh();
        let indicator_shape = IRect {
            min_x: self.shape.min_x,
            min_y: self.shape.min_y,
            max_x: built_content_shape_exec(&self.shape, self.command_line_indicator_symbol)
                .min_x,
            max_y: self.shape.max_y,
        };
        let indicator = Node::new(
            indicator_id,
            NodeKind::CommandLineIndicator { symbol: self.command_line_indicator_symbol },
            indicator_shape,
        );
        proof {
            assert(contains_id(base.entries@, root_id)) by {
                assert(base.entries@[0].node.id == root_id);
            }
            if contains_id(base.entries@, indicator_id) {
                let i = crate::ui::tree::index_of_id(base.entries@, indicator_id);
                assert(base.entries@[i].node.id == indicator_id);
            }
        }
        proof {
            assert(!crate::ui::tree::has_cursor(base.entries@)) by {
                if crate::ui::tree::has_cursor(base.entries@) {
                    let i = choose|i: int|
                        0 <= i < base.entries@.len() && crate::ui::tree::is_cursor(
                            (#[trigger] base.entries@[i]).node.kind,
                        );
                }
            }
            assert(crate::ui::tree::at_most_one_cursor(base.entries@));
        }
        base.bounded_insert(root_id, indicator);
        let ghost s1 = base.entries@;
        let content_id = ids.fresh();
        let content_shape = built_content_shape_exec(
            &self.shape,
            self.command_line_indicator_symbol,
        );
        let content = Node::new(content_id, NodeKind::CommandLineContent, content_shape);
        proof {
            if contains_id(base.entries@, content_id) {
                let i = crate::ui::tree::index_of_id(base.entries@, content_id);
                assert(base.entries@[i].node.id == content_id);
                if i >= 1 {
                    assert(base.entries@[i] == base.entries@.last());
                }
            }
        }
        base.bounded_insert(root_id, content);
        proof {
            let s = base.entries@;
            assert(contains_id(s, indicator_id));
            assert(node_of(s, indicator_id) == node_of(s1, indicator_id));
            assert(node_of(s1, indicator_id).kind == indicator.kind);
            assert(crate::ui::tree::parent_id_of(s, indicator_id) == root_id);
            assert(contains_id(s, root_id));
            assert(node_of(s, root_id) == node_of(s1, root_id));
            assert(node_of(s, root_id).kind == NodeKind::CommandLineRootContainer);
            assert(node_of(s, content_id).kind == NodeKind::CommandLineContent);
            assert(crate::ui::tree::parent_id_of(s, content_id) == root_id);
        }
        let content_actual = base.get(content_id).actual_shape;
        let viewport = view(&options, &self.text_contents, &content_actual, 0, 0);
        proof {
            if viewport.width > 0 && viewport.height > 0 && viewport.end_line_idx == 0 {
                assert(viewport.lines@.len() == 0);
                assert(rows_of(viewport.lines@) == 0);
            }
        }
        let cursor_viewport = CursorViewport::from_top_left(&viewport, &self.text_contents);
        proof {
            let s = base.entries@;
            assert forall|id2: usize| #[trigger] contains_id(s, id2) implies (id2 == root_id
                || id2 == indicator_id || id2 == content_id) by {
                let i = crate::ui::tree::index_of_id(s, id2);
                assert(s[i].node.id == id2);
                if i == 0 {
                } else if i == 1 {
                } else {
                    assert(s[i] == s.last());
                }
            }
        }
        CommandLine {
            base,
            options,
            root_id,
            indicator_id,
            content_id,
            cursor_id: None,
            viewport,
            cursor_viewport,
        }
    }

    /// A command line laid out for showing a message: the default shape
    /// and content with the `Ex` indicator symbol.
    pub fn message_command_line(ids: &mut IdAlloc) -> (r: CommandLine)
        requires
            old(ids).next + 3 <= usize::MAX,
        ensures
            r.struct_wf(),
            r.cursor_id.is_none(),
            r.options == (WindowOptions { wrap: false, line_break: false, scroll_off: 0u16 }),
            // Message style: the `Ex` indicator is shown.
            crate::ui::widget::command_line::spec_indicator_symbol(
                node_of(r.base.entries@, r.indicator_id).kind,
            ) == CommandLineIndicatorSymbol::Ex,
            final(ids).next == old(ids).next + 3,
    {
        let builder = CommandLineBuilder::new().with_command_line_indicator_symbol(
            CommandLineIndicatorSymbol::Ex,
        );
        let ghost t = builder.text_contents;
        let r = builder.build(ids);
        r
    }
}

/// Executable form of [`built_content_shape`].
fn built_content_shape_exec(shape: &IRect, symbol: CommandLineIndicatorSymbol) -> (r: IRect)
    requires
        shape.wf(),
    ensures
        r == built_content_shape(*shape, symbol),
        r.wf(),
{
    let width: i64 = shape.max_x as i64 - shape.min_x as i64;
    let reservation: i64 = if symbol == CommandLineIndicatorSymbol::Empty {
        0
    } else {
        1
    };
    let off: i64 = if reservation <= width {
        reservation
    } else {
        width
    };
    let min_x: i32 = (shape.min_x as i64 + off) as i32;
    IRect { min_x, ..*shape }
}

} // verus!
