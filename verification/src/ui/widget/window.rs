//! The window widget and its local options.

use crate::coord::{IRect, U16Rect};
use crate::text::Text;
use crate::ui::canvas::CursorStyle;
use crate::ui::tree::{at_most_one_cursor, contains_id, has_cursor, in_subtree, is_cursor,
    node_of, parent_id_of, IdAlloc, Itree, Node, NodeKind};
use crate::ui::viewport::{nowrap_line_matches, rows_of, view, wrap_line_matches,
    CursorViewport, Viewport};
use vstd::prelude::*;

verus! {

/// The layout controls the viewport engine consults.
#[derive(Clone, Copy, Debug, PartialEq, Eq, Structural)]
pub struct WindowOptions {
    /// When false, each logical line occupies exactly one terminal row,
    /// horizontally scrolled and clipped to the target width.  When true,
    /// a logical line is split across as many consecutive rows as needed.
    pub wrap: bool,
    /// Only meaningful when `wrap` is set: pull a wrap boundary back to
    /// the nearest preceding word gap when one exists within the row.
    pub line_break: bool,
    /// Minimum buffer lines of context kept around the cursor line when
    /// the viewport is re-anchored; 0 for single-line targets.
    pub scroll_off: u16,
}

impl WindowOptions {
    /// All option combinations are meaningful.
    pub open spec fn wf(self) -> bool {
        true
    }
}

/// Step-by-step construction of [`WindowOptions`].
#[derive(Clone, Copy, Debug, PartialEq, Eq, Structural)]
pub struct WindowLocalOptionsBuilder {
    pub wrap: bool,
    pub line_break: bool,
    pub scroll_off: u16,
}

impl Default for WindowLocalOptionsBuilder {
    /// The defaults: wrap on, no word-gap breaking, no scroll context.
    fn default() -> (r: WindowLocalOptionsBuilder)
        ensures
            r == (WindowLocalOptionsBuilder { wrap: true, line_break: false, scroll_off: 0u16 }),
    {
        WindowLocalOptionsBuilder::new()
    }
}

impl WindowLocalOptionsBuilder {
    /// Start from the defaults: wrap on, no word-gap breaking, no
    /// scroll context.
    pub fn new() -> (r: WindowLocalOptionsBuilder)
        ensures
            r == (WindowLocalOptionsBuilder { wrap: true, line_break: false, scroll_off: 0u16 }),
    {
        WindowLocalOptionsBuilder { wrap: true, line_break: false, scroll_off: 0 }
    }

    /// Choose line wrapping.
    pub fn wrap(self, wrap: bool) -> (r: WindowLocalOptionsBuilder)
        ensures
            r == (WindowLocalOptionsBuilder { wrap, ..self }),
    {
        WindowLocalOptionsBuilder { wrap, ..self }
    }

    /// Choose word-gap breaking.
    pub fn line_break(self, line_break: bool) -> (r: WindowLocalOptionsBuilder)
        ensures
            r == (WindowLocalOptionsBuilder { line_break, ..self }),
    {
        WindowLocalOptionsBuilder { line_break, ..self }
    }

    /// Choose the scroll context.
    pub fn scroll_off(self, scroll_off: u16) -> (r: WindowLocalOptionsBuilder)
        ensures
            r == (WindowLocalOptionsBuilder { scroll_off, ..self }),
    {
        WindowLocalOptionsBuilder { scroll_off, ..self }
    }

    /// The finished options.
    pub fn build(self) -> (r: WindowOptions)
        ensures
            r == (WindowOptions {
                wrap: self.wrap,
                line_break: self.line_break,
                scroll_off: self.scroll_off,
            }),
            r.wf(),
    {
        WindowOptions { wrap: self.wrap, line_break: self.line_break, scroll_off: self.scroll_off }
    }
}

/// The window widget: the root node rendering one buffer, the cursor
/// node when editing focus is here, and the derived viewport snapshots.
#[derive(Clone, Debug)]
pub struct Window {
    pub base: Itree,
    pub root_id: usize,
    pub cursor_id: Option<usize>,
    pub options: WindowOptions,
    pub viewport: Viewport,
    pub cursor_viewport: CursorViewport,
}

impl Window {
    /// Well-formedness against the buffer the window shows.
    pub open spec fn wf(self, text: Text) -> bool {
        &&& self.base.wf()
        &&& at_most_one_cursor(self.base.entries@)
        &&& self.root_id == self.base.spec_root_id()
        &&& contains_id(self.base.entries@, self.root_id)
        &&& node_of(self.base.entries@, self.root_id).kind == NodeKind::Window
        &&& match self.cursor_id {
            Some(cid) => {
                &&& has_cursor(self.base.entries@)
                &&& contains_id(self.base.entries@, cid)
                &&& is_cursor(node_of(self.base.entries@, cid).kind)
                &&& parent_id_of(self.base.entries@, cid) == self.root_id
                &&& cid != self.root_id
                &&& self.base.spec_is_leaf(cid)
            },
            None => !has_cursor(self.base.entries@),
        }
        &&& self.viewport.wf(text)
        &&& self.viewport.width == node_of(
            self.base.entries@,
            self.root_id,
        ).actual_shape.spec_width()
        &&& self.viewport.height == node_of(
            self.base.entries@,
            self.root_id,
        ).actual_shape.spec_height()
        &&& self.cursor_viewport.wf(self.viewport, text)
    }

    /// A window showing `text` in `shape`, its viewport anchored at the
    /// top left and the cursor placed on the first renderable position.
    pub fn new(ids: &mut IdAlloc, shape: IRect, options: WindowOptions, text: &Text) -> (r:
        Window)
        requires
            shape.wf(),
            options.wf(),
            text.wf(),
            old(ids).next + 2 <= usize::MAX,
        ensures
            r.wf(*text),
            r.cursor_id.is_some(),
            r.options == options,
            final(ids).next == old(ids).next + 2,
            forall|id2: usize|
                #[trigger] contains_id(r.base.entries@, id2) ==> old(ids).next <= id2
                    < final(ids).next,
            // The initial viewport is the buffer's layout anchored at
            // the very top left, filled until the text or the height
            // runs out.
            r.viewport.start_line_idx == 0,
            (r.viewport.width > 0 && r.viewport.height > 0) ==> (r.viewport.end_line_idx
                == text.lines@.len() || rows_of(r.viewport.lines@) == r.viewport.height),
            (r.viewport.width == 0 || r.viewport.height == 0) ==> r.viewport.spec_is_empty(),
            !options.wrap ==> forall|k: int|
                0 <= k < r.viewport.lines.len() ==> nowrap_line_matches(
                    #[trigger] r.viewport.lines[k],
                    text.lines[k].glyphs@,
                    0,
                    r.viewport.width as int,
                ),
            options.wrap ==> forall|k: int|
                0 <= k < r.viewport.lines.len() ==> wrap_line_matches(
                    #[trigger] r.viewport.lines[k],
                    text.lines[k].glyphs@,
                    r.viewport.width as int,
                    options.line_break,
                ),
            // The cursor snapshot parks on the first renderable
            // position.
            !r.viewport.spec_is_empty() ==> r.cursor_viewport == (CursorViewport {
                line_idx: 0,
                char_idx: r.viewport.lines[0].rows[0].start_char_idx,
                row_idx: 0u16,
                column_idx: r.viewport.lines[0].start_filled_cols,
            }),
            r.viewport.spec_is_empty() ==> r.cursor_viewport == (CursorViewport {
                line_idx: 0,
                char_idx: 0,
                row_idx: 0u16,
                column_idx: 0u16,
            }),
    {
        let root_id = ids.fresh();
        let root = Node::new(root_id, NodeKind::Window, shape);
        let mut base = Itree::new(root);
        let actual = root.actual_shape;
        let viewport = view(&options, text, &actual, 0, 0);
        let cursor_viewport = CursorViewport::from_top_left(&viewport, text);
        let cursor_id = ids.fresh();
        let cx: i32 = actual.min_x as i32 + cursor_viewport.column_idx as i32;
        let cy: i32 = actual.min_y as i32 + cursor_viewport.row_idx as i32;
        let cursor = Node::new(
            cursor_id,
            NodeKind::Cursor { style: CursorStyle::SteadyBlock },
            IRect { min_x: cx, min_y: cy, max_x: cx + 1, max_y: cy + 1 },
        );
        proof {
            assert(contains_id(base.entries@, root_id)) by {
                assert(base.entries@[0].node.id == root_id);
            }
            if contains_id(base.entries@, cursor_id) {
                let i = crate::ui::tree::index_of_id(base.entries@, cursor_id);
                assert(base.entries@[i].node.id == cursor_id);
            }
        }
        base.bounded_insert(root_id, cursor);
        proof {
            assert forall|id2: usize| #[trigger] contains_id(base.entries@, id2) implies (id2
                == root_id || id2 == cursor_id) by {
                let i = crate::ui::tree::index_of_id(base.entries@, id2);
                assert(base.entries@[i].node.id == id2);
                if i == 0 {
                } else {
                    assert(base.entries@[i] == base.entries@.last());
                }
            }
            assert(base.spec_is_leaf(cursor_id)) by {
                assert forall|k: int| 1 <= k < base.entries@.len() implies (
                #[trigger] base.entries@[k]).parent_id != cursor_id by {
                    assert(base.entries@[k].parent_id == root_id);
                }
            }
        }
        Window { base, root_id, cursor_id: Some(cursor_id), options, viewport, cursor_viewport }
    }

    /// The stored cursor snapshot.
    pub fn cursor_viewport(&self) -> (r: CursorViewport)
        ensures
            r == self.cursor_viewport,
    {
        self.cursor_viewport
    }

    /// The id of the cursor node, when editing focus is here.
    pub fn cursor_id(&self) -> (r: Option<usize>)
        ensures
            r == self.cursor_id,
    {
        self.cursor_id
    }

    /// Take the cursor node out of the window, to relocate it elsewhere.
    /// Afterwards no cursor is here.
    pub fn remove_cursor(&mut self, text: &Text) -> (r: Node)
        requires
            old(self).wf(*text),
            old(self).cursor_id.is_some(),
        ensures
            final(self).wf(*text),
            final(self).cursor_id.is_none(),
            r.id == old(self).cursor_id.unwrap(),
            is_cursor(r.kind),
            r.actual_shape.wf(),
            final(self).root_id == old(self).root_id,
            final(self).viewport == old(self).viewport,
            final(self).cursor_viewport == old(self).cursor_viewport,
            final(self).options == old(self).options,
            forall|id2: usize|
                id2 != r.id ==> #[trigger] contains_id(final(self).base.entries@, id2)
                    == contains_id(old(self).base.entries@, id2),
            !contains_id(final(self).base.entries@, r.id),
    {
        let cid = match self.cursor_id {
            Some(cid) => cid,
            None => {
                proof {
                    assert(false);
                }
                0
            },
        };
        proof {
            let s = self.base.entries@;
            let i = crate::ui::tree::index_of_id(s, cid);
            assert(s[i].node.id == cid);
            if cid == self.base.spec_root_id() {
                crate::ui::tree::lemma_index_of_id(s, 0);
            }
        }
        let removed = self.base.remove(cid).unwrap();
        proof {
            let olds = old(self).base.entries@;
            let c = crate::ui::tree::index_of_id(olds, cid);
            assert forall|id2: usize| id2 != cid implies #[trigger] contains_id(
                self.base.entries@,
                id2,
            ) == contains_id(olds, id2) by {
                if contains_id(olds, id2) {
                    let i = crate::ui::tree::index_of_id(olds, id2);
                    assert(olds[i].node.id == id2);
                    assert(!in_subtree(olds, id2, cid)) by {
                        if in_subtree(olds, id2, cid) {
                            crate::ui::tree::lemma_subtree_of_leaf(olds, i, c);
                        }
                    }
                }
            }
            assert(contains_id(self.base.entries@, self.root_id)) by {
                assert(self.root_id != cid);
            }
            assert(node_of(self.base.entries@, self.root_id) == node_of(olds, self.root_id));
        }
        self.cursor_id = None;
        removed
    }

    /// Put a cursor node here, below the window root.  Inserting while a
    /// cursor is already here is a caller error.
    pub fn insert_cursor(&mut self, text: &Text, node: Node)
        requires
            old(self).wf(*text),
            old(self).cursor_id.is_none(),
            is_cursor(node.kind),
            !contains_id(old(self).base.entries@, node.id),
            node.actual_shape.wf(),
        ensures
            final(self).wf(*text),
            final(self).cursor_id == Some(node.id),
            final(self).root_id == old(self).root_id,
            final(self).viewport == old(self).viewport,
            final(self).cursor_viewport == old(self).cursor_viewport,
            final(self).options == old(self).options,
            forall|id2: usize|
                id2 != node.id ==> #[trigger] contains_id(final(self).base.entries@, id2)
                    == contains_id(old(self).base.entries@, id2),
            contains_id(final(self).base.entries@, node.id),
            node_of(final(self).base.entries@, node.id).kind == node.kind,
            node_of(final(self).base.entries@, old(self).root_id) == node_of(
                old(self).base.entries@,
                old(self).root_id,
            ),
    {
        let ghost olds = self.base.entries@;
        self.base.bounded_insert(self.root_id, node);
        proof {
            let s = self.base.entries@;
            assert forall|id2: usize| id2 != node.id implies #[trigger] contains_id(s, id2)
                == contains_id(olds, id2) by {
                if contains_id(s, id2) {
                    let i = crate::ui::tree::index_of_id(s, id2);
                    assert(s[i].node.id == id2);
                    if i < olds.len() {
                        crate::ui::tree::lemma_index_of_id(olds, i);
                    }
                }
            }
            assert(self.base.spec_is_leaf(node.id)) by {
                assert forall|k: int| 1 <= k < s.len() implies (#[trigger] s[k]).parent_id
                    != node.id by {
                    if k < olds.len() {
                        assert(s[k] == olds[k]);
                        assert(crate::ui::tree::child_linked(olds, k));
                        let p = choose|p: int|
                            0 <= p < k && (#[trigger] olds[p]).node.id == olds[k].parent_id
                                && olds[p].node.actual_shape.spec_contains(
                                olds[k].node.actual_shape);
                        crate::ui::tree::lemma_index_of_id(olds, p);
                        if olds[k].parent_id == node.id {
                            assert(contains_id(olds, node.id));
                        }
                    } else {
                        assert(s[k].parent_id == self.root_id);
                        assert(self.root_id != node.id) by {
                            if self.root_id == node.id {
                                assert(contains_id(olds, node.id)) by {
                                    assert(olds[0].node.id == old(self).root_id);
                                }
                            }
                        }
                    }
                }
            }
        }
        self.cursor_id = Some(node.id);
    }

    /// Move the cursor node to cell `(col, row)` of the window's actual
    /// shape.
    pub fn move_cursor_to(&mut self, text: &Text, col: u16, row: u16)
        requires
            old(self).wf(*text),
            old(self).cursor_id.is_some(),
            node_of(old(self).base.entries@, old(self).root_id).actual_shape.min_x + col
                < u16::MAX,
            node_of(old(self).base.entries@, old(self).root_id).actual_shape.min_y + row
                < u16::MAX,
        ensures
            final(self).wf(*text),
            final(self).cursor_id == old(self).cursor_id,
            final(self).root_id == old(self).root_id,
            final(self).viewport == old(self).viewport,
            final(self).cursor_viewport == old(self).cursor_viewport,
            final(self).options == old(self).options,
            forall|id2: usize|
                #[trigger] contains_id(final(self).base.entries@, id2) == contains_id(
                    old(self).base.entries@,
                    id2,
                ),
            node_of(final(self).base.entries@, old(self).root_id) == node_of(
                old(self).base.entries@,
                old(self).root_id,
            ),
            // The cursor node keeps its capability and lands on the
            // named cell, clipped into the window's actual shape.
            node_of(final(self).base.entries@, old(self).cursor_id.unwrap()).kind == node_of(
                old(self).base.entries@,
                old(self).cursor_id.unwrap(),
            ).kind,
            node_of(final(self).base.entries@, old(self).cursor_id.unwrap()).actual_shape
                == node_of(old(self).base.entries@, old(self).root_id).actual_shape.spec_intersect(
                U16Rect {
                    min_x: (node_of(old(self).base.entries@, old(self).root_id).actual_shape.min_x
                        + col) as u16,
                    min_y: (node_of(old(self).base.entries@, old(self).root_id).actual_shape.min_y
                        + row) as u16,
                    max_x: (node_of(old(self).base.entries@, old(self).root_id).actual_shape.min_x
                        + col + 1) as u16,
                    max_y: (node_of(old(self).base.entries@, old(self).root_id).actual_shape.min_y
                        + row + 1) as u16,
                },
            ),
    {
        let cid = self.cursor_id.unwrap();
        let root = *self.base.get(self.root_id);
        let x: u16 = root.actual_shape.min_x + col;
        let y: u16 = root.actual_shape.min_y + row;
        proof {
            if cid == self.base.spec_root_id() {
                let s = self.base.entries@;
                crate::ui::tree::lemma_index_of_id(s, 0);
            }
        }
        self.base.move_node_to(cid, x, y);
        proof {
            let olds = old(self).base.entries@;
            let s = self.base.entries@;
            assert(self.base.spec_is_leaf(cid)) by {
                assert forall|k: int| 1 <= k < s.len() implies (#[trigger] s[k]).parent_id
                    != cid by {
                    assert(s[k].parent_id == olds[k].parent_id);
                }
            }
        }
    }

    /// Restyle the cursor node.
    pub fn set_cursor_style(&mut self, text: &Text, style: CursorStyle)
        requires
            old(self).wf(*text),
            old(self).cursor_id.is_some(),
        ensures
            final(self).wf(*text),
            final(self).cursor_id == old(self).cursor_id,
            final(self).root_id == old(self).root_id,
            final(self).viewport == old(self).viewport,
            final(self).cursor_viewport == old(self).cursor_viewport,
            final(self).options == old(self).options,
            forall|id2: usize|
                #[trigger] contains_id(final(self).base.entries@, id2) == contains_id(
                    old(self).base.entries@,
                    id2,
                ),
            node_of(final(self).base.entries@, old(self).cursor_id.unwrap()).kind
                == (NodeKind::Cursor { style }),
    {
        let cid = self.cursor_id.unwrap();
        self.base.set_kind(cid, NodeKind::Cursor { style });
    }
}

} // verus!
