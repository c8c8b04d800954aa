//! The command-line composite widget.
//!
//! A root container owning an indicator child (a strip of at most one
//! column) and a content child (the remaining width), with a freshly
//! computed viewport anchored at the top left of the content region.  The
//! cursor node joins the widget only when a mode transition relocates it
//! here.

pub mod builder;

use crate::text::Text;
use crate::ui::canvas::CursorStyle;
use crate::ui::tree::{at_most_one_cursor, contains_id, has_cursor, in_subtree, is_cursor,
    node_of, parent_id_of, Itree, Node, NodeKind};
use crate::ui::viewport::{CursorViewport, Viewport};
use crate::ui::widget::window::WindowOptions;
use crate::coord::U16Rect;
use vstd::prelude::*;

verus! {

/// The symbol shown in the command line's indicator column.
#[derive(Clone, Copy, Debug, PartialEq, Eq, Structural)]
pub enum CommandLineIndicatorSymbol {
    /// No indicator: the command line is idle.
    Empty,
    /// `:` — an ex command or a message is being shown.
    Ex,
    /// `/` — a forward search.
    SearchForward,
    /// `?` — a backward search.
    SearchBackward,
}

/// The node kinds that stand for the indicator.
pub open spec fn is_indicator(k: NodeKind) -> bool {
    match k {
        NodeKind::CommandLineIndicator { .. } => true,
        _ => false,
    }
}

/// The symbol an indicator node shows.
pub open spec fn spec_indicator_symbol(k: NodeKind) -> CommandLineIndicatorSymbol {
    match k {
        NodeKind::CommandLineIndicator { symbol } => symbol,
        _ => CommandLineIndicatorSymbol::Empty,
    }
}

/// The command-line aggregate: its own node tree, layout options, the
/// ids of its parts, and the derived viewport snapshots.
#[derive(Clone, Debug)]
pub struct CommandLine {
    pub base: Itree,
    pub options: WindowOptions,
    pub root_id: usize,
    pub indicator_id: usize,
    pub content_id: usize,
    pub cursor_id: Option<usize>,
    pub viewport: Viewport,
    pub cursor_viewport: CursorViewport,
}

impl CommandLine {
    /// Well-formedness of the widget tree itself, apart from the derived
    /// viewport snapshots.
    pub open spec fn struct_wf(self) -> bool {
        &&& self.base.wf()
        &&& at_most_one_cursor(self.base.entries@)
        &&& self.root_id == self.base.spec_root_id()
        &&& contains_id(self.base.entries@, self.root_id)
        &&& contains_id(self.base.entries@, self.indicator_id)
        &&& contains_id(self.base.entries@, self.content_id)
        &&& self.root_id != self.indicator_id
        &&& self.root_id != self.content_id
        &&& self.indicator_id != self.content_id
        &&& node_of(self.base.entries@, self.root_id).kind == NodeKind::CommandLineRootContainer
        &&& is_indicator(node_of(self.base.entries@, self.indicator_id).kind)
        &&& node_of(self.base.entries@, self.content_id).kind == NodeKind::CommandLineContent
        &&& parent_id_of(self.base.entries@, self.indicator_id) == self.root_id
        &&& parent_id_of(self.base.entries@, self.content_id) == self.root_id
        &&& match self.cursor_id {
            Some(cid) => {
                &&& has_cursor(self.base.entries@)
                &&& contains_id(self.base.entries@, cid)
                &&& is_cursor(node_of(self.base.entries@, cid).kind)
                &&& parent_id_of(self.base.entries@, cid) == self.content_id
                &&& cid != self.root_id
                &&& cid != self.indicator_id
                &&& cid != self.content_id
                &&& self.base.spec_is_leaf(cid)
            },
            None => !has_cursor(self.base.entries@),
        }
        // The command line never wraps: one buffer line, one row.
        &&& !self.options.wrap
    }

    /// Well-formedness against the command-line buffer.
    pub open spec fn wf(self, text: Text) -> bool {
        &&& self.struct_wf()
        &&& self.viewport.wf(text)
        &&& self.viewport.width == node_of(
            self.base.entries@,
            self.content_id,
        ).actual_shape.spec_width()
        &&& self.viewport.height == node_of(
            self.base.entries@,
            self.content_id,
        ).actual_shape.spec_height()
        &&& self.cursor_viewport.wf(self.viewport, text)
    }

    /// The id of the indicator child.
    pub fn indicator_id(&self) -> (r: usize)
        ensures
            r == self.indicator_id,
    {
        self.indicator_id
    }

    /// The id of the content child.
    pub fn content_id(&self) -> (r: usize)
        ensures
            r == self.content_id,
    {
        self.content_id
    }

    /// The id of the cursor node, when editing focus is here.
    pub fn cursor_id(&self) -> (r: Option<usize>)
        ensures
            r == self.cursor_id,
    {
        self.cursor_id
    }

    /// The stored cursor snapshot.
    pub fn cursor_viewport(&self) -> (r: CursorViewport)
        ensures
            r == self.cursor_viewport,
    {
        self.cursor_viewport
    }

    /// The actual (laid-out) shape of the content region.
    pub fn content_actual_shape(&self, text: &Text) -> (r: U16Rect)
        requires
            self.wf(*text),
        ensures
            r == node_of(self.base.entries@, self.content_id).actual_shape,
            r.wf(),
    {
        proof {
            let s = self.base.entries@;
            let i = crate::ui::tree::index_of_id(s, self.content_id);
        }
        let node = self.base.get(self.content_id);
        node.actual_shape
    }

    /// The symbol the indicator currently shows.
    pub fn indicator_symbol(&self, text: &Text) -> (r: CommandLineIndicatorSymbol)
        requires
            self.wf(*text),
        ensures
            r == spec_indicator_symbol(node_of(self.base.entries@, self.indicator_id).kind),
    {
        match self.base.get(self.indicator_id).kind {
            NodeKind::CommandLineIndicator { symbol } => symbol,
            _ => CommandLineIndicatorSymbol::Empty,
        }
    }

    /// Show another symbol in the indicator column.
    pub fn set_indicator_symbol(&mut self, text: &Text, symbol: CommandLineIndicatorSymbol)
        requires
            old(self).wf(*text),
        ensures
            final(self).wf(*text),
            final(self).cursor_id == old(self).cursor_id,
            final(self).viewport == old(self).viewport,
            final(self).cursor_viewport == old(self).cursor_viewport,
            final(self).options == old(self).options,
            final(self).root_id == old(self).root_id,
            final(self).indicator_id == old(self).indicator_id,
            final(self).content_id == old(self).content_id,
            spec_indicator_symbol(
                node_of(final(self).base.entries@, final(self).indicator_id).kind,
            ) == symbol,
            forall|id2: usize|
                #[trigger] contains_id(final(self).base.entries@, id2) == contains_id(
                    old(self).base.entries@,
                    id2,
                ),
            // Every other node, the cursor included, stays as it was.
            forall|id2: usize|
                (contains_id(old(self).base.entries@, id2) && id2 != old(self).indicator_id)
                    ==> #[trigger] node_of(final(self).base.entries@, id2) == node_of(
                    old(self).base.entries@,
                    id2,
                ),
    {
        self.base.set_kind(self.indicator_id, NodeKind::CommandLineIndicator { symbol });
        proof {
            if let Some(cid) = self.cursor_id {
                assert(self.base.spec_is_leaf(cid)) by {
                    let olds = old(self).base.entries@;
                    let s = self.base.entries@;
                    assert forall|k: int| 1 <= k < s.len() implies (#[trigger] s[k]).parent_id
                        != cid by {
                        assert(s[k].parent_id == olds[k].parent_id);
                    }
                }
            }
        }
    }

    /// Take the cursor node out of the command line, to relocate it
    /// elsewhere.
    pub fn remove_cursor(&mut self, text: &Text) -> (r: Node)
        requires
            old(self).wf(*text),
            old(self).cursor_id.is_some(),
        ensures
            final(self).wf(*text),
            final(self).cursor_id.is_none(),
            r.id == old(self).cursor_id.unwrap(),
            is_cursor(r.kind),
            r.actual_shape.wf(),
            final(self).root_id == old(self).root_id,
            final(self).indicator_id == old(self).indicator_id,
            final(self).content_id == old(self).content_id,
            final(self).viewport == old(self).viewport,
            final(self).cursor_viewport == old(self).cursor_viewport,
            final(self).options == old(self).options,
            forall|id2: usize|
                id2 != r.id ==> #[trigger] contains_id(final(self).base.entries@, id2)
                    == contains_id(old(self).base.entries@, id2),
            !contains_id(final(self).base.entries@, r.id),
    {
        let cid = self.cursor_id.unwrap();
        proof {
            let s = self.base.entries@;
            let i = crate::ui::tree::index_of_id(s, cid);
            assert(s[i].node.id == cid);
            if cid == self.base.spec_root_id() {
                crate::ui::tree::lemma_index_of_id(s, 0);
            }
        }
        let removed = self.base.remove(cid).unwrap();
        proof {
            let olds = old(self).base.entries@;
            let c = crate::ui::tree::index_of_id(olds, cid);
            assert forall|id2: usize| id2 != cid implies #[trigger] contains_id(
                self.base.entries@,
                id2,
            ) == contains_id(olds, id2) by {
                if contains_id(olds, id2) {
                    let i = crate::ui::tree::index_of_id(olds, id2);
                    assert(olds[i].node.id == id2);
                    assert(!in_subtree(olds, id2, cid)) by {
                        if in_subtree(olds, id2, cid) {
                            crate::ui::tree::lemma_subtree_of_leaf(olds, i, c);
                        }
                    }
                }
            }
            assert(contains_id(self.base.entries@, self.root_id));
            assert(contains_id(self.base.entries@, self.indicator_id));
            assert(contains_id(self.base.entries@, self.content_id));
            assert(node_of(self.base.entries@, self.root_id) == node_of(olds, self.root_id));
            assert(node_of(self.base.entries@, self.indicator_id) == node_of(
                olds,
                self.indicator_id,
            ));
            assert(node_of(self.base.entries@, self.content_id) == node_of(
                olds,
                self.content_id,
            ));
            assert(parent_id_of(self.base.entries@, self.indicator_id) == parent_id_of(
                olds,
                self.indicator_id,
            ));
            assert(parent_id_of(self.base.entries@, self.content_id) == parent_id_of(
                olds,
                self.content_id,
            ));
        }
        self.cursor_id = None;
        removed
    }

    /// Put a cursor node here, below the content region.  Inserting
    /// while a cursor is already here is a caller error.
    pub fn insert_cursor(&mut self, text: &Text, node: Node)
        requires
            old(self).wf(*text),
            old(self).cursor_id.is_none(),
            is_cursor(node.kind),
            !contains_id(old(self).base.entries@, node.id),
            node.actual_shape.wf(),
        ensures
            final(self).wf(*text),
            final(self).cursor_id == Some(node.id),
            final(self).root_id == old(self).root_id,
            final(self).indicator_id == old(self).indicator_id,
            final(self).content_id == old(self).content_id,
            final(self).viewport == old(self).viewport,
            final(self).cursor_viewport == old(self).cursor_viewport,
            final(self).options == old(self).options,
            forall|id2: usize|
                id2 != node.id ==> #[trigger] contains_id(final(self).base.entries@, id2)
                    == contains_id(old(self).base.entries@, id2),
            contains_id(final(self).base.entries@, node.id),
            node_of(final(self).base.entries@, node.id).kind == node.kind,
    {
        let ghost olds = self.base.entries@;
        self.base.bounded_insert(self.content_id, node);
        proof {
            let s = self.base.entries@;
            assert forall|id2: usize| id2 != node.id implies #[trigger] contains_id(s, id2)
                == contains_id(olds, id2) by {
                if contains_id(s, id2) {
                    let i = crate::ui::tree::index_of_id(s, id2);
                    assert(s[i].node.id == id2);
                    if i < olds.len() {
                        crate::ui::tree::lemma_index_of_id(olds, i);
                    }
                }
            }
            assert(self.base.spec_is_leaf(node.id)) by {
                assert forall|k: int| 1 <= k < s.len() implies (#[trigger] s[k]).parent_id
                    != node.id by {
                    if k < olds.len() {
                        assert(s[k] == olds[k]);
                        assert(crate::ui::tree::child_linked(olds, k));
                        let p = choose|p: int|
                            0 <= p < k && (#[trigger] olds[p]).node.id == olds[k].parent_id
                                && olds[p].node.actual_shape.spec_contains(
                                olds[k].node.actual_shape);
                        crate::ui::tree::lemma_index_of_id(olds, p);
                        if olds[k].parent_id == node.id {
                            assert(contains_id(olds, node.id));
                        }
                    } else {
                        assert(s[k].parent_id == self.content_id);
                        assert(self.content_id != node.id) by {
                            if self.content_id == node.id {
                                assert(contains_id(olds, node.id));
                            }
                        }
                    }
                }
            }
            assert(contains_id(s, self.root_id));
            assert(contains_id(s, self.indicator_id));
            assert(contains_id(s, self.content_id));
            assert(node_of(s, self.root_id) == node_of(olds, self.root_id));
            assert(node_of(s, self.indicator_id) == node_of(olds, self.indicator_id));
            assert(node_of(s, self.content_id) == node_of(olds, self.content_id));
            assert(parent_id_of(s, self.indicator_id) == parent_id_of(olds, self.indicator_id));
            assert(parent_id_of(s, self.content_id) == parent_id_of(olds, self.content_id));
            assert(node.id != self.root_id && node.id != self.indicator_id && node.id
                != self.content_id);
        }
        self.cursor_id = Some(node.id);
    }

    /// Move the cursor node to cell `(col, row)` of the content region.
    pub fn move_cursor_to(&mut self, text: &Text, col: u16, row: u16)
        requires
            old(self).wf(*text),
            old(self).cursor_id.is_some(),
            node_of(old(self).base.entries@, old(self).content_id).actual_shape.min_x + col
                < u16::MAX,
            node_of(old(self).base.entries@, old(self).content_id).actual_shape.min_y + row
                < u16::MAX,
        ensures
            final(self).wf(*text),
            final(self).cursor_id == old(self).cursor_id,
            final(self).root_id == old(self).root_id,
            final(self).indicator_id == old(self).indicator_id,
            final(self).content_id == old(self).content_id,
            final(self).viewport == old(self).viewport,
            final(self).cursor_viewport == old(self).cursor_viewport,
            final(self).options == old(self).options,
            forall|id2: usize|
                #[trigger] contains_id(final(self).base.entries@, id2) == contains_id(
                    old(self).base.entries@,
                    id2,
                ),
            node_of(final(self).base.entries@, old(self).indicator_id) == node_of(
                old(self).base.entries@,
                old(self).indicator_id,
            ),
            node_of(final(self).base.entries@, old(self).content_id) == node_of(
                old(self).base.entries@,
                old(self).content_id,
            ),
            // The cursor node keeps its capability and lands on the
            // named cell, clipped into the content region.
            node_of(final(self).base.entries@, old(self).cursor_id.unwrap()).kind == node_of(
                old(self).base.entries@,
                old(self).cursor_id.unwrap(),
            ).kind,
            node_of(final(self).base.entries@, old(self).cursor_id.unwrap()).actual_shape
                == node_of(
                old(self).base.entries@,
                old(self).content_id,
            ).actual_shape.spec_intersect(
                U16Rect {
                    min_x: (node_of(old(self).base.entries@, old(self).content_id).actual_shape.min_x
                        + col) as u16,
                    min_y: (node_of(old(self).base.entries@, old(self).content_id).actual_shape.min_y
                        + row) as u16,
                    max_x: (node_of(old(self).base.entries@, old(self).content_id).actual_shape.min_x
                        + col + 1) as u16,
                    max_y: (node_of(old(self).base.entries@, old(self).content_id).actual_shape.min_y
                        + row + 1) as u16,
                },
            ),
    {
        let cid = self.cursor_id.unwrap();
        let content = *self.base.get(self.content_id);
        let x: u16 = content.actual_shape.min_x + col;
        let y: u16 = content.actual_shape.min_y + row;
        proof {
            if cid == self.base.spec_root_id() {
                crate::ui::tree::lemma_index_of_id(self.base.entries@, 0);
            }
        }
        self.base.move_node_to(cid, x, y);
        proof {
            let olds = old(self).base.entries@;
            let s = self.base.entries@;
            assert(self.base.spec_is_leaf(cid)) by {
                assert forall|k: int| 1 <= k < s.len() implies (#[trigger] s[k]).parent_id
                    != cid by {
                    assert(s[k].parent_id == olds[k].parent_id);
                }
            }
        }
    }

    /// Restyle the cursor node.
    pub fn set_cursor_style(&mut self, text: &Text, style: CursorStyle)
        requires
            old(self).wf(*text),
            old(self).cursor_id.is_some(),
        ensures
            final(self).wf(*text),
            final(self).cursor_id == old(self).cursor_id,
            final(self).root_id == old(self).root_id,
            final(self).indicator_id == old(self).indicator_id,
            final(self).content_id == old(self).content_id,
            final(self).viewport == old(self).viewport,
            final(self).cursor_viewport == old(self).cursor_viewport,
            final(self).options == old(self).options,
            forall|id2: usize|
                #[trigger] contains_id(final(self).base.entries@, id2) == contains_id(
                    old(self).base.entries@,
                    id2,
                ),
            node_of(final(self).base.entries@, old(self).indicator_id) == node_of(
                old(self).base.entries@,
                old(self).indicator_id,
            ),
            node_of(final(self).base.entries@, old(self).cursor_id.unwrap()).kind
                == (NodeKind::Cursor { style }),
    {
        let cid = self.cursor_id.unwrap();
        self.base.set_kind(cid, NodeKind::Cursor { style });
        proof {
            let olds = old(self).base.entries@;
            let s = self.base.entries@;
            assert(self.base.spec_is_leaf(cid)) by {
                assert forall|k: int| 1 <= k < s.len() implies (#[trigger] s[k]).parent_id
                    != cid by {
                    assert(s[k].parent_id == olds[k].parent_id);
                }
            }
        }
    }
}

/// Well-formedness only reads the text's shape — its line count and each
/// line's glyphs — so it carries over to any text that reads the same.
pub proof fn lemma_wf_same_text(cl: CommandLine, t1: Text, t2: Text)
    requires
        cl.wf(t1),
        t1.wf(),
        t2.wf(),
        t1.lines@.len() == t2.lines@.len(),
        forall|i: int|
            0 <= i < t1.lines@.len() ==> (#[trigger] t1.lines@[i]).glyphs@
                == t2.lines@[i].glyphs@,
    ensures
        cl.wf(t2),
{
    assert(cl.viewport.wf(t2)) by {
        assert forall|k: int| 0 <= k < cl.viewport.lines.len() implies
            crate::ui::viewport::line_wf(
            #[trigger] cl.viewport.lines[k],
            t2.lines[cl.viewport.start_line_idx + k].glyphs@,
            cl.viewport.width as int,
        ) by {
            assert(crate::ui::viewport::line_wf(cl.viewport.lines[k],
                t1.lines[cl.viewport.start_line_idx + k].glyphs@, cl.viewport.width as int));
            assert(t1.lines@[cl.viewport.start_line_idx + k].glyphs@
                == t2.lines@[cl.viewport.start_line_idx + k].glyphs@);
        }
    }
    assert(cl.cursor_viewport.wf(cl.viewport, t2)) by {
        assert(t1.lines@[cl.cursor_viewport.line_idx as int].glyphs@
            == t2.lines@[cl.cursor_viewport.line_idx as int].glyphs@);
    }
}

} // verus!