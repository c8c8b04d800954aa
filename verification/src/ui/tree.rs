//! The widget tree.
//!
//! A generic tree of identified, polymorphic nodes with shape-bounded
//! insertion.  The tree owns all nodes by value in an arena; nodes address
//! one another only by id, never by reference.  Insertion clips a child's
//! actual shape to its parent's actual shape, so a child never lies out of
//! bounds.  Removing a node drops its entire subtree and returns the
//! removed node itself to the caller, which is how the single cursor node
//! is relocated between parents.

use crate::content::TextContents;
use crate::coord::{rect_as_u16, spec_rect_as_u16, IRect, U16Rect};
use crate::ui::canvas::CursorStyle;
use crate::ui::widget::command_line::builder::CommandLineBuilder;
use crate::ui::widget::command_line::{CommandLine, CommandLineIndicatorSymbol};
use crate::ui::widget::window::{Window, WindowOptions};
use vstd::prelude::*;

verus! {

/// What a node is: one closed capability set, matched exhaustively at
/// every consumption site.
#[derive(Clone, Copy, Debug, PartialEq, Eq, Structural)]
pub enum NodeKind {
    RootContainer,
    Window,
    CommandLineRootContainer,
    CommandLineIndicator { symbol: CommandLineIndicatorSymbol },
    CommandLineContent,
    Cursor { style: CursorStyle },
}

/// The node kinds that stand for the editing cursor.
pub open spec fn is_cursor(k: NodeKind) -> bool {
    match k {
        NodeKind::Cursor { .. } => true,
        _ => false,
    }
}

/// One widget node: its id, capability, pre-layout shape and actual
/// (laid-out) shape.
#[derive(Clone, Copy, Debug, PartialEq, Eq, Structural)]
pub struct Node {
    pub id: usize,
    pub kind: NodeKind,
    pub shape: IRect,
    pub actual_shape: U16Rect,
}

impl Node {
    /// A fresh node.  Until the node is inserted somewhere its actual
    /// shape is the plain truncation of its pre-layout shape.
    pub fn new(id: usize, kind: NodeKind, shape: IRect) -> (r: Node)
        requires
            shape.wf(),
        ensures
            r == (Node { id, kind, shape, actual_shape: spec_rect_as_u16(shape) }),
            r.actual_shape.wf(),
    {
        let actual_shape = rect_as_u16(&shape);
        Node { id, kind, shape, actual_shape }
    }
}

/// Hands out process-unique, monotonically increasing node ids.
#[derive(Clone, Copy, Debug, PartialEq, Eq, Structural)]
pub struct IdAlloc {
    pub next: usize,
}

impl IdAlloc {
    /// A fresh allocator, starting at id 1.
    pub fn new() -> (r: IdAlloc)
        ensures
            r.next == 1,
    {
        IdAlloc { next: 1 }
    }

    /// The next id; never handed out twice.
    pub fn fresh(&mut self) -> (r: usize)
        requires
            old(self).next < usize::MAX,
        ensures
            r == old(self).next,
            final(self).next == old(self).next + 1,
    {
        let r = self.next;
        self.next = self.next + 1;
        r
    }
}

/// One arena slot: a node and the id of its parent.  The root stores its
/// own id as parent.
#[derive(Clone, Copy, Debug, PartialEq, Eq, Structural)]
pub struct Entry {
    pub parent_id: usize,
    pub node: Node,
}

/// Ids are pairwise distinct.
pub open spec fn ids_distinct(s: Seq<Entry>) -> bool {
    forall|i: int, j: int|
        0 <= i < j < s.len() ==> (#[trigger] s[i]).node.id != (#[trigger] s[j]).node.id
}

/// Some entry carries this id.
pub open spec fn contains_id(s: Seq<Entry>, id: usize) -> bool {
    exists|i: int| 0 <= i < s.len() && (#[trigger] s[i]).node.id == id
}

/// The index of the entry carrying this id.
pub open spec fn index_of_id(s: Seq<Entry>, id: usize) -> int {
    choose|i: int| 0 <= i < s.len() && (#[trigger] s[i]).node.id == id
}

/// The node carrying this id.
pub open spec fn node_of(s: Seq<Entry>, id: usize) -> Node {
    s[index_of_id(s, id)].node
}

/// The parent id of the node carrying this id.
pub open spec fn parent_id_of(s: Seq<Entry>, id: usize) -> usize {
    s[index_of_id(s, id)].parent_id
}

/// With distinct ids, an entry's index is the index of its id.
pub proof fn lemma_index_of_id(s: Seq<Entry>, i: int)
    requires
        ids_distinct(s),
        0 <= i < s.len(),
    ensures
        index_of_id(s, s[i].node.id) == i,
        contains_id(s, s[i].node.id),
{
    assert(contains_id(s, s[i].node.id));
    let j = index_of_id(s, s[i].node.id);
    assert(0 <= j < s.len() && s[j].node.id == s[i].node.id);
    if i != j {
        if i < j {
            assert(s[i].node.id != s[j].node.id);
        } else {
            assert(s[j].node.id != s[i].node.id);
        }
    }
}

/// The index of the parent of entry `i`: the earlier entry carrying the
/// parent id.
pub open spec fn parent_index(s: Seq<Entry>, i: int) -> int {
    choose|p: int| 0 <= p < i && (#[trigger] s[p]).node.id == s[i].parent_id
}

/// Entry `i` is linked: some earlier entry carries its parent id, and
/// that parent's actual shape contains the child's.
pub open spec fn child_linked(s: Seq<Entry>, i: int) -> bool {
    exists|p: int|
        0 <= p < i && (#[trigger] s[p]).node.id == s[i].parent_id
            && s[p].node.actual_shape.spec_contains(s[i].node.actual_shape)
}

/// Entry `i` lies in the subtree rooted at entry `t`: it is `t`, or its
/// parent chain reaches `t`.  Parents stand earlier in the arena than
/// their children, so the chain walks strictly down.
pub open spec fn in_subtree_at(s: Seq<Entry>, i: int, t: int) -> bool
    decreases i,
{
    if i == t {
        true
    } else if i <= 0 {
        false
    } else {
        let p = parent_index(s, i);
        if 0 <= p < i {
            in_subtree_at(s, p, t)
        } else {
            false
        }
    }
}

/// The node with id `id2` lies in the subtree of the node with id `tid`.
pub open spec fn in_subtree(s: Seq<Entry>, id2: usize, tid: usize) -> bool {
    in_subtree_at(s, index_of_id(s, id2), index_of_id(s, tid))
}

/// An entry standing before the subtree root is never inside the
/// subtree: parent chains only walk towards the front of the arena.
pub proof fn lemma_subtree_below(s: Seq<Entry>, i: int, t: int)
    requires
        i < t,
    ensures
        !in_subtree_at(s, i, t),
    decreases i,
{
    if i > 0 {
        let p = parent_index(s, i);
        if 0 <= p < i {
            lemma_subtree_below(s, p, t);
        }
    }
}

/// The subtree of a leaf is the leaf alone: nothing names it as parent,
/// so no parent chain passes through it.
pub proof fn lemma_subtree_of_leaf(s: Seq<Entry>, i: int, c: int)
    requires
        ids_distinct(s),
        0 <= c < s.len(),
        forall|k: int| 1 <= k < s.len() ==> (#[trigger] s[k]).parent_id != s[c].node.id,
        forall|k: int| 1 <= k < s.len() ==> child_linked(s, k),
        in_subtree_at(s, i, c),
        0 <= i < s.len(),
    ensures
        i == c,
    decreases i,
{
    if i != c {
        assert(i >= 1);
        assert(child_linked(s, i));
        let pw = choose|p: int|
            0 <= p < i && (#[trigger] s[p]).node.id == s[i].parent_id
                && s[p].node.actual_shape.spec_contains(s[i].node.actual_shape);
        assert(exists|p: int| 0 <= p < i && (#[trigger] s[p]).node.id == s[i].parent_id);
        let p = parent_index(s, i);
        assert(0 <= p < i && s[p].node.id == s[i].parent_id);
        assert(in_subtree_at(s, p, c));
        if p == c {
            assert(s[i].parent_id == s[c].node.id);
        } else {
            lemma_subtree_of_leaf(s, p, c);
        }
    }
}

/// Some entry is a cursor.
pub open spec fn has_cursor(s: Seq<Entry>) -> bool {
    exists|i: int| 0 <= i < s.len() && is_cursor((#[trigger] s[i]).node.kind)
}

/// No two distinct entries are cursors.
pub open spec fn at_most_one_cursor(s: Seq<Entry>) -> bool {
    forall|i: int, j: int|
        (0 <= i < s.len() && 0 <= j < s.len() && is_cursor((#[trigger] s[i]).node.kind)
            && is_cursor((#[trigger] s[j]).node.kind)) ==> i == j
}

/// A generic arena tree of identified nodes.
#[derive(Clone, Debug)]
pub struct Itree {
    pub entries: Vec<Entry>,
}

impl Itree {
    /// Well-formed: one root at slot 0 that is its own parent; pairwise
    /// distinct ids; every later entry linked below an earlier parent,
    /// its actual shape inside its parent's.
    pub open spec fn wf(self) -> bool {
        &&& self.entries.len() >= 1
        &&& self.entries[0].parent_id == self.entries[0].node.id
        &&& ids_distinct(self.entries@)
        &&& forall|i: int|
            0 <= i < self.entries.len() ==> (#[trigger] self.entries[i]).node.actual_shape.wf()
        &&& forall|i: int| 1 <= i < self.entries.len() ==> child_linked(self.entries@, i)
        &&& forall|i: int|
            1 <= i < self.entries.len() ==> (#[trigger] self.entries[i]).parent_id
                != self.entries[i].node.id
    }

    /// The id of the root node.
    pub open spec fn spec_root_id(self) -> usize {
        self.entries[0].node.id
    }

    /// A tree of one node.
    pub fn new(root: Node) -> (r: Itree)
        requires
            root.actual_shape.wf(),
        ensures
            r.wf(),
            r.entries@.len() == 1,
            r.entries@[0] == (Entry { parent_id: root.id, node: root }),
            r.spec_root_id() == root.id,
    {
        let mut entries: Vec<Entry> = Vec::new();
        entries.push(Entry { parent_id: root.id, node: root });
        Itree { entries }
    }

    /// The id of the root node.
    pub fn root_id(&self) -> (r: usize)
        requires
            self.wf(),
        ensures
            r == self.spec_root_id(),
    {
        self.entries[0].node.id
    }

    /// The arena index of the node with this id, when it is here.
    fn find_index(&self, id: usize) -> (r: Option<usize>)
        requires
            self.wf(),
        ensures
            r.is_some() <==> contains_id(self.entries@, id),
            r.is_some() ==> {
                &&& r.unwrap() < self.entries@.len()
                &&& self.entries@[r.unwrap() as int].node.id == id
                &&& index_of_id(self.entries@, id) == r.unwrap()
            },
    {
        let n = self.entries.len();
        let mut i: usize = 0;
        while i < n
            invariant
                self.wf(),
                i <= n == self.entries@.len(),
                forall|j: int| 0 <= j < i ==> (#[trigger] self.entries@[j]).node.id != id,
            decreases n - i,
        {
            if self.entries[i].node.id == id {
                proof {
                    lemma_index_of_id(self.entries@, i as int);
                }
                return Some(i);
            }
            i += 1;
        }
        proof {
            if contains_id(self.entries@, id) {
                let j = index_of_id(self.entries@, id);
                assert(0 <= j < n && self.entries@[j].node.id == id);
            }
        }
        None
    }

    /// Whether a node with this id is in the tree.
    pub fn contains(&self, id: usize) -> (r: bool)
        requires
            self.wf(),
        ensures
            r == contains_id(self.entries@, id),
    {
        self.find_index(id).is_some()
    }

    /// The node with this id.  Asking for an unknown id is a caller
    /// error: ids are only ever obtained from prior successful tree
    /// operations.
    pub fn get(&self, id: usize) -> (r: &Node)
        requires
            self.wf(),
            contains_id(self.entries@, id),
        ensures
            *r == node_of(self.entries@, id),
    {
        let idx = self.find_index(id).unwrap();
        &self.entries[idx].node
    }

    /// Bounded insert: the child joins the tree below `parent_id`, its
    /// actual shape clipped to lie within the parent's actual shape.
    pub fn bounded_insert(&mut self, parent_id: usize, node: Node) -> (r: usize)
        requires
            old(self).wf(),
            contains_id(old(self).entries@, parent_id),
            !contains_id(old(self).entries@, node.id),
            node.actual_shape.wf(),
        ensures
            final(self).wf(),
            r == node.id,
            final(self).entries@.len() == old(self).entries@.len() + 1,
            final(self).entries@ == old(self).entries@.push(
                Entry {
                    parent_id,
                    node: Node {
                        actual_shape: node_of(old(self).entries@, parent_id)
                            .actual_shape.spec_intersect(node.actual_shape),
                        ..node
                    },
                },
            ),
            // Bounded insertion: the inserted child's actual shape is
            // contained in its parent's actual shape.
            node_of(old(self).entries@, parent_id).actual_shape.spec_contains(
                node_of(final(self).entries@, node.id).actual_shape,
            ),
            node_of(final(self).entries@, node.id).id == node.id,
            node_of(final(self).entries@, node.id).kind == node.kind,
            parent_id_of(final(self).entries@, node.id) == parent_id,
            // What was there stays there, unchanged.
            forall|id2: usize|
                contains_id(old(self).entries@, id2) ==> #[trigger] contains_id(
                    final(self).entries@,
                    id2,
                ) && node_of(final(self).entries@, id2) == node_of(old(self).entries@, id2)
                    && parent_id_of(final(self).entries@, id2) == parent_id_of(
                    old(self).entries@,
                    id2,
                ),
            contains_id(final(self).entries@, node.id),
            // Cursor bookkeeping.
            has_cursor(final(self).entries@) == (has_cursor(old(self).entries@) || is_cursor(
                node.kind,
            )),
            (at_most_one_cursor(old(self).entries@) && (!is_cursor(node.kind) || !has_cursor(
                old(self).entries@,
            ))) ==> at_most_one_cursor(final(self).entries@),
    {
        let pidx = self.find_index(parent_id).unwrap();
        let parent_actual = self.entries[pidx].node.actual_shape;
        proof {
            // The parent's actual shape is well-formed: the root's comes
            // from truncation, a child's from intersection; both are
            // recorded well-formed by construction, which wf carries as
            // containment only.  Recover well-formedness from wf.
            if pidx > 0 {
                assert(child_linked(self.entries@, pidx as int));
            }
        }
        let actual_shape = parent_actual.intersect(&node.actual_shape);
        let entry = Entry { parent_id, node: Node { actual_shape, ..node } };
        let ghost olds = self.entries@;
        self.entries.push(entry);
        proof {
            let s = self.entries@;
            let n = olds.len() as int;
            assert(s == olds.push(entry));
            assert forall|i: int| 1 <= i < s.len() implies child_linked(s, i) by {
                if i < n {
                    assert(child_linked(olds, i));
                    let p = choose|p: int|
                        0 <= p < i && (#[trigger] olds[p]).node.id == olds[i].parent_id
                            && olds[p].node.actual_shape.spec_contains(olds[i].node.actual_shape);
                    assert(s[p] == olds[p]);
                    assert(s[i] == olds[i]);
                } else {
                    assert(s[pidx as int] == olds[pidx as int]);
                    assert(s[i] == entry);
                }
            }
            assert(ids_distinct(s)) by {
                assert forall|i: int, j: int| 0 <= i < j < s.len() implies (
                #[trigger] s[i]).node.id != (#[trigger] s[j]).node.id by {
                    if j < n {
                        assert(olds[i].node.id != olds[j].node.id);
                    } else {
                        if contains_id(olds, s[j].node.id) {
                        }
                        assert(s[i] == olds[i]);
                        if s[i].node.id == node.id {
                            lemma_index_of_id(olds, i);
                            assert(contains_id(olds, node.id));
                        }
                    }
                }
            }
            lemma_index_of_id(s, n);
            assert(node_of(s, node.id) == entry.node);
            assert forall|id2: usize| contains_id(olds, id2) implies #[trigger] contains_id(
                s,
                id2,
            ) && node_of(s, id2) == node_of(olds, id2) && parent_id_of(s, id2) == parent_id_of(
                olds,
                id2,
            ) by {
                let i = index_of_id(olds, id2);
                assert(0 <= i < n && olds[i].node.id == id2);
                assert(s[i] == olds[i]);
                lemma_index_of_id(s, i);
            }
            assert(contains_id(s, parent_id));
            assert(node_of(s, parent_id) == node_of(olds, parent_id));
            if has_cursor(olds) {
                let i = choose|i: int| 0 <= i < olds.len() && is_cursor(
                    (#[trigger] olds[i]).node.kind);
                assert(s[i] == olds[i]);
                assert(has_cursor(s));
            }
            if is_cursor(node.kind) {
                assert(is_cursor(s[n].node.kind));
            }
            if has_cursor(s) && !has_cursor(olds) && !is_cursor(node.kind) {
                let i = choose|i: int| 0 <= i < s.len() && is_cursor((#[trigger] s[i]).node.kind);
                if i < n {
                    assert(is_cursor(olds[i].node.kind));
                }
                assert(false);
            }
            if at_most_one_cursor(olds) && (!is_cursor(node.kind) || !has_cursor(olds)) {
                assert forall|i: int, j: int|
                    (0 <= i < s.len() && 0 <= j < s.len() && is_cursor(
                        (#[trigger] s[i]).node.kind,
                    ) && is_cursor((#[trigger] s[j]).node.kind)) implies i == j by {
                    if i < n && j < n {
                        assert(is_cursor(olds[i].node.kind) && is_cursor(olds[j].node.kind));
                    } else if i < n {
                        assert(is_cursor(olds[i].node.kind));
                        assert(has_cursor(olds));
                    } else if j < n {
                        assert(is_cursor(olds[j].node.kind));
                        assert(has_cursor(olds));
                    }
                }
            }
        }
        node.id
    }

    /// Remove the node with this id and drop its entire subtree,
    /// returning ownership of the removed node itself to the caller
    /// (which is how a node is relocated to a new parent).  Removing an
    /// absent id or the root removes nothing.
    #[verifier::rlimit(100)]
    pub fn remove(&mut self, id: usize) -> (r: Option<Node>)
        requires
            old(self).wf(),
        ensures
            final(self).wf(),
            (!contains_id(old(self).entries@, id) || id == old(self).spec_root_id()) ==> (
            r.is_none() && *final(self) == *old(self)),
            (contains_id(old(self).entries@, id) && id != old(self).spec_root_id()) ==> {
                &&& r == Some(node_of(old(self).entries@, id))
                &&& !contains_id(final(self).entries@, id)
                &&& final(self).spec_root_id() == old(self).spec_root_id()
                // Exactly the nodes outside the removed subtree remain,
                // unchanged.
                &&& forall|id2: usize|
                    #[trigger] contains_id(final(self).entries@, id2) ==> contains_id(
                        old(self).entries@,
                        id2,
                    ) && !in_subtree(old(self).entries@, id2, id) && node_of(
                        final(self).entries@,
                        id2,
                    ) == node_of(old(self).entries@, id2) && parent_id_of(
                        final(self).entries@,
                        id2,
                    ) == parent_id_of(old(self).entries@, id2)
                &&& forall|id2: usize|
                    (contains_id(old(self).entries@, id2) && !in_subtree(
                        old(self).entries@,
                        id2,
                        id,
                    )) ==> #[trigger] contains_id(final(self).entries@, id2)
                // Cursor bookkeeping: removing the cursor leaves no
                // cursor; a cursor never appears out of nowhere.
                &&& (is_cursor(node_of(old(self).entries@, id).kind) && at_most_one_cursor(
                    old(self).entries@,
                )) ==> !has_cursor(final(self).entries@)
                &&& has_cursor(final(self).entries@) ==> has_cursor(old(self).entries@)
                &&& at_most_one_cursor(old(self).entries@) ==> at_most_one_cursor(
                    final(self).entries@,
                )
            },
    {
        let idx = match self.find_index(id) {
            Some(idx) => idx,
            None => {
                return None;
            },
        };
        if idx == 0 {
            return None;
        }
        proof {
            lemma_index_of_id(self.entries@, 0);
        }
        let removed = self.entries[idx].node;
        let n = self.entries.len();
        let mut kept: Vec<Entry> = Vec::new();
        let mut dead_ids: Vec<usize> = Vec::new();
        dead_ids.push(id);
        proof {
            assert(dead_ids@.len() == 1 && dead_ids@[0] == id);
            assert(dead_ids@.contains(id));
        }
        let ghost s = self.entries@;
        let ghost mut kept_src: Seq<int> = Seq::empty();
        let mut i: usize = 0;
        while i < n
            invariant
                self == old(self),
                old(self).wf(),
                s == self.entries@,
                1 <= idx < n == s.len(),
                s[idx as int].node.id == id,
                index_of_id(s, id) == idx,
                i <= n,
                // Dead ids name entries of the removed subtree, each
                // already processed or the subtree root itself.
                forall|d: int|
                    0 <= d < dead_ids@.len() ==> exists|j: int|
                        (0 <= j < i || j == idx) && (#[trigger] s[j]).node.id
                            == #[trigger] dead_ids@[d] && in_subtree_at(s, j, idx as int),
                // Every processed subtree entry is recorded dead.
                forall|j: int|
                    0 <= j < i && in_subtree_at(s, j, idx as int) ==> dead_ids@.contains(
                        (#[trigger] s[j]).node.id,
                    ),
                dead_ids@.contains(id),
                // The kept entries are exactly the processed entries
                // outside the subtree, in order.
                kept@.len() == kept_src.len(),
                forall|k: int| 0 <= k < kept_src.len() ==> 0 <= #[trigger] kept_src[k] < i,
                forall|k1: int, k2: int|
                    0 <= k1 < k2 < kept_src.len() ==> #[trigger] kept_src[k1]
                        < #[trigger] kept_src[k2],
                forall|k: int|
                    0 <= k < kept_src.len() ==> #[trigger] kept@[k] == s[kept_src[k]],
                forall|k: int|
                    0 <= k < kept_src.len() ==> !in_subtree_at(s, #[trigger] kept_src[k],
                    idx as int),
                forall|j: int|
                    0 <= j < i && !in_subtree_at(s, j, idx as int) ==> exists|k: int|
                        0 <= k < kept_src.len() && #[trigger] kept_src[k] == j,
            decreases n - i,
        {
            if i == idx {
                proof {
                    assert(in_subtree_at(s, i as int, idx as int));
                }
            } else {
                let pid = self.entries[i].parent_id;
                let mut is_dead = false;
                if i > idx {
                    is_dead = contains_usize(&dead_ids, pid);
                }
                proof {
                    if i < idx {
                        lemma_subtree_below(s, i as int, idx as int);
                    } else {
                        // For entries after the subtree root, the dead
                        // list decides exactly subtree membership.
                        assert(child_linked(s, i as int));
                        let pw = choose|p: int|
                            0 <= p < i && (#[trigger] s[p]).node.id == s[i as int].parent_id
                                && s[p].node.actual_shape.spec_contains(
                                s[i as int].node.actual_shape,
                            );
                        let pc = parent_index(s, i as int);
                        assert(0 <= pc < i && s[pc].node.id == s[i as int].parent_id);
                        if pc != pw {
                            if pc < pw {
                                assert(s[pc].node.id != s[pw].node.id);
                            } else {
                                assert(s[pw].node.id != s[pc].node.id);
                            }
                        }
                        if is_dead {
                            let d = choose|d: int|
                                0 <= d < dead_ids@.len() && dead_ids@[d] == pid;
                            let j = choose|j: int|
                                (0 <= j < i || j == idx) && (#[trigger] s[j]).node.id
                                    == dead_ids@[d] && in_subtree_at(s, j, idx as int);
                            if j != pc {
                                if j < pc {
                                    assert(s[j].node.id != s[pc].node.id);
                                } else {
                                    assert(s[pc].node.id != s[j].node.id);
                                }
                            }
                            assert(in_subtree_at(s, pc, idx as int));
                            assert(in_subtree_at(s, i as int, idx as int));
                        } else {
                            if in_subtree_at(s, i as int, idx as int) {
                                assert(in_subtree_at(s, pc, idx as int));
                                assert(dead_ids@.contains(s[pc].node.id));
                                let d = choose|d: int|
                                    0 <= d < dead_ids@.len() && dead_ids@[d] == s[pc].node.id;
                                assert(dead_ids@[d] == pid);
                                assert(false);
                            }
                        }
                    }
                }
                if is_dead {
                    let ghost prevd = dead_ids@;
                    dead_ids.push(self.entries[i].node.id);
                    proof {
                        assert forall|j: int|
                            0 <= j < i + 1 && in_subtree_at(s, j, idx as int) implies dead_ids@
                            .contains((#[trigger] s[j]).node.id) by {
                            if j < i {
                                assert(prevd.contains(s[j].node.id));
                                let d = choose|d: int|
                                    0 <= d < prevd.len() && #[trigger] prevd[d] == s[j].node.id;
                                assert(dead_ids@[d] == s[j].node.id);
                            } else {
                                assert(dead_ids@[dead_ids@.len() - 1] == s[i as int].node.id);
                            }
                        }
                        assert(dead_ids@.contains(id)) by {
                            let d = choose|d: int| 0 <= d < prevd.len() && #[trigger] prevd[d]
                                == id;
                            assert(dead_ids@[d] == id);
                        }
                        assert forall|d: int| 0 <= d < dead_ids@.len() implies exists|j: int|
                            (0 <= j < i + 1 || j == idx) && (#[trigger] s[j]).node.id
                                == #[trigger] dead_ids@[d] && in_subtree_at(s, j, idx as int) by {
                            if d < dead_ids@.len() - 1 {
                                let j = choose|j: int|
                                    (0 <= j < i || j == idx) && (#[trigger] s[j]).node.id
                                        == dead_ids@[d] && in_subtree_at(s, j, idx as int);
                                assert((0 <= j < i + 1 || j == idx) && s[j].node.id
                                    == dead_ids@[d] && in_subtree_at(s, j, idx as int));
                            } else {
                                assert((0 <= i < i + 1) && s[i as int].node.id == dead_ids@[d]
                                    && in_subtree_at(s, i as int, idx as int));
                            }
                        }
                    }
                } else {
                    kept.push(self.entries[i]);
                    proof {
                        let prev = kept_src;
                        kept_src = kept_src.push(i as int);
                        assert forall|j: int|
                            0 <= j < i + 1 && !in_subtree_at(s, j, idx as int) implies exists|
                        k: int|
                            0 <= k < kept_src.len() && #[trigger] kept_src[k] == j by {
                            if j < i {
                                let k = choose|k: int|
                                    0 <= k < prev.len() && #[trigger] prev[k] == j;
                                assert(kept_src[k] == j);
                            } else {
                                assert(kept_src[kept_src.len() - 1] == j);
                            }
                        }
                    }
                }
            }
            i += 1;
        }
        self.entries = kept;
        proof {
            let fs = self.entries@;
            // The root survives: it stands before the removed node.
            lemma_subtree_below(s, 0, idx as int);
            let k0 = choose|k: int| 0 <= k < kept_src.len() && #[trigger] kept_src[k] == 0;
            assert(kept_src[0] >= 0);
            if k0 > 0 {
                assert(kept_src[0] < kept_src[k0]);
            }
            assert(kept_src[0] == 0);
            assert(fs[0] == s[0]);
            assert(ids_distinct(fs)) by {
                assert forall|a: int, b: int| 0 <= a < b < fs.len() implies (
                #[trigger] fs[a]).node.id != (#[trigger] fs[b]).node.id by {
                    assert(fs[a] == s[kept_src[a]]);
                    assert(fs[b] == s[kept_src[b]]);
                    assert(kept_src[a] < kept_src[b]);
                }
            }
            assert forall|k: int| 1 <= k < fs.len() implies child_linked(fs, k) by {
                let j = kept_src[k];
                assert(fs[k] == s[j]);
                assert(kept_src[0] < kept_src[k]);
                assert(j >= 1);
                assert(child_linked(s, j));
                let pw = choose|p: int|
                    0 <= p < j && (#[trigger] s[p]).node.id == s[j].parent_id
                        && s[p].node.actual_shape.spec_contains(s[j].node.actual_shape);
                let pc = parent_index(s, j);
                assert(0 <= pc < j && s[pc].node.id == s[j].parent_id);
                if pc != pw {
                    if pc < pw {
                        assert(s[pc].node.id != s[pw].node.id);
                    } else {
                        assert(s[pw].node.id != s[pc].node.id);
                    }
                }
                assert(!in_subtree_at(s, j, idx as int));
                assert(j != idx);
                assert(!in_subtree_at(s, pc, idx as int));
                let kp = choose|kp: int|
                    0 <= kp < kept_src.len() && #[trigger] kept_src[kp] == pc;
                assert(fs[kp] == s[pc]);
                assert(kp < k) by {
                    if kp >= k {
                        if kp > k {
                            assert(kept_src[k] < kept_src[kp]);
                        }
                    }
                }
                assert(0 <= kp < k && fs[kp].node.id == fs[k].parent_id
                    && fs[kp].node.actual_shape.spec_contains(fs[k].node.actual_shape));
            }
            // Membership, in both directions.
            assert forall|id2: usize| #[trigger] contains_id(fs, id2) implies contains_id(
                s,
                id2,
            ) && !in_subtree(s, id2, id) && node_of(fs, id2) == node_of(s, id2) && parent_id_of(
                fs,
                id2,
            ) == parent_id_of(s, id2) by {
                let k = index_of_id(fs, id2);
                assert(0 <= k < fs.len() && fs[k].node.id == id2);
                let j = kept_src[k];
                assert(fs[k] == s[j]);
                lemma_index_of_id(s, j);
                assert(contains_id(s, id2));
                assert(index_of_id(s, id2) == j);
                assert(!in_subtree_at(s, j, idx as int));
            }
            assert forall|id2: usize|
                (contains_id(s, id2) && !in_subtree(s, id2, id)) implies #[trigger] contains_id(
                fs,
                id2,
            ) by {
                let j = index_of_id(s, id2);
                assert(0 <= j < s.len() && s[j].node.id == id2);
                assert(!in_subtree_at(s, j, idx as int));
                let k = choose|k: int| 0 <= k < kept_src.len() && #[trigger] kept_src[k] == j;
                assert(fs[k] == s[j]);
                assert(fs[k].node.id == id2);
            }
            assert(!contains_id(fs, id)) by {
                if contains_id(fs, id) {
                    let k = index_of_id(fs, id);
                    assert(0 <= k < fs.len() && fs[k].node.id == id);
                    let j = kept_src[k];
                    assert(fs[k] == s[j]);
                    lemma_index_of_id(s, j);
                    assert(j == idx);
                    assert(in_subtree_at(s, idx as int, idx as int));
                }
            }
            assert(node_of(s, id) == removed);
            // Cursor bookkeeping.
            if has_cursor(fs) {
                let c = choose|c: int| 0 <= c < fs.len() && is_cursor((#[trigger] fs[c]).node.kind);
                let j = kept_src[c];
                assert(fs[c] == s[j]);
                assert(has_cursor(s));
                if is_cursor(node_of(s, id).kind) && at_most_one_cursor(s) {
                    assert(is_cursor(s[j].node.kind));
                    assert(is_cursor(s[idx as int].node.kind));
                    assert(j == idx);
                    assert(!in_subtree_at(s, j, idx as int));
                    assert(in_subtree_at(s, idx as int, idx as int));
                    assert(false);
                }
            }
            if at_most_one_cursor(s) {
                assert forall|a: int, b: int|
                    (0 <= a < fs.len() && 0 <= b < fs.len() && is_cursor(
                        (#[trigger] fs[a]).node.kind,
                    ) && is_cursor((#[trigger] fs[b]).node.kind)) implies a == b by {
                    assert(fs[a] == s[kept_src[a]]);
                    assert(fs[b] == s[kept_src[b]]);
                    assert(kept_src[a] == kept_src[b]);
                    if a != b {
                        if a < b {
                            assert(kept_src[a] < kept_src[b]);
                        } else {
                            assert(kept_src[b] < kept_src[a]);
                        }
                    }
                }
            }
        }
        Some(removed)
    }

    /// The id of the cursor node, when one is here.
    pub fn find_cursor_id(&self) -> (r: Option<usize>)
        requires
            self.wf(),
        ensures
            r.is_some() == has_cursor(self.entries@),
            r.is_some() ==> contains_id(self.entries@, r.unwrap()) && is_cursor(
                node_of(self.entries@, r.unwrap()).kind,
            ),
    {
        let n = self.entries.len();
        let mut i: usize = 0;
        while i < n
            invariant
                self.wf(),
                i <= n == self.entries@.len(),
                forall|j: int| 0 <= j < i ==> !is_cursor((#[trigger] self.entries@[j]).node.kind),
            decreases n - i,
        {
            if node_is_cursor(&self.entries[i].node.kind) {
                proof {
                    lemma_index_of_id(self.entries@, i as int);
                }
                return Some(self.entries[i].node.id);
            }
            i += 1;
        }
        None
    }

    /// The id of the parent currently owning the cursor node, when a
    /// cursor is here.
    pub fn find_cursor_owner(&self) -> (r: Option<usize>)
        requires
            self.wf(),
        ensures
            r.is_some() == has_cursor(self.entries@),
            r.is_some() ==> exists|i: int|
                0 <= i < self.entries@.len() && is_cursor((#[trigger] self.entries@[i]).node.kind)
                    && self.entries@[i].parent_id == r.unwrap(),
    {
        let n = self.entries.len();
        let mut i: usize = 0;
        while i < n
            invariant
                self.wf(),
                i <= n == self.entries@.len(),
                forall|j: int| 0 <= j < i ==> !is_cursor((#[trigger] self.entries@[j]).node.kind),
            decreases n - i,
        {
            if node_is_cursor(&self.entries[i].node.kind) {
                return Some(self.entries[i].parent_id);
            }
            i += 1;
        }
        None
    }

    /// No entry names this id as its parent.
    pub open spec fn spec_is_leaf(self, id: usize) -> bool {
        forall|i: int|
            1 <= i < self.entries.len() ==> (#[trigger] self.entries[i]).parent_id != id
    }

    /// Move a leaf node to cell `(x, y)`: its pre-layout shape becomes
    /// the one-cell rectangle there, and its actual shape that rectangle
    /// clipped into its parent's actual shape.
    pub fn move_node_to(&mut self, id: usize, x: u16, y: u16)
        requires
            old(self).wf(),
            contains_id(old(self).entries@, id),
            id != old(self).spec_root_id(),
            old(self).spec_is_leaf(id),
            x < u16::MAX,
            y < u16::MAX,
        ensures
            final(self).wf(),
            final(self).entries@.len() == old(self).entries@.len(),
            final(self).spec_root_id() == old(self).spec_root_id(),
            forall|id2: usize|
                #[trigger] contains_id(final(self).entries@, id2) == contains_id(
                    old(self).entries@,
                    id2,
                ),
            forall|id2: usize|
                (contains_id(old(self).entries@, id2) && id2 != id) ==> #[trigger] node_of(
                    final(self).entries@,
                    id2,
                ) == node_of(old(self).entries@, id2),
            forall|id2: usize|
                contains_id(old(self).entries@, id2) ==> #[trigger] parent_id_of(
                    final(self).entries@,
                    id2,
                ) == parent_id_of(old(self).entries@, id2),
            node_of(final(self).entries@, id).id == id,
            node_of(final(self).entries@, id).kind == node_of(old(self).entries@, id).kind,
            node_of(final(self).entries@, id).actual_shape == node_of(
                old(self).entries@,
                parent_id_of(old(self).entries@, id),
            ).actual_shape.spec_intersect(
                U16Rect { min_x: x, min_y: y, max_x: (x + 1) as u16, max_y: (y + 1) as u16 },
            ),
            has_cursor(final(self).entries@) == has_cursor(old(self).entries@),
            at_most_one_cursor(old(self).entries@) ==> at_most_one_cursor(final(self).entries@),
            forall|i: int|
                0 <= i < final(self).entries@.len() ==> (#[trigger] final(self).entries@[i]).parent_id
                    == old(self).entries@[i].parent_id && final(self).entries@[i].node.id == old(
                    self,
                ).entries@[i].node.id && final(self).entries@[i].node.kind == old(
                    self,
                ).entries@[i].node.kind,
    {
        proof {
            lemma_index_of_id(self.entries@, 0);
        }
        let m = self.find_index(id).unwrap();
        let pid = self.entries[m].parent_id;
        proof {
            assert(m >= 1) by {
                if m == 0 {
                    assert(self.entries@[0].node.id == id);
                }
            }
            assert(child_linked(self.entries@, m as int));
        }
        let pm = self.find_index(pid).unwrap();
        proof {
            let s = self.entries@;
            let pw = choose|p: int|
                0 <= p < m && (#[trigger] s[p]).node.id == s[m as int].parent_id
                    && s[p].node.actual_shape.spec_contains(s[m as int].node.actual_shape);
            assert(contains_id(s, pid)) by {
                assert(s[pw].node.id == pid);
                lemma_index_of_id(s, pw);
            }
            lemma_index_of_id(s, pw);
            assert(pm == pw);
        }
        let parent_actual = self.entries[pm].node.actual_shape;
        let cell = U16Rect { min_x: x, min_y: y, max_x: x + 1, max_y: y + 1 };
        let actual_shape = parent_actual.intersect(&cell);
        let old_entry = self.entries[m];
        let new_shape = IRect {
            min_x: x as i32,
            min_y: y as i32,
            max_x: x as i32 + 1,
            max_y: y as i32 + 1,
        };
        let new_entry = Entry {
            parent_id: old_entry.parent_id,
            node: Node { shape: new_shape, actual_shape, ..old_entry.node },
        };
        let ghost olds = self.entries@;
        self.entries.set(m, new_entry);
        proof {
            let s = self.entries@;
            assert(s[0] == olds[0]);
            assert(ids_distinct(s)) by {
                assert forall|a: int, b: int| 0 <= a < b < s.len() implies (
                #[trigger] s[a]).node.id != (#[trigger] s[b]).node.id by {
                    assert(s[a].node.id == olds[a].node.id);
                    assert(s[b].node.id == olds[b].node.id);
                }
            }
            assert forall|i: int| 1 <= i < s.len() implies child_linked(s, i) by {
                assert(child_linked(olds, i));
                let pw = choose|p: int|
                    0 <= p < i && (#[trigger] olds[p]).node.id == olds[i].parent_id
                        && olds[p].node.actual_shape.spec_contains(olds[i].node.actual_shape);
                if i == m {
                    assert(s[pm as int].node.id == s[i].parent_id
                        && s[pm as int].node.actual_shape.spec_contains(s[i].node.actual_shape));
                } else {
                    assert(olds[i] == s[i]);
                    assert(pw != m) by {
                        if pw == m {
                            assert(olds[i].parent_id == id);
                        }
                    }
                    assert(s[pw] == olds[pw]);
                }
            }
            assert forall|id2: usize| #[trigger] contains_id(s, id2) == contains_id(
                olds,
                id2,
            ) by {
                if contains_id(s, id2) {
                    let i = index_of_id(s, id2);
                    assert(olds[i].node.id == id2);
                    lemma_index_of_id(olds, i);
                }
                if contains_id(olds, id2) {
                    let i = index_of_id(olds, id2);
                    assert(s[i].node.id == id2);
                    lemma_index_of_id(s, i);
                }
            }
            assert forall|id2: usize| (contains_id(olds, id2) && id2 != id) implies #[trigger] node_of(
                s,
                id2,
            ) == node_of(olds, id2) by {
                let i = index_of_id(olds, id2);
                assert(s[i].node.id == id2);
                lemma_index_of_id(s, i);
            }
            assert forall|id2: usize| contains_id(olds, id2) implies #[trigger] parent_id_of(
                s,
                id2,
            ) == parent_id_of(olds, id2) by {
                let i = index_of_id(olds, id2);
                assert(s[i].node.id == id2);
                lemma_index_of_id(s, i);
            }
            lemma_index_of_id(olds, m as int);
            lemma_index_of_id(s, m as int);
            assert(node_of(s, id) == new_entry.node);
            assert(node_of(olds, pid) == olds[pm as int].node);
            if has_cursor(olds) {
                let c = choose|c: int| 0 <= c < olds.len() && is_cursor(
                    (#[trigger] olds[c]).node.kind);
                assert(is_cursor(s[c].node.kind));
            }
            if has_cursor(s) {
                let c = choose|c: int| 0 <= c < s.len() && is_cursor((#[trigger] s[c]).node.kind);
                assert(is_cursor(olds[c].node.kind));
            }
            if at_most_one_cursor(olds) {
                assert forall|a: int, b: int|
                    (0 <= a < s.len() && 0 <= b < s.len() && is_cursor(
                        (#[trigger] s[a]).node.kind,
                    ) && is_cursor((#[trigger] s[b]).node.kind)) implies a == b by {
                    assert(is_cursor(olds[a].node.kind) && is_cursor(olds[b].node.kind));
                }
            }
        }
    }

    /// Replace the capability payload of one node, keeping its place and
    /// shapes: restyling the cursor, or changing the indicator symbol.
    pub fn set_kind(&mut self, id: usize, kind: NodeKind)
        requires
            old(self).wf(),
            contains_id(old(self).entries@, id),
            is_cursor(kind) == is_cursor(node_of(old(self).entries@, id).kind),
        ensures
            final(self).wf(),
            final(self).entries@.len() == old(self).entries@.len(),
            final(self).spec_root_id() == old(self).spec_root_id(),
            forall|id2: usize|
                #[trigger] contains_id(final(self).entries@, id2) == contains_id(
                    old(self).entries@,
                    id2,
                ),
            forall|id2: usize|
                (contains_id(old(self).entries@, id2) && id2 != id) ==> #[trigger] node_of(
                    final(self).entries@,
                    id2,
                ) == node_of(old(self).entries@, id2),
            forall|id2: usize|
                contains_id(old(self).entries@, id2) ==> #[trigger] parent_id_of(
                    final(self).entries@,
                    id2,
                ) == parent_id_of(old(self).entries@, id2),
            node_of(final(self).entries@, id) == (Node {
                kind,
                ..node_of(old(self).entries@, id)
            }),
            has_cursor(final(self).entries@) == has_cursor(old(self).entries@),
            at_most_one_cursor(old(self).entries@) ==> at_most_one_cursor(final(self).entries@),
            final(self).spec_is_leaf(id) == old(self).spec_is_leaf(id),
            forall|i: int|
                0 <= i < final(self).entries@.len() ==> (#[trigger] final(self).entries@[i]).parent_id
                    == old(self).entries@[i].parent_id && final(self).entries@[i].node.id == old(
                    self,
                ).entries@[i].node.id,
    {
        let m = self.find_index(id).unwrap();
        let old_entry = self.entries[m];
        let new_entry = Entry {
            parent_id: old_entry.parent_id,
            node: Node { kind, ..old_entry.node },
        };
        let ghost olds = self.entries@;
        self.entries.set(m, new_entry);
        proof {
            let s = self.entries@;
            assert(s[0].node.id == olds[0].node.id);
            assert(s[0].parent_id == olds[0].parent_id);
            assert(ids_distinct(s)) by {
                assert forall|a: int, b: int| 0 <= a < b < s.len() implies (
                #[trigger] s[a]).node.id != (#[trigger] s[b]).node.id by {
                    assert(s[a].node.id == olds[a].node.id);
                    assert(s[b].node.id == olds[b].node.id);
                }
            }
            assert forall|i: int| 1 <= i < s.len() implies child_linked(s, i) by {
                assert(child_linked(olds, i));
                let pw = choose|p: int|
                    0 <= p < i && (#[trigger] olds[p]).node.id == olds[i].parent_id
                        && olds[p].node.actual_shape.spec_contains(olds[i].node.actual_shape);
                assert(s[pw].node.id == olds[pw].node.id);
                assert(s[pw].node.actual_shape == olds[pw].node.actual_shape);
                assert(s[i].parent_id == olds[i].parent_id);
                assert(s[i].node.actual_shape == olds[i].node.actual_shape);
            }
            assert forall|id2: usize| #[trigger] contains_id(s, id2) == contains_id(
                olds,
                id2,
            ) by {
                if contains_id(s, id2) {
                    let i = index_of_id(s, id2);
                    assert(olds[i].node.id == id2);
                    lemma_index_of_id(olds, i);
                }
                if contains_id(olds, id2) {
                    let i = index_of_id(olds, id2);
                    assert(s[i].node.id == id2);
                    lemma_index_of_id(s, i);
                }
            }
            assert forall|id2: usize| (contains_id(olds, id2) && id2 != id) implies #[trigger] node_of(
                s,
                id2,
            ) == node_of(olds, id2) by {
                let i = index_of_id(olds, id2);
                assert(s[i].node.id == id2);
                lemma_index_of_id(s, i);
            }
            assert forall|id2: usize| contains_id(olds, id2) implies #[trigger] parent_id_of(
                s,
                id2,
            ) == parent_id_of(olds, id2) by {
                let i = index_of_id(olds, id2);
                assert(s[i].node.id == id2);
                lemma_index_of_id(s, i);
            }
            lemma_index_of_id(olds, m as int);
            lemma_index_of_id(s, m as int);
            assert(node_of(s, id) == new_entry.node);
            assert forall|i: int| 1 <= i < s.len() implies (#[trigger] s[i]).parent_id
                == olds[i].parent_id by {}
            assert(self.spec_is_leaf(id) == old(self).spec_is_leaf(id)) by {
                if old(self).spec_is_leaf(id) {
                    assert forall|i: int| 1 <= i < s.len() implies (
                    #[trigger] s[i]).parent_id != id by {
                        assert(olds[i].parent_id != id);
                    }
                } else {
                    let i = choose|i: int|
                        1 <= i < olds.len() && (#[trigger] olds[i]).parent_id == id;
                    assert(s[i].parent_id == id);
                }
            }
            if has_cursor(olds) {
                let c = choose|c: int| 0 <= c < olds.len() && is_cursor(
                    (#[trigger] olds[c]).node.kind);
                assert(is_cursor(s[c].node.kind));
            }
            if has_cursor(s) {
                let c = choose|c: int| 0 <= c < s.len() && is_cursor((#[trigger] s[c]).node.kind);
                assert(is_cursor(olds[c].node.kind));
            }
            if at_most_one_cursor(olds) {
                assert forall|a: int, b: int|
                    (0 <= a < s.len() && 0 <= b < s.len() && is_cursor(
                        (#[trigger] s[a]).node.kind,
                    ) && is_cursor((#[trigger] s[b]).node.kind)) implies a == b by {
                    assert(is_cursor(olds[a].node.kind) && is_cursor(olds[b].node.kind));
                }
            }
        }
    }
}

/// Executable test for [`is_cursor`].
pub fn node_is_cursor(k: &NodeKind) -> (r: bool)
    ensures
        r == is_cursor(*k),
{
    match k {
        NodeKind::Cursor { .. } => true,
        _ => false,
    }
}

/// Whether a vector of ids holds one id.
fn contains_usize(v: &Vec<usize>, x: usize) -> (r: bool)
    ensures
        r == v@.contains(x),
{
    let n = v.len();
    let mut i: usize = 0;
    while i < n
        invariant
            i <= n == v@.len(),
            forall|j: int| 0 <= j < i ==> v@[j] != x,
        decreases n - i,
    {
        if v[i] == x {
            return true;
        }
        i += 1;
    }
    false
}

/// The whole user interface: the window, the command line, and the id
/// source they share.  The cursor node lives in exactly one of the two
/// at any time; editing focus moves it by remove-then-insert, never by
/// copying.
#[derive(Clone, Debug)]
pub struct Tree {
    pub window: Window,
    pub command_line: CommandLine,
    pub ids: IdAlloc,
}

impl Tree {
    /// Well-formedness against the shared text store: both widgets are
    /// well-formed, no id lives in both, and exactly one cursor exists
    /// across the whole tree.
    pub open spec fn wf(self, contents: TextContents) -> bool {
        &&& self.window.wf(contents.window)
        &&& self.command_line.wf(contents.command_line)
        &&& forall|id: usize|
            #[trigger] contains_id(self.window.base.entries@, id) ==> !contains_id(
                self.command_line.base.entries@,
                id,
            )
        &&& has_cursor(self.window.base.entries@) != has_cursor(
            self.command_line.base.entries@,
        )
    }

    /// Assemble the whole user interface: one window showing the window
    /// buffer (holding the cursor), and one command line showing the
    /// command-line buffer.
    pub fn new(
        contents: &TextContents,
        window_shape: IRect,
        window_options: WindowOptions,
        command_line_shape: IRect,
    ) -> (r: Tree)
        requires
            contents.wf(),
            window_shape.wf(),
            window_options.wf(),
            command_line_shape.wf(),
        ensures
            r.wf(*contents),
            r.window.cursor_id.is_some(),
            r.command_line.cursor_id.is_none(),
    {
        let mut ids = IdAlloc::new();
        let window = Window::new(&mut ids, window_shape, window_options, &contents.window);
        let builder = CommandLineBuilder::new().with_shape(command_line_shape)
            .with_text_contents(contents.command_line.duplicate());
        let command_line = builder.build(&mut ids);
        proof {
            assert forall|id: usize| #[trigger] contains_id(window.base.entries@, id)
                implies !contains_id(command_line.base.entries@, id) by {
                if contains_id(command_line.base.entries@, id) {
                }
            }
            crate::ui::widget::command_line::lemma_wf_same_text(
                command_line,
                builder.text_contents,
                contents.command_line,
            );
        }
        Tree { window, command_line, ids }
    }
}

} // verus!