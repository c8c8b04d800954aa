//! Tests of the widget tree.

use rsvim_core::coord::IRect;
use rsvim_core::ui::canvas::CursorStyle;
use rsvim_core::ui::tree::{IdAlloc, Itree, Node, NodeKind};

#[test]
fn bounded_insert_clips_child_into_parent() {
    let mut ids = IdAlloc::new();
    let root = Node::new(
        ids.fresh(),
        NodeKind::RootContainer,
        IRect::new(0, 0, 10, 10),
    );
    let mut tree = Itree::new(root);
    let child = Node::new(ids.fresh(), NodeKind::Window, IRect::new(5, 5, 20, 20));
    let cid = tree.bounded_insert(root.id, child);
    let actual = tree.get(cid).actual_shape;
    // Clipped to the parent: fully contained.
    assert_eq!((actual.min_x, actual.min_y, actual.max_x, actual.max_y), (5, 5, 10, 10));
    let parent_actual = tree.get(root.id).actual_shape;
    assert!(parent_actual.contains(&actual));
}

#[test]
fn bounded_insert_clips_negative_coordinates() {
    let mut ids = IdAlloc::new();
    let root = Node::new(
        ids.fresh(),
        NodeKind::RootContainer,
        IRect::new(0, 0, 10, 10),
    );
    let mut tree = Itree::new(root);
    let child = Node::new(ids.fresh(), NodeKind::Window, IRect::new(-5, -5, 4, 4));
    let cid = tree.bounded_insert(root.id, child);
    let actual = tree.get(cid).actual_shape;
    assert_eq!((actual.min_x, actual.min_y, actual.max_x, actual.max_y), (0, 0, 4, 4));
}

#[test]
fn remove_returns_the_node_and_drops_its_subtree() {
    let mut ids = IdAlloc::new();
    let root = Node::new(
        ids.fresh(),
        NodeKind::RootContainer,
        IRect::new(0, 0, 10, 10),
    );
    let mut tree = Itree::new(root);
    let a = Node::new(ids.fresh(), NodeKind::Window, IRect::new(0, 0, 8, 8));
    let aid = tree.bounded_insert(root.id, a);
    let b = Node::new(
        ids.fresh(),
        NodeKind::Cursor { style: CursorStyle::SteadyBlock },
        IRect::new(0, 0, 1, 1),
    );
    let bid = tree.bounded_insert(aid, b);
    assert!(tree.contains(aid));
    assert!(tree.contains(bid));
    let removed = tree.remove(aid).unwrap();
    assert_eq!(removed.id, aid);
    assert!(!tree.contains(aid));
    // The subtree went with it.
    assert!(!tree.contains(bid));
    assert!(tree.contains(root.id));
}

#[test]
fn removing_the_root_removes_nothing() {
    let mut ids = IdAlloc::new();
    let root = Node::new(
        ids.fresh(),
        NodeKind::RootContainer,
        IRect::new(0, 0, 10, 10),
    );
    let mut tree = Itree::new(root);
    assert!(tree.remove(root.id).is_none());
    assert!(tree.contains(root.id));
    assert!(tree.remove(999).is_none());
}

#[test]
fn find_cursor_owner_names_the_parent() {
    let mut ids = IdAlloc::new();
    let root = Node::new(
        ids.fresh(),
        NodeKind::RootContainer,
        IRect::new(0, 0, 10, 10),
    );
    let mut tree = Itree::new(root);
    assert!(tree.find_cursor_id().is_none());
    assert!(tree.find_cursor_owner().is_none());
    let cursor = Node::new(
        ids.fresh(),
        NodeKind::Cursor { style: CursorStyle::SteadyBar },
        IRect::new(2, 2, 3, 3),
    );
    let cid = tree.bounded_insert(root.id, cursor);
    assert_eq!(tree.find_cursor_id(), Some(cid));
    assert_eq!(tree.find_cursor_owner(), Some(root.id));
}

#[test]
fn ids_are_monotonically_increasing() {
    let mut ids = IdAlloc::new();
    let a = ids.fresh();
    let b = ids.fresh();
    let c = ids.fresh();
    assert!(a < b && b < c);
}
