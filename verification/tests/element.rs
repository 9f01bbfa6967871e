use remyx::element::{Node, Tree};
use std::any::TypeId;
use std::cell::Cell;

struct Block;
struct ListWidget;
struct TableWidget;

fn leaf(id: TypeId, state: Option<u32>) -> Node<u32> {
    Node { id, state, children: Vec::new() }
}

fn read(tree: &Tree<u32>) -> u32 {
    tree.state(|s: &u32| *s)
}

#[test]
fn init_takes_fresh_states_of_every_element() {
    let view = Node {
        id: TypeId::of::<Block>(),
        state: None,
        children: vec![
            leaf(TypeId::of::<ListWidget>(), Some(1)),
            leaf(TypeId::of::<TableWidget>(), Some(2)),
        ],
    };
    let tree = Tree::init(view);
    assert_eq!(tree.children().len(), 2);
    assert_eq!(read(&tree.children()[0]), 1);
    assert_eq!(read(&tree.children()[1]), 2);
}

#[test]
fn diff_with_same_layout_keeps_widget_state() {
    // widget states live in cells, as they do behind the runner's shared tree
    let view = || Node {
        id: TypeId::of::<Block>(),
        state: None,
        children: vec![Node {
            id: TypeId::of::<ListWidget>(),
            state: Some(Cell::new(0u32)),
            children: Vec::new(),
        }],
    };
    let mut tree = Tree::init(view());
    tree.children()[0].state(|s: &Cell<u32>| s.set(3));
    tree.diff(view());
    assert_eq!(tree.children()[0].state(|s: &Cell<u32>| s.get()), 3);

    let mut single = Tree::init(leaf(TypeId::of::<ListWidget>(), Some(0)));
    single.state_mut(|s: &mut u32| *s = 3);
    single.diff(leaf(TypeId::of::<ListWidget>(), Some(0)));
    assert_eq!(read(&single), 3);
}

#[test]
fn diff_rebuilds_node_of_another_kind() {
    let mut tree = Tree::init(leaf(TypeId::of::<ListWidget>(), Some(3)));
    tree.state_mut(|s: &mut u32| *s = 9);
    tree.diff(leaf(TypeId::of::<TableWidget>(), Some(4)));
    assert_eq!(read(&tree), 4);
}

#[test]
fn diff_drops_extra_children_and_builds_new_ones() {
    let mut tree = Tree::init(Node {
        id: TypeId::of::<Block>(),
        state: None,
        children: vec![
            leaf(TypeId::of::<ListWidget>(), Some(1)),
            leaf(TypeId::of::<TableWidget>(), Some(2)),
        ],
    });
    tree.diff(Node {
        id: TypeId::of::<Block>(),
        state: None,
        children: vec![leaf(TypeId::of::<ListWidget>(), Some(10))],
    });
    assert_eq!(tree.children().len(), 1);
    // the kept child keeps its state, not the view's fresh one
    assert_eq!(read(&tree.children()[0]), 1);

    tree.diff(Node {
        id: TypeId::of::<Block>(),
        state: None,
        children: vec![
            leaf(TypeId::of::<ListWidget>(), Some(10)),
            leaf(TypeId::of::<TableWidget>(), Some(20)),
            leaf(TypeId::of::<TableWidget>(), Some(30)),
        ],
    });
    assert_eq!(tree.children().len(), 3);
    assert_eq!(read(&tree.children()[0]), 1);
    assert_eq!(read(&tree.children()[1]), 20);
    assert_eq!(read(&tree.children()[2]), 30);
}

#[test]
fn diff_changes_kind_of_child_only() {
    let mut tree = Tree::init(Node {
        id: TypeId::of::<Block>(),
        state: Some(5),
        children: vec![leaf(TypeId::of::<ListWidget>(), Some(1))],
    });
    tree.diff(Node {
        id: TypeId::of::<Block>(),
        state: Some(50),
        children: vec![leaf(TypeId::of::<TableWidget>(), Some(7))],
    });
    assert_eq!(read(&tree), 5);
    assert_eq!(read(&tree.children()[0]), 7);
}

#[test]
fn redrawing_same_view_twice_changes_nothing() {
    let view = || Node {
        id: TypeId::of::<Block>(),
        state: Some(Cell::new(1u32)),
        children: vec![Node { id: TypeId::of::<TableWidget>(), state: Some(Cell::new(2u32)), children: Vec::new() }],
    };
    let mut tree = Tree::init(view());
    tree.state(|s: &Cell<u32>| s.set(10));
    tree.children()[0].state(|s: &Cell<u32>| s.set(20));
    tree.diff(view());
    tree.diff(view());
    assert_eq!(tree.state(|s: &Cell<u32>| s.get()), 10);
    assert_eq!(tree.children()[0].state(|s: &Cell<u32>| s.get()), 20);
}

#[test]
fn children_can_be_adjusted_before_a_diff() {
    let mut tree = Tree::init(Node {
        id: TypeId::of::<Block>(),
        state: None,
        children: vec![leaf(TypeId::of::<ListWidget>(), Some(1)), leaf(TypeId::of::<ListWidget>(), Some(2))],
    });
    assert_eq!(tree.id(), TypeId::of::<Block>());
    tree.children_mut().pop();
    assert_eq!(tree.children().len(), 1);
    tree.children_mut()[0].state_mut(|s: &mut u32| *s = 5);
    assert_eq!(read(&tree.children()[0]), 5);
}
