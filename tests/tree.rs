use wnfs_cli::{sample_widget_1, sample_widget_2, Point, Size, TreeState, TreeWidget, Widget, WidgetError, WidgetTree};

fn node(tree: &mut WidgetTree<u32>) -> usize {
    tree.add(Widget::default())
}

#[test]
fn attach_links_parent_and_child() {
    let mut tree: WidgetTree<u32> = WidgetTree::new();
    let p = node(&mut tree);
    let a = node(&mut tree);
    let b = node(&mut tree);
    assert_eq!(Widget::add_child(&mut tree, p, a), Ok(()));
    assert_eq!(Widget::add_child(&mut tree, p, b), Ok(()));
    assert_eq!(tree.children(p), &vec![a, b]);
    assert_eq!(tree.parent(a), Some(p));
    assert_eq!(tree.parent(b), Some(p));
    assert_eq!(tree.parent(p), None);
    assert_eq!(tree.len(), 3);
}

#[test]
fn second_attach_is_an_ownership_violation() {
    let mut tree: WidgetTree<u32> = WidgetTree::new();
    let p = node(&mut tree);
    let q = node(&mut tree);
    let c = node(&mut tree);
    assert_eq!(Widget::add_child(&mut tree, p, c), Ok(()));
    assert_eq!(Widget::add_child(&mut tree, q, c), Err(WidgetError::HasParent));
    assert_eq!(tree.children(p), &vec![c]);
    assert!(tree.children(q).is_empty());
    assert_eq!(tree.parent(c), Some(p));
}

#[test]
fn reattaching_to_the_same_parent_fails_too() {
    let mut tree: WidgetTree<u32> = WidgetTree::new();
    let p = node(&mut tree);
    let c = node(&mut tree);
    assert_eq!(Widget::add_child(&mut tree, p, c), Ok(()));
    assert_eq!(Widget::add_child(&mut tree, p, c), Err(WidgetError::HasParent));
    assert_eq!(tree.children(p), &vec![c]);
}

#[test]
fn attaching_a_node_to_itself_or_below_itself_is_refused() {
    let mut tree: WidgetTree<u32> = WidgetTree::new();
    let a = node(&mut tree);
    let b = node(&mut tree);
    assert_eq!(Widget::add_child(&mut tree, a, a), Err(WidgetError::WouldCycle));
    assert_eq!(Widget::add_child(&mut tree, a, b), Ok(()));
    assert_eq!(Widget::add_child(&mut tree, b, a), Err(WidgetError::WouldCycle));
    assert!(tree.children(b).is_empty());
    assert_eq!(tree.parent(a), None);
    assert!(tree.is_ancestor_or_self(a, b));
    assert!(!tree.is_ancestor_or_self(b, a));
}

#[test]
fn handler_is_replaced() {
    let mut tree: WidgetTree<u32> = WidgetTree::new();
    let a = node(&mut tree);
    Widget::add_event_handler(&mut tree, a, 1);
    Widget::add_event_handler(&mut tree, a, 2);
    assert_eq!(tree.widget(a).event_handler, Some(2));
}

#[test]
fn samples_have_their_layout() {
    let (tree, root) = sample_widget_1(7u32);
    assert_eq!(root, 2);
    assert_eq!(tree.children(root), &vec![0, 1]);
    assert_eq!(tree.widget(0).text, "A");
    assert_eq!(tree.widget(1).text, "B");
    assert_eq!((tree.widget(1).position.x, tree.widget(1).position.y), (6, 2));
    assert_eq!(tree.widget(root).text, "Hello there my world!");
    assert_eq!(tree.widget(root).event_handler, Some(7));
    let (tree2, root2) = sample_widget_2(0u32);
    assert_eq!(tree2.widget(1).size.width, 10);
    assert_eq!(tree2.children(root2), &vec![0, 1]);
}

#[test]
fn fresh_tree_widget_and_state() {
    let w: TreeWidget<u32> = Widget::new();
    assert_eq!((w.size.width, w.size.height), (0, 0));
    assert!(w.text.is_empty());
    assert!(!w.focusable);
    let s = TreeState::new();
    assert!(s.opened.is_empty());
    assert!(s.selected.is_none());
    let d: Widget<u32> = Widget { position: Point::new(1, 1), size: Size::new(2, 2), ..Default::default() };
    assert_eq!(d.position.x, 1);
}
