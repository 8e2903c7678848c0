use wnfs_cli::{Color, DrawOp, KeyCode, KeyInput, KeyOutcome, Point, Size, TermContext, Widget, WidgetTree, CONTROL};

fn layout(root_focusable: bool) -> (WidgetTree<u32>, usize, usize, usize) {
    let mut tree: WidgetTree<u32> = WidgetTree::new();
    let root = tree.add(Widget { size: Size::new(14, 10), focusable: root_focusable, ..Default::default() });
    let a = tree.add(Widget { position: Point::new(1, 2), size: Size::new(5, 5), focusable: true, ..Default::default() });
    let b = tree.add(Widget { position: Point::new(6, 2), size: Size::new(5, 5), focusable: true, ..Default::default() });
    Widget::add_child(&mut tree, root, a).unwrap();
    Widget::add_child(&mut tree, root, b).unwrap();
    (tree, root, a, b)
}

fn context() -> TermContext {
    TermContext::new(Size::new(80, 24), Point::new(0, 0))
}

#[test]
fn tab_from_nothing_with_unfocusable_root_stays_unfocused() {
    let (tree, root, _, _) = layout(false);
    let mut ctx = context();
    assert_eq!(ctx.focus_widget(), None);
    ctx.set_next_focus(&tree, root);
    assert_eq!(ctx.focus_widget(), None);
}

#[test]
fn tab_walks_root_first_child_next_sibling_then_root() {
    let (tree, root, a, b) = layout(true);
    let mut ctx = context();
    ctx.set_next_focus(&tree, root);
    assert_eq!(ctx.focus_widget(), Some(root));
    ctx.set_next_focus(&tree, root);
    assert_eq!(ctx.focus_widget(), Some(a));
    ctx.set_next_focus(&tree, root);
    assert_eq!(ctx.focus_widget(), Some(b));
    ctx.set_next_focus(&tree, root);
    assert_eq!(ctx.focus_widget(), Some(root));
}

#[test]
fn unfocusable_next_sibling_falls_back_to_root() {
    let mut tree: WidgetTree<u32> = WidgetTree::new();
    let root = tree.add(Widget { focusable: true, ..Default::default() });
    let a = tree.add(Widget { focusable: true, ..Default::default() });
    let b = tree.add(Widget { focusable: false, ..Default::default() });
    let c = tree.add(Widget { focusable: true, ..Default::default() });
    for n in [a, b, c] {
        Widget::add_child(&mut tree, root, n).unwrap();
    }
    let mut ctx = context();
    ctx.set_next_focus(&tree, root);
    ctx.set_next_focus(&tree, root);
    assert_eq!(ctx.focus_widget(), Some(a));
    ctx.set_next_focus(&tree, root);
    assert_eq!(ctx.focus_widget(), Some(root));
}

#[test]
fn ctrl_c_ends_the_session() {
    let (tree, root, _, _) = layout(true);
    let mut ctx = context();
    let key = KeyInput { code: KeyCode::Char('c'), modifiers: CONTROL };
    assert!(matches!(ctx.on_key(&tree, root, Point::new(0, 0), Size::new(14, 10), key), KeyOutcome::Exit));
    assert_eq!(ctx.focus_widget(), None);
}

#[test]
fn plain_c_is_forwarded_not_an_exit() {
    let (tree, root, _, _) = layout(true);
    let mut ctx = context();
    let key = KeyInput { code: KeyCode::Char('c'), modifiers: 0 };
    assert!(matches!(ctx.on_key(&tree, root, Point::new(0, 0), Size::new(14, 10), key), KeyOutcome::Repaint { .. }));
}

#[test]
fn tab_moves_focus_repaints_and_notifies_the_focused_handler() {
    let (mut tree, root, _, _) = layout(true);
    Widget::add_event_handler(&mut tree, root, 9);
    let mut ctx = context();
    let key = KeyInput { code: KeyCode::Tab, modifiers: 0 };
    match ctx.on_key(&tree, root, Point::new(0, 0), Size::new(14, 10), key) {
        KeyOutcome::Repaint { ops, notify } => {
            assert_eq!(notify, Some(root));
            assert_eq!(ops, ctx.paint(&tree, root, Point::new(0, 0), Size::new(14, 10)));
            let first_fill = ops.iter().position(|o| matches!(o, DrawOp::SetBackground(_))).unwrap();
            assert_eq!(ops[first_fill], DrawOp::SetBackground(Color::Green));
            assert_eq!(ops[first_fill + 1], DrawOp::SetForeground(Color::Green));
        }
        KeyOutcome::Exit => panic!("Tab must not end the session"),
    }
    assert_eq!(ctx.notify_focus_widget(&tree), Some(root));
}

#[test]
fn other_keys_keep_the_focus() {
    let (tree, root, _, _) = layout(true);
    let mut ctx = context();
    let key = KeyInput { code: KeyCode::Other, modifiers: 0 };
    match ctx.on_key(&tree, root, Point::new(0, 0), Size::new(14, 10), key) {
        KeyOutcome::Repaint { notify, .. } => assert_eq!(notify, None),
        KeyOutcome::Exit => panic!("only Ctrl+C ends the session"),
    }
    assert_eq!(ctx.focus_widget(), None);
}
