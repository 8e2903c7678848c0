use wnfs_cli::{clip_bounds, Border, Color, DrawOp, Point, Size, TermContext, TextStyle, Widget, WidgetTree};

fn print(s: &str) -> DrawOp {
    DrawOp::Print(s.chars().collect())
}

fn context() -> TermContext {
    TermContext::new(Size::new(80, 24), Point::new(0, 0))
}

#[test]
fn plain_node_paints_background_then_text_then_parks_cursor() {
    let mut tree: WidgetTree<u32> = WidgetTree::new();
    let root = tree.add(Widget { size: Size::new(3, 2), text: "hi".to_string(), ..Default::default() });
    let ops = context().render(&tree, root, Point::new(0, 0), Size::new(3, 2));
    let expected = vec![
        DrawOp::SetBackground(Color::White),
        DrawOp::SetForeground(Color::White),
        DrawOp::MoveTo(0, 0),
        print("███"),
        DrawOp::MoveTo(0, 1),
        print("███"),
        DrawOp::SetBackground(Color::Reset),
        DrawOp::SetForeground(Color::Reset),
        DrawOp::SetBackground(Color::White),
        DrawOp::SetForeground(Color::Black),
        DrawOp::SetAttribute(TextStyle::NoHidden),
        DrawOp::MoveTo(0, 0),
        print("hi"),
        DrawOp::SetBackground(Color::Reset),
        DrawOp::SetForeground(Color::Reset),
        DrawOp::SetAttribute(TextStyle::Reset),
        DrawOp::MoveTo(3, 2),
    ];
    assert_eq!(ops, expected);
}

#[test]
fn child_is_clipped_to_what_its_parent_leaves() {
    assert_eq!(clip_bounds(Size::new(14, 10), Point::new(6, 2), Size::new(10, 10)), Size::new(8, 8));
    assert_eq!(clip_bounds(Size::new(14, 10), Point::new(1, 2), Size::new(5, 5)), Size::new(5, 5));
    assert_eq!(clip_bounds(Size::new(14, 10), Point::new(20, 2), Size::new(5, 5)), Size::new(0, 5));
}

#[test]
fn child_offset_is_cursor_plus_base_plus_positions() {
    let mut tree: WidgetTree<u32> = WidgetTree::new();
    let root = tree.add(Widget { position: Point::new(2, 1), size: Size::new(14, 10), ..Default::default() });
    let b = tree.add(Widget {
        position: Point::new(6, 2),
        size: Size::new(10, 10),
        background_color: Color::Blue,
        ..Default::default()
    });
    Widget::add_child(&mut tree, root, b).unwrap();
    let ctx = TermContext::new(Size::new(80, 40), Point::new(2, 3));
    assert_eq!(ctx.calculate_total_offset(Point::new(1, 1), Point::new(2, 1)), Point::new(5, 5));
    let ops = ctx.render(&tree, root, Point::new(1, 1), Size::new(14, 10));
    let at = ops.iter().position(|o| *o == DrawOp::SetBackground(Color::Blue)).unwrap();
    // 2 + 1 + 2 + 6 = 11 across, 3 + 1 + 1 + 2 = 7 down; the root leaves 12 - 6 = 6
    // columns and 9 - 2 = 7 rows of its own clipped 12×9 extent.
    assert_eq!(ops[at + 2], DrawOp::MoveTo(11, 7));
    assert_eq!(ops[at + 3], print("██████"));
    let rows = ops[at..].iter().take_while(|o| **o != DrawOp::SetBackground(Color::Reset)).filter(|o| matches!(o, DrawOp::MoveTo(11, _))).count();
    assert_eq!(rows, 7);
    assert_eq!(*ops.last().unwrap(), DrawOp::MoveTo(16, 13));
}

#[test]
fn full_border_draws_edges_and_right_angle_corners() {
    let mut tree: WidgetTree<u32> = WidgetTree::new();
    let id = tree.add(Widget { size: Size::new(4, 3), border: Some(Border::all()), ..Default::default() });
    let mut out = Vec::new();
    context().render_border(&tree, id, Point::new(0, 0), Size::new(4, 3), &mut out);
    let expected = vec![
        DrawOp::SetBackground(Color::White),
        DrawOp::SetForeground(Color::Black),
        DrawOp::MoveTo(1, 0),
        print("──"),
        DrawOp::MoveTo(0, 1),
        print("│"),
        DrawOp::MoveTo(3, 1),
        print("│"),
        DrawOp::MoveTo(1, 2),
        print("──"),
        DrawOp::MoveTo(0, 0),
        print("┌"),
        DrawOp::MoveTo(3, 0),
        print("┐"),
        DrawOp::MoveTo(0, 2),
        print("└"),
        DrawOp::MoveTo(3, 2),
        print("┘"),
        DrawOp::SetBackground(Color::Reset),
        DrawOp::SetForeground(Color::Reset),
    ];
    assert_eq!(out, expected);
}

#[test]
fn clipped_border_leaves_out_the_cut_side() {
    let mut tree: WidgetTree<u32> = WidgetTree::new();
    let id = tree.add(Widget { size: Size::new(4, 3), border: Some(Border::all()), ..Default::default() });
    let mut out = Vec::new();
    context().render_border(&tree, id, Point::new(0, 0), Size::new(3, 3), &mut out);
    assert!(!out.contains(&print("┐")));
    assert!(!out.contains(&print("┘")));
    assert!(!out.contains(&DrawOp::MoveTo(3, 1)));
    assert!(out.contains(&print("┌")));
    assert!(out.contains(&print("└")));
}

#[test]
fn text_is_cut_to_the_interior_width_in_clusters() {
    let mut tree: WidgetTree<u32> = WidgetTree::new();
    let text = "e\u{301}e\u{301}e\u{301}e\u{301}e\u{301}";
    let id = tree.add(Widget { size: Size::new(6, 3), border: Some(Border::all()), text: text.to_string(), ..Default::default() });
    let mut out = Vec::new();
    context().render_text(&tree, id, Point::new(0, 0), Size::new(6, 3), &mut out);
    assert_eq!(out[3], DrawOp::MoveTo(1, 1));
    assert_eq!(out[4], print("e\u{301}e\u{301}e\u{301}e\u{301}"));
}

#[test]
fn text_is_cut_further_where_the_node_is_clipped() {
    let mut tree: WidgetTree<u32> = WidgetTree::new();
    let id = tree.add(Widget { size: Size::new(6, 3), border: Some(Border::left()), text: "abcdef".to_string(), ..Default::default() });
    let mut out = Vec::new();
    context().render_text(&tree, id, Point::new(0, 0), Size::new(3, 3), &mut out);
    assert_eq!(out[4], print("ab"));
    let mut none = Vec::new();
    context().render_text(&tree, id, Point::new(0, 0), Size::new(3, 0), &mut none);
    assert!(none.is_empty());
}

#[test]
fn clear_wipes_rows_from_the_cursor_down() {
    let ctx = TermContext::new(Size::new(80, 22), Point::new(0, 20));
    let mut out = Vec::new();
    ctx.clear(&mut out);
    assert_eq!(
        out,
        vec![DrawOp::MoveTo(0, 20), DrawOp::ClearLine, DrawOp::MoveTo(0, 21), DrawOp::ClearLine, DrawOp::MoveTo(0, 20)]
    );
    assert_eq!(ctx.set_to_corner(Size::new(14, 10)), DrawOp::MoveTo(14, 30));
}

#[test]
fn zero_size_node_paints_no_cells() {
    let mut tree: WidgetTree<u32> = WidgetTree::new();
    let root = tree.add(Widget { text: "hidden".to_string(), ..Default::default() });
    let ops = context().render(&tree, root, Point::new(0, 0), Size::new(0, 0));
    let expected = vec![
        DrawOp::SetBackground(Color::White),
        DrawOp::SetForeground(Color::White),
        DrawOp::SetBackground(Color::Reset),
        DrawOp::SetForeground(Color::Reset),
        DrawOp::MoveTo(0, 0),
    ];
    assert_eq!(ops, expected);
}
