use vstd::prelude::*;

use crate::geometry::{Point, Size};
use crate::style::{Color, TextStyle};
use crate::widget::{TreeView, Widget, WidgetId, WidgetTree};

verus! {

/// Which entries of a file tree view are open, and which one is selected.
pub struct TreeState {
    pub opened: Vec<String>,
    pub selected: Option<String>,
}

impl TreeState {
    pub fn new() -> (r: Self)
        ensures
            r.opened@.len() == 0,
            (r.selected is None),
    {
        TreeState { opened: Vec::new(), selected: None }
    }
}

/// The widget that shows a file tree.
pub type TreeWidget<H> = Widget<H>;

impl<H> Widget<H> {
    /// An empty tree view: a widget with the default look.
    pub fn new() -> (r: Self)
        ensures
            (r.position == Point { x: 0, y: 0 }),
            (r.size == Size { width: 0, height: 0 }),
            (r.border is None),
            r.text@.len() == 0,
            !r.focusable,
            r.background_color == Color::White,
            r.text_color == Color::Black,
            r.border_color == Color::Black,
            r.text_style == TextStyle::NoHidden,
            (r.event_handler is None),
    {
        Widget::default()
    }
}

/// What both sample layouts share: a 14×10 root with text, drawn black with
/// red text and border and bold text, whose children are nodes 0 and 1.
pub open spec fn sample_shape<H>(t: TreeView<H>, root: int) -> bool {
    let w = t.widgets[root];
    &&& t.wf()
    &&& t.len() == 3
    &&& root == 2
    &&& t.children[root] == seq![0usize, 1usize]
    &&& t.parents[0] == Some(2usize) && t.parents[1] == Some(2usize)
    &&& t.parents[root] is None
    &&& w.size == Size { width: 14, height: 10 }
    &&& w.background_color == Color::Black
    &&& w.text_color == Color::Red
    &&& w.border_color == Color::Red
    &&& w.text_style == TextStyle::Bold
    &&& w.event_handler is Some
    &&& t.widgets[0].position == Point { x: 1, y: 2 }
    &&& t.widgets[1].position == Point { x: 6, y: 2 }
}

fn sample_root<H>(handler: H) -> (r: Widget<H>)
    ensures
        (r.size == Size { width: 14, height: 10 }),
        r.background_color == Color::Black,
        r.text_color == Color::Red,
        r.border_color == Color::Red,
        r.text_style == TextStyle::Bold,
        (r.event_handler is Some),
{
    let mut root = Widget::default();
    root.size = Size::new(14, 10);
    root.text = String::from_str("Hello there my world!");
    root.background_color = Color::black();
    root.text_color = Color::red();
    root.border_color = Color::red();
    root.text_style = TextStyle::bold();
    root.event_handler = Some(handler);
    root
}

fn sample_child<H>(position: Point, size: Size, name: &str, color: Color) -> (r: Widget<H>)
    ensures
        r.position == position,
        r.size == size,
        r.text@ == name@,
        r.background_color == color,
        (r.event_handler is None),
{
    let mut w = Widget::default();
    w.position = position;
    w.size = size;
    w.text = String::from_str(name);
    w.background_color = color;
    w
}

fn sample_tree<H>(a: Widget<H>, b: Widget<H>, root: Widget<H>) -> (r: (WidgetTree<H>, WidgetId))
    requires
        (root.event_handler is Some),
    ensures
        r.0.wf(),
        r.1 == 2,
        r.0@.len() == 3,
        r.0@.widgets == seq![a, b, root],
        r.0@.children[2] == seq![0usize, 1usize],
        r.0@.parents[0] == Some(2usize) && r.0@.parents[1] == Some(2usize),
        (r.0@.parents[2] is None),
{
    let mut tree = WidgetTree::new();
    let ia = tree.add(a);
    let ib = tree.add(b);
    let ir = tree.add(root);
    assert(tree@.is_ancestor_or_self(ia as int, ir as int) == false);
    let r1 = Widget::add_child(&mut tree, ir, ia);
    assert(r1 is Ok);
    assert(tree@.is_ancestor_or_self(ib as int, ir as int) == false);
    let r2 = Widget::add_child(&mut tree, ir, ib);
    assert(r2 is Ok);
    assert(tree@.widgets =~= seq![a, b, root]);
    assert(tree@.children[2] =~= seq![0usize, 1usize]);
    (tree, ir)
}

/// Two 5×5 children, "A" at (1, 2) and "B" at (6, 2), inside the sample root,
/// which carries `root_handler`.
pub fn sample_widget_1<H>(root_handler: H) -> (r: (WidgetTree<H>, WidgetId))
    ensures
        sample_shape(r.0@, r.1 as int),
        r.0@.widgets[0].size == (Size { width: 5, height: 5 }),
        r.0@.widgets[1].size == (Size { width: 5, height: 5 }),
{
    let a = sample_child(Point::new(1, 2), Size::new(5, 5), "A", Color::white());
    let b = sample_child(Point::new(6, 2), Size::new(5, 5), "B", Color::white());
    let root = sample_root(root_handler);
    sample_tree(a, b, root)
}

/// A yellow 5×10 child "A" at (1, 2) and a blue 10×10 child "B" at (6, 2),
/// which overflow the sample root, which carries `root_handler`.
pub fn sample_widget_2<H>(root_handler: H) -> (r: (WidgetTree<H>, WidgetId))
    ensures
        sample_shape(r.0@, r.1 as int),
        r.0@.widgets[0].size == (Size { width: 5, height: 10 }),
        r.0@.widgets[0].background_color == Color::Yellow,
        r.0@.widgets[1].size == (Size { width: 10, height: 10 }),
        r.0@.widgets[1].background_color == Color::Blue,
{
    let a = sample_child(Point::new(1, 2), Size::new(5, 10), "A", Color::yellow());
    let b = sample_child(Point::new(6, 2), Size::new(10, 10), "B", Color::blue());
    let root = sample_root(root_handler);
    sample_tree(a, b, root)
}

} // verus!
