use wnfs_cli::{Border, BorderStyle, Color, Point, Size, TextStyle, TextWrap};

fn edges(b: Border) -> (bool, bool, bool, bool) {
    (b.top, b.bottom, b.left, b.right)
}

#[test]
fn border_constructors_set_their_edges() {
    assert_eq!(edges(Border::new(true, false, true, false)), (true, false, true, false));
    assert_eq!(edges(Border::all()), (true, true, true, true));
    assert_eq!(edges(Border::trb()), (true, true, false, true));
    assert_eq!(edges(Border::tbl()), (true, true, true, false));
    assert_eq!(edges(Border::trl()), (true, false, true, true));
    assert_eq!(edges(Border::brl()), (false, true, true, true));
    assert_eq!(edges(Border::tr()), (true, false, false, true));
    assert_eq!(edges(Border::tl()), (true, false, true, false));
    assert_eq!(edges(Border::br()), (false, true, false, true));
    assert_eq!(edges(Border::bl()), (false, true, true, false));
    assert_eq!(edges(Border::top()), (true, false, false, false));
    assert_eq!(edges(Border::bottom()), (false, true, false, false));
    assert_eq!(edges(Border::left()), (false, false, true, false));
    assert_eq!(edges(Border::right()), (false, false, false, true));
    assert_eq!(edges(Border::default()), (false, false, false, false));
}

#[test]
fn points_add_component_wise() {
    let p = Point::new(3, 4).add(Point::new(10, 20));
    assert_eq!((p.x, p.y), (13, 24));
}

#[test]
fn point_sum_is_capped_at_the_largest_coordinate() {
    let p = Point::new(65530, 1).add(Point::new(10, 2));
    assert_eq!((p.x, p.y), (65535, 3));
}

#[test]
fn conversions_keep_components() {
    let p: Point = (7, 9).into();
    assert_eq!((p.x, p.y), (7, 9));
    let s: Size = (14, 10).into();
    assert_eq!((s.width, s.height), (14, 10));
    let q: Point = Size::new(5, 6).into();
    assert_eq!((q.x, q.y), (5, 6));
    let d = Point::default();
    assert_eq!((d.x, d.y), (0, 0));
}

#[test]
fn defaults_of_the_style_tokens() {
    assert_eq!(TextWrap::default(), TextWrap::Hidden);
    assert_eq!(BorderStyle::default(), BorderStyle::Blank);
    assert_eq!(Color::default(), Color::Reset);
    assert_eq!(TextStyle::default(), TextStyle::Reset);
    assert_eq!(Color::green(), Color::Green);
    assert_eq!(TextStyle::italic(), TextStyle::Italic);
}
