use wnfs_cli::{border_corner, corner_glyph, Border, Corner};

const CORNERS: [Corner; 4] = [Corner::TopLeft, Corner::TopRight, Corner::BottomLeft, Corner::BottomRight];

#[test]
fn corner_table_has_sixteen_fixed_cases() {
    let table: [[Option<char>; 4]; 4] = [
        // (horizontal, vertical) = (false,false), (true,false), (false,true), (true,true)
        [None, Some('╶'), Some('╷'), Some('┌')],
        [None, Some('╴'), Some('╷'), Some('┐')],
        [None, Some('╶'), Some('╵'), Some('└')],
        [None, Some('╴'), Some('╵'), Some('┘')],
    ];
    let flags = [(false, false), (true, false), (false, true), (true, true)];
    for (ci, corner) in CORNERS.iter().enumerate() {
        for (fi, (h, v)) in flags.iter().enumerate() {
            assert_eq!(corner_glyph(*corner, *h, *v), table[ci][fi]);
        }
    }
}

#[test]
fn corner_depends_only_on_adjacent_edges() {
    // Top-left looks at top and left only: bottom and right do not matter.
    let a = Border::new(true, false, true, false);
    let b = Border::new(true, true, true, true);
    assert_eq!(border_corner(a, Corner::TopLeft), border_corner(b, Corner::TopLeft));
    assert_eq!(border_corner(Border::left(), Corner::TopLeft), Some('╷'));
    assert_eq!(border_corner(Border::right(), Corner::TopLeft), None);
}

#[test]
fn top_and_left_border_corners() {
    let b = Border::tl();
    assert_eq!(border_corner(b, Corner::TopLeft), Some('┌'));
    assert_eq!(border_corner(b, Corner::TopRight), Some('╴'));
    assert_eq!(border_corner(b, Corner::BottomLeft), Some('╵'));
    assert_eq!(border_corner(b, Corner::BottomRight), None);
}
