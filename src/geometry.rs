use vstd::prelude::*;

verus! {

/// The largest terminal coordinate.
pub const COORD_MAX: u16 = 0xffff;

/// `a + b`, capped at the largest terminal coordinate.
pub open spec fn sat_add(a: int, b: int) -> int {
    if a + b > COORD_MAX as int {
        COORD_MAX as int
    } else {
        a + b
    }
}

/// Component-wise `a + b`, each component capped at the largest terminal coordinate.
pub open spec fn point_sum(a: Point, b: Point) -> Point {
    Point { x: sat_add(a.x as int, b.x as int) as u16, y: sat_add(a.y as int, b.y as int) as u16 }
}

/// Adds two coordinates, capping the sum at the largest terminal coordinate.
pub fn coord_add(a: u16, b: u16) -> (r: u16)
    ensures
        r == sat_add(a as int, b as int),
{
    if a > COORD_MAX - b {
        COORD_MAX
    } else {
        a + b
    }
}

/// How text that does not fit its node is treated.
#[derive(Debug, Clone, Copy, PartialEq, Eq, Structural)]
pub enum TextWrap {
    Hidden,
    Wrap,
    Ellipsis,
    Overflow,
}

/// The line style of a border.
#[derive(Debug, Clone, Copy, PartialEq, Eq, Structural)]
pub enum BorderStyle {
    Blank,
    Single,
}

/// A position in terminal cells.
#[derive(Debug, Clone, Copy, PartialEq, Eq, Structural)]
pub struct Point {
    pub x: u16,
    pub y: u16,
}

/// An extent in terminal cells.
#[derive(Debug, Clone, Copy, PartialEq, Eq, Structural)]
pub struct Size {
    pub width: u16,
    pub height: u16,
}

/// Which of the four edges of a node carry a border line.
#[derive(Debug, Clone, Copy, PartialEq, Eq, Structural)]
pub struct Border {
    pub top: bool,
    pub bottom: bool,
    pub left: bool,
    pub right: bool,
}

impl Default for TextWrap {
    fn default() -> (r: Self)
        ensures
            r == TextWrap::Hidden,
    {
        TextWrap::Hidden
    }
}

impl Default for BorderStyle {
    fn default() -> (r: Self)
        ensures
            r == BorderStyle::Blank,
    {
        BorderStyle::Blank
    }
}

impl Default for Point {
    fn default() -> (r: Self)
        ensures
            r.x == 0 && r.y == 0,
    {
        Point { x: 0, y: 0 }
    }
}

impl Default for Size {
    fn default() -> (r: Self)
        ensures
            r.width == 0 && r.height == 0,
    {
        Size { width: 0, height: 0 }
    }
}

impl Default for Border {
    fn default() -> (r: Self)
        ensures
            !r.top && !r.bottom && !r.left && !r.right,
    {
        Border { top: false, bottom: false, left: false, right: false }
    }
}

impl Point {
    pub fn new(x: u16, y: u16) -> (r: Self)
        ensures
            r.x == x && r.y == y,
    {
        Point { x, y }
    }

    /// Component-wise sum, each component capped at the largest terminal coordinate.
    pub fn add(self, other: Point) -> (r: Point)
        ensures
            r == point_sum(self, other),
    {
        Point { x: coord_add(self.x, other.x), y: coord_add(self.y, other.y) }
    }
}

impl Size {
    pub fn new(width: u16, height: u16) -> (r: Self)
        ensures
            r.width == width && r.height == height,
    {
        Size { width, height }
    }
}

impl From<(u16, u16)> for Point {
    fn from(p: (u16, u16)) -> (r: Self) {
        Point { x: p.0, y: p.1 }
    }
}

impl vstd::std_specs::convert::FromSpecImpl<(u16, u16)> for Point {
    open spec fn obeys_from_spec() -> bool {
        true
    }

    open spec fn from_spec(p: (u16, u16)) -> Point {
        Point { x: p.0, y: p.1 }
    }
}

impl From<(u16, u16)> for Size {
    fn from(s: (u16, u16)) -> (r: Self) {
        Size { width: s.0, height: s.1 }
    }
}

impl vstd::std_specs::convert::FromSpecImpl<(u16, u16)> for Size {
    open spec fn obeys_from_spec() -> bool {
        true
    }

    open spec fn from_spec(s: (u16, u16)) -> Size {
        Size { width: s.0, height: s.1 }
    }
}

impl From<Size> for Point {
    fn from(size: Size) -> (r: Self) {
        Point { x: size.width, y: size.height }
    }
}

impl vstd::std_specs::convert::FromSpecImpl<Size> for Point {
    open spec fn obeys_from_spec() -> bool {
        true
    }

    open spec fn from_spec(size: Size) -> Point {
        Point { x: size.width, y: size.height }
    }
}

impl Border {
    pub open spec fn edges(top: bool, bottom: bool, left: bool, right: bool) -> Border {
        Border { top, bottom, left, right }
    }

    pub fn new(top: bool, bottom: bool, left: bool, right: bool) -> (r: Self)
        ensures
            r == Border::edges(top, bottom, left, right),
    {
        Border { top, bottom, left, right }
    }

    pub fn all() -> (r: Self)
        ensures
            r == Border::edges(true, true, true, true),
    {
        Border { top: true, bottom: true, left: true, right: true }
    }

    pub fn trb() -> (r: Self)
        ensures
            r == Border::edges(true, true, false, true),
    {
        Border { top: true, bottom: true, left: false, right: true }
    }

    pub fn tbl() -> (r: Self)
        ensures
            r == Border::edges(true, true, true, false),
    {
        Border { top: true, bottom: true, left: true, right: false }
    }

    pub fn trl() -> (r: Self)
        ensures
            r == Border::edges(true, false, true, true),
    {
        Border { top: true, bottom: false, left: true, right: true }
    }

    pub fn brl() -> (r: Self)
        ensures
            r == Border::edges(false, true, true, true),
    {
        Border { top: false, bottom: true, left: true, right: true }
    }

    pub fn tr() -> (r: Self)
        ensures
            r == Border::edges(true, false, false, true),
    {
        Border { top: true, bottom: false, left: false, right: true }
    }

    pub fn tl() -> (r: Self)
        ensures
            r == Border::edges(true, false, true, false),
    {
        Border { top: true, bottom: false, left: true, right: false }
    }

    pub fn br() -> (r: Self)
        ensures
            r == Border::edges(false, true, false, true),
    {
        Border { top: false, bottom: true, left: false, right: true }
    }

    pub fn bl() -> (r: Self)
        ensures
            r == Border::edges(false, true, true, false),
    {
        Border { top: false, bottom: true, left: true, right: false }
    }

    pub fn top() -> (r: Self)
        ensures
            r == Border::edges(true, false, false, false),
    {
        Border { top: true, bottom: false, left: false, right: false }
    }

    pub fn bottom() -> (r: Self)
        ensures
            r == Border::edges(false, true, false, false),
    {
        Border { top: false, bottom: true, left: false, right: false }
    }

    pub fn left() -> (r: Self)
        ensures
            r == Border::edges(false, false, true, false),
    {
        Border { top: false, bottom: false, left: true, right: false }
    }

    pub fn right() -> (r: Self)
        ensures
            r == Border::edges(false, false, false, true),
    {
        Border { top: false, bottom: false, left: false, right: true }
    }
}

} // verus!
