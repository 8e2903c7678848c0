use vstd::prelude::*;

use crate::geometry::Border;
use crate::style::{Color, TextStyle};

verus! {

/// One primitive operation on the terminal surface.
#[derive(Debug, Clone, PartialEq, Eq)]
pub enum DrawOp {
    MoveTo(u16, u16),
    SetBackground(Color),
    SetForeground(Color),
    SetAttribute(TextStyle),
    Print(Vec<char>),
    ClearLine,
}

/// The mathematical model of a `DrawOp`.
pub enum Command {
    MoveTo(u16, u16),
    SetBackground(Color),
    SetForeground(Color),
    SetAttribute(TextStyle),
    Print(Seq<char>),
    ClearLine,
}

impl View for DrawOp {
    type V = Command;

    open spec fn view(&self) -> Command {
        match self {
            DrawOp::MoveTo(x, y) => Command::MoveTo(*x, *y),
            DrawOp::SetBackground(c) => Command::SetBackground(*c),
            DrawOp::SetForeground(c) => Command::SetForeground(*c),
            DrawOp::SetAttribute(a) => Command::SetAttribute(*a),
            DrawOp::Print(s) => Command::Print(s@),
            DrawOp::ClearLine => Command::ClearLine,
        }
    }
}

/// The commands that a sequence of operations stands for.
pub open spec fn commands(ops: Seq<DrawOp>) -> Seq<Command> {
    ops.map_values(|o: DrawOp| o@)
}

pub proof fn lemma_commands_push(ops: Seq<DrawOp>, o: DrawOp)
    ensures
        commands(ops.push(o)) == commands(ops).push(o@),
{
    assert(commands(ops.push(o)) =~= commands(ops).push(o@));
}

/// Appends `o` to `out`.
pub fn emit(out: &mut Vec<DrawOp>, o: DrawOp)
    ensures
        commands(final(out)@) == commands(old(out)@).push(o@),
{
    proof {
        lemma_commands_push(out@, o);
    }
    out.push(o);
}

/// The glyph that fills a background cell.
pub const FILL_GLYPH: char = '█';

/// The glyph of a horizontal border edge.
pub const HORIZONTAL_GLYPH: char = '─';

/// The glyph of a vertical border edge.
pub const VERTICAL_GLYPH: char = '│';

/// `n` copies of `c`.
pub open spec fn repeat(c: char, n: nat) -> Seq<char> {
    Seq::new(n, |i: int| c)
}

/// A run of `n` copies of `c`.
pub fn glyph_run(c: char, n: u16) -> (r: Vec<char>)
    ensures
        r@ == repeat(c, n as nat),
{
    let mut r: Vec<char> = Vec::new();
    let mut i: u16 = 0;
    while i < n
        invariant
            i <= n,
            r@ == repeat(c, i as nat),
        decreases n - i,
    {
        r.push(c);
        i = i + 1;
        assert(r@ =~= repeat(c, i as nat));
    }
    r
}

/// One of the four corners of a node.
#[derive(Debug, Clone, Copy, PartialEq, Eq, Structural)]
pub enum Corner {
    TopLeft,
    TopRight,
    BottomLeft,
    BottomRight,
}

/// The corner glyph table: `horizontal` and `vertical` say whether the
/// horizontal and the vertical edge that meet at `corner` are drawn.
pub open spec fn corner_glyph_spec(corner: Corner, horizontal: bool, vertical: bool) -> Option<
    char,
> {
    if !horizontal && !vertical {
        None
    } else {
        match corner {
            Corner::TopLeft => Some(
                if horizontal && vertical {
                    '┌'
                } else if horizontal {
                    '╶'
                } else {
                    '╷'
                },
            ),
            Corner::TopRight => Some(
                if horizontal && vertical {
                    '┐'
                } else if horizontal {
                    '╴'
                } else {
                    '╷'
                },
            ),
            Corner::BottomLeft => Some(
                if horizontal && vertical {
                    '└'
                } else if horizontal {
                    '╶'
                } else {
                    '╵'
                },
            ),
            Corner::BottomRight => Some(
                if horizontal && vertical {
                    '┘'
                } else if horizontal {
                    '╴'
                } else {
                    '╵'
                },
            ),
        }
    }
}

pub fn corner_glyph(corner: Corner, horizontal: bool, vertical: bool) -> (r: Option<char>)
    ensures
        r == corner_glyph_spec(corner, horizontal, vertical),
{
    if !horizontal && !vertical {
        return None;
    }
    let both = horizontal && vertical;
    let g = match corner {
        Corner::TopLeft => if both {
            '┌'
        } else if horizontal {
            '╶'
        } else {
            '╷'
        },
        Corner::TopRight => if both {
            '┐'
        } else if horizontal {
            '╴'
        } else {
            '╷'
        },
        Corner::BottomLeft => if both {
            '└'
        } else if horizontal {
            '╶'
        } else {
            '╵'
        },
        Corner::BottomRight => if both {
            '┘'
        } else if horizontal {
            '╴'
        } else {
            '╵'
        },
    };
    Some(g)
}

/// The two edges of `b` that meet at `corner`: (horizontal, vertical).
pub open spec fn adjacent_edges(b: Border, corner: Corner) -> (bool, bool) {
    match corner {
        Corner::TopLeft => (b.top, b.left),
        Corner::TopRight => (b.top, b.right),
        Corner::BottomLeft => (b.bottom, b.left),
        Corner::BottomRight => (b.bottom, b.right),
    }
}

pub open spec fn border_corner_spec(b: Border, corner: Corner) -> Option<char> {
    corner_glyph_spec(corner, adjacent_edges(b, corner).0, adjacent_edges(b, corner).1)
}

/// The glyph that border `b` draws at `corner`, if any.
pub fn border_corner(b: Border, corner: Corner) -> (r: Option<char>)
    ensures
        r == border_corner_spec(b, corner),
{
    match corner {
        Corner::TopLeft => corner_glyph(corner, b.top, b.left),
        Corner::TopRight => corner_glyph(corner, b.top, b.right),
        Corner::BottomLeft => corner_glyph(corner, b.bottom, b.left),
        Corner::BottomRight => corner_glyph(corner, b.bottom, b.right),
    }
}

/// The glyph at a corner depends on the two edges that meet there and on
/// nothing else: borders that agree on those two edges draw the same corner.
/// Both edges give a right-angle glyph, one edge a half glyph, none no glyph.
pub proof fn lemma_corner_glyph_local(b1: Border, b2: Border, corner: Corner)
    requires
        adjacent_edges(b1, corner) == adjacent_edges(b2, corner),
    ensures
        border_corner_spec(b1, corner) == border_corner_spec(b2, corner),
        border_corner_spec(b1, corner) is None <==> (!adjacent_edges(b1, corner).0
            && !adjacent_edges(b1, corner).1),
{
}

} // verus!
